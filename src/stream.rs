use vstd::prelude::*;

use crate::error::ManifestError;

verus! {

#[verifier::external_type_specification]
#[verifier::external_body]
pub struct ExIoError(std::io::Error);

/// The path that stands for the process's standard stream.
pub open spec fn standard_path() -> Seq<char> {
    seq!['-']
}

/// Where a manifest is read from or written to.
#[derive(Debug, PartialEq, Eq)]
pub enum Stream {
    /// Standard input for reading, standard output for writing.
    Standard,
    /// A file: opened for reading, or created or truncated for writing.
    Path(String),
}

/// `-` names the standard stream; any other path names a file.
pub fn resolve_stream(path: &str) -> (r: Stream)
    ensures
        path@ == standard_path() ==> r == Stream::Standard,
        path@ != standard_path() ==> (r matches Stream::Path(p) && p@ == path@),
{
    if path.unicode_len() == 1 && path.get_char(0) == '-' {
        assert(path@ =~= standard_path());
        Stream::Standard
    } else {
        Stream::Path(String::from_str(path))
    }
}

/// Relies on std::io::Read::read_to_string: reads the source to its end. What comes back
/// depends on the source, so nothing is stated of it.
#[verifier::external_body]
fn read_text<R: std::io::Read>(reader: &mut R) -> (r: Result<String, std::io::Error>) {
    let mut buffer = String::new();
    match reader.read_to_string(&mut buffer) {
        Ok(_) => Ok(buffer),
        Err(e) => Err(e),
    }
}

/// Reads a source to its end as text; a failure to read is an I/O error with its cause.
pub fn read<R: std::io::Read>(reader: R) -> (r: Result<String, ManifestError>)
    ensures
        r matches Err(e) ==> e is Io,
{
    let mut reader = reader;
    match read_text(&mut reader) {
        Ok(text) => Ok(text),
        Err(e) => Err(ManifestError::Io(e.to_string())),
    }
}

} // verus!
