use vstd::prelude::*;

verus! {

/// What can go wrong while producing a manifest.
#[derive(Debug, PartialEq, Eq)]
pub enum ManifestError {
    /// A stream could not be opened, read or written; holds the cause.
    Io(String),
    /// The manifest given for merging is not valid manifest JSON.
    Deserialization(String),
    /// The manifest could not be turned into JSON.
    Serialization(String),
    /// An image reference could not be split; holds the reference.
    Parse(String),
}

} // verus!
