use docker_manifest::{read, resolve_stream, ManifestError, Stream};

struct Broken;

impl std::io::Read for Broken {
    fn read(&mut self, _buf: &mut [u8]) -> std::io::Result<usize> {
        Err(std::io::Error::new(std::io::ErrorKind::Other, "broken pipe"))
    }
}

#[test]
fn dash_is_the_standard_stream() {
    assert_eq!(resolve_stream("-"), Stream::Standard);
}

#[test]
fn other_paths_are_files() {
    assert_eq!(resolve_stream("out.json"), Stream::Path("out.json".to_string()));
    assert_eq!(resolve_stream("--"), Stream::Path("--".to_string()));
    assert_eq!(resolve_stream(""), Stream::Path("".to_string()));
}

#[test]
fn read_returns_the_whole_text() {
    let text = read("{\"ns\": []}".as_bytes()).unwrap();
    assert_eq!(text, "{\"ns\": []}");
}

#[test]
fn read_failure_is_an_io_error() {
    match read(Broken) {
        Err(ManifestError::Io(cause)) => assert!(cause.contains("broken pipe")),
        other => panic!("unexpected {:?}", other),
    }
}
