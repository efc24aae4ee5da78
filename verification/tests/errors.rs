use dfcompress::{Error, ErrorKind};

#[test]
fn message_of_version_zero() {
    let err = Error::from(ErrorKind::VersionIsZero);
    assert_eq!(err.message(), "Version is 0");
}

#[test]
fn message_of_unexpected_eof() {
    let err = Error::from(ErrorKind::UnexpectedEof);
    assert_eq!(err.message(), "Unexpected end-of-file");
}

#[test]
fn message_of_unknown_compression_names_the_tag() {
    let cases: [(u32, &str); 6] = [
        (0, "Unknown compression 0"),
        (2, "Unknown compression 2"),
        (10, "Unknown compression 10"),
        (907, "Unknown compression 907"),
        (1000000, "Unknown compression 1000000"),
        (u32::MAX, "Unknown compression 4294967295"),
    ];
    for (tag, text) in cases {
        let err = Error::from(ErrorKind::CompressionUnknown(tag));
        assert_eq!(err.message(), text);
    }
}

#[test]
fn message_of_an_io_error_is_its_own_text() {
    let inner = std::io::Error::new(std::io::ErrorKind::InvalidInput, "corrupt deflate stream");
    let err = Error::from(inner);
    assert!(matches!(err.kind, ErrorKind::Io(_)));
    assert_eq!(err.message(), "corrupt deflate stream");
}

#[test]
fn io_error_at_the_end_of_input_becomes_unexpected_eof() {
    let inner = std::io::Error::new(std::io::ErrorKind::UnexpectedEof, "early end");
    let err = Error::from(inner);
    assert!(matches!(err.kind, ErrorKind::UnexpectedEof));
    assert_eq!(err.message(), "Unexpected end-of-file");
}

#[test]
fn io_error_of_another_kind_is_kept() {
    let inner = std::io::Error::new(std::io::ErrorKind::BrokenPipe, "pipe closed");
    let err = Error::from(inner);
    match err.kind {
        ErrorKind::Io(e) => assert_eq!(e.kind(), std::io::ErrorKind::BrokenPipe),
        _ => panic!("expected an Io error"),
    }
}

#[test]
fn error_kind_converts_into_an_error() {
    let err: Error = ErrorKind::CompressionUnknown(5).into();
    assert!(matches!(err.kind, ErrorKind::CompressionUnknown(5)));
}
