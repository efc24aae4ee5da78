use dfcompress::{
    read_header, write_header, ByteSource, ErrorKind, TAG_CHUNKED, TAG_RAW,
};

fn header(version: u32, compression: u32) -> Vec<u8> {
    let mut out: Vec<u8> = Vec::new();
    write_header(&mut out, version, compression);
    out
}

#[test]
fn write_header_lays_out_two_fields() {
    assert_eq!(header(1234, 1), vec![0xd2, 0x04, 0, 0, 1, 0, 0, 0]);
    assert_eq!(header(1, 0).len(), 8);
}

#[test]
fn write_header_does_not_validate() {
    assert_eq!(header(0, 7), vec![0, 0, 0, 0, 7, 0, 0, 0]);
}

#[test]
fn header_round_trip_on_chosen_values() {
    let versions: [u32; 4] = [1, 1234, 0x8000_0000, u32::MAX];
    for version in versions {
        for tag in [TAG_RAW, TAG_CHUNKED] {
            let mut source = ByteSource::new(header(version, tag));
            assert_eq!(read_header(&mut source).unwrap(), (version, tag));
            assert_eq!(source.remaining(), 0);
        }
    }
}

#[test]
fn read_header_leaves_the_body() {
    let mut bytes: Vec<u8> = header(5, 1);
    bytes.extend_from_slice(&[9, 9, 9]);
    let mut source = ByteSource::new(bytes);
    assert_eq!(read_header(&mut source).unwrap(), (5, 1));
    assert_eq!(source.take(10), &[9, 9, 9]);
}

#[test]
fn version_zero_is_rejected() {
    let mut source = ByteSource::new(header(0, 0));
    let err = read_header(&mut source).unwrap_err();
    assert!(matches!(err.kind, ErrorKind::VersionIsZero));
}

#[test]
fn version_zero_is_reported_before_an_unknown_tag() {
    let mut source = ByteSource::new(header(0, 2));
    let err = read_header(&mut source).unwrap_err();
    assert!(matches!(err.kind, ErrorKind::VersionIsZero));
}

#[test]
fn unknown_tag_is_rejected_with_its_value() {
    let mut source = ByteSource::new(header(1, 2));
    let err = read_header(&mut source).unwrap_err();
    assert!(matches!(err.kind, ErrorKind::CompressionUnknown(2)));

    let mut source = ByteSource::new(header(1, u32::MAX));
    let err = read_header(&mut source).unwrap_err();
    assert!(matches!(err.kind, ErrorKind::CompressionUnknown(u32::MAX)));
}

#[test]
fn truncated_header_is_unexpected_eof() {
    let whole: Vec<u8> = header(1234, 0);
    for len in 0..8 {
        let mut source = ByteSource::new(whole[..len].to_vec());
        let err = read_header(&mut source).unwrap_err();
        assert!(matches!(err.kind, ErrorKind::UnexpectedEof));
        assert_eq!(source.remaining(), 0);
    }
}

#[test]
fn truncated_header_with_version_zero_is_unexpected_eof() {
    let mut source = ByteSource::new(vec![0, 0, 0, 0, 1]);
    let err = read_header(&mut source).unwrap_err();
    assert!(matches!(err.kind, ErrorKind::UnexpectedEof));
}
