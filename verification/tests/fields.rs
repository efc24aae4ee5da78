use dfcompress::{read_u32, read_u32_or_eof, write_u32, ByteSource, ErrorKind};

fn read_help(d: Vec<u8>) -> u32 {
    read_u32(&mut ByteSource::new(d)).unwrap()
}

fn write_help(d: u32) -> Vec<u8> {
    let mut b: Vec<u8> = Vec::new();
    write_u32(&mut b, d);
    b
}

#[test]
fn u32_tests() {
    assert_eq!(read_help(vec![42, 0, 0, 0]), 42);
    assert_eq!(
        read_help(vec![1, 2, 3, 4]),
        (4 << 24) + (3 << 16) + (2 << 8) + 1
    );
    assert_eq!(read_help(write_help(11111111)), 11111111);
}

#[test]
fn write_u32_is_little_endian() {
    assert_eq!(write_help(0x0403_0201), vec![1, 2, 3, 4]);
    assert_eq!(write_help(1234), vec![0xd2, 0x04, 0, 0]);
    assert_eq!(write_help(0), vec![0, 0, 0, 0]);
    assert_eq!(write_help(u32::MAX), vec![255, 255, 255, 255]);
}

#[test]
fn write_u32_appends() {
    let mut out: Vec<u8> = vec![9, 8];
    write_u32(&mut out, 1);
    write_u32(&mut out, 256);
    assert_eq!(out, vec![9, 8, 1, 0, 0, 0, 0, 1, 0, 0]);
}

#[test]
fn u32_round_trip_on_chosen_values() {
    let values: [u32; 9] = [
        0,
        1,
        255,
        256,
        65535,
        65536,
        0x00ff_ff00,
        0xdead_beef,
        u32::MAX,
    ];
    for v in values {
        assert_eq!(read_help(write_help(v)), v);
    }
}

#[test]
fn read_u32_takes_four_bytes_and_no_more() {
    let mut source = ByteSource::new(vec![1, 0, 0, 0, 2, 0, 0, 0, 7]);
    assert_eq!(read_u32(&mut source).unwrap(), 1);
    assert_eq!(source.remaining(), 5);
    assert_eq!(read_u32(&mut source).unwrap(), 2);
    assert_eq!(source.remaining(), 1);
}

#[test]
fn read_u32_on_a_short_source_is_unexpected_eof() {
    for len in 0..4 {
        let mut source = ByteSource::new(vec![7; len]);
        let err = read_u32(&mut source).unwrap_err();
        assert!(matches!(err.kind, ErrorKind::UnexpectedEof));
        assert_eq!(source.remaining(), 0);
    }
}

#[test]
fn read_u32_or_eof_at_the_end_is_none() {
    let mut source = ByteSource::new(Vec::new());
    assert_eq!(read_u32_or_eof(&mut source).unwrap(), None);
    assert_eq!(source.remaining(), 0);
}

#[test]
fn read_u32_or_eof_reads_a_whole_field() {
    let mut source = ByteSource::new(vec![0x78, 0x56, 0x34, 0x12, 5]);
    assert_eq!(read_u32_or_eof(&mut source).unwrap(), Some(0x1234_5678));
    assert_eq!(source.remaining(), 1);
}

#[test]
fn read_u32_or_eof_inside_a_field_is_an_error() {
    for len in 1..4 {
        let mut source = ByteSource::new(vec![1; len]);
        let err = read_u32_or_eof(&mut source).unwrap_err();
        assert!(matches!(err.kind, ErrorKind::UnexpectedEof));
        assert_eq!(source.remaining(), 0);
    }
}

#[test]
fn source_take_is_bounded_by_limit_and_by_what_is_left() {
    let mut source = ByteSource::new(vec![1, 2, 3, 4, 5]);
    assert_eq!(source.remaining(), 5);
    assert_eq!(source.take(2), &[1, 2]);
    assert_eq!(source.remaining(), 3);
    assert_eq!(source.take(0), &[] as &[u8]);
    assert_eq!(source.remaining(), 3);
    assert_eq!(source.take(10), &[3, 4, 5]);
    assert_eq!(source.remaining(), 0);
    assert_eq!(source.take(10), &[] as &[u8]);
}
