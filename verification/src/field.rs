//! Little-endian 32-bit fields: the building block of the header and of
//! the chunk length prefixes.

use vstd::prelude::*;
use crate::error::{Error, ErrorKind};
use crate::source::ByteSource;

verus! {

/// The four bytes that encode `value`, least significant first.
pub open spec fn le_bytes(value: u32) -> Seq<u8> {
    seq![
        (value % 256) as u8,
        (value / 256 % 256) as u8,
        (value / 65536 % 256) as u8,
        (value / 16777216) as u8,
    ]
}

/// The value that four bytes encode, least significant first.
pub open spec fn le_value(bytes: Seq<u8>) -> u32
    recommends
        bytes.len() == 4,
{
    (bytes[0] + 256 * bytes[1] + 65536 * bytes[2] + 16777216 * bytes[3]) as u32
}

/// Decoding the encoding of a value gives the value back.
pub proof fn lemma_le_roundtrip(value: u32)
    ensures
        le_bytes(value).len() == 4,
        le_value(le_bytes(value)) == value,
{
    assert(value % 256 + 256 * (value / 256 % 256) + 65536 * (value / 65536 % 256) + 16777216 * (
    value / 16777216) == value) by (bit_vector);
}

/// Encoding what four bytes decode to gives the four bytes back.
pub proof fn lemma_le_bytes_of_value(bytes: Seq<u8>)
    requires
        bytes.len() == 4,
    ensures
        le_bytes(le_value(bytes)) == bytes,
{
    let b0 = bytes[0];
    let b1 = bytes[1];
    let b2 = bytes[2];
    let b3 = bytes[3];
    let value = le_value(bytes);
    assert(value == b0 + 256 * b1 + 65536 * b2 + 16777216 * b3);
    assert(value % 256 == b0 && value / 256 % 256 == b1 && value / 65536 % 256 == b2 && value
        / 16777216 == b3) by (bit_vector)
        requires
            value == b0 + 256 * b1 + 65536 * b2 + 16777216 * b3,
    ;
    assert(le_bytes(value) =~= bytes);
}

/// Reads one field. With fewer than four bytes left the source is
/// drained and the read fails.
pub fn read_u32(input: &mut ByteSource) -> (res: Result<u32, Error>)
    ensures
        match res {
            Ok(value) => old(input)@.len() >= 4 && value == le_value(old(input)@.take(4))
                && final(input)@ == old(input)@.skip(4),
            Err(e) => old(input)@.len() < 4 && e.kind == ErrorKind::UnexpectedEof
                && final(input)@.len() == 0,
        },
{
    let buf = input.take(4);
    if buf.len() < 4 {
        return Err(Error { kind: ErrorKind::UnexpectedEof });
    }
    let b0: u8 = buf[0];
    let b1: u8 = buf[1];
    let b2: u8 = buf[2];
    let b3: u8 = buf[3];
    assert(((b3 as u32) << 24) + ((b2 as u32) << 16) + ((b1 as u32) << 8) + (b0 as u32) == b0 + 256
        * b1 + 65536 * b2 + 16777216 * b3) by (bit_vector);
    Ok(((b3 as u32) << 24) + ((b2 as u32) << 16) + ((b1 as u32) << 8) + (b0 as u32))
}

/// Reads one field, or reports that the source was already at its end.
/// A source that ends inside the field is an error.
pub fn read_u32_or_eof(input: &mut ByteSource) -> (res: Result<Option<u32>, Error>)
    ensures
        match res {
            Ok(Some(value)) => old(input)@.len() >= 4 && value == le_value(old(input)@.take(4))
                && final(input)@ == old(input)@.skip(4),
            Ok(None) => old(input)@.len() == 0 && final(input)@.len() == 0,
            Err(e) => 0 < old(input)@.len() < 4 && e.kind == ErrorKind::UnexpectedEof
                && final(input)@.len() == 0,
        },
{
    if input.remaining() == 0 {
        return Ok(None);
    }
    match read_u32(input) {
        Ok(value) => Ok(Some(value)),
        Err(e) => Err(e),
    }
}

/// Appends the four bytes of one field.
pub fn write_u32(output: &mut Vec<u8>, value: u32)
    ensures
        final(output)@ == old(output)@ + le_bytes(value),
{
    assert(value as u8 == (value % 256) as u8 && (value >> 8) as u8 == (value / 256 % 256) as u8
        && (value >> 16) as u8 == (value / 65536 % 256) as u8 && (value >> 24) as u8 == (value
        / 16777216) as u8) by (bit_vector);
    output.push(value as u8);
    output.push((value >> 8) as u8);
    output.push((value >> 16) as u8);
    output.push((value >> 24) as u8);
    assert(output@ =~= old(output)@ + le_bytes(value));
}

} // verus!
