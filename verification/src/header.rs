//! The eight-byte stream header: a version and a compression tag.

use vstd::prelude::*;
use crate::error::{Error, ErrorKind};
use crate::field::{
    le_bytes,
    le_value,
    lemma_le_bytes_of_value,
    lemma_le_roundtrip,
    read_u32,
    write_u32,
};
use crate::source::ByteSource;

verus! {

/// The tag of a stream whose body is raw.
pub const TAG_RAW: u32 = 0;

/// The tag of a stream whose body is a sequence of compressed chunks.
pub const TAG_CHUNKED: u32 = 1;

/// The bytes of a header with the given fields.
pub open spec fn header_bytes(version: u32, compression: u32) -> Seq<u8> {
    le_bytes(version) + le_bytes(compression)
}

/// The header that a stream begins with, or why it has none.
///
/// A stream shorter than a header is truncated, whatever its bytes are.
/// A zero version is reported before an unknown tag.
pub open spec fn parsed_header(stream: Seq<u8>) -> Result<(u32, u32), Error> {
    if stream.len() < 8 {
        Err(Error { kind: ErrorKind::UnexpectedEof })
    } else if le_value(stream.subrange(0, 4)) == 0 {
        Err(Error { kind: ErrorKind::VersionIsZero })
    } else if le_value(stream.subrange(4, 8)) > 1 {
        Err(Error { kind: ErrorKind::CompressionUnknown(le_value(stream.subrange(4, 8))) })
    } else {
        Ok((le_value(stream.subrange(0, 4)), le_value(stream.subrange(4, 8))))
    }
}

/// Whether a stream begins with a valid header that carries `tag`.
pub open spec fn has_tag(stream: Seq<u8>, tag: u32) -> bool {
    parsed_header(stream) matches Ok((_, compression)) && compression == tag
}

/// What is left of a stream once its header has been read: nothing of a
/// stream that is shorter than a header.
pub open spec fn after_header(stream: Seq<u8>) -> Seq<u8> {
    if stream.len() < 8 {
        Seq::empty()
    } else {
        stream.skip(8)
    }
}

/// Reading a header that was written gives its fields back.
pub proof fn lemma_header_roundtrip(version: u32, compression: u32, rest: Seq<u8>)
    requires
        version != 0,
        compression <= 1,
    ensures
        parsed_header(header_bytes(version, compression) + rest) == Ok::<(u32, u32), Error>(
            (version, compression),
        ),
        after_header(header_bytes(version, compression) + rest) == rest,
{
    let stream = header_bytes(version, compression) + rest;
    lemma_le_roundtrip(version);
    lemma_le_roundtrip(compression);
    assert(stream.subrange(0, 4) =~= le_bytes(version));
    assert(stream.subrange(4, 8) =~= le_bytes(compression));
    assert(stream.skip(8) =~= rest);
}

/// A stream with a valid header is that header's bytes and what follows.
pub proof fn lemma_header_bytes_of_parsed(stream: Seq<u8>)
    requires
        parsed_header(stream) is Ok,
    ensures
        stream == header_bytes(parsed_header(stream).unwrap().0, parsed_header(stream).unwrap().1)
            + after_header(stream),
{
    lemma_le_bytes_of_value(stream.subrange(0, 4));
    lemma_le_bytes_of_value(stream.subrange(4, 8));
    assert(stream =~= stream.subrange(0, 4) + stream.subrange(4, 8) + stream.skip(8));
}

/// Reads and validates a header.
pub fn read_header(input: &mut ByteSource) -> (res: Result<(u32, u32), Error>)
    ensures
        res == parsed_header(old(input)@),
        final(input)@ == after_header(old(input)@),
{
    let ghost stream = input@;
    let version: u32 = match read_u32(input) {
        Ok(value) => value,
        Err(e) => {
            return Err(e);
        },
    };
    let compression: u32 = match read_u32(input) {
        Ok(value) => value,
        Err(e) => {
            return Err(e);
        },
    };
    proof {
        assert(stream.take(4) =~= stream.subrange(0, 4));
        assert(stream.skip(4).take(4) =~= stream.subrange(4, 8));
        assert(stream.skip(4).skip(4) =~= stream.skip(8));
    }
    if version == 0 {
        return Err(Error { kind: ErrorKind::VersionIsZero });
    }
    if compression > 1 {
        return Err(Error { kind: ErrorKind::CompressionUnknown(compression) });
    }
    Ok((version, compression))
}

/// Appends a header. The fields are written as given.
pub fn write_header(output: &mut Vec<u8>, version: u32, compression: u32)
    ensures
        final(output)@ == old(output)@ + header_bytes(version, compression),
{
    write_u32(output, version);
    write_u32(output, compression);
    assert(output@ =~= old(output)@ + header_bytes(version, compression));
}

} // verus!
