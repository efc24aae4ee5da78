//! Chunk framing: a length prefix and that many bytes of payload.

use vstd::prelude::*;
use crate::error::{Error, ErrorKind};
use crate::field::{le_bytes, le_value, lemma_le_roundtrip, read_u32_or_eof, write_u32};
use crate::source::ByteSource;

verus! {

/// The number of bytes of the flat body that one chunk stands for, at most.
pub const CHUNK_SIZE: usize = 20000;

/// A chunk as it is laid out in a stream. The prefix holds the low 32 bits
/// of the payload's length.
pub open spec fn chunk_frame(payload: Seq<u8>) -> Seq<u8> {
    le_bytes((payload.len() % 0x1_0000_0000) as u32) + payload
}

/// The payload of the chunk that a chunked body begins with; `None` at the
/// end of the body. A body that ends inside a length prefix or inside a
/// payload is truncated.
pub open spec fn next_chunk(stream: Seq<u8>) -> Result<Option<Seq<u8>>, Error> {
    if stream.len() == 0 {
        Ok(None)
    } else if stream.len() < 4 || stream.len() - 4 < le_value(stream.take(4)) {
        Err(Error { kind: ErrorKind::UnexpectedEof })
    } else {
        Ok(Some(stream.subrange(4, 4 + le_value(stream.take(4)))))
    }
}

/// What is left of a chunked body once its first chunk has been read:
/// nothing where there is no whole chunk.
pub open spec fn after_chunk(stream: Seq<u8>) -> Seq<u8> {
    match next_chunk(stream) {
        Ok(Some(payload)) => stream.skip(4 + payload.len() as int),
        _ => Seq::empty(),
    }
}

/// Reading a chunk that was written gives its payload back, and leaves
/// what follows the chunk, provided the payload's length fits the prefix.
pub proof fn lemma_chunk_roundtrip(payload: Seq<u8>, rest: Seq<u8>)
    requires
        payload.len() <= u32::MAX,
    ensures
        next_chunk(chunk_frame(payload) + rest) == Ok::<Option<Seq<u8>>, Error>(Some(payload)),
        after_chunk(chunk_frame(payload) + rest) == rest,
{
    let stream = chunk_frame(payload) + rest;
    lemma_le_roundtrip(payload.len() as u32);
    assert(stream.take(4) =~= le_bytes(payload.len() as u32));
    assert(stream.subrange(4, 4 + payload.len() as int) =~= payload);
    assert(stream.skip(4 + payload.len() as int) =~= rest);
}

/// Appends one chunk.
pub fn write_chunk(output: &mut Vec<u8>, payload: &[u8])
    ensures
        final(output)@ == old(output)@ + chunk_frame(payload@),
{
    let len: u64 = payload.len() as u64;
    assert((len & 0xffff_ffff) as u32 == (len % 0x1_0000_0000) as u32) by (bit_vector);
    write_u32(output, (len & 0xffff_ffff) as u32);
    output.extend_from_slice(payload);
    assert(output@ =~= old(output)@ + chunk_frame(payload@));
}

/// Reads one chunk and hands out its payload.
pub fn read_chunk(input: &mut ByteSource) -> (res: Result<Option<&[u8]>, Error>)
    ensures
        match res {
            Ok(Some(payload)) => next_chunk(old(input)@) == Ok::<Option<Seq<u8>>, Error>(
                Some(payload@),
            ),
            Ok(None) => next_chunk(old(input)@) == Ok::<Option<Seq<u8>>, Error>(None),
            Err(e) => next_chunk(old(input)@) == Err::<Option<Seq<u8>>, Error>(e),
        },
        final(input)@ == after_chunk(old(input)@),
{
    let len: usize = match read_u32_or_eof(input) {
        Ok(Some(value)) => value as usize,
        Ok(None) => {
            return Ok(None);
        },
        Err(e) => {
            return Err(e);
        },
    };
    let payload = input.take(len);
    if payload.len() < len {
        return Err(Error { kind: ErrorKind::UnexpectedEof });
    }
    assert(payload@ =~= old(input)@.subrange(4, 4 + len));
    Ok(Some(payload))
}

} // verus!
