//! From either form of a stream to its raw form.

use vstd::prelude::*;
use crate::chunk::{after_chunk, next_chunk, read_chunk};
use crate::error::{io_failure, Error};
use crate::header::{after_header, header_bytes, parsed_header, read_header, write_header, TAG_RAW};
use crate::outcome::Outcome;
use crate::source::ByteSource;
use crate::zlib::{zlib_inflate, zlib_inflated};

verus! {

/// What expanding a chunked body does: each chunk in turn is inflated and
/// written, up to the end of the body or to the first chunk that is
/// truncated or does not inflate.
pub open spec fn expanded(body: Seq<u8>) -> Outcome
    decreases body.len(),
{
    match next_chunk(body) {
        Ok(None) => Outcome::complete(Seq::empty()),
        Err(e) => Outcome::failed(e, Seq::empty()),
        Ok(Some(payload)) => match zlib_inflated(payload) {
            Err(e) => Outcome::failed(io_failure(e), after_chunk(body)),
            Ok(data) => expanded(after_chunk(body)).after(data),
        },
    }
}

/// What `dfuncompress` does to a stream: a raw header with the stream's
/// version, then the body as it is if it is raw, expanded if it is chunked.
/// Nothing is written for a stream without a valid header.
pub open spec fn uncompressed(stream: Seq<u8>) -> Outcome {
    match parsed_header(stream) {
        Err(e) => Outcome::failed(e, after_header(stream)),
        Ok((version, compression)) => if compression == TAG_RAW {
            Outcome::complete(header_bytes(version, TAG_RAW) + after_header(stream))
        } else {
            expanded(after_header(stream)).after(header_bytes(version, TAG_RAW))
        },
    }
}

/// Expands the chunks of a chunked body.
fn expand_chunks(input: &mut ByteSource, output: &mut Vec<u8>) -> (res: Result<(), Error>)
    ensures
        res == expanded(old(input)@).result,
        final(output)@ == old(output)@ + expanded(old(input)@).written,
        final(input)@ == expanded(old(input)@).unread,
{
    let ghost body = input@;
    let ghost before = output@;
    let ghost done = Seq::<u8>::empty();
    assert(expanded(body) =~= expanded(body).after(done));
    loop
        invariant
            body == old(input)@,
            before == old(output)@,
            output@ == before + done,
            expanded(body) == expanded(input@).after(done),
        decreases input@.len(),
    {
        let ghost here = input@;
        let payload = match read_chunk(input) {
            Ok(Some(payload)) => payload,
            Ok(None) => {
                assert(output@ =~= before + expanded(body).written);
                return Ok(());
            },
            Err(e) => {
                assert(output@ =~= before + expanded(body).written);
                return Err(e);
            },
        };
        match zlib_inflate(payload) {
            Ok(data) => {
                output.extend_from_slice(data.as_slice());
                proof {
                    assert(expanded(here) == expanded(after_chunk(here)).after(data@));
                    assert(expanded(body) =~= expanded(after_chunk(here)).after(done + data@));
                    done = done + data@;
                    assert(output@ =~= before + done);
                }
            },
            Err(e) => {
                assert(output@ =~= before + expanded(body).written);
                return Err(Error::from(e));
            },
        }
    }
}

/// Converts a stream to its raw form: reads `input` from its header on and
/// appends the converted stream to `output`.
pub fn dfuncompress(input: &mut ByteSource, output: &mut Vec<u8>) -> (res: Result<(), Error>)
    ensures
        res == uncompressed(old(input)@).result,
        final(output)@ == old(output)@ + uncompressed(old(input)@).written,
        final(input)@ == uncompressed(old(input)@).unread,
{
    let (version, compression) = match read_header(input) {
        Ok(fields) => fields,
        Err(e) => {
            assert(output@ =~= old(output)@ + uncompressed(old(input)@).written);
            return Err(e);
        },
    };
    write_header(output, version, TAG_RAW);
    if compression == TAG_RAW {
        input.copy_rest(output);
        assert(output@ =~= old(output)@ + uncompressed(old(input)@).written);
        Ok(())
    } else {
        let res = expand_chunks(input, output);
        assert(output@ =~= old(output)@ + uncompressed(old(input)@).written);
        res
    }
}

} // verus!
