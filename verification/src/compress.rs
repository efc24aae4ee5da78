//! From either form of a stream to its chunked, compressed form.

use vstd::prelude::*;
use crate::chunk::{chunk_frame, write_chunk, CHUNK_SIZE};
use crate::error::{io_failure, Error};
use crate::header::{
    after_header,
    has_tag,
    header_bytes,
    lemma_header_bytes_of_parsed,
    parsed_header,
    read_header,
    write_header,
    TAG_CHUNKED,
    TAG_RAW,
};
use crate::laws::lemma_compress_then_uncompress;
use crate::outcome::Outcome;
use crate::source::ByteSource;
use crate::uncompress::uncompressed;
use crate::zlib::{zlib_compress, zlib_compressed, zlib_inflated};

verus! {

/// The part of a raw body that its first chunk stands for: the first
/// `CHUNK_SIZE` bytes, or all of a body that is shorter.
pub open spec fn first_window(body: Seq<u8>) -> Seq<u8> {
    if body.len() <= CHUNK_SIZE {
        body
    } else {
        body.take(CHUNK_SIZE as int)
    }
}

/// The raw body that follows its first window.
pub open spec fn after_window(body: Seq<u8>) -> Seq<u8> {
    if body.len() <= CHUNK_SIZE {
        Seq::empty()
    } else {
        body.skip(CHUNK_SIZE as int)
    }
}

/// What packing a raw body does: each window in turn is compressed and
/// written as a chunk, up to the end of the body or to the first window
/// that does not compress. An empty body gives no chunk.
pub open spec fn packed(body: Seq<u8>) -> Outcome
    decreases body.len(),
{
    if body.len() == 0 {
        Outcome::complete(Seq::empty())
    } else {
        match zlib_compressed(first_window(body)) {
            Err(e) => Outcome::failed(io_failure(e), after_window(body)),
            Ok(stream) => packed(after_window(body)).after(chunk_frame(stream)),
        }
    }
}

/// What `dfcompress` does to a stream: a chunked header with the stream's
/// version, then the body as it is if it is chunked, packed if it is raw.
/// Nothing is written for a stream without a valid header.
pub open spec fn compressed(stream: Seq<u8>) -> Outcome {
    match parsed_header(stream) {
        Err(e) => Outcome::failed(e, after_header(stream)),
        Ok((version, compression)) => if compression == TAG_CHUNKED {
            Outcome::complete(header_bytes(version, TAG_CHUNKED) + after_header(stream))
        } else {
            packed(after_header(stream)).after(header_bytes(version, TAG_CHUNKED))
        },
    }
}

/// Whether every chunk that packing `body` writes has a length that its
/// prefix can hold.
pub open spec fn frames_fit(body: Seq<u8>) -> bool
    decreases body.len(),
{
    body.len() == 0 || match zlib_compressed(first_window(body)) {
        Ok(stream) => stream.len() <= u32::MAX && frames_fit(after_window(body)),
        Err(_) => true,
    }
}

/// Whether packing `body` loses nothing: every window compresses, to a
/// stream whose length its prefix can hold and which inflates to the
/// window again.
pub open spec fn restorable(body: Seq<u8>) -> bool
    decreases body.len(),
{
    body.len() == 0 || match zlib_compressed(first_window(body)) {
        Ok(stream) => stream.len() <= u32::MAX && zlib_inflated(stream) == Ok::<
            Seq<u8>,
            std::io::Error,
        >(first_window(body)) && restorable(after_window(body)),
        Err(_) => false,
    }
}

/// Packs a raw body into chunks.
fn pack_windows(input: &mut ByteSource, output: &mut Vec<u8>) -> (res: Result<(), Error>)
    ensures
        res == packed(old(input)@).result,
        final(output)@ == old(output)@ + packed(old(input)@).written,
        final(input)@ == packed(old(input)@).unread,
        res is Ok && frames_fit(old(input)@) ==> restorable(old(input)@),
{
    let ghost body = input@;
    let ghost before = output@;
    let ghost done = Seq::<u8>::empty();
    assert(packed(body) =~= packed(body).after(done));
    loop
        invariant
            body == old(input)@,
            before == old(output)@,
            output@ == before + done,
            packed(body) == packed(input@).after(done),
            frames_fit(body) ==> frames_fit(input@),
            frames_fit(body) && restorable(input@) ==> restorable(body),
        decreases input@.len(),
    {
        let ghost here = input@;
        let window = input.take(CHUNK_SIZE);
        if window.len() == 0 {
            assert(output@ =~= before + packed(body).written);
            return Ok(());
        }
        assert(window@ =~= first_window(here));
        match zlib_compress(window) {
            Ok(stream) => {
                write_chunk(output, stream.as_slice());
                proof {
                    assert(input@ =~= after_window(here));
                    assert(packed(body) =~= packed(after_window(here)).after(
                        done + chunk_frame(stream@),
                    ));
                    done = done + chunk_frame(stream@);
                    assert(output@ =~= before + done);
                }
            },
            Err(e) => {
                assert(input@ =~= after_window(here));
                assert(output@ =~= before + packed(body).written);
                return Err(Error::from(e));
            },
        }
    }
}

/// Converts a stream to its chunked form: reads `input` from its header on
/// and appends the converted stream to `output`.
pub fn dfcompress(input: &mut ByteSource, output: &mut Vec<u8>) -> (res: Result<(), Error>)
    ensures
        res == compressed(old(input)@).result,
        final(output)@ == old(output)@ + compressed(old(input)@).written,
        final(input)@ == compressed(old(input)@).unread,
        res is Ok && has_tag(old(input)@, TAG_RAW) && frames_fit(after_header(old(input)@))
            ==> uncompressed(compressed(old(input)@).written) == Outcome::complete(old(input)@),
{
    let (version, compression) = match read_header(input) {
        Ok(fields) => fields,
        Err(e) => {
            assert(output@ =~= old(output)@ + compressed(old(input)@).written);
            return Err(e);
        },
    };
    write_header(output, version, TAG_CHUNKED);
    if compression == TAG_CHUNKED {
        input.copy_rest(output);
        assert(output@ =~= old(output)@ + compressed(old(input)@).written);
        Ok(())
    } else {
        let res = pack_windows(input, output);
        proof {
            assert(output@ =~= old(output)@ + compressed(old(input)@).written);
            let body = after_header(old(input)@);
            if res is Ok && frames_fit(body) {
                lemma_header_bytes_of_parsed(old(input)@);
                lemma_compress_then_uncompress(version, body);
            }
        }
        res
    }
}

} // verus!
