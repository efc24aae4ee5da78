//! What holds of the two conversions taken together.

use vstd::prelude::*;
use crate::chunk::{after_chunk, chunk_frame, lemma_chunk_roundtrip, next_chunk, CHUNK_SIZE};
use crate::compress::{after_window, compressed, first_window, frames_fit, packed, restorable};
use crate::error::Error;
use crate::header::{
    after_header,
    has_tag,
    header_bytes,
    lemma_header_bytes_of_parsed,
    lemma_header_roundtrip,
    parsed_header,
    TAG_CHUNKED,
    TAG_RAW,
};
use crate::outcome::Outcome;
use crate::uncompress::{expanded, uncompressed};
use crate::zlib::zlib_compressed;

verus! {

/// Packing a restorable body succeeds, reads all of it, and expanding what
/// was written gives the body back.
pub proof fn lemma_pack_then_expand(body: Seq<u8>)
    requires
        restorable(body),
    ensures
        packed(body).result is Ok,
        packed(body).unread == Seq::<u8>::empty(),
        expanded(packed(body).written) == Outcome::complete(body),
    decreases body.len(),
{
    if body.len() == 0 {
        assert(expanded(Seq::<u8>::empty()) =~= Outcome::complete(body));
    } else {
        let window = first_window(body);
        let rest = after_window(body);
        let stream = zlib_compressed(window).unwrap();
        lemma_pack_then_expand(rest);
        let tail = packed(rest).written;
        let chunks = packed(body).written;
        assert(chunks == chunk_frame(stream) + tail);
        lemma_chunk_roundtrip(stream, tail);
        assert(window + rest =~= body);
        assert(expanded(chunks) =~= Outcome::complete(body));
    }
}

/// Compressing a raw stream and uncompressing the result gives the stream
/// back, byte for byte, provided its body is restorable.
pub proof fn lemma_compress_then_uncompress(version: u32, body: Seq<u8>)
    requires
        version != 0,
        restorable(body),
    ensures
        compressed(header_bytes(version, TAG_RAW) + body).result is Ok,
        compressed(header_bytes(version, TAG_RAW) + body).unread == Seq::<u8>::empty(),
        uncompressed(compressed(header_bytes(version, TAG_RAW) + body).written)
            == Outcome::complete(header_bytes(version, TAG_RAW) + body),
{
    let raw = header_bytes(version, TAG_RAW) + body;
    lemma_header_roundtrip(version, TAG_RAW, body);
    lemma_pack_then_expand(body);
    let chunked = compressed(raw).written;
    assert(chunked == header_bytes(version, TAG_CHUNKED) + packed(body).written);
    lemma_header_roundtrip(version, TAG_CHUNKED, packed(body).written);
    assert(uncompressed(chunked) =~= Outcome::complete(raw));
}

/// The windows that a raw body is cut into, in order.
pub open spec fn windows(body: Seq<u8>) -> Seq<Seq<u8>>
    decreases body.len(),
{
    if body.len() == 0 {
        Seq::empty()
    } else {
        seq![first_window(body)] + windows(after_window(body))
    }
}

/// The payloads of the whole chunks that a chunked body begins with, in
/// order, up to its end or to where it is truncated.
pub open spec fn payloads(body: Seq<u8>) -> Seq<Seq<u8>>
    decreases body.len(),
{
    match next_chunk(body) {
        Ok(Some(payload)) => seq![payload] + payloads(after_chunk(body)),
        _ => Seq::empty(),
    }
}

/// A body is cut into as many windows as it takes `CHUNK_SIZE` bytes at a
/// time to cover it: window `i` is the part of the body from byte
/// `i * CHUNK_SIZE` on, `CHUNK_SIZE` bytes long or, for the last window, up
/// to the end of the body. No window is empty.
pub proof fn lemma_windows_cover(body: Seq<u8>)
    ensures
        windows(body).len() == (body.len() + CHUNK_SIZE - 1) / (CHUNK_SIZE as int),
        forall|i: int|
            0 <= i < windows(body).len() ==> #[trigger] windows(body)[i] == body.subrange(
                i * CHUNK_SIZE,
                vstd::math::min((i + 1) * CHUNK_SIZE, body.len() as int),
            ),
        forall|i: int| 0 <= i < windows(body).len() ==> 0 < #[trigger] windows(body)[i].len(),
    decreases body.len(),
{
    if body.len() > 0 {
        let rest = after_window(body);
        lemma_windows_cover(rest);
        assert(first_window(body) =~= body.subrange(
            0,
            vstd::math::min(CHUNK_SIZE as int, body.len() as int),
        ));
        assert forall|i: int| 0 <= i < windows(body).len() implies #[trigger] windows(body)[i]
            == body.subrange(
            i * CHUNK_SIZE,
            vstd::math::min((i + 1) * CHUNK_SIZE, body.len() as int),
        ) by {
            if i > 0 {
                assert(windows(body)[i] == windows(rest)[i - 1]);
                assert(rest.subrange(
                    (i - 1) * CHUNK_SIZE,
                    vstd::math::min(i * CHUNK_SIZE, rest.len() as int),
                ) =~= body.subrange(
                    i * CHUNK_SIZE,
                    vstd::math::min((i + 1) * CHUNK_SIZE, body.len() as int),
                ));
            }
        }
        assert forall|i: int| 0 <= i < windows(body).len() implies 0 < #[trigger] windows(
            body,
        )[i].len() by {
            if i > 0 {
                assert(windows(body)[i] == windows(rest)[i - 1]);
            }
        }
    }
}

/// Where packing succeeds and every chunk's length fits its prefix, the
/// body is packed into one chunk for each window, in order, and the
/// payload of each chunk is its window, compressed.
pub proof fn lemma_one_chunk_per_window(body: Seq<u8>)
    requires
        packed(body).result is Ok,
        frames_fit(body),
    ensures
        payloads(packed(body).written).len() == windows(body).len(),
        forall|i: int|
            0 <= i < windows(body).len() ==> zlib_compressed(#[trigger] windows(body)[i]) == Ok::<
                Seq<u8>,
                std::io::Error,
            >(payloads(packed(body).written)[i]),
    decreases body.len(),
{
    if body.len() == 0 {
        assert(payloads(Seq::<u8>::empty()) =~= Seq::<Seq<u8>>::empty());
    } else {
        let rest = after_window(body);
        let stream = zlib_compressed(first_window(body)).unwrap();
        lemma_one_chunk_per_window(rest);
        let tail = packed(rest).written;
        let chunks = packed(body).written;
        assert(chunks == chunk_frame(stream) + tail);
        lemma_chunk_roundtrip(stream, tail);
        assert(payloads(chunks) =~= seq![stream] + payloads(tail));
        assert forall|i: int| 0 <= i < windows(body).len() implies zlib_compressed(
            #[trigger] windows(body)[i],
        ) == Ok::<Seq<u8>, std::io::Error>(payloads(chunks)[i]) by {
            if i > 0 {
                assert(windows(body)[i] == windows(rest)[i - 1]);
                assert(payloads(chunks)[i] == payloads(tail)[i - 1]);
            }
        }
    }
}

/// Either conversion keeps the version of a stream with a valid header,
/// and writes a header with the tag of the form it converts to.
pub proof fn lemma_output_header(stream: Seq<u8>)
    requires
        parsed_header(stream) is Ok,
    ensures
        parsed_header(compressed(stream).written) == Ok::<(u32, u32), Error>(
            (parsed_header(stream).unwrap().0, TAG_CHUNKED),
        ),
        parsed_header(uncompressed(stream).written) == Ok::<(u32, u32), Error>(
            (parsed_header(stream).unwrap().0, TAG_RAW),
        ),
{
    let version = parsed_header(stream).unwrap().0;
    if parsed_header(stream).unwrap().1 == TAG_CHUNKED {
        lemma_header_roundtrip(version, TAG_CHUNKED, after_header(stream));
        lemma_header_roundtrip(version, TAG_RAW, expanded(after_header(stream)).written);
    } else {
        lemma_header_roundtrip(version, TAG_CHUNKED, packed(after_header(stream)).written);
        lemma_header_roundtrip(version, TAG_RAW, after_header(stream));
    }
}

/// Compressing a stream that is chunked already copies it unchanged.
pub proof fn lemma_compress_keeps_chunked(stream: Seq<u8>)
    requires
        has_tag(stream, TAG_CHUNKED),
    ensures
        compressed(stream) == Outcome::complete(stream),
{
    lemma_header_bytes_of_parsed(stream);
}

/// Uncompressing a stream that is raw already copies it unchanged.
pub proof fn lemma_uncompress_keeps_raw(stream: Seq<u8>)
    requires
        has_tag(stream, TAG_RAW),
    ensures
        uncompressed(stream) == Outcome::complete(stream),
{
    lemma_header_bytes_of_parsed(stream);
}

} // verus!
