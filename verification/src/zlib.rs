//! The compression primitive: whole zlib streams, made and undone by the
//! `flate2` crate. Nothing in this file is proved; the contracts say what
//! is taken on trust.

use std::io::Read;
use vstd::prelude::*;

verus! {

/// The zlib stream that `flate2` makes of `window` at its default level,
/// or the error it reports.
pub uninterp spec fn zlib_compressed(window: Seq<u8>) -> Result<Seq<u8>, std::io::Error>;

/// The bytes that `flate2` recovers from `chunk`, read as one zlib stream,
/// or the error it reports.
pub uninterp spec fn zlib_inflated(chunk: Seq<u8>) -> Result<Seq<u8>, std::io::Error>;

/// Reads `flate2::read::ZlibEncoder` over `window` to its end, at
/// `flate2::Compression::default()`.
///
/// Trusted: the outcome depends on the bytes of `window` alone, and a
/// stream that was made this way inflates to the bytes it was made of.
#[verifier::external_body]
pub(crate) fn zlib_compress(window: &[u8]) -> (res: Result<Vec<u8>, std::io::Error>)
    ensures
        match res {
            Ok(stream) => zlib_compressed(window@) == Ok::<Seq<u8>, std::io::Error>(stream@)
                && zlib_inflated(stream@) == Ok::<Seq<u8>, std::io::Error>(window@),
            Err(e) => zlib_compressed(window@) == Err::<Seq<u8>, std::io::Error>(e),
        },
{
    let mut stream = Vec::new();
    let mut encoder = flate2::read::ZlibEncoder::new(window, flate2::Compression::default());
    encoder.read_to_end(&mut stream)?;
    Ok(stream)
}

/// Reads `flate2::read::ZlibDecoder` over `chunk` to its end.
///
/// Trusted: the outcome depends on the bytes of `chunk` alone.
#[verifier::external_body]
pub(crate) fn zlib_inflate(chunk: &[u8]) -> (res: Result<Vec<u8>, std::io::Error>)
    ensures
        match res {
            Ok(data) => zlib_inflated(chunk@) == Ok::<Seq<u8>, std::io::Error>(data@),
            Err(e) => zlib_inflated(chunk@) == Err::<Seq<u8>, std::io::Error>(e),
        },
{
    let mut data = Vec::new();
    let mut decoder = flate2::read::ZlibDecoder::new(chunk);
    decoder.read_to_end(&mut data)?;
    Ok(data)
}

} // verus!
