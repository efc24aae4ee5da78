//! Conversion of a save stream between its raw form and its chunked,
//! zlib-compressed form.
//!
//! A stream is an eight-byte header (a nonzero version and a compression
//! tag, both little-endian) and a body. The body of a raw stream is the
//! flat data itself. The body of a chunked stream is a sequence of chunks,
//! each a length prefix and one whole zlib stream that stands for at most
//! `CHUNK_SIZE` bytes of the flat data.
//!
//! [`dfcompress`] and [`dfuncompress`] read a stream from a [`ByteSource`]
//! and append the converted stream to a `Vec<u8>`. What each of them
//! writes, leaves unread and returns is given by the spec functions
//! `compress::compressed` and `uncompress::uncompressed`.

pub mod chunk;
pub mod compress;
pub mod error;
pub mod field;
pub mod header;
pub mod laws;
pub mod outcome;
pub mod source;
pub mod uncompress;
pub mod zlib;

pub use chunk::{read_chunk, write_chunk, CHUNK_SIZE};
pub use compress::dfcompress;
pub use error::{Error, ErrorKind};
pub use field::{read_u32, read_u32_or_eof, write_u32};
pub use header::{read_header, write_header, TAG_CHUNKED, TAG_RAW};
pub use source::ByteSource;
pub use uncompress::dfuncompress;
