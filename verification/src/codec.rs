//! The outside computations that the library relies on: hashing,
//! compression, UTF-8 validation and reason phrases. Each function here is a
//! thin call whose contract is taken on trust.

use std::io::Write;
use vstd::prelude::*;

verus! {

/// The 64-bit xxHash of `data` under `seed`.
pub uninterp spec fn xxh64(seed: u64, data: Seq<u8>) -> u64;

/// The gzip stream that the encoder produces for `data` at its best
/// compression level.
pub uninterp spec fn gzip_encoding(data: Seq<u8>) -> Seq<u8>;

/// The brotli stream that the encoder produces for `data` at quality 11 with
/// a window of 22 bits.
pub uninterp spec fn brotli_encoding(data: Seq<u8>) -> Seq<u8>;

/// The text that stands for a status code: the number, a space and the
/// canonical reason phrase.
pub uninterp spec fn status_text(code: u16) -> Seq<char>;

/// The bytes of an optional buffer.
pub open spec fn bytes_of(buffer: Option<Vec<u8>>) -> Option<Seq<u8>> {
    match buffer {
        Some(v) => Some(v@),
        None => None,
    }
}

/// Calls `twox_hash::XxHash64::oneshot`. The hash is a function of the seed
/// and the bytes alone.
#[verifier::external_body]
pub(crate) fn xxh64_oneshot(seed: u64, data: &[u8]) -> (hash: u64)
    ensures
        hash == xxh64(seed, data@),
{
    twox_hash::XxHash64::oneshot(seed, data)
}

/// Feeds `data` to a `flate2::write::GzEncoder` over an empty vector at
/// `Compression::best()` and finishes it. The encoder reports an error only
/// where its writer refuses bytes or the stream is used out of order; a
/// vector takes every byte and the calls here are in order, so a stream
/// always comes back. The stream is a function of the bytes alone: the
/// header carries no time stamp and no file name, and the deflate code
/// works on integers.
#[verifier::external_body]
pub(crate) fn gz_compress(data: &[u8]) -> (out: Option<Vec<u8>>)
    ensures
        bytes_of(out) == Some(gzip_encoding(data@)),
{
    let mut encoder = flate2::write::GzEncoder::new(Vec::new(), flate2::Compression::best());
    match encoder.write_all(data) {
        Ok(()) => encoder.finish().ok(),
        Err(_) => None,
    }
}

/// Feeds `data` to a `brotli::CompressorWriter` over an empty vector with a
/// buffer of 4096 bytes, quality 11 and a window of 22 bits, flushes it and
/// takes the vector back, which ends the stream. The encoder reports an
/// error only where its writer refuses bytes or the stream is used out of
/// order; a vector takes every byte and the calls here are in order, so a
/// stream always comes back. The encoder is built with its `portable-float`
/// feature, under which it estimates costs from tables and never through the
/// platform's mathematics library, so that the stream is a function of the
/// bytes alone, as the encoder's source says of that feature.
#[verifier::external_body]
pub(crate) fn br_compress(data: &[u8]) -> (out: Option<Vec<u8>>)
    ensures
        bytes_of(out) == Some(brotli_encoding(data@)),
{
    let mut encoder = brotli::CompressorWriter::new(Vec::new(), 4096, 11, 22);
    if encoder.write_all(data).is_err() {
        return None;
    }
    match encoder.flush() {
        Ok(()) => Some(encoder.into_inner()),
        Err(_) => None,
    }
}

/// Calls `std::str::from_utf8`, which succeeds exactly on well-formed UTF-8.
#[verifier::external_body]
pub(crate) fn is_utf8(data: &[u8]) -> (ok: bool)
    ensures
        ok == vstd::utf8::valid_utf8(data@),
{
    std::str::from_utf8(data).is_ok()
}

/// Formats an `axum::http::StatusCode` with its `Display`: the number, a
/// space, and the canonical reason phrase or a fixed stand-in for codes that
/// have none. Codes outside 100..=999 are not status codes.
#[verifier::external_body]
pub(crate) fn status_line(code: u16) -> (line: String)
    requires
        100 <= code <= 999,
    ensures
        line@ == status_text(code),
{
    match axum::http::StatusCode::from_u16(code) {
        Ok(status) => status.to_string(),
        Err(_) => String::new(),
    }
}

} // verus!
