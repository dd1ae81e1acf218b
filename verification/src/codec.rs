//! Reversible storage form of cached text: zlib-compressed UTF-8 where the
//! compressor succeeds, raw UTF-8 otherwise.

use flate2::read::ZlibDecoder;
use flate2::write::ZlibEncoder;
use flate2::Compression;
use std::io::Read;
use std::io::Write;
use vstd::prelude::*;
use vstd::slice::slice_to_vec;
use vstd::utf8::*;

verus! {

/// The zlib stream that `flate2` produces for `data` at the default compression
/// level, or `None` where the compressor reports an error.
pub uninterp spec fn zlib_deflated(data: Seq<u8>) -> Option<Seq<u8>>;

/// The bytes that `flate2` recovers from `packed` read as a zlib stream; for a
/// corrupt or truncated stream, the bytes recovered before the fault.
pub uninterp spec fn zlib_inflated(packed: Seq<u8>) -> Seq<u8>;

/// The text that `String::from_utf8_lossy` gives for bytes that are not valid
/// UTF-8: the valid stretches decoded, each invalid one replaced by U+FFFD.
pub uninterp spec fn utf8_repaired(bytes: Seq<u8>) -> Seq<char>;

/// Bytes read as UTF-8 text, with repairs where they are not valid UTF-8.
pub open spec fn lossy_text(bytes: Seq<u8>) -> Seq<char> {
    if valid_utf8(bytes) {
        decode_utf8(bytes)
    } else {
        utf8_repaired(bytes)
    }
}

/// The storage form of raw bytes, given what the compressor made of them:
/// the compressed bytes flagged `true`, or the raw bytes flagged `false`
/// where the compressor failed.
pub open spec fn packed_or_raw(raw: Seq<u8>, deflated: Option<Seq<u8>>) -> (Seq<u8>, bool) {
    match deflated {
        Some(packed) => (packed, true),
        None => (raw, false),
    }
}

/// The storage form of `text`.
pub open spec fn stored_form(text: Seq<char>) -> (Seq<u8>, bool) {
    packed_or_raw(encode_utf8(text), zlib_deflated(encode_utf8(text)))
}

/// The text that a storage form stands for.
pub open spec fn decoded_text(bytes: Seq<u8>, compressed: bool) -> Seq<char> {
    if compressed {
        lossy_text(zlib_inflated(bytes))
    } else {
        lossy_text(bytes)
    }
}

/// Runs `data` through `flate2::write::ZlibEncoder` (`new` on an empty `Vec`
/// at `Compression::default()`, `write_all`, `finish`).
///
/// Trusted: the outcome is the one named by [`zlib_deflated`], and a stream
/// that the encoder finished is read back by `flate2::read::ZlibDecoder` as
/// exactly the bytes that went in.
#[verifier::external_body]
fn zlib_compress(data: &[u8]) -> (out: Option<Vec<u8>>)
    ensures
        match out {
            Some(packed) => zlib_deflated(data@) == Some(packed@) && zlib_inflated(packed@)
                == data@,
            None => zlib_deflated(data@) is None,
        },
{
    let mut encoder = ZlibEncoder::new(Vec::new(), Compression::default());
    match encoder.write_all(data) {
        Ok(()) => encoder.finish().ok(),
        Err(_) => None,
    }
}

/// Reads `packed` to the end through `flate2::read::ZlibDecoder`, keeping what
/// was recovered when the stream turns out corrupt.
///
/// Trusted: the bytes returned are the ones named by [`zlib_inflated`].
#[verifier::external_body]
fn zlib_decompress(packed: &[u8]) -> (out: Vec<u8>)
    ensures
        out@ == zlib_inflated(packed@),
{
    let mut decoder = ZlibDecoder::new(packed);
    let mut out = Vec::new();
    let _ = decoder.read_to_end(&mut out);
    out
}

/// Calls `String::from_utf8_lossy`.
///
/// Trusted: valid UTF-8 comes back as the text it encodes; anything else as
/// the repaired text named by [`utf8_repaired`].
#[verifier::external_body]
fn utf8_lossy_string(bytes: &[u8]) -> (text: String)
    ensures
        text@ == (if valid_utf8(bytes@) {
            decode_utf8(bytes@)
        } else {
            utf8_repaired(bytes@)
        }),
{
    String::from_utf8_lossy(bytes).into_owned()
}

/// Chooses the storage form once the compressor has run: what it produced,
/// flagged as compressed, or else the raw bytes, flagged as not compressed.
pub fn storage_form(raw: Vec<u8>, deflated: Option<Vec<u8>>) -> (out: (Vec<u8>, bool))
    ensures
        out == (match deflated {
            Some(packed) => (packed, true),
            None => (raw, false),
        }),
{
    match deflated {
        Some(packed) => (packed, true),
        None => (raw, false),
    }
}

/// Encodes `text` for storage. Compression is attempted first; if the
/// compressor fails the raw UTF-8 bytes are stored instead, so encoding itself
/// never fails. Whatever form is chosen decodes back to `text`.
pub fn encode(text: &str) -> (out: (Vec<u8>, bool))
    ensures
        (out.0@, out.1) == stored_form(text@),
        decoded_text(out.0@, out.1) == text@,
{
    broadcast use {encode_utf8_valid_utf8, encode_utf8_decode_utf8};

    let raw = text.as_bytes();
    let deflated = zlib_compress(raw);
    storage_form(slice_to_vec(raw), deflated)
}

/// Decodes a storage form back to text. Never fails: bytes that are not valid
/// UTF-8, also after decompression, are repaired rather than rejected.
pub fn decode(bytes: &[u8], compressed: bool) -> (text: String)
    ensures
        text@ == decoded_text(bytes@, compressed),
{
    if compressed {
        let raw = zlib_decompress(bytes);
        utf8_lossy_string(raw.as_slice())
    } else {
        utf8_lossy_string(bytes)
    }
}

} // verus!
