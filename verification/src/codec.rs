//! The codec layer: base64 decoding of inline segments, and the
//! zstd / lz4 decompression of spooled payloads with the fall-back to
//! plain JSON for servers that skip compression.

use base64::Engine;
use vstd::prelude::*;
use vstd::utf8::{decode_utf8, valid_utf8};

use crate::encoding::{SpoolingEncoding, spec_encoding_parse};
use crate::error::Error;

verus! {

/// What standard, padded base64 decoding yields on a string, if it is
/// valid base64.
pub uninterp spec fn base64_decoded(s: Seq<char>) -> Option<Seq<u8>>;

/// What Zstandard decompression yields on a byte string, if it is a valid
/// frame.
pub uninterp spec fn zstd_inflated(b: Seq<u8>) -> Option<Seq<u8>>;

/// What LZ4 decompression yields on a byte string, if it is a valid
/// frame.
pub uninterp spec fn lz4_inflated(b: Seq<u8>) -> Option<Seq<u8>>;

/// Relies on base64's standard engine: decoding depends on the input
/// characters alone, and fails exactly on ill-formed base64.
#[verifier::external_body]
pub(crate) fn base64_decode(s: &str) -> (r: Option<Vec<u8>>)
    ensures
        r is Some <==> base64_decoded(s@) is Some,
        r matches Some(v) ==> Some(v@) == base64_decoded(s@),
{
    base64::engine::general_purpose::STANDARD.decode(s).ok()
}

/// Relies on zstd's `decode_all`: decompression depends on the input
/// bytes alone, and fails exactly on data that is no zstd frame.
#[verifier::external_body]
fn zstd_try_inflate(b: &Vec<u8>) -> (r: Option<Vec<u8>>)
    ensures
        r is Some <==> zstd_inflated(b@) is Some,
        r matches Some(v) ==> Some(v@) == zstd_inflated(b@),
{
    zstd::stream::decode_all(&b[..]).ok()
}

/// Relies on lz4's `Decoder`: decompression depends on the input bytes
/// alone, and fails exactly on data that is no lz4 frame.
#[verifier::external_body]
fn lz4_try_inflate(b: &Vec<u8>) -> (r: Option<Vec<u8>>)
    ensures
        r is Some <==> lz4_inflated(b@) is Some,
        r matches Some(v) ==> Some(v@) == lz4_inflated(b@),
{
    let mut decoder = lz4::Decoder::new(&b[..]).ok()?;
    let mut out = Vec::new();
    std::io::Read::read_to_end(&mut decoder, &mut out).ok()?;
    Some(out)
}

/// Relies on `String::from_utf8`: accepts exactly valid UTF-8 and decodes
/// it to the characters it encodes.
#[verifier::external_body]
pub(crate) fn bytes_to_utf8(b: &Vec<u8>) -> (r: Option<String>)
    ensures
        r is Some <==> valid_utf8(b@),
        r matches Some(s) ==> s@ == decode_utf8(b@),
{
    String::from_utf8(b.clone()).ok()
}

/// Reading bytes as plain UTF-8 JSON: the fall-back of every encoding.
pub open spec fn spec_plain_utf8(b: Seq<u8>) -> Option<Seq<char>> {
    if valid_utf8(b) {
        Some(decode_utf8(b))
    } else {
        None
    }
}

/// What decompressing a payload under an encoding yields:
/// - `json` reads the bytes as UTF-8, verbatim;
/// - `json+zstd` / `json+lz4` decompress, then read the output as UTF-8;
///   if the codec rejects the bytes, or its output is not UTF-8, the raw
///   bytes are re-read as plain UTF-8 JSON instead;
/// - `None` only when the fall-back also fails, i.e. the raw bytes are
///   not UTF-8 either.
pub open spec fn spec_decompress(b: Seq<u8>, e: SpoolingEncoding) -> Option<Seq<char>> {
    match e {
        SpoolingEncoding::Json => spec_plain_utf8(b),
        SpoolingEncoding::JsonZstd => match zstd_inflated(b) {
            Some(d) => match spec_plain_utf8(d) {
                Some(s) => Some(s),
                None => spec_plain_utf8(b),
            },
            None => spec_plain_utf8(b),
        },
        SpoolingEncoding::JsonLz4 => match lz4_inflated(b) {
            Some(d) => match spec_plain_utf8(d) {
                Some(s) => Some(s),
                None => spec_plain_utf8(b),
            },
            None => spec_plain_utf8(b),
        },
    }
}

/// Decompress already-decoded segment bytes under an encoding, with the
/// fall-back to plain JSON.
pub fn decompress_segment_bytes(data: &Vec<u8>, encoding: &SpoolingEncoding) -> (r: Result<
    String,
    Error,
>)
    ensures
        r is Ok <==> spec_decompress(data@, *encoding) is Some,
        r matches Ok(s) ==> Some(s@) == spec_decompress(data@, *encoding),
        r matches Err(e) ==> e is InternalError,
{
    match encoding {
        SpoolingEncoding::Json => match bytes_to_utf8(data) {
            Some(s) => Ok(s),
            None => Err(internal_msg("Failed to convert uncompressed data to UTF-8")),
        },
        SpoolingEncoding::JsonZstd => {
            match zstd_try_inflate(data) {
                Some(d) => match bytes_to_utf8(&d) {
                    Some(s) => Ok(s),
                    None => fallback_plain(data, "Failed to decompress zstd data"),
                },
                None => fallback_plain(data, "Failed to decompress zstd data"),
            }
        },
        SpoolingEncoding::JsonLz4 => {
            match lz4_try_inflate(data) {
                Some(d) => match bytes_to_utf8(&d) {
                    Some(s) => Ok(s),
                    None => fallback_plain(data, "Failed to decompress lz4 data"),
                },
                None => fallback_plain(data, "Failed to decompress lz4 data"),
            }
        },
    }
}

/// Re-read raw payload bytes as plain UTF-8 JSON after a codec failure.
fn fallback_plain(data: &Vec<u8>, what: &str) -> (r: Result<String, Error>)
    ensures
        r is Ok <==> spec_plain_utf8(data@) is Some,
        r matches Ok(s) ==> Some(s@) == spec_plain_utf8(data@),
        r matches Err(e) ==> e is InternalError,
{
    match bytes_to_utf8(data) {
        Some(s) => Ok(s),
        None => {
            let mut m = String::new();
            m.append(what);
            m.append(" and plain JSON fallback also failed");
            Err(Error::InternalError(m))
        },
    }
}

fn internal_msg(what: &str) -> (r: Error)
    ensures
        r is InternalError,
{
    let mut m = String::new();
    m.append(what);
    Error::InternalError(m)
}

/// What decoding an inline segment yields: base64-decode the text, then
/// decompress under the named encoding; an unrecognized encoding name or
/// ill-formed base64 yields nothing.
pub open spec fn spec_decode_inline(data: Seq<char>, encoding: Seq<char>) -> Option<Seq<char>> {
    match spec_encoding_parse(encoding) {
        Some(e) => match base64_decoded(data) {
            Some(b) => spec_decompress(b, e),
            None => None,
        },
        None => None,
    }
}

/// Decode an inline segment: parse the encoding name, base64-decode the
/// payload, then decompress with the fall-back to plain JSON.
pub fn decode_inline_segment(encoded_data: &str, encoding: &str) -> (r: Result<String, Error>)
    ensures
        r is Ok <==> spec_decode_inline(encoded_data@, encoding@) is Some,
        r matches Ok(s) ==> Some(s@) == spec_decode_inline(encoded_data@, encoding@),
        r matches Err(e) ==> e is InternalError,
{
    let enc = match SpoolingEncoding::parse(encoding) {
        Ok(e) => e,
        Err(e) => {
            return Err(e);
        },
    };
    let bytes = match base64_decode(encoded_data) {
        Some(b) => b,
        None => {
            return Err(internal_msg("Failed to base64 decode segment"));
        },
    };
    decompress_segment_bytes(&bytes, &enc)
}

/// The codec fall-back law: on bytes that neither codec accepts — plain
/// JSON in particular — every encoding decompresses to the same result,
/// the bytes read verbatim as UTF-8.
pub proof fn lemma_codec_fallback(b: Seq<u8>)
    requires
        zstd_inflated(b) is None,
        lz4_inflated(b) is None,
    ensures
        spec_decompress(b, SpoolingEncoding::JsonZstd) == spec_decompress(
            b,
            SpoolingEncoding::Json,
        ),
        spec_decompress(b, SpoolingEncoding::JsonLz4) == spec_decompress(
            b,
            SpoolingEncoding::Json,
        ),
        valid_utf8(b) ==> spec_decompress(b, SpoolingEncoding::Json) == Some(decode_utf8(b)),
{
}

/// The decompression law for compressed payloads: whenever a codec
/// accepts the bytes and its output is UTF-8, the result is exactly that
/// output, decoded — the fall-back is never taken on well-formed frames.
pub proof fn lemma_codec_inflates(b: Seq<u8>)
    ensures
        zstd_inflated(b) matches Some(d) ==> (valid_utf8(d) ==> spec_decompress(
            b,
            SpoolingEncoding::JsonZstd,
        ) == Some(decode_utf8(d))),
        lz4_inflated(b) matches Some(d) ==> (valid_utf8(d) ==> spec_decompress(
            b,
            SpoolingEncoding::JsonLz4,
        ) == Some(decode_utf8(d))),
{
}

} // verus!
