//! Spooled result segments, their metadata, and the transport-level
//! decoding of remote segment responses.

use vstd::prelude::*;

use crate::codec::base64_decode;
use crate::error::Error;

verus! {

/// The recognized metadata of a segment: three optional longs; anything
/// else in the server's metadata bag is ignored.
#[derive(Debug)]
pub struct DataAttributes {
    pub row_offset: Option<u64>,
    pub rows_count: Option<u64>,
    pub segment_size: Option<u64>,
}

impl DataAttributes {
    /// The row offset of the segment within the result, when given.
    pub fn row_offset(&self) -> (r: Option<u64>)
        ensures
            r == self.row_offset,
    {
        self.row_offset
    }

    /// The number of rows in the segment, when given.
    pub fn rows_count(&self) -> (r: Option<u64>)
        ensures
            r == self.rows_count,
    {
        self.rows_count
    }

    /// The size of the segment in bytes, when given.
    pub fn segment_size(&self) -> (r: Option<u64>)
        ensures
            r == self.segment_size,
    {
        self.segment_size
    }
}

/// One chunk of a spooled result: either carried inline as base64 text,
/// or spooled to a remote URI, optionally with an ack URI and extra
/// request headers.
#[derive(Debug)]
pub enum Segment {
    Inlined { data: String, metadata: DataAttributes },
    Spooled {
        uri: String,
        ack_uri: Option<String>,
        headers: Vec<(String, Vec<String>)>,
        metadata: DataAttributes,
    },
}

/// Decode the payload of an inline segment from its base64 text.
pub fn decode_inline_data(data: &str) -> (r: Result<Vec<u8>, Error>)
    ensures
        r is Ok <==> crate::codec::base64_decoded(data@) is Some,
        r matches Ok(v) ==> Some(v@) == crate::codec::base64_decoded(data@),
        r matches Err(e) ==> e is InternalError,
{
    match base64_decode(data) {
        Some(v) => Ok(v),
        None => {
            let mut m = String::new();
            m.append("Base64 decode failed");
            Err(Error::InternalError(m))
        },
    }
}

/// What gzip decompression yields on a byte string, if it is a valid
/// gzip stream.
pub uninterp spec fn gzip_inflated(b: Seq<u8>) -> Option<Seq<u8>>;

/// Relies on flate2's `GzDecoder`: decompression depends on the input
/// bytes alone, and fails exactly on data that is no gzip stream.
#[verifier::external_body]
fn gzip_try_inflate(b: &Vec<u8>) -> (r: Option<Vec<u8>>)
    ensures
        r is Some <==> gzip_inflated(b@) is Some,
        r matches Some(v) ==> Some(v@) == gzip_inflated(b@),
{
    let mut decoder = flate2::read::GzDecoder::new(&b[..]);
    let mut out = Vec::new();
    std::io::Read::read_to_end(&mut decoder, &mut out).ok()?;
    Some(out)
}

/// An ASCII character folded to lower case; anything else unchanged.
pub open spec fn spec_lower_char(c: char) -> char {
    if 'A' <= c <= 'Z' {
        ((c as u8) + 32) as char
    } else {
        c
    }
}

/// A string folded to lower case, ASCII letters only.
pub open spec fn spec_ascii_lower(s: Seq<char>) -> Seq<char> {
    Seq::new(s.len(), |i: int| if 0 <= i < s.len() { spec_lower_char(s[i]) } else { ' ' })
}

/// Fold the ASCII letters of a string to lower case.
pub fn ascii_lower(s: &str) -> (r: String)
    ensures
        r@ == spec_ascii_lower(s@),
{
    let n = s.unicode_len();
    let mut out = String::new();
    let mut i: usize = 0;
    while i < n
        invariant
            i <= n,
            n == s@.len(),
            out@ =~= spec_ascii_lower(s@).take(i as int),
        decreases n - i,
    {
        let c = s.get_char(i);
        if 'A' <= c && c <= 'Z' {
            crate::types::string_push(&mut out, ((c as u8) + 32) as char);
        } else {
            crate::types::string_push(&mut out, c);
        }
        proof {
            assert(out@ =~= spec_ascii_lower(s@).take(i + 1 as int));
        }
        i += 1;
    }
    proof {
        assert(spec_ascii_lower(s@).take(n as int) =~= spec_ascii_lower(s@));
    }
    out
}

/// What transport decoding yields for a remote segment body under a
/// `Content-Encoding` value: `gzip` (in any case) decompresses and fails
/// on a broken stream; `identity`, an empty value or an absent header
/// pass the body through; an unknown value passes the body through
/// unchanged.
pub open spec fn spec_transport_decode(body: Seq<u8>, encoding: Option<Seq<char>>) -> Option<
    Seq<u8>,
> {
    match encoding {
        Some(e) => if spec_ascii_lower(e) == "gzip"@ {
            gzip_inflated(body)
        } else {
            Some(body)
        },
        None => Some(body),
    }
}

/// Decode a remote segment body according to its `Content-Encoding`
/// header.
pub fn transport_decode(body: Vec<u8>, encoding: &Option<String>) -> (r: Result<Vec<u8>, Error>)
    ensures
        r is Ok <==> spec_transport_decode(body@, crate::session::opt_view(*encoding)) is Some,
        r matches Ok(v) ==> Some(v@) == spec_transport_decode(
            body@,
            crate::session::opt_view(*encoding),
        ),
        r matches Err(e) ==> e is InternalError,
{
    match encoding {
        Some(e) => {
            let lowered = ascii_lower(e.as_str());
            if crate::raw_ty::str_eq(lowered.as_str(), "gzip") {
                match gzip_try_inflate(&body) {
                    Some(v) => Ok(v),
                    None => {
                        let mut m = String::new();
                        m.append("Failed to decompress gzip data");
                        Err(Error::InternalError(m))
                    },
                }
            } else {
                Ok(body)
            }
        },
        None => Ok(body),
    }
}

/// The number of segment fetches run at once: as configured, with a
/// floor of one.
pub fn effective_concurrency(requested: usize) -> (r: usize)
    ensures
        r == if requested >= 1 {
            requested
        } else {
            1usize
        },
{
    if requested >= 1 {
        requested
    } else {
        1
    }
}

} // verus!
