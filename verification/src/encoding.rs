//! The spooled-data encodings the client understands.

use vstd::prelude::*;

use crate::error::Error;
use crate::raw_ty::str_eq;

verus! {

/// The encoding of spooled row payloads: plain JSON, or JSON behind
/// Zstandard or LZ4 compression.
#[derive(Clone, Copy, Debug, Eq, PartialEq, Hash, Structural)]
pub enum SpoolingEncoding {
    Json,
    JsonZstd,
    JsonLz4,
}

/// The wire name of each encoding.
pub open spec fn spec_encoding_str(e: SpoolingEncoding) -> Seq<char> {
    match e {
        SpoolingEncoding::Json => "json"@,
        SpoolingEncoding::JsonZstd => "json+zstd"@,
        SpoolingEncoding::JsonLz4 => "json+lz4"@,
    }
}

/// The encoding a wire name denotes, if any.
pub open spec fn spec_encoding_parse(s: Seq<char>) -> Option<SpoolingEncoding> {
    if s == "json"@ {
        Some(SpoolingEncoding::Json)
    } else if s == "json+zstd"@ {
        Some(SpoolingEncoding::JsonZstd)
    } else if s == "json+lz4"@ {
        Some(SpoolingEncoding::JsonLz4)
    } else {
        None
    }
}

impl SpoolingEncoding {
    /// The wire name of this encoding.
    pub fn as_str(self) -> (r: &'static str)
        ensures
            r@ == spec_encoding_str(self),
    {
        match self {
            SpoolingEncoding::Json => "json",
            SpoolingEncoding::JsonZstd => "json+zstd",
            SpoolingEncoding::JsonLz4 => "json+lz4",
        }
    }

    /// Whether this encoding compresses its payload.
    pub fn is_compressed(self) -> (r: bool)
        ensures
            r == (self != SpoolingEncoding::Json),
    {
        match self {
            SpoolingEncoding::Json => false,
            SpoolingEncoding::JsonZstd => true,
            SpoolingEncoding::JsonLz4 => true,
        }
    }

    /// Parse a wire name; anything outside the recognized set is rejected
    /// with an `InternalError` naming the offending value.
    pub fn parse(s: &str) -> (r: Result<Self, Error>)
        ensures
            r is Ok <==> spec_encoding_parse(s@) is Some,
            r matches Ok(e) ==> Some(e) == spec_encoding_parse(s@),
            r matches Err(e) ==> e is InternalError,
    {
        if str_eq(s, "json") {
            Ok(SpoolingEncoding::Json)
        } else if str_eq(s, "json+zstd") {
            Ok(SpoolingEncoding::JsonZstd)
        } else if str_eq(s, "json+lz4") {
            Ok(SpoolingEncoding::JsonLz4)
        } else {
            let mut m = String::new();
            m.append("Unsupported spooling encoding: ");
            m.append(s);
            m.append(". Supported values: json, json+zstd, json+lz4");
            Err(Error::InternalError(m))
        }
    }

    /// The encoding a client configuration resolves to: a recognized name
    /// is taken as written, anything else falls back to the default
    /// `json+zstd`.
    pub fn resolve(s: &str) -> (r: SpoolingEncoding)
        ensures
            spec_encoding_parse(s@) matches Some(e) ==> r == e,
            spec_encoding_parse(s@) is None ==> r == SpoolingEncoding::JsonZstd,
    {
        match Self::parse(s) {
            Ok(e) => e,
            Err(_) => SpoolingEncoding::JsonZstd,
        }
    }

    /// Parsing a rendered encoding name gives the encoding back.
    pub proof fn lemma_encoding_round_trip(e: SpoolingEncoding)
        ensures
            spec_encoding_parse(spec_encoding_str(e)) == Some(e),
    {
        reveal_strlit("json");
        reveal_strlit("json+zstd");
        reveal_strlit("json+lz4");
        assert("json"@.len() == 4);
        assert("json+zstd"@.len() == 9);
        assert("json+lz4"@.len() == 8);
    }
}

} // verus!
