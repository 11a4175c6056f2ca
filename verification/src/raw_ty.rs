//! The closed set of raw type tokens that the server uses in type
//! signatures, with their exact wire spellings.

use vstd::prelude::*;

verus! {

/// A raw server-side type token. The wire spelling of each token is given by
/// [`spec_raw_str`]; parsing and rendering are exact inverses
/// (see [`lemma_raw_ty_round_trip`]).
#[derive(Clone, Copy, Debug, Eq, PartialEq, Structural)]
pub enum RawTrinoTy {
    BigInt,
    Integer,
    SmallInt,
    TinyInt,
    Boolean,
    Date,
    Decimal,
    Real,
    Double,
    HyperLogLog,
    QDigest,
    P4HyperLogLog,
    IntervalDayToSecond,
    IntervalYearToMonth,
    Timestamp,
    TimestampWithTimeZone,
    Time,
    TimeWithTimeZone,
    VarBinary,
    VarChar,
    Char,
    Row,
    Array,
    MapTy,
    Json,
    IpAddress,
    Uuid,
    Unknown,
}

/// The exact string form of each raw type token, as the server spells it
/// (case-sensitive where the server is).
pub open spec fn spec_raw_str(t: RawTrinoTy) -> Seq<char> {
    match t {
        RawTrinoTy::BigInt => "bigint"@,
        RawTrinoTy::Integer => "integer"@,
        RawTrinoTy::SmallInt => "smallint"@,
        RawTrinoTy::TinyInt => "tinyint"@,
        RawTrinoTy::Boolean => "boolean"@,
        RawTrinoTy::Date => "date"@,
        RawTrinoTy::Decimal => "decimal"@,
        RawTrinoTy::Real => "real"@,
        RawTrinoTy::Double => "double"@,
        RawTrinoTy::HyperLogLog => "HyperLogLog"@,
        RawTrinoTy::QDigest => "qdigest"@,
        RawTrinoTy::P4HyperLogLog => "P4HyperLogLog"@,
        RawTrinoTy::IntervalDayToSecond => "interval day to second"@,
        RawTrinoTy::IntervalYearToMonth => "interval year to month"@,
        RawTrinoTy::Timestamp => "timestamp"@,
        RawTrinoTy::TimestampWithTimeZone => "timestamp with time zone"@,
        RawTrinoTy::Time => "time"@,
        RawTrinoTy::TimeWithTimeZone => "time with time zone"@,
        RawTrinoTy::VarBinary => "varbinary"@,
        RawTrinoTy::VarChar => "varchar"@,
        RawTrinoTy::Char => "char"@,
        RawTrinoTy::Row => "row"@,
        RawTrinoTy::Array => "array"@,
        RawTrinoTy::MapTy => "map"@,
        RawTrinoTy::Json => "json"@,
        RawTrinoTy::IpAddress => "ipaddress"@,
        RawTrinoTy::Uuid => "uuid"@,
        RawTrinoTy::Unknown => "unknown"@,
    }
}

/// What [`RawTrinoTy::parse`] returns on a given string: the token whose
/// spelling matches exactly, or `None`.
pub open spec fn spec_raw_parse(s: Seq<char>) -> Option<RawTrinoTy> {
    if s == "bigint"@ {
        Some(RawTrinoTy::BigInt)
    } else if s == "integer"@ {
        Some(RawTrinoTy::Integer)
    } else if s == "smallint"@ {
        Some(RawTrinoTy::SmallInt)
    } else if s == "tinyint"@ {
        Some(RawTrinoTy::TinyInt)
    } else if s == "boolean"@ {
        Some(RawTrinoTy::Boolean)
    } else if s == "date"@ {
        Some(RawTrinoTy::Date)
    } else if s == "decimal"@ {
        Some(RawTrinoTy::Decimal)
    } else if s == "real"@ {
        Some(RawTrinoTy::Real)
    } else if s == "double"@ {
        Some(RawTrinoTy::Double)
    } else if s == "HyperLogLog"@ {
        Some(RawTrinoTy::HyperLogLog)
    } else if s == "qdigest"@ {
        Some(RawTrinoTy::QDigest)
    } else if s == "P4HyperLogLog"@ {
        Some(RawTrinoTy::P4HyperLogLog)
    } else if s == "interval day to second"@ {
        Some(RawTrinoTy::IntervalDayToSecond)
    } else if s == "interval year to month"@ {
        Some(RawTrinoTy::IntervalYearToMonth)
    } else if s == "timestamp"@ {
        Some(RawTrinoTy::Timestamp)
    } else if s == "timestamp with time zone"@ {
        Some(RawTrinoTy::TimestampWithTimeZone)
    } else if s == "time"@ {
        Some(RawTrinoTy::Time)
    } else if s == "time with time zone"@ {
        Some(RawTrinoTy::TimeWithTimeZone)
    } else if s == "varbinary"@ {
        Some(RawTrinoTy::VarBinary)
    } else if s == "varchar"@ {
        Some(RawTrinoTy::VarChar)
    } else if s == "char"@ {
        Some(RawTrinoTy::Char)
    } else if s == "row"@ {
        Some(RawTrinoTy::Row)
    } else if s == "array"@ {
        Some(RawTrinoTy::Array)
    } else if s == "map"@ {
        Some(RawTrinoTy::MapTy)
    } else if s == "json"@ {
        Some(RawTrinoTy::Json)
    } else if s == "ipaddress"@ {
        Some(RawTrinoTy::IpAddress)
    } else if s == "uuid"@ {
        Some(RawTrinoTy::Uuid)
    } else if s == "unknown"@ {
        Some(RawTrinoTy::Unknown)
    } else {
        None
    }
}

/// String equality on `&str`, exact on the character views.
pub fn str_eq(a: &str, b: &str) -> (r: bool)
    ensures
        r == (a@ == b@),
{
    a.to_owned() == b.to_owned()
}

impl RawTrinoTy {
    /// Render the token in its exact wire spelling.
    pub fn to_str(&self) -> (r: &'static str)
        ensures
            r@ == spec_raw_str(*self),
    {
        match *self {
            RawTrinoTy::BigInt => "bigint",
            RawTrinoTy::Integer => "integer",
            RawTrinoTy::SmallInt => "smallint",
            RawTrinoTy::TinyInt => "tinyint",
            RawTrinoTy::Boolean => "boolean",
            RawTrinoTy::Date => "date",
            RawTrinoTy::Decimal => "decimal",
            RawTrinoTy::Real => "real",
            RawTrinoTy::Double => "double",
            RawTrinoTy::HyperLogLog => "HyperLogLog",
            RawTrinoTy::QDigest => "qdigest",
            RawTrinoTy::P4HyperLogLog => "P4HyperLogLog",
            RawTrinoTy::IntervalDayToSecond => "interval day to second",
            RawTrinoTy::IntervalYearToMonth => "interval year to month",
            RawTrinoTy::Timestamp => "timestamp",
            RawTrinoTy::TimestampWithTimeZone => "timestamp with time zone",
            RawTrinoTy::Time => "time",
            RawTrinoTy::TimeWithTimeZone => "time with time zone",
            RawTrinoTy::VarBinary => "varbinary",
            RawTrinoTy::VarChar => "varchar",
            RawTrinoTy::Char => "char",
            RawTrinoTy::Row => "row",
            RawTrinoTy::Array => "array",
            RawTrinoTy::MapTy => "map",
            RawTrinoTy::Json => "json",
            RawTrinoTy::IpAddress => "ipaddress",
            RawTrinoTy::Uuid => "uuid",
            RawTrinoTy::Unknown => "unknown",
        }
    }

    /// Parse a wire spelling back into a token; `None` on anything outside
    /// the closed set.
    pub fn parse(s: &str) -> (r: Option<Self>)
        ensures
            r == spec_raw_parse(s@),
    {
        if str_eq(s, "bigint") {
            Some(RawTrinoTy::BigInt)
        } else if str_eq(s, "integer") {
            Some(RawTrinoTy::Integer)
        } else if str_eq(s, "smallint") {
            Some(RawTrinoTy::SmallInt)
        } else if str_eq(s, "tinyint") {
            Some(RawTrinoTy::TinyInt)
        } else if str_eq(s, "boolean") {
            Some(RawTrinoTy::Boolean)
        } else if str_eq(s, "date") {
            Some(RawTrinoTy::Date)
        } else if str_eq(s, "decimal") {
            Some(RawTrinoTy::Decimal)
        } else if str_eq(s, "real") {
            Some(RawTrinoTy::Real)
        } else if str_eq(s, "double") {
            Some(RawTrinoTy::Double)
        } else if str_eq(s, "HyperLogLog") {
            Some(RawTrinoTy::HyperLogLog)
        } else if str_eq(s, "qdigest") {
            Some(RawTrinoTy::QDigest)
        } else if str_eq(s, "P4HyperLogLog") {
            Some(RawTrinoTy::P4HyperLogLog)
        } else if str_eq(s, "interval day to second") {
            Some(RawTrinoTy::IntervalDayToSecond)
        } else if str_eq(s, "interval year to month") {
            Some(RawTrinoTy::IntervalYearToMonth)
        } else if str_eq(s, "timestamp") {
            Some(RawTrinoTy::Timestamp)
        } else if str_eq(s, "timestamp with time zone") {
            Some(RawTrinoTy::TimestampWithTimeZone)
        } else if str_eq(s, "time") {
            Some(RawTrinoTy::Time)
        } else if str_eq(s, "time with time zone") {
            Some(RawTrinoTy::TimeWithTimeZone)
        } else if str_eq(s, "varbinary") {
            Some(RawTrinoTy::VarBinary)
        } else if str_eq(s, "varchar") {
            Some(RawTrinoTy::VarChar)
        } else if str_eq(s, "char") {
            Some(RawTrinoTy::Char)
        } else if str_eq(s, "row") {
            Some(RawTrinoTy::Row)
        } else if str_eq(s, "array") {
            Some(RawTrinoTy::Array)
        } else if str_eq(s, "map") {
            Some(RawTrinoTy::MapTy)
        } else if str_eq(s, "json") {
            Some(RawTrinoTy::Json)
        } else if str_eq(s, "ipaddress") {
            Some(RawTrinoTy::IpAddress)
        } else if str_eq(s, "uuid") {
            Some(RawTrinoTy::Uuid)
        } else if str_eq(s, "unknown") {
            Some(RawTrinoTy::Unknown)
        } else {
            None
        }
    }
}

/// Parsing a rendered token gives the token back: the wire spellings are
/// pairwise distinct, so the string form identifies the token.
pub proof fn lemma_raw_ty_round_trip(t: RawTrinoTy)
    ensures
        spec_raw_parse(spec_raw_str(t)) == Some(t),
{
    reveal_strlit("bigint");
    reveal_strlit("integer");
    reveal_strlit("smallint");
    reveal_strlit("tinyint");
    reveal_strlit("boolean");
    reveal_strlit("date");
    reveal_strlit("decimal");
    reveal_strlit("real");
    reveal_strlit("double");
    reveal_strlit("HyperLogLog");
    reveal_strlit("qdigest");
    reveal_strlit("P4HyperLogLog");
    reveal_strlit("interval day to second");
    reveal_strlit("interval year to month");
    reveal_strlit("timestamp");
    reveal_strlit("timestamp with time zone");
    reveal_strlit("time");
    reveal_strlit("time with time zone");
    reveal_strlit("varbinary");
    reveal_strlit("varchar");
    reveal_strlit("char");
    reveal_strlit("row");
    reveal_strlit("array");
    reveal_strlit("map");
    reveal_strlit("json");
    reveal_strlit("ipaddress");
    reveal_strlit("uuid");
    reveal_strlit("unknown");
    assert("bigint"@.len() == 6);
    assert("bigint"@[0] == 'b');
    assert("integer"@.len() == 7);
    assert("integer"@[0] == 'i');
    assert("smallint"@.len() == 8);
    assert("smallint"@[0] == 's');
    assert("tinyint"@.len() == 7);
    assert("tinyint"@[0] == 't');
    assert("boolean"@.len() == 7);
    assert("boolean"@[0] == 'b');
    assert("date"@.len() == 4);
    assert("date"@[0] == 'd');
    assert("decimal"@.len() == 7);
    assert("decimal"@[0] == 'd');
    assert("real"@.len() == 4);
    assert("real"@[0] == 'r');
    assert("double"@.len() == 6);
    assert("double"@[0] == 'd');
    assert("HyperLogLog"@.len() == 11);
    assert("HyperLogLog"@[0] == 'H');
    assert("qdigest"@.len() == 7);
    assert("qdigest"@[0] == 'q');
    assert("P4HyperLogLog"@.len() == 13);
    assert("P4HyperLogLog"@[0] == 'P');
    assert("interval day to second"@.len() == 22);
    assert("interval day to second"@[0] == 'i');
    assert("interval year to month"@.len() == 22);
    assert("interval year to month"@[0] == 'i');
    assert("timestamp"@.len() == 9);
    assert("timestamp"@[0] == 't');
    assert("timestamp with time zone"@.len() == 24);
    assert("timestamp with time zone"@[0] == 't');
    assert("time"@.len() == 4);
    assert("time"@[0] == 't');
    assert("time with time zone"@.len() == 19);
    assert("time with time zone"@[0] == 't');
    assert("varbinary"@.len() == 9);
    assert("varbinary"@[0] == 'v');
    assert("varchar"@.len() == 7);
    assert("varchar"@[0] == 'v');
    assert("char"@.len() == 4);
    assert("char"@[0] == 'c');
    assert("row"@.len() == 3);
    assert("row"@[0] == 'r');
    assert("array"@.len() == 5);
    assert("array"@[0] == 'a');
    assert("map"@.len() == 3);
    assert("map"@[0] == 'm');
    assert("json"@.len() == 4);
    assert("json"@[0] == 'j');
    assert("ipaddress"@.len() == 9);
    assert("ipaddress"@[0] == 'i');
    assert("uuid"@.len() == 4);
    assert("uuid"@[0] == 'u');
    assert("unknown"@.len() == 7);
    assert("unknown"@[0] == 'u');
    assert("interval day to second"@[9] == 'd');
    assert("interval year to month"@[9] == 'y');
    match t {
        RawTrinoTy::BigInt => {
            assert(spec_raw_parse(spec_raw_str(t)) == Some(t));
        },
        RawTrinoTy::Integer => {
            assert(spec_raw_parse(spec_raw_str(t)) == Some(t));
        },
        RawTrinoTy::SmallInt => {
            assert(spec_raw_parse(spec_raw_str(t)) == Some(t));
        },
        RawTrinoTy::TinyInt => {
            assert(spec_raw_parse(spec_raw_str(t)) == Some(t));
        },
        RawTrinoTy::Boolean => {
            assert(spec_raw_parse(spec_raw_str(t)) == Some(t));
        },
        RawTrinoTy::Date => {
            assert(spec_raw_parse(spec_raw_str(t)) == Some(t));
        },
        RawTrinoTy::Decimal => {
            assert(spec_raw_parse(spec_raw_str(t)) == Some(t));
        },
        RawTrinoTy::Real => {
            assert(spec_raw_parse(spec_raw_str(t)) == Some(t));
        },
        RawTrinoTy::Double => {
            assert(spec_raw_parse(spec_raw_str(t)) == Some(t));
        },
        RawTrinoTy::HyperLogLog => {
            assert(spec_raw_parse(spec_raw_str(t)) == Some(t));
        },
        RawTrinoTy::QDigest => {
            assert(spec_raw_parse(spec_raw_str(t)) == Some(t));
        },
        RawTrinoTy::P4HyperLogLog => {
            assert(spec_raw_parse(spec_raw_str(t)) == Some(t));
        },
        RawTrinoTy::IntervalDayToSecond => {
            assert(spec_raw_parse(spec_raw_str(t)) == Some(t));
        },
        RawTrinoTy::IntervalYearToMonth => {
            assert(spec_raw_parse(spec_raw_str(t)) == Some(t));
        },
        RawTrinoTy::Timestamp => {
            assert(spec_raw_parse(spec_raw_str(t)) == Some(t));
        },
        RawTrinoTy::TimestampWithTimeZone => {
            assert(spec_raw_parse(spec_raw_str(t)) == Some(t));
        },
        RawTrinoTy::Time => {
            assert(spec_raw_parse(spec_raw_str(t)) == Some(t));
        },
        RawTrinoTy::TimeWithTimeZone => {
            assert(spec_raw_parse(spec_raw_str(t)) == Some(t));
        },
        RawTrinoTy::VarBinary => {
            assert(spec_raw_parse(spec_raw_str(t)) == Some(t));
        },
        RawTrinoTy::VarChar => {
            assert(spec_raw_parse(spec_raw_str(t)) == Some(t));
        },
        RawTrinoTy::Char => {
            assert(spec_raw_parse(spec_raw_str(t)) == Some(t));
        },
        RawTrinoTy::Row => {
            assert(spec_raw_parse(spec_raw_str(t)) == Some(t));
        },
        RawTrinoTy::Array => {
            assert(spec_raw_parse(spec_raw_str(t)) == Some(t));
        },
        RawTrinoTy::MapTy => {
            assert(spec_raw_parse(spec_raw_str(t)) == Some(t));
        },
        RawTrinoTy::Json => {
            assert(spec_raw_parse(spec_raw_str(t)) == Some(t));
        },
        RawTrinoTy::IpAddress => {
            assert(spec_raw_parse(spec_raw_str(t)) == Some(t));
        },
        RawTrinoTy::Uuid => {
            assert(spec_raw_parse(spec_raw_str(t)) == Some(t));
        },
        RawTrinoTy::Unknown => {
            assert(spec_raw_parse(spec_raw_str(t)) == Some(t));
        },
    }
}

} // verus!
