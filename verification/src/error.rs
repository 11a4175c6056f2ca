//! The client's error taxonomy, and the mapping from server error names
//! onto it.

use vstd::prelude::*;

use crate::raw_ty::str_eq;

verus! {

/// An error as the statement API reports it inside a page.
#[derive(Debug)]
pub struct TrinoError {
    pub message: String,
    pub error_code: i64,
    pub error_name: String,
    pub error_type: String,
    pub error_location: Option<TrinoErrorLocation>,
}

/// The position a server error points at.
#[derive(Debug)]
pub struct TrinoErrorLocation {
    pub line_number: i64,
    pub column_number: i64,
}

/// The statistics block of a terminal status document.
#[derive(Debug)]
pub struct TrinoStats {
    pub state: String,
}

/// The terminal status document fetched after a statement finishes.
#[derive(Debug)]
pub struct TrinoRetryResult {
    pub id: String,
    pub info_uri: String,
    pub stats: TrinoStats,
    pub error: Option<TrinoError>,
    pub update_type: Option<String>,
    pub update_count: Option<u64>,
}

/// Everything that can go wrong in the client, as a flat taxonomy.
#[derive(Debug)]
pub enum Error {
    InvalidCatalog,
    CatalogNotFound,
    InvalidSchema,
    SchemaNotFound,
    SchemaAlreadyExists,
    InvalidSource,
    InvalidUser,
    InvalidProperties,
    InvalidTableProperty(String),
    TableNotFound,
    TableAlreadyExists,
    DuplicateHeader(String),
    EmptyAuth,
    Forbidden { message: String },
    BasicAuthWithHttp,
    HttpError(String),
    HttpNotOk(u16, String),
    QueryError(Box<TrinoError>),
    InconsistentData,
    EmptyData,
    ReachMaxAttempt(usize),
    InvalidHost(String),
    InternalError(String),
}

pub type Result<T> = core::result::Result<T, Error>;

/// Whether a server error name maps to a dedicated variant rather than
/// `InternalError`.
pub open spec fn spec_error_name_known(name: Seq<char>) -> bool {
    ||| name == "CATALOG_NOT_FOUND"@
    ||| name == "MISSING_CATALOG_NAME"@
    ||| name == "SCHEMA_NOT_FOUND"@
    ||| name == "MISSING_SCHEMA_NAME"@
    ||| name == "SCHEMA_ALREADY_EXISTS"@
    ||| name == "INVALID_TABLE_PROPERTY"@
    ||| name == "TABLE_NOT_FOUND"@
    ||| name == "TABLE_ALREADY_EXISTS"@
}

impl Error {
    /// Map a server error onto the taxonomy. A known error name gives its
    /// dedicated variant (`INVALID_TABLE_PROPERTY` keeps the message);
    /// an unknown one gives `InternalError` whose text holds the server's
    /// error name and message.
    pub fn from_trino_error(e: TrinoError) -> (r: Error)
        ensures
            spec_error_mapping(e.error_name@, e.message@, r),
    {
        proof {
            reveal_strlit("CATALOG_NOT_FOUND");
            assert("CATALOG_NOT_FOUND"@.len() == 17);
            assert("CATALOG_NOT_FOUND"@[0] == 'C');
            reveal_strlit("MISSING_CATALOG_NAME");
            assert("MISSING_CATALOG_NAME"@.len() == 20);
            assert("MISSING_CATALOG_NAME"@[0] == 'M');
            reveal_strlit("SCHEMA_NOT_FOUND");
            assert("SCHEMA_NOT_FOUND"@.len() == 16);
            assert("SCHEMA_NOT_FOUND"@[0] == 'S');
            reveal_strlit("MISSING_SCHEMA_NAME");
            assert("MISSING_SCHEMA_NAME"@.len() == 19);
            assert("MISSING_SCHEMA_NAME"@[0] == 'M');
            reveal_strlit("SCHEMA_ALREADY_EXISTS");
            assert("SCHEMA_ALREADY_EXISTS"@.len() == 21);
            assert("SCHEMA_ALREADY_EXISTS"@[0] == 'S');
            reveal_strlit("INVALID_TABLE_PROPERTY");
            assert("INVALID_TABLE_PROPERTY"@.len() == 22);
            assert("INVALID_TABLE_PROPERTY"@[0] == 'I');
            reveal_strlit("TABLE_NOT_FOUND");
            assert("TABLE_NOT_FOUND"@.len() == 15);
            assert("TABLE_NOT_FOUND"@[0] == 'T');
            reveal_strlit("TABLE_ALREADY_EXISTS");
            assert("TABLE_ALREADY_EXISTS"@.len() == 20);
            assert("TABLE_ALREADY_EXISTS"@[0] == 'T');
        }
        if str_eq(e.error_name.as_str(), "CATALOG_NOT_FOUND") {
            Error::CatalogNotFound
        } else if str_eq(e.error_name.as_str(), "MISSING_CATALOG_NAME") {
            Error::InvalidCatalog
        } else if str_eq(e.error_name.as_str(), "SCHEMA_NOT_FOUND") {
            Error::SchemaNotFound
        } else if str_eq(e.error_name.as_str(), "MISSING_SCHEMA_NAME") {
            Error::InvalidSchema
        } else if str_eq(e.error_name.as_str(), "SCHEMA_ALREADY_EXISTS") {
            Error::SchemaAlreadyExists
        } else if str_eq(e.error_name.as_str(), "INVALID_TABLE_PROPERTY") {
            Error::InvalidTableProperty(e.message)
        } else if str_eq(e.error_name.as_str(), "TABLE_NOT_FOUND") {
            Error::TableNotFound
        } else if str_eq(e.error_name.as_str(), "TABLE_ALREADY_EXISTS") {
            Error::TableAlreadyExists
        } else {
            let mut m = String::new();
            m.append("Trino error: ");
            m.append(e.error_name.as_str());
            m.append(" - ");
            m.append(e.message.as_str());
            proof {
                lemma_concat_contains(m@, e.error_name@, e.message@);
            }
            Error::InternalError(m)
        }
    }
}

/// What the taxonomy mapping yields for a server error: the known
/// catalog, schema and table names give their dedicated variants
/// (`INVALID_TABLE_PROPERTY` keeps the message); an unknown name gives
/// `InternalError` whose text holds the server's error name and message.
pub open spec fn spec_error_mapping(name: Seq<char>, message: Seq<char>, r: Error) -> bool {
    &&& name == "CATALOG_NOT_FOUND"@ ==> r is CatalogNotFound
    &&& name == "MISSING_CATALOG_NAME"@ ==> r is InvalidCatalog
    &&& name == "SCHEMA_NOT_FOUND"@ ==> r is SchemaNotFound
    &&& name == "MISSING_SCHEMA_NAME"@ ==> r is InvalidSchema
    &&& name == "SCHEMA_ALREADY_EXISTS"@ ==> r is SchemaAlreadyExists
    &&& name == "INVALID_TABLE_PROPERTY"@ ==> (r matches Error::InvalidTableProperty(m) && m@
        == message)
    &&& name == "TABLE_NOT_FOUND"@ ==> r is TableNotFound
    &&& name == "TABLE_ALREADY_EXISTS"@ ==> r is TableAlreadyExists
    &&& !spec_error_name_known(name) ==> (r matches Error::InternalError(m) && {
        &&& spec_contains_seq(m@, name)
        &&& spec_contains_seq(m@, message)
    })
}

/// Whether `needle` occurs contiguously inside `hay`.
pub open spec fn spec_contains_seq(hay: Seq<char>, needle: Seq<char>) -> bool {
    exists|p: int|
        0 <= p && p + needle.len() <= hay.len() && #[trigger] hay.subrange(p, p + needle.len())
            == needle
}

proof fn lemma_concat_contains(m: Seq<char>, name: Seq<char>, msg: Seq<char>)
    requires
        m == "Trino error: "@ + name + " - "@ + msg,
    ensures
        spec_contains_seq(m, name),
        spec_contains_seq(m, msg),
{
    reveal_strlit("Trino error: ");
    reveal_strlit(" - ");
    let p = "Trino error: "@.len() as int;
    assert(m.subrange(p, p + name.len()) =~= name);
    let q = m.len() - msg.len();
    assert(m.subrange(q, m.len() as int) =~= msg);
}

} // verus!
