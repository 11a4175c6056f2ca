//! A verified client library for a distributed SQL engine's statement
//! API: the structural type model and its wire signatures, the schema
//! reconciler, the codec layer for spooled segments, session state and
//! header framing, and the query driver's decisions. The HTTP shell
//! around it performs the requests and hands plain values back.

pub mod auth;
pub mod codec;
pub mod context;
pub mod dataset;
pub mod driver;
pub mod encoding;
pub mod error;
pub mod headers;
pub mod kv;
pub mod models;
pub mod raw_ty;
pub mod segment;
pub mod session;
pub mod types;

pub use auth::Auth;
pub use context::Context;
pub use dataset::{DataSet, Row};
pub use driver::{Accumulator, ExecuteResult, QueryResult, QueryResultData, SpooledData};
pub use encoding::SpoolingEncoding;
pub use error::{Error, Result, TrinoError, TrinoErrorLocation, TrinoRetryResult, TrinoStats};
pub use models::{ClientTypeSignatureParameter, Column, NamedTypeSignature, RowFieldName,
    TypeSignature};
pub use raw_ty::RawTrinoTy;
pub use segment::{DataAttributes, Segment};
pub use session::{SelectedRole, Session, TransactionId};
pub use types::{TrinoFloat, TrinoInt, TrinoTy};
