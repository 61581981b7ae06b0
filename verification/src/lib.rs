//! Typed parameter binding for HTTP-style handlers.
//!
//! Given a request's URL path captures and its query string, and a schema
//! describing the target record's field names, the library produces either a
//! correctly populated value or a precise error saying what was wrong
//! (duplicate field, unrecognized field, out-of-order field, missing field).
//! Two strictness policies govern how the two independently-ordered sources
//! of key/value data are merged into the single ordered sequence that the
//! flat-record decoder consumes.

pub mod decode;
pub mod error;
pub mod headers;
pub mod laws;
pub mod middleware;
pub mod params;
pub mod schema;
pub mod text;
pub mod outside;
pub mod query;
pub mod router;
pub mod urlq;

pub use crate::decode::BoundValue;
pub use crate::decode::FieldValue;
pub use crate::error::Error;
pub use crate::error::ErrorCause;
pub use crate::headers::CookieHelper;
pub use crate::headers::CorsPolicy;
pub use crate::headers::HeadersOp;
pub use crate::headers::HttpHeaders;
pub use crate::middleware::Wrap;
pub use crate::params::Params;
pub use crate::params::PathCaptures;
pub use crate::query::Query;
pub use crate::schema::FieldDef;
pub use crate::schema::FieldTy;
pub use crate::schema::TargetShape;
pub use crate::router::Method;
pub use crate::router::Route;
pub use crate::router::Router;
