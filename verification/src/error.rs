//! The unified error type: every failure in the library carries a
//! human-readable message, an HTTP status code, and the place it arose,
//! and knows how to render itself as a response body.

use vstd::prelude::*;

use crate::text::dec_digits;
use crate::text::escape_json;
use crate::text::escape_json_spec;
use crate::text::opt_str_view;
use crate::text::contains_sub;
use crate::text::contains_sub_exec;
use crate::text::u64_to_dec;

verus! {

/// HTTP status for a malformed request.
pub const BAD_REQUEST: u16 = 400;

/// HTTP status for an internal failure.
pub const INTERNAL_SERVER_ERROR: u16 = 500;

/// Where an [`Error`] arose.
#[derive(Debug, Clone, PartialEq)]
pub enum ErrorCause {
    /// Carried over from the surrounding transport; holds its message.
    Worker(String),
    /// Raised while binding a query to a target shape.
    Query,
    /// Raised by a header operation.
    Header,
    /// Raised while rendering a JSON body.
    Json,
}

/// The payload-free shape of an [`ErrorCause`], for use in contracts.
#[derive(Debug, Clone, Copy, PartialEq, Eq, Structural)]
pub enum CauseKind {
    Worker,
    Query,
    Header,
    Json,
}

pub open spec fn cause_kind(c: ErrorCause) -> CauseKind {
    match c {
        ErrorCause::Worker(_) => CauseKind::Worker,
        ErrorCause::Query => CauseKind::Query,
        ErrorCause::Header => CauseKind::Header,
        ErrorCause::Json => CauseKind::Json,
    }
}

/// Top level error.
#[derive(Debug, Clone, PartialEq)]
pub struct Error {
    pub message: String,
    pub status_code: u16,
    pub cause: ErrorCause,
}

/// The model of an [`Error`] in contracts: message, status code, cause kind.
pub open spec fn err_model(e: Error) -> (Seq<char>, u16, CauseKind) {
    (e.message@, e.status_code, cause_kind(e.cause))
}

/// The wire format of an error body.
pub open spec fn error_json(msg: Seq<char>, status: int) -> Seq<char> {
    "{\"message\":\""@ + escape_json_spec(msg) + "\",\"statusCode\":"@ + dec_digits(status)
        + ",\"success\":false}"@
}

/// Whether an `Accept` header admits a JSON response body.
pub open spec fn accepts_json(accept: Option<Seq<char>>) -> bool {
    match accept {
        None => false,
        Some(a) => contains_sub(a, "*/*"@) || contains_sub(a, "application/json"@),
    }
}

/// A rendered error, ready to be written out as a response.
#[derive(Debug, Clone, PartialEq)]
pub struct ErrorRendering {
    pub status_code: u16,
    pub body: String,
    pub content_type_json: bool,
}

impl Error {
    /// Creates a new [`Error`].
    pub fn new(message: String, status_code: u16, cause: ErrorCause) -> (r: Self)
        ensures
            r.message == message,
            r.status_code == status_code,
            r.cause == cause,
    {
        Self { message, status_code, cause }
    }

    /// Wrap a failure of the surrounding transport, whose status code is used
    /// where it carries one and defaults to an internal error otherwise.
    pub fn from_transport(message: String, status_code: Option<u16>) -> (r: Self)
        ensures
            r.message == message,
            r.status_code == (match status_code {
                Some(s) => s,
                None => INTERNAL_SERVER_ERROR,
            }),
            r.cause == ErrorCause::Worker(message),
    {
        let status: u16 = match status_code {
            Some(s) => s,
            None => INTERNAL_SERVER_ERROR,
        };
        Self { message: message.clone(), status_code: status, cause: ErrorCause::Worker(message) }
    }

    /// Returns the underlying error's occurrence.
    pub fn cause(&self) -> (r: &ErrorCause)
        ensures
            r == &self.cause,
    {
        &self.cause
    }

    /// Get the underlying error message.
    pub fn description(&self) -> (r: String)
        ensures
            r@ == self.message@,
    {
        self.message.clone()
    }

    /// The HTTP status code this error maps to.
    pub fn status_code(&self) -> (r: u16)
        ensures
            r == self.status_code,
    {
        self.status_code
    }

    /// Render the error as its JSON wire format:
    /// `{"message": ..., "statusCode": ..., "success": false}`.
    pub fn to_json_body(&self) -> (r: String)
        ensures
            r@ == error_json(self.message@, self.status_code as int),
    {
        let mut out = String::from_str("{\"message\":\"");
        let escaped = escape_json(self.message.as_str());
        out.append(escaped.as_str());
        out.append("\",\"statusCode\":");
        let dec = u64_to_dec(self.status_code as u64);
        out.append(dec.as_str());
        out.append(",\"success\":false}");
        proof {
            assert(out@ =~= error_json(self.message@, self.status_code as int));
        }
        out
    }

    /// Render the error as a response: the JSON body with this error's
    /// status, marked as `application/json` exactly when the request's
    /// `Accept` header admits it.
    pub fn error_response(&self, accept: Option<&str>) -> (r: ErrorRendering)
        ensures
            r.status_code == self.status_code,
            r.body@ == error_json(self.message@, self.status_code as int),
            r.content_type_json == accepts_json(opt_str_view(accept)),
    {
        ErrorRendering {
            status_code: self.status_code,
            body: self.to_json_body(),
            content_type_json: accept_json(accept),
        }
    }
}

/// Whether the `Accept` header accepts `*/*` or `application/json`.
pub fn accept_json(accept: Option<&str>) -> (r: bool)
    ensures
        r == accepts_json(opt_str_view(accept)),
{
    match accept {
        None => false,
        Some(a) => contains_sub_exec(a, "*/*") || contains_sub_exec(a, "application/json"),
    }
}

} // verus!
