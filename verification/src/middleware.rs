//! Handler middleware: a hook implemented by the host to compute a
//! per-request value — today a cross-origin policy — from what the request
//! shows.

use vstd::prelude::*;

use crate::headers::HttpHeaders;

verus! {

/// A handler middleware with access to the request's headers.
///
/// Route groups name an implementation of this trait to have a cross-origin
/// policy computed per request and applied to the response.
pub trait Wrap {
    /// The computed value.
    type Output;

    /// Compute the value from the request's headers.
    fn wrap(req: &HttpHeaders) -> Self::Output;
}

} // verus!
