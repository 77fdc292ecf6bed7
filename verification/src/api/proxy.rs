//! Forwarding of session operations to remote backend servers.
//!
//! When a handler receives a `?server=X` query parameter targeting a remote
//! backend, the application sends the request to `http://{address}{path}`
//! (with the backend's token as a Bearer token, when it has one) and
//! returns the backend's status code and JSON body to the caller.

use vstd::prelude::*;
use crate::federation::registry::BackendEntry;
use crate::input::keys::opt_string_view;
use crate::text::concat3;

verus! {

/// Connect timeout of a proxied request, in milliseconds.
pub const CONNECT_TIMEOUT_MS: u64 = 5000;

/// Overall timeout of a proxied request, in milliseconds.
pub const REQUEST_TIMEOUT_MS: u64 = 30000;

/// A request to forward to a backend.
#[derive(Debug)]
pub struct ProxyTarget {
    pub url: String,
    pub bearer_token: Option<String>,
}

/// The URL and credentials of a request for `path` on `backend`.
pub fn proxy_target(backend: &BackendEntry, path: &str) -> (r: ProxyTarget)
    ensures
        r.url@ == "http://"@ + backend.address@ + path@,
        opt_string_view(r.bearer_token) == opt_string_view(backend.token),
{
    let token = match &backend.token {
        Some(t) => Some(t.clone()),
        None => None,
    };
    ProxyTarget { url: concat3("http://", backend.address.as_str(), path), bearer_token: token }
}

/// The status to report for a backend's status code: the code itself when
/// it is a valid HTTP status (100 to 999), else 500.
pub fn proxied_status(code: u16) -> (r: u16)
    ensures
        r == if 100 <= code <= 999 { code } else { 500 },
{
    if 100 <= code && code <= 999 {
        code
    } else {
        500
    }
}

} // verus!
