//! Links to recordings: the absolute base URL a client reaches the server
//! at.

use vstd::prelude::*;
use crate::federation::auth::opt_str_view;
use crate::input::keys::opt_string_view;
use crate::text::{chars_of, chars_start_with, concat3, owned, starts_with};

verus! {

/// The host a client reached the server at: the `Host` header, else the
/// server's TCP address, else `localhost:8080`.
pub open spec fn request_host(host_header: Option<Seq<char>>, tcp_addr: Option<Seq<char>>) -> Seq<char> {
    match host_header {
        Some(h) => h,
        None => match tcp_addr {
            Some(a) => a,
            None => "localhost:8080"@,
        },
    }
}

/// The scheme used for links: `http` for local hosts (`localhost…`,
/// `127.…`), `https` otherwise.
pub open spec fn link_scheme(host: Seq<char>) -> Seq<char> {
    if starts_with(host, "localhost"@) || starts_with(host, "127."@) {
        "http"@
    } else {
        "https"@
    }
}

/// Compute the absolute base URL `{scheme}://{host}` from the `Host` header
/// value, falling back to the server's TCP address (as text).
pub fn absolute_base_url(host_header: Option<&str>, tcp_addr: Option<String>) -> (r: String)
    ensures
        r@ == link_scheme(request_host(opt_str_view(host_header), opt_string_view(tcp_addr))) + "://"@
            + request_host(opt_str_view(host_header), opt_string_view(tcp_addr)),
{
    let host = match host_header {
        Some(h) => owned(h),
        None => match tcp_addr {
            Some(a) => a,
            None => owned("localhost:8080"),
        },
    };
    let v = chars_of(host.as_str());
    let scheme = if chars_start_with(&v, "localhost") || chars_start_with(&v, "127.") {
        "http"
    } else {
        "https"
    };
    concat3(scheme, "://", host.as_str())
}

} // verus!
