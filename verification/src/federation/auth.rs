//! Choice of the token used to authenticate to a backend server.

use vstd::prelude::*;
use crate::text::owned;

verus! {

/// The token chosen by the cascade: the per-server token, else the default
/// token, else the local server's own token.
pub open spec fn token_cascade(
    per_server: Option<Seq<char>>,
    default_token: Option<Seq<char>>,
    local_token: Option<Seq<char>>,
) -> Option<Seq<char>> {
    if per_server is Some {
        per_server
    } else if default_token is Some {
        default_token
    } else {
        local_token
    }
}

pub open spec fn opt_str_view(o: Option<&str>) -> Option<Seq<char>> {
    match o {
        Some(s) => Some(s@),
        None => None,
    }
}

/// Resolve the auth token for connecting to a backend server.
///
/// Cascade order:
/// 1. Per-server token (explicit in config for this backend)
/// 2. Default token (from config file)
/// 3. Local server's own token (--token flag)
///
/// Returns None if no token is available at any level.
pub fn resolve_backend_token(
    per_server: Option<&str>,
    default_token: Option<&str>,
    local_token: Option<&str>,
) -> (r: Option<String>)
    ensures
        crate::input::keys::opt_string_view(r) == token_cascade(
            opt_str_view(per_server),
            opt_str_view(default_token),
            opt_str_view(local_token),
        ),
{
    let chosen = match per_server {
        Some(s) => Some(s),
        None => match default_token {
            Some(s) => Some(s),
            None => local_token,
        },
    };
    match chosen {
        Some(s) => Some(owned(s)),
        None => None,
    }
}

} // verus!
