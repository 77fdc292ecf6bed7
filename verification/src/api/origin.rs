//! WebSocket origin validation for servers that run without a token.
//!
//! When the server runs without auth (localhost), browsers can be tricked
//! into connecting via cross-origin WebSocket requests (CSWSH). Upgrade
//! requests are checked against the allowed origins.

use vstd::prelude::*;
use crate::api::auth::{is_ws_upgrade, is_ws_upgrade_value};
use crate::api::error::ApiError;
use crate::federation::auth::opt_str_view;
use crate::input::keys::strings_view;
use crate::text::str_eq;

verus! {

/// A request passes the origin check:
/// - non-WebSocket requests pass (CORS handles HTTP);
/// - requests without an `Origin` header pass (non-browser clients);
/// - otherwise the origin must be one of the allowed origins.
pub open spec fn origin_allowed(upgrade: Option<Seq<char>>, origin: Option<Seq<char>>, allowed: Seq<Seq<char>>) -> bool {
    !is_ws_upgrade_value(upgrade) || origin is None || allowed.contains(origin->0)
}

/// Check the `Origin` header of a request against the allowed origins;
/// `upgrade` and `origin` are the request's `Upgrade` and `Origin` header
/// values. Rejected requests get `OriginNotAllowed` (403).
pub fn check_ws_origin(allowed_origins: &Vec<String>, upgrade: Option<&str>, origin: Option<&str>) -> (r: Result<(), ApiError>)
    ensures
        r is Ok <==> origin_allowed(opt_str_view(upgrade), opt_str_view(origin), strings_view(allowed_origins@)),
        r is Err ==> r matches Err(ApiError::OriginNotAllowed),
{
    if !is_ws_upgrade(upgrade) {
        return Ok(());
    }
    let o = match origin {
        None => {
            return Ok(());
        },
        Some(o) => o,
    };
    let ghost allowed = strings_view(allowed_origins@);
    let mut k: usize = 0;
    while k < allowed_origins.len()
        invariant
            k <= allowed_origins@.len(),
            allowed == strings_view(allowed_origins@),
            opt_str_view(origin) == Some(o@),
            is_ws_upgrade_value(opt_str_view(upgrade)),
            forall|j: int| 0 <= j < k ==> allowed[j] != o@,
        decreases allowed_origins@.len() - k,
    {
        if str_eq(allowed_origins[k].as_str(), o) {
            assert(allowed[k as int] == o@);
            return Ok(());
        }
        k = k + 1;
    }
    assert(!allowed.contains(o@));
    Err(ApiError::OriginNotAllowed)
}

} // verus!
