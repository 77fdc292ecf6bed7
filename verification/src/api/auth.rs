//! Authentication of API requests: a Bearer token, or for WebSocket
//! upgrades a single-use ticket.
//!
//! The application reads the `Authorization` and `Upgrade` headers and the
//! query string (each as text when present) and hands them to
//! [`require_auth`], which decides.

use vstd::prelude::*;
use subtle::ConstantTimeEq;
use crate::api::error::ApiError;
use crate::api::ticket::{ticket_remove, ticket_valid, TicketStore};
use crate::federation::auth::opt_str_view;
use crate::input::keys::opt_string_view;
use crate::text::{ascii_case_eq, chars_of, chars_start_with, eq_ignore_ascii_case, starts_with, string_of};

verus! {

/// The token of an `Authorization` header value of the form `Bearer <token>`.
pub open spec fn bearer_token(h: Seq<char>) -> Option<Seq<char>> {
    if starts_with(h, "Bearer "@) {
        Some(h.subrange(7, h.len() as int))
    } else {
        None
    }
}

/// Extract a Bearer token from the `Authorization` header value.
pub fn extract_bearer(authorization: Option<&str>) -> (r: Option<String>)
    ensures
        opt_string_view(r) == match opt_str_view(authorization) {
            Some(h) => bearer_token(h),
            None => None,
        },
{
    match authorization {
        None => None,
        Some(h) => {
            let v = chars_of(h);
            if chars_start_with(&v, "Bearer ") {
                proof {
                    reveal_strlit("Bearer ");
                }
                Some(string_of(v.as_slice(), 7, v.len()))
            } else {
                None
            }
        },
    }
}

/// The value of the first `&`-separated pair of `q`, from the pair that
/// starts at `seg_start` on, that starts with `ticket=`; `i` scans the
/// current pair.
pub open spec fn ticket_scan(q: Seq<char>, seg_start: int, i: int) -> Option<Seq<char>>
    decreases q.len() - i,
{
    if i < seg_start || i > q.len() || seg_start < 0 {
        None
    } else if i == q.len() || q[i] == '&' {
        let seg = q.subrange(seg_start, i);
        if starts_with(seg, "ticket="@) {
            Some(seg.subrange(7, seg.len() as int))
        } else if i < q.len() {
            ticket_scan(q, i + 1, i + 1)
        } else {
            None
        }
    } else {
        ticket_scan(q, seg_start, i + 1)
    }
}

/// The `ticket` parameter of a query string: the rest of the first
/// `&`-separated pair that starts with `ticket=`.
pub open spec fn query_ticket(q: Seq<char>) -> Option<Seq<char>> {
    ticket_scan(q, 0, 0)
}

/// Whether `v[from..to]` starts with `p`.
fn range_starts_with(v: &Vec<char>, from: usize, to: usize, p: &Vec<char>) -> (r: bool)
    requires
        from <= to <= v@.len(),
    ensures
        r == starts_with(v@.subrange(from as int, to as int), p@),
{
    let ghost seg = v@.subrange(from as int, to as int);
    if to - from < p.len() {
        return false;
    }
    let mut k: usize = 0;
    while k < p.len()
        invariant
            from <= to <= v@.len(),
            to - from >= p@.len(),
            seg == v@.subrange(from as int, to as int),
            k <= p@.len(),
            forall|j: int| 0 <= j < k ==> seg[j] == p@[j],
        decreases p@.len() - k,
    {
        if v[from + k] != p[k] {
            assert(seg.subrange(0, p@.len() as int)[k as int] != p@[k as int]);
            return false;
        }
        k = k + 1;
    }
    assert(seg.subrange(0, p@.len() as int) =~= p@);
    true
}

/// Extract a `?ticket=` value from the query string.
pub fn extract_ticket(query: Option<&str>) -> (r: Option<String>)
    ensures
        opt_string_view(r) == match opt_str_view(query) {
            Some(q) => query_ticket(q),
            None => None,
        },
{
    let q = match query {
        None => {
            return None;
        },
        Some(q) => q,
    };
    let v = chars_of(q);
    let prefix = chars_of("ticket=");
    proof {
        reveal_strlit("ticket=");
    }
    let n = v.len();
    let mut seg_start: usize = 0;
    let mut i: usize = 0;
    while i <= n
        invariant
            n == v@.len(),
            v@ == q@,
            opt_str_view(query) == Some(q@),
            prefix@ == "ticket="@,
            prefix@.len() == 7,
            seg_start <= i <= n + 1,
            i <= n ==> ticket_scan(q@, 0, 0) == ticket_scan(q@, seg_start as int, i as int),
            i == n + 1 ==> ticket_scan(q@, 0, 0) is None,
        decreases n + 1 - i,
    {
        if i == n || v[i] == '&' {
            let ghost seg = v@.subrange(seg_start as int, i as int);
            if range_starts_with(&v, seg_start, i, &prefix) {
                let r = string_of(v.as_slice(), seg_start + 7, i);
                assert(r@ =~= seg.subrange(7, seg.len() as int));
                return Some(r);
            }
            if i == n {
                return None;
            }
            seg_start = i + 1;
        }
        i = i + 1;
    }
    None
}

/// The `Upgrade` header value asks for a WebSocket (case-insensitively).
pub open spec fn is_ws_upgrade_value(upgrade: Option<Seq<char>>) -> bool {
    match upgrade {
        Some(u) => ascii_case_eq(u, "websocket"@),
        None => false,
    }
}

/// Check if a request is a WebSocket upgrade, from its `Upgrade` header.
pub fn is_ws_upgrade(upgrade: Option<&str>) -> (r: bool)
    ensures
        r == is_ws_upgrade_value(opt_str_view(upgrade)),
{
    match upgrade {
        Some(u) => eq_ignore_ascii_case(u, "websocket"),
        None => false,
    }
}

/// Whether two byte strings are equal, compared in constant time through
/// `subtle`.
///
/// Trusted: `<[u8] as subtle::ConstantTimeEq>::ct_eq` returns `Choice(1)`
/// exactly when the slices have the same length and equal bytes, and
/// `bool::from(Choice)` is true exactly for `Choice(1)` (subtle's source).
#[verifier::external_body]
fn constant_time_eq(a: &[u8], b: &[u8]) -> (r: bool)
    ensures
        r == (a@ == b@),
{
    a.ct_eq(b).into()
}

/// Whether two strings are equal, compared in constant time.
fn tokens_match(a: &str, b: &str) -> (r: bool)
    ensures
        r == (a@ == b@),
{
    proof {
        vstd::utf8::encode_utf8_decode_utf8(a@);
        vstd::utf8::encode_utf8_decode_utf8(b@);
    }
    constant_time_eq(a.as_bytes(), b.as_bytes())
}

/// The outcome of authenticating a request at time `now`, and the pending
/// tickets afterwards:
/// 1. a Bearer token is accepted if it equals the expected token and
///    refused (`AuthInvalid`) otherwise;
/// 2. without one, a WebSocket upgrade with a `?ticket=` is accepted if
///    the ticket is valid (it is consumed either way);
/// 3. anything else is `AuthRequired`.
pub open spec fn auth_outcome(
    expected: Seq<char>,
    authorization: Option<Seq<char>>,
    upgrade: Option<Seq<char>>,
    query: Option<Seq<char>>,
    tickets: Seq<(Seq<char>, u64)>,
    now: u64,
) -> (Result<(), ApiError>, Seq<(Seq<char>, u64)>) {
    let bearer = match authorization {
        Some(h) => bearer_token(h),
        None => None,
    };
    let ticket = match query {
        Some(q) => query_ticket(q),
        None => None,
    };
    match bearer {
        Some(t) => if t == expected {
            (Ok(()), tickets)
        } else {
            (Err(ApiError::AuthInvalid), tickets)
        },
        None => if is_ws_upgrade_value(upgrade) && ticket is Some {
            let tk = ticket->0;
            if ticket_valid(tickets, tk, now) {
                (Ok(()), ticket_remove(tickets, tk))
            } else {
                (Err(ApiError::AuthRequired), ticket_remove(tickets, tk))
            }
        } else {
            (Err(ApiError::AuthRequired), tickets)
        },
    }
}

/// Authenticate a request at time `now_ns` (nanoseconds of the ticket
/// store's clock).
pub fn check_auth_at(
    expected_token: &str,
    authorization: Option<&str>,
    upgrade: Option<&str>,
    query: Option<&str>,
    tickets: &mut TicketStore,
    now_ns: u64,
) -> (r: Result<(), ApiError>)
    ensures
        (r, final(tickets)@) == auth_outcome(
            expected_token@,
            opt_str_view(authorization),
            opt_str_view(upgrade),
            opt_str_view(query),
            old(tickets)@,
            now_ns,
        ),
{
    match extract_bearer(authorization) {
        Some(token) => {
            if tokens_match(token.as_str(), expected_token) {
                return Ok(());
            }
            return Err(ApiError::AuthInvalid);
        },
        None => {},
    }
    if is_ws_upgrade(upgrade) {
        match extract_ticket(query) {
            Some(ticket) => {
                if tickets.validate_at(ticket.as_str(), now_ns) {
                    return Ok(());
                }
                return Err(ApiError::AuthRequired);
            },
            None => {},
        }
    }
    Err(ApiError::AuthRequired)
}

/// Authenticate a request now.
///
/// Authentication flow:
/// 1. Try Bearer token from Authorization header
/// 2. If missing AND the request is a WebSocket upgrade, try `?ticket=`
///    query param against the ticket store (single-use, 30s TTL)
/// 3. Otherwise reject
pub fn require_auth(
    expected_token: &str,
    authorization: Option<&str>,
    upgrade: Option<&str>,
    query: Option<&str>,
    tickets: &mut TicketStore,
) -> (r: Result<(), ApiError>)
    ensures
        exists|now: u64| #[trigger] auth_outcome(
            expected_token@,
            opt_str_view(authorization),
            opt_str_view(upgrade),
            opt_str_view(query),
            old(tickets)@,
            now,
        ) == (r, final(tickets)@),
{
    let now = tickets.now_ns();
    check_auth_at(expected_token, authorization, upgrade, query, tickets, now)
}

/// A Bearer token decides alone: the right one is accepted and any other
/// is refused as invalid, whatever else the request carries, and no ticket
/// is consumed.
pub proof fn law_bearer_decides(
    expected: Seq<char>,
    token: Seq<char>,
    upgrade: Option<Seq<char>>,
    query: Option<Seq<char>>,
    tickets: Seq<(Seq<char>, u64)>,
    now: u64,
)
    ensures
        auth_outcome(expected, Some("Bearer "@ + token), upgrade, query, tickets, now) == (if token == expected {
            (Ok::<(), ApiError>(()), tickets)
        } else {
            (Err::<(), ApiError>(ApiError::AuthInvalid), tickets)
        }),
{
    reveal_strlit("Bearer ");
    let h = "Bearer "@ + token;
    assert(h.subrange(0, 7) =~= "Bearer "@);
    assert(h.subrange(7, h.len() as int) =~= token);
}

/// Without credentials a request is refused as unauthenticated.
pub proof fn law_no_credentials_required(
    expected: Seq<char>,
    upgrade: Option<Seq<char>>,
    tickets: Seq<(Seq<char>, u64)>,
    now: u64,
)
    ensures
        auth_outcome(expected, None, upgrade, None, tickets, now) == (Err::<(), ApiError>(ApiError::AuthRequired), tickets),
{
}

} // verus!
