use wsh::api::auth::{check_auth_at, extract_bearer, extract_ticket, is_ws_upgrade, require_auth};
use wsh::api::error::ApiError;
use wsh::api::ticket::TicketStore;

#[test]
fn extract_bearer_with_header() {
    assert_eq!(extract_bearer(Some("Bearer my-secret-token")), Some("my-secret-token".to_string()));
}

#[test]
fn extract_bearer_with_neither() {
    assert_eq!(extract_bearer(None), None);
}

#[test]
fn extract_ticket_from_query() {
    assert_eq!(extract_ticket(Some("ticket=abc123")), Some("abc123".to_string()));
}

#[test]
fn extract_ticket_missing() {
    assert_eq!(extract_ticket(Some("other=value")), None);
}

#[test]
fn ws_upgrade_detected() {
    assert!(is_ws_upgrade(Some("websocket")));
}

#[test]
fn non_ws_not_detected() {
    assert!(!is_ws_upgrade(None));
}

#[test]
fn bearer_requires_exact_prefix() {
    assert_eq!(extract_bearer(Some("bearer x")), None);
    assert_eq!(extract_bearer(Some("Bearer ")), Some(String::new()));
    assert_eq!(extract_bearer(Some("Basic abc")), None);
}

#[test]
fn ticket_found_among_other_pairs() {
    assert_eq!(extract_ticket(Some("a=1&ticket=xyz&b=2")), Some("xyz".to_string()));
    assert_eq!(extract_ticket(Some("a=1&ticket=")), Some(String::new()));
    assert_eq!(extract_ticket(Some("xticket=1")), None);
    assert_eq!(extract_ticket(None), None);
}

#[test]
fn ws_upgrade_ignores_ascii_case() {
    assert!(is_ws_upgrade(Some("WebSocket")));
    assert!(!is_ws_upgrade(Some("websockets")));
    assert!(!is_ws_upgrade(Some("h2c")));
}

#[test]
fn require_auth_with_valid_token_returns_200() {
    let mut store = TicketStore::new();
    assert!(require_auth("secret", Some("Bearer secret"), None, None, &mut store).is_ok());
}

#[test]
fn require_auth_with_missing_token_returns_401() {
    let mut store = TicketStore::new();
    let err = require_auth("secret", None, None, None, &mut store).unwrap_err();
    assert_eq!(err.status_code(), 401);
}

#[test]
fn require_auth_with_wrong_token_returns_403() {
    let mut store = TicketStore::new();
    let err = require_auth("secret", Some("Bearer wrong-token"), None, None, &mut store).unwrap_err();
    assert!(matches!(err, ApiError::AuthInvalid));
    assert_eq!(err.status_code(), 403);
}

#[test]
fn query_token_no_longer_accepted() {
    let mut store = TicketStore::new();
    let err = require_auth("secret", None, None, Some("token=secret"), &mut store).unwrap_err();
    assert_eq!(err.status_code(), 401);
}

#[test]
fn ticket_accepted_on_ws_upgrade() {
    let mut store = TicketStore::new();
    let ticket = store.create().unwrap();
    let query = format!("ticket={ticket}");
    assert!(require_auth("secret", None, Some("websocket"), Some(&query), &mut store).is_ok());
}

#[test]
fn ticket_rejected_on_non_ws_request() {
    let mut store = TicketStore::new();
    let ticket = store.create().unwrap();
    let query = format!("ticket={ticket}");
    let err = require_auth("secret", None, None, Some(&query), &mut store).unwrap_err();
    assert_eq!(err.status_code(), 401);
}

#[test]
fn ticket_single_use() {
    let mut store = TicketStore::new();
    let ticket = store.create().unwrap();
    let query = format!("ticket={ticket}");
    assert!(require_auth("secret", None, Some("websocket"), Some(&query), &mut store).is_ok());
    let err = require_auth("secret", None, Some("websocket"), Some(&query), &mut store).unwrap_err();
    assert_eq!(err.status_code(), 401);
}

#[test]
fn invalid_ticket_rejected() {
    let mut store = TicketStore::new();
    let err = require_auth("secret", None, Some("websocket"), Some("ticket=bogus"), &mut store).unwrap_err();
    assert_eq!(err.status_code(), 401);
}

#[test]
fn expired_ticket_consumed_and_refused() {
    let mut store = TicketStore::new();
    let ticket = store.create_at("t1".to_string(), 1_000_000_000).unwrap();
    let query = format!("ticket={ticket}");
    let err = check_auth_at("secret", None, Some("websocket"), Some(&query), &mut store, 31_000_000_000).unwrap_err();
    assert!(matches!(err, ApiError::AuthRequired));
    assert_eq!(store.pending(), 0);
}
