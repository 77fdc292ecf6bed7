use wsh::api::proxy::{proxied_status, proxy_target};
use wsh::federation::registry::{BackendEntry, BackendHealth, BackendRole};
use wsh::api::transport::{uds_transport, PeerCredentials, Transport};
use wsh::federation::ip_access::IpAddress;
use wsh::api::handlers::terminal_size;
use wsh::api::requested_persistence;
use wsh::api::error::ApiError;
use wsh::api::handlers::{
    build_session_info, clamp_scrollback_limit, clamp_wait_ms, default_limit, default_max_wait,
    screen_sync_frame, IdleQuery, Keepalive, KeepaliveAction,
};
use wsh::api::origin::check_ws_origin;
use wsh::api::recording::absolute_base_url;
use wsh::api::ws_methods::{default_interval, default_scrollback_limit, InputEncoding, WsResponse};
use wsh::json::Json;

fn allowed() -> Vec<String> {
    vec!["http://127.0.0.1:8080".to_string()]
}

#[test]
fn ws_upgrade_with_evil_origin_is_rejected() {
    let r = check_ws_origin(&allowed(), Some("websocket"), Some("http://evil.com"));
    let err = r.unwrap_err();
    assert!(matches!(err, ApiError::OriginNotAllowed));
    assert_eq!(err.status_code(), 403);
}

#[test]
fn ws_upgrade_with_allowed_origin_passes() {
    assert!(check_ws_origin(&allowed(), Some("websocket"), Some("http://127.0.0.1:8080")).is_ok());
}

#[test]
fn ws_upgrade_without_origin_passes() {
    assert!(check_ws_origin(&allowed(), Some("websocket"), None).is_ok());
}

#[test]
fn non_ws_request_with_any_origin_passes() {
    assert!(check_ws_origin(&allowed(), None, Some("http://evil.com")).is_ok());
}

#[test]
fn absolute_base_url_uses_host_header() {
    let base = absolute_base_url(Some("example.com:8080"), None);
    assert!(base.starts_with("https://example.com:8080"));
    let local_base = absolute_base_url(Some("localhost:8080"), None);
    assert!(local_base.starts_with("http://localhost:8080"));
}

#[test]
fn absolute_base_url_fallbacks() {
    assert_eq!(absolute_base_url(None, Some("127.0.0.1:9000".to_string())), "http://127.0.0.1:9000");
    assert_eq!(absolute_base_url(None, None), "http://localhost:8080");
    assert_eq!(absolute_base_url(Some("10.1.2.3:80"), None), "https://10.1.2.3:80");
}

fn field<'a>(j: &'a Json, key: &str) -> Option<&'a Json> {
    match j {
        Json::Object(fields) => fields.iter().find(|(k, _)| k == key).map(|(_, v)| v),
        _ => panic!("not an object"),
    }
}

fn keys(j: &Json) -> Vec<String> {
    match j {
        Json::Object(fields) => fields.iter().map(|(k, _)| k.clone()).collect(),
        _ => panic!("not an object"),
    }
}

#[test]
fn serialize_success_response() {
    let resp = WsResponse::success(Some(Json::Number("1".to_string())), "get_screen", Json::Object(vec![]));
    let j = resp.to_json();
    assert_eq!(keys(&j), vec!["id", "method", "result"]);
    assert!(matches!(field(&j, "id"), Some(Json::Number(n)) if n == "1"));
    assert!(matches!(field(&j, "method"), Some(Json::Str(m)) if m == "get_screen"));
}

#[test]
fn serialize_success_response_without_id() {
    let resp = WsResponse::success(None, "get_screen", Json::Null);
    let j = resp.to_json();
    assert_eq!(keys(&j), vec!["method", "result"]);
}

#[test]
fn serialize_error_response() {
    let resp = WsResponse::error(Some(Json::Number("3".to_string())), "get_overlay", "not_found", "No such overlay.");
    let j = resp.to_json();
    assert_eq!(keys(&j), vec!["id", "method", "error"]);
    let err = field(&j, "error").unwrap();
    assert!(matches!(field(err, "code"), Some(Json::Str(c)) if c == "not_found"));
    assert!(matches!(field(err, "message"), Some(Json::Str(m)) if m == "No such overlay."));
}

#[test]
fn serialize_protocol_error_no_method() {
    let resp = WsResponse::protocol_error("parse_error", "Invalid JSON.");
    let j = resp.to_json();
    assert_eq!(keys(&j), vec!["error"]);
}

#[test]
fn request_defaults() {
    assert_eq!(default_interval(), 100);
    assert_eq!(default_scrollback_limit(), 100);
    assert_eq!(default_max_wait(), 30_000);
    assert_eq!(default_limit(), 100);
    assert_eq!(InputEncoding::default(), InputEncoding::Utf8);
}

#[test]
fn waits_and_pages_are_clamped() {
    assert_eq!(clamp_wait_ms(1000), 1000);
    assert_eq!(clamp_wait_ms(300_000), 300_000);
    assert_eq!(clamp_wait_ms(u64::MAX), 300_000);
    assert_eq!(clamp_scrollback_limit(50), 50);
    assert_eq!(clamp_scrollback_limit(20_000), 10_000);
    let q = IdleQuery { timeout_ms: 500, max_wait_ms: 1_000_000, last_generation: None, fresh: false };
    assert_eq!(q.bounds(), (500, 300_000));
}

#[test]
fn session_info_sorts_tags() {
    let info = build_session_info(
        "s1".to_string(),
        Some(42),
        "bash".to_string(),
        24,
        80,
        2,
        vec!["web".to_string(), "api".to_string(), "db".to_string(), "api".to_string()],
        123,
    );
    assert_eq!(info.tags, vec!["api", "api", "db", "web"]);
    assert_eq!(info.name, "s1");
    assert_eq!(info.pid, Some(42));
    assert_eq!((info.rows, info.cols, info.clients, info.last_activity_ms), (24, 80, 2, 123));
}

#[test]
fn keepalive_closes_unresponsive_client() {
    let mut k = Keepalive::new(0);
    assert_eq!(k.on_tick(30_000), KeepaliveAction::SendPing);
    // No pong for more than ten seconds after the last one: closed.
    assert_eq!(k.on_tick(60_000), KeepaliveAction::Close);
}

#[test]
fn keepalive_pong_keeps_client() {
    let mut k = Keepalive::new(0);
    assert_eq!(k.on_tick(30_000), KeepaliveAction::SendPing);
    k.on_pong(30_005);
    assert_eq!(k.on_tick(60_000), KeepaliveAction::SendPing);
    k.on_pong(60_003);
    assert_eq!(k.on_tick(70_003), KeepaliveAction::SendPing);
    assert_eq!(k.on_tick(70_004), KeepaliveAction::Close);
}

#[test]
fn screen_sync_frame_layout() {
    let lines = vec!["ab".to_string(), "cd".to_string()];
    assert_eq!(screen_sync_frame(&lines, 0, 4), "\x1b[H\x1b[2Jab\r\ncd\x1b[1;5H");
    assert_eq!(screen_sync_frame(&vec![], 9, 0), "\x1b[H\x1b[2J\x1b[10;1H");
}

#[test]
fn proxy_target_and_status() {
    let backend = BackendEntry {
        address: "10.0.0.5:8080".to_string(),
        token: Some("tok".to_string()),
        hostname: None,
        health: BackendHealth::Healthy,
        role: BackendRole::Member,
        server_id: None,
    };
    let t = proxy_target(&backend, "/sessions");
    assert_eq!(t.url, "http://10.0.0.5:8080/sessions");
    assert_eq!(t.bearer_token.as_deref(), Some("tok"));
    assert_eq!(proxied_status(404), 404);
    assert_eq!(proxied_status(42), 500);
    assert_eq!(proxied_status(1000), 500);
}

#[test]
fn transports() {
    let local = uds_transport(None);
    assert_eq!(local, Transport::Uds { uid: 0, gid: 0, pid: None });
    assert!(local.is_local());
    let cred = PeerCredentials { uid: 1000, gid: 100, pid: Some(42) };
    assert_eq!(uds_transport(Some(cred)), Transport::Uds { uid: 1000, gid: 100, pid: Some(42) });
    assert!(!Transport::Tcp { ip: IpAddress::V4(0x0a00_0001), port: 80 }.is_local());
}

#[test]
fn new_session_terminal_size() {
    assert_eq!(terminal_size(None, None), (24, 80));
    assert_eq!(terminal_size(Some(0), Some(0)), (1, 1));
    assert_eq!(terminal_size(Some(50), Some(132)), (50, 132));
}

#[test]
fn persist_request_body() {
    let yes = Json::Object(vec![("persistent".to_string(), Json::Bool(true))]);
    let bad = Json::Object(vec![("persistent".to_string(), Json::Str("yes".to_string()))]);
    assert_eq!(requested_persistence(&yes), Some(true));
    assert_eq!(requested_persistence(&bad), None);
    assert_eq!(requested_persistence(&Json::Null), None);
}
