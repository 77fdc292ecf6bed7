use serde_json::Value;
use wsh::api::dispatch::{dispatch_step, input_sent, SessionAction, SessionControl, Target};
use wsh::api::ws_methods::{input_bytes, InputEncoding};
use wsh::api::handlers::{idle_any_plan, session_create_plan, IdleQuery, SpawnCommand};
use wsh::api::server_ws::{
    route_server_request, set_server_mode, server_subscribe, server_ws_step, ServerRoute, ServerWsEffect, ServerWsEvent, Subscriptions,
};
use wsh::api::error::ApiError;
use wsh::api::ws_events::{SessionEvent, SubscriptionTable};
use wsh::api::ws_json::{
    should_forward_session_event, ws_json_open, ws_json_step, EventKind, EventType, IdleWaitRequest, SubscribeRequest, WsJsonEffect,
    WsJsonEvent, WsJsonState,
};
use wsh::api::ws_methods::WsRequest;
use wsh::input::focus::FocusTracker;
use wsh::input::mode::InputMode;
use wsh::json::Json;

fn to_value(j: &Json) -> Value {
    match j {
        Json::Null => Value::Null,
        Json::Bool(b) => Value::Bool(*b),
        Json::Number(n) => serde_json::from_str(n).unwrap(),
        Json::Str(s) => Value::String(s.clone()),
        Json::Array(items) => Value::Array(items.iter().map(to_value).collect()),
        Json::Object(fields) => Value::Object(fields.iter().map(|(k, v)| (k.clone(), to_value(v))).collect()),
    }
}

fn parse(text: &str) -> Value {
    serde_json::from_str(text).unwrap()
}

fn sent(fx: &WsJsonEffect) -> Value {
    match fx {
        WsJsonEffect::Send(j) => to_value(j),
        other => panic!("not a send: {:?}", other),
    }
}

#[test]
fn forwarding_filter_follows_subscription() {
    let subs = vec![EventType::Lines, EventType::Activity];
    assert!(should_forward_session_event(&subs, EventKind::Line));
    assert!(should_forward_session_event(&subs, EventKind::Idle));
    assert!(should_forward_session_event(&subs, EventKind::Running));
    assert!(should_forward_session_event(&subs, EventKind::Reset));
    assert!(should_forward_session_event(&subs, EventKind::Sync));
    assert!(!should_forward_session_event(&subs, EventKind::Cursor));
    assert!(!should_forward_session_event(&subs, EventKind::Diff));
    assert!(!should_forward_session_event(&vec![], EventKind::Mode));
}

#[test]
fn ws_json_connects_and_discards_before_subscribing() {
    let (mut state, first) = WsJsonState::new();
    assert_eq!(first.len(), 1);
    assert_eq!(sent(&first[0]), parse(r#"{"connected": true}"#));
    assert!(ws_json_step(&mut state, WsJsonEvent::Parser(EventKind::Sync)).is_empty());
}

#[test]
fn ws_json_subscribe_sets_up_input_and_activity() {
    let (mut state, _) = WsJsonState::new();
    let fx = ws_json_step(
        &mut state,
        WsJsonEvent::Subscribe {
            id: Some(Json::Number("7".to_string())),
            params: Ok(SubscribeRequest { events: vec![EventType::Input, EventType::Activity], idle_timeout_ms: 500 }),
        },
    );
    assert!(matches!(fx[0], WsJsonEffect::SubscribeInput));
    assert!(matches!(fx[1], WsJsonEffect::StopActivityWatch));
    assert!(matches!(fx[2], WsJsonEffect::StartActivityWatch(500)));
    assert_eq!(
        sent(&fx[3]),
        parse(r#"{"id": 7, "method": "subscribe", "result": {"events": ["input", "activity"]}}"#)
    );
    assert!(matches!(fx[4], WsJsonEffect::ResyncScreen));
    assert!(matches!(fx[5], WsJsonEffect::SendInitialActivity(500)));
    assert_eq!(fx.len(), 6);
    assert_eq!(state.subscribed(), &vec![EventType::Input, EventType::Activity]);
    let fx = ws_json_step(&mut state, WsJsonEvent::Parser(EventKind::Running));
    assert!(matches!(fx[0], WsJsonEffect::ForwardEvent));
    assert!(ws_json_step(&mut state, WsJsonEvent::Parser(EventKind::Line)).is_empty());
    // Dropping input unsubscribes.
    let fx = ws_json_step(
        &mut state,
        WsJsonEvent::Subscribe { id: None, params: Ok(SubscribeRequest { events: vec![EventType::Lines], idle_timeout_ms: 0 }) },
    );
    assert!(matches!(fx[0], WsJsonEffect::UnsubscribeInput));
    assert!(matches!(fx[1], WsJsonEffect::StopActivityWatch));
    assert_eq!(fx.len(), 4);
}

#[test]
fn ws_json_bad_subscribe_params() {
    let (mut state, _) = WsJsonState::new();
    let fx = ws_json_step(&mut state, WsJsonEvent::Subscribe { id: None, params: Err("missing field `events`".to_string()) });
    assert_eq!(
        sent(&fx[0]),
        parse(
            r#"{"method": "subscribe", "error": {"code": "invalid_request", "message": "Invalid subscribe params: missing field `events`."}}"#
        )
    );
}

#[test]
fn ws_json_new_idle_wait_supersedes_the_pending_one() {
    let (mut state, _) = WsJsonState::new();
    let req = |t| IdleWaitRequest { timeout_ms: t, max_wait_ms: 900_000, last_generation: Some(3), fresh: false };
    let fx = ws_json_step(
        &mut state,
        WsJsonEvent::AwaitIdle { id: Some(Json::Number("1".to_string())), method: "await_idle".to_string(), params: Ok(req(100)) },
    );
    assert_eq!(fx.len(), 1);
    assert!(matches!(
        fx[0],
        WsJsonEffect::StartIdleWait { timeout_ms: 100, deadline_ms: 300_000, last_generation: Some(3), fresh: false }
    ));
    let fx = ws_json_step(
        &mut state,
        WsJsonEvent::AwaitIdle { id: Some(Json::Number("2".to_string())), method: "await_idle".to_string(), params: Ok(req(200)) },
    );
    assert_eq!(
        sent(&fx[0]),
        parse(
            r#"{"id": 1, "method": "await_idle", "error": {"code": "idle_superseded", "message": "A new await_idle request superseded this one."}}"#
        )
    );
    assert!(matches!(fx[1], WsJsonEffect::StartIdleWait { timeout_ms: 200, .. }));
    let fx = ws_json_step(&mut state, WsJsonEvent::IdleResolved(None));
    assert_eq!(
        sent(&fx[0]),
        parse(
            r#"{"id": 2, "method": "await_idle", "error": {"code": "idle_timeout", "message": "Terminal did not become idle within the deadline."}}"#
        )
    );
    assert!(ws_json_step(&mut state, WsJsonEvent::IdleResolved(Some(4))).is_empty());
}

#[test]
fn ws_json_lag_and_close() {
    let (mut state, _) = WsJsonState::new();
    let fx = ws_json_step(&mut state, WsJsonEvent::ParserLagged(12));
    assert_eq!(sent(&fx[0]), parse(r#"{"type": "lagged", "skipped": 12}"#));
    assert!(matches!(fx[1], WsJsonEffect::ResyncScreen));
    let fx = ws_json_step(&mut state, WsJsonEvent::InputLagged(3));
    assert_eq!(sent(&fx[0]), parse(r#"{"type": "input_lagged", "skipped": 3}"#));
    assert!(matches!(ws_json_step(&mut state, WsJsonEvent::Request)[0], WsJsonEffect::Dispatch));
    assert!(matches!(ws_json_step(&mut state, WsJsonEvent::Closed)[0], WsJsonEffect::Close));
}

#[test]
fn server_requests_are_routed() {
    assert!(matches!(route_server_request(&None, "list_sessions", &None, false), ServerRoute::Server));
    match route_server_request(&None, "get_screen", &None, false) {
        ServerRoute::Reply(j) => assert_eq!(
            to_value(&j),
            parse(r#"{"method": "get_screen", "error": {"code": "session_required", "message": "This method requires a 'session' field."}}"#)
        ),
        _ => panic!("expected a reply"),
    }
    match route_server_request(&None, "get_screen", &Some("dev".to_string()), false) {
        ServerRoute::Reply(j) => assert_eq!(
            to_value(&j),
            parse(r#"{"method": "get_screen", "error": {"code": "session_not_found", "message": "Session not found: dev."}}"#)
        ),
        _ => panic!("expected a reply"),
    }
    assert!(matches!(route_server_request(&None, "subscribe", &Some("dev".to_string()), true), ServerRoute::Subscribe(ref s) if s == "dev"));
    assert!(matches!(route_server_request(&None, "get_screen", &Some("dev".to_string()), true), ServerRoute::Dispatch(ref s) if s == "dev"));
}

#[test]
fn server_subscriptions_follow_sessions() {
    let mut table: Subscriptions = SubscriptionTable::new();
    let fx = server_subscribe(
        &mut table,
        None,
        "dev",
        Ok(SubscribeRequest { events: vec![EventType::Lines], idle_timeout_ms: 0 }),
    );
    assert!(matches!(fx[0], ServerWsEffect::StartForwarding(ref s, 0) if s == "dev"));
    assert_eq!(fx.len(), 3);
    let fx = server_ws_step(&mut table, ServerWsEvent::Parser { session: "dev".to_string(), kind: EventKind::Line });
    assert!(matches!(fx[0], ServerWsEffect::ForwardTagged(ref s) if s == "dev"));
    assert!(server_ws_step(&mut table, ServerWsEvent::Parser { session: "dev".to_string(), kind: EventKind::Cursor }).is_empty());
    // A rename moves the subscription: later events carry the new name.
    server_ws_step(
        &mut table,
        ServerWsEvent::Registry(SessionEvent::Renamed { old_name: "dev".to_string(), new_name: "prod".to_string() }),
    );
    let fx = server_ws_step(&mut table, ServerWsEvent::Parser { session: "prod".to_string(), kind: EventKind::Line });
    assert!(matches!(fx[0], ServerWsEffect::ForwardTagged(ref s) if s == "prod"));
    let tagged = table.forward_event("prod", Json::Object(vec![("type".to_string(), Json::Str("line".to_string()))])).unwrap();
    assert_eq!(to_value(&tagged), parse(r#"{"type": "line", "session": "prod"}"#));
    assert!(table.forward_event("dev", Json::Null).is_none());
    // Resubscribing replaces the earlier subscription.
    let fx = server_subscribe(
        &mut table,
        None,
        "prod",
        Ok(SubscribeRequest { events: vec![EventType::Activity], idle_timeout_ms: 250 }),
    );
    assert!(matches!(fx[0], ServerWsEffect::StopForwarding(ref s) if s == "prod"));
    assert!(matches!(fx[4], ServerWsEffect::SendInitialActivity(ref s, 250) if s == "prod"));
    // Destruction drops it.
    let fx = server_ws_step(&mut table, ServerWsEvent::Registry(SessionEvent::Destroyed { name: "prod".to_string() }));
    assert!(matches!(fx[0], ServerWsEffect::StopForwarding(_)));
    assert!(table.get("prod").is_none());
}

fn control() -> SessionControl {
    SessionControl {
        mode: InputMode::new(),
        focus: FocusTracker::new(),
        overlays: vec![
            Target { id: "ov-1".to_string(), focusable: true, alt: false },
            Target { id: "ov-2".to_string(), focusable: false, alt: true },
        ],
        panels: vec![Target { id: "pn-1".to_string(), focusable: true, alt: true }],
        alt_screen: false,
    }
}

fn request(method: &str, params: Option<Json>) -> WsRequest {
    WsRequest { id: Some(Json::Number("1".to_string())), method: method.to_string(), params }
}

fn id_params(id: &str) -> Option<Json> {
    Some(Json::Object(vec![("id".to_string(), Json::Str(id.to_string()))]))
}

#[test]
fn dispatch_focus_checks_targets() {
    let mut s = control();
    let (r, a) = dispatch_step(&mut s, "c1", &request("focus", id_params("ov-1")));
    assert_eq!(to_value(&r.unwrap()), parse(r#"{"id": 1, "method": "focus", "result": {}}"#));
    assert_eq!(a, SessionAction::Nothing);
    assert_eq!(s.focus.focused().as_deref(), Some("ov-1"));
    let (r, _) = dispatch_step(&mut s, "c1", &request("focus", id_params("ov-2")));
    assert_eq!(
        to_value(&r.unwrap()),
        parse(r#"{"id": 1, "method": "focus", "error": {"code": "not_focusable", "message": "Target 'ov-2' is not focusable."}}"#)
    );
    let (r, _) = dispatch_step(&mut s, "c1", &request("focus", id_params("nope")));
    assert_eq!(
        to_value(&r.unwrap()),
        parse(r#"{"id": 1, "method": "focus", "error": {"code": "invalid_request", "message": "No overlay or panel with id 'nope'."}}"#)
    );
    let (r, _) = dispatch_step(&mut s, "c1", &request("get_focus", None));
    assert_eq!(to_value(&r.unwrap()), parse(r#"{"id": 1, "method": "get_focus", "result": {"focused": "ov-1"}}"#));
}

#[test]
fn dispatch_capture_and_release() {
    let mut s = control();
    dispatch_step(&mut s, "c1", &request("capture_input", None));
    let (r, _) = dispatch_step(&mut s, "c2", &request("get_input_mode", None));
    assert_eq!(to_value(&r.unwrap()), parse(r#"{"id": 1, "method": "get_input_mode", "result": {"mode": "capture"}}"#));
    let (r, _) = dispatch_step(&mut s, "c2", &request("capture_input", None));
    assert_eq!(
        to_value(&r.unwrap()),
        parse(r#"{"id": 1, "method": "capture_input", "error": {"code": "input_captured", "message": "input already captured by c1"}}"#)
    );
    dispatch_step(&mut s, "c1", &request("focus", id_params("pn-1")));
    let (r, _) = dispatch_step(&mut s, "c1", &request("release_input", None));
    assert!(r.is_some());
    assert!(s.focus.focused().is_none());
    assert!(!s.mode.is_capture());
}

#[test]
fn dispatch_alt_screen_and_store_methods() {
    let mut s = control();
    let (r, _) = dispatch_step(&mut s, "c1", &request("exit_alt_screen", None));
    assert_eq!(
        to_value(&r.unwrap()),
        parse(r#"{"id": 1, "method": "exit_alt_screen", "error": {"code": "not_in_alt_screen", "message": "Session is not in alternate screen mode."}}"#)
    );
    dispatch_step(&mut s, "c1", &request("enter_alt_screen", None));
    let (r, _) = dispatch_step(&mut s, "c1", &request("get_screen_mode", None));
    assert_eq!(to_value(&r.unwrap()), parse(r#"{"id": 1, "method": "get_screen_mode", "result": {"mode": "alt"}}"#));
    let (_, a) = dispatch_step(&mut s, "c1", &request("exit_alt_screen", None));
    assert_eq!(a, SessionAction::LeftAltScreen);
    assert_eq!(s.overlays.len(), 1);
    assert!(s.panels.is_empty());
    let (r, a) = dispatch_step(&mut s, "c1", &request("get_screen", None));
    assert!(r.is_none());
    assert_eq!(a, SessionAction::Delegate);
    let (r, _) = dispatch_step(&mut s, "c1", &request("frobnicate", None));
    assert_eq!(
        to_value(&r.unwrap()),
        parse(r#"{"id": 1, "method": "frobnicate", "error": {"code": "unknown_method", "message": "Unknown method 'frobnicate'."}}"#)
    );
}

#[test]
fn idle_any_plan_waits_on_every_session() {
    let q = IdleQuery { timeout_ms: 500, max_wait_ms: 1_000_000, last_generation: Some(9), fresh: false };
    assert!(matches!(idle_any_plan(&vec![], &q, None), Err(ApiError::NoSessions)));
    let p = idle_any_plan(&vec!["a".to_string(), "b".to_string()], &q, Some("b")).unwrap();
    assert_eq!(p.timeout_ms, 500);
    assert_eq!(p.deadline_ms, 300_000);
    assert_eq!(p.waits, vec![("a".to_string(), None), ("b".to_string(), Some(9))]);
}

#[test]
fn session_create_plan_defaults() {
    let p = session_create_plan(None, None, Some(0));
    assert!(matches!(p.command, SpawnCommand::Shell { interactive: true }));
    assert_eq!((p.rows, p.cols), (24, 1));
    let p = session_create_plan(Some("htop".to_string()), Some(40), None);
    assert!(matches!(p.command, SpawnCommand::Command { ref command, interactive: true } if command == "htop"));
    assert_eq!((p.rows, p.cols), (40, 80));
}

fn send_params(data: &str, encoding: Option<&str>) -> Option<Json> {
    let mut f = vec![("data".to_string(), Json::Str(data.to_string()))];
    if let Some(e) = encoding {
        f.push(("encoding".to_string(), Json::Str(e.to_string())));
    }
    Some(Json::Object(f))
}

#[test]
fn dispatch_send_input_utf8() {
    let mut s = control();
    let req = WsRequest { id: None, method: "send_input".to_string(), params: send_params("hello", None) };
    let (r, a) = dispatch_step(&mut s, "c1", &req);
    assert!(r.is_none());
    assert_eq!(a, SessionAction::SendInput(b"hello".to_vec()));
    let (resp, touch) = input_sent(None, "send_input", true);
    assert!(to_value(&resp)["result"].is_object());
    assert!(touch);
}

#[test]
fn dispatch_send_input_base64() {
    let mut s = control();
    use_base64_engine_check();
    let req = WsRequest { id: None, method: "send_input".to_string(), params: send_params("Aw==", Some("base64")) };
    let (r, a) = dispatch_step(&mut s, "c1", &req);
    assert!(r.is_none());
    assert_eq!(a, SessionAction::SendInput(b"\x03".to_vec()));
    let (resp, _) = input_sent(None, "send_input", true);
    assert!(to_value(&resp)["result"].is_object());
}

fn use_base64_engine_check() {
    assert_eq!(input_bytes("aGVsbG8=", InputEncoding::Base64), Ok(b"hello".to_vec()));
}

#[test]
fn dispatch_send_input_bad_base64() {
    let mut s = control();
    let req = WsRequest {
        id: None,
        method: "send_input".to_string(),
        params: send_params("!!!not-base64!!!", Some("base64")),
    };
    let (r, a) = dispatch_step(&mut s, "c1", &req);
    let json = to_value(&r.unwrap());
    assert_eq!(json["error"]["code"], "invalid_request");
    assert!(json["error"]["message"].as_str().unwrap().starts_with("Invalid base64: "));
    assert_eq!(a, SessionAction::Nothing);
}

#[test]
fn send_input_failures_and_bad_params() {
    let (resp, touch) = input_sent(Some(Json::Number("4".to_string())), "send_input", false);
    assert_eq!(
        to_value(&resp),
        parse(r#"{"id": 4, "method": "send_input", "error": {"code": "input_send_failed", "message": "Failed to send input to terminal."}}"#)
    );
    assert!(!touch);
    let mut s = control();
    let (r, _) = dispatch_step(&mut s, "c1", &request("send_input", send_params("x", Some("latin1"))));
    assert_eq!(to_value(&r.unwrap())["error"]["code"], "invalid_request");
    let (r, _) = dispatch_step(&mut s, "c1", &request("send_input", None));
    assert_eq!(to_value(&r.unwrap())["error"]["code"], "invalid_request");
    assert_eq!(input_bytes("é", InputEncoding::Utf8), Ok("é".as_bytes().to_vec()));
}

#[test]
fn set_server_mode_switches_and_reports() {
    let mut config = wsh::api::ServerConfig::new(false);
    let params = Some(Json::Object(vec![("persistent".to_string(), Json::Bool(true))]));
    let r = set_server_mode(&mut config, Some(Json::Number("9".to_string())), &params);
    assert_eq!(to_value(&r), parse(r#"{"id": 9, "method": "set_server_mode", "result": {"persistent": true}}"#));
    assert!(config.is_persistent());
    let r = set_server_mode(&mut config, None, &None);
    assert_eq!(to_value(&r), parse(r#"{"method": "set_server_mode", "result": {"persistent": true}}"#));
    let odd = Some(Json::Object(vec![("persistent".to_string(), Json::Str("no".to_string()))]));
    set_server_mode(&mut config, None, &odd);
    assert!(config.is_persistent());
}

#[test]
fn ws_json_open_respects_shutdown() {
    assert!(ws_json_open(true).is_none());
    let (_, fx) = ws_json_open(false).unwrap();
    assert_eq!(sent(&fx[0]), parse(r#"{"connected": true}"#));
}
