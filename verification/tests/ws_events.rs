use serde_json::Value;
use wsh::api::ws_events::{
    apply_session_event, connected_message, invalid_frame_response, lag_notice, session_event_message,
    tag_with_session, SessionEvent, SubscriptionTable,
};
use wsh::json::Json;

fn to_value(j: &Json) -> Value {
    match j {
        Json::Null => Value::Null,
        Json::Bool(b) => Value::Bool(*b),
        Json::Number(n) => serde_json::from_str(n).unwrap(),
        Json::Str(s) => Value::String(s.clone()),
        Json::Array(items) => Value::Array(items.iter().map(to_value).collect()),
        Json::Object(fields) => Value::Object(fields.iter().map(|(k, v)| (k.clone(), to_value(v))).collect()),
    }
}

fn parse(text: &str) -> Value {
    serde_json::from_str(text).unwrap()
}

#[test]
fn session_event_messages() {
    let created = session_event_message(&SessionEvent::Created { name: "a".to_string() });
    assert_eq!(to_value(&created), parse(r#"{"event": "session_created", "params": {"name": "a"}}"#));
    let renamed =
        session_event_message(&SessionEvent::Renamed { old_name: "a".to_string(), new_name: "b".to_string() });
    assert_eq!(
        to_value(&renamed),
        parse(r#"{"event": "session_renamed", "params": {"old_name": "a", "new_name": "b"}}"#)
    );
    let tags = session_event_message(&SessionEvent::TagsChanged {
        name: "a".to_string(),
        added: vec!["x".to_string()],
        removed: vec![],
    });
    assert_eq!(
        to_value(&tags),
        parse(r#"{"event": "session_tags_changed", "params": {"name": "a", "added": ["x"], "removed": []}}"#)
    );
}

#[test]
fn notices() {
    assert_eq!(to_value(&connected_message()), parse(r#"{"connected": true}"#));
    assert_eq!(to_value(&lag_notice("s1", 12)), parse(r#"{"type": "lagged", "session": "s1", "skipped": 12}"#));
    let err = invalid_frame_response().error.unwrap();
    assert_eq!(err.code, "invalid_request");
    assert_eq!(err.message, "Invalid JSON or missing 'method' field.");
}

#[test]
fn events_are_tagged_with_session() {
    let ev = Json::Object(vec![("event".to_string(), Json::Str("idle".to_string()))]);
    let tagged = tag_with_session(ev, "dev");
    assert_eq!(to_value(&tagged), parse(r#"{"event": "idle", "session": "dev"}"#));
    let ev = Json::Object(vec![("session".to_string(), Json::Str("old".to_string()))]);
    assert_eq!(to_value(&tag_with_session(ev, "new")), parse(r#"{"session": "new"}"#));
    assert!(matches!(tag_with_session(Json::Null, "x"), Json::Null));
}

#[test]
fn subscriptions_follow_renames_and_destruction() {
    let mut table: SubscriptionTable<u32> = SubscriptionTable::new();
    assert_eq!(table.insert("a".to_string(), 1), None);
    assert_eq!(table.insert("b".to_string(), 2), None);
    assert_eq!(table.insert("a".to_string(), 3), Some(1));

    let (msg, replaced) = apply_session_event(
        &mut table,
        &SessionEvent::Renamed { old_name: "a".to_string(), new_name: "c".to_string() },
    );
    assert_eq!(to_value(&msg)["event"], "session_renamed");
    assert_eq!(replaced, None);
    assert_eq!(table.get("a"), None);
    assert_eq!(table.get("c"), Some(&3));

    let (_, removed) = apply_session_event(&mut table, &SessionEvent::Destroyed { name: "b".to_string() });
    assert_eq!(removed, Some(2));
    assert_eq!(table.get("b"), None);

    let (_, none) = apply_session_event(&mut table, &SessionEvent::Created { name: "z".to_string() });
    assert_eq!(none, None);
    assert_eq!(table.rename("missing", "x"), (false, None));
    assert_eq!(table.into_values(), vec![3]);
}
