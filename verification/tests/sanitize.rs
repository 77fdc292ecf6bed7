use serde_json::Value;
use wsh::federation::sanitize::{sanitize_proxy_response, sanitize_session_list, validate_session_name_from_remote};
use wsh::json::{json_text_of, Json};

fn to_json(v: &Value) -> Json {
    match v {
        Value::Null => Json::Null,
        Value::Bool(b) => Json::Bool(*b),
        Value::Number(n) => Json::Number(n.to_string()),
        Value::String(s) => Json::Str(s.clone()),
        Value::Array(a) => Json::Array(a.iter().map(to_json).collect()),
        Value::Object(o) => Json::Object(o.iter().map(|(k, v)| (k.clone(), to_json(v))).collect()),
    }
}

fn from_json(j: &Json) -> Value {
    match j {
        Json::Null => Value::Null,
        Json::Bool(b) => Value::Bool(*b),
        Json::Number(n) => serde_json::from_str(n).unwrap(),
        Json::Str(s) => Value::String(s.clone()),
        Json::Array(a) => Value::Array(a.iter().map(from_json).collect()),
        Json::Object(o) => Value::Object(o.iter().map(|(k, v)| (k.clone(), from_json(v))).collect()),
    }
}

fn parse(text: &str) -> Value {
    serde_json::from_str(text).unwrap()
}

fn session_list(v: &Value) -> Result<Value, String> {
    sanitize_session_list(&to_json(v)).map(|j| from_json(&j))
}

fn proxy(v: &Value, max_size: usize) -> Result<Value, String> {
    sanitize_proxy_response(&to_json(v), max_size).map(|j| from_json(&j))
}

const ALLOWED_SESSION_FIELDS: &[&str] =
    &["name", "pid", "command", "rows", "cols", "clients", "tags", "server", "last_activity_ms"];

// ── validate_session_name_from_remote ─────────────────────────

#[test]
fn valid_session_name_simple() {
    assert!(validate_session_name_from_remote("my-session"));
}

#[test]
fn valid_session_name_with_dots_underscores() {
    assert!(validate_session_name_from_remote("my.session_01"));
}

#[test]
fn valid_session_name_single_char() {
    assert!(validate_session_name_from_remote("a"));
}

#[test]
fn invalid_session_name_empty() {
    assert!(!validate_session_name_from_remote(""));
}

#[test]
fn invalid_session_name_too_long() {
    let name = "a".repeat(101);
    assert!(!validate_session_name_from_remote(&name));
}

#[test]
fn valid_session_name_max_length() {
    let name = "a".repeat(100);
    assert!(validate_session_name_from_remote(&name));
}

#[test]
fn invalid_session_name_spaces() {
    assert!(!validate_session_name_from_remote("my session"));
}

#[test]
fn invalid_session_name_special_chars() {
    assert!(!validate_session_name_from_remote("my@session"));
    assert!(!validate_session_name_from_remote("my/session"));
    assert!(!validate_session_name_from_remote("my;session"));
}

// ── sanitize_session_list ─────────────────────────────────────

#[test]
fn sanitize_session_list_valid() {
    let input = parse(
        r#"[{"name": "sess-1", "pid": 1234, "command": "bash", "rows": 24, "cols": 80},
            {"name": "sess-2", "pid": 5678, "command": "zsh"}]"#,
    );
    let result = session_list(&input).unwrap();
    let arr = result.as_array().unwrap();
    assert_eq!(arr.len(), 2);
    assert_eq!(arr[0]["name"], "sess-1");
    assert_eq!(arr[1]["name"], "sess-2");
}

#[test]
fn sanitize_session_list_strips_unexpected_fields() {
    let input = parse(r#"[{"name": "sess-1", "pid": 1234, "secret": "should-be-stripped", "internal_data": 42}]"#);
    let result = session_list(&input).unwrap();
    let obj = result.as_array().unwrap()[0].as_object().unwrap();
    assert!(obj.contains_key("name"));
    assert!(obj.contains_key("pid"));
    assert!(!obj.contains_key("secret"));
    assert!(!obj.contains_key("internal_data"));
}

#[test]
fn sanitize_session_list_keeps_allowed_fields() {
    let input = parse(
        r#"[{"name": "s1", "pid": 100, "command": "bash", "rows": 24, "cols": 80,
             "clients": 2, "tags": ["web"], "server": "host-1", "last_activity_ms": 500}]"#,
    );
    let result = session_list(&input).unwrap();
    let obj = result.as_array().unwrap()[0].as_object().unwrap();
    assert_eq!(obj.len(), 9);
    for field in ALLOWED_SESSION_FIELDS {
        assert!(obj.contains_key(*field), "missing allowed field: {}", field);
    }
}

#[test]
fn sanitize_session_list_rejects_non_array() {
    assert!(session_list(&parse(r#"{"name": "sess-1"}"#)).is_err());
    assert!(session_list(&parse(r#""hello""#)).is_err());
    assert!(session_list(&parse("42")).is_err());
}

#[test]
fn sanitize_session_list_rejects_missing_name() {
    let input = parse(r#"[{"pid": 1234}]"#);
    assert!(session_list(&input).is_err());
}

#[test]
fn sanitize_session_list_rejects_non_object_entry() {
    let input = parse(r#"["not-an-object"]"#);
    assert!(session_list(&input).is_err());
}

#[test]
fn sanitize_session_list_rejects_invalid_session_name() {
    let input = parse(r#"[{"name": "invalid session!"}]"#);
    assert!(session_list(&input).is_err());
}

#[test]
fn sanitize_session_list_rejects_too_long_name() {
    let name = "a".repeat(101);
    let mut entry = serde_json::Map::new();
    entry.insert("name".to_string(), Value::String(name));
    let input = Value::Array(vec![Value::Object(entry)]);
    assert!(session_list(&input).is_err());
}

fn named_sessions(n: usize) -> Value {
    Value::Array(
        (0..n)
            .map(|i| {
                let mut entry = serde_json::Map::new();
                entry.insert("name".to_string(), Value::String(format!("s{}", i)));
                Value::Object(entry)
            })
            .collect(),
    )
}

#[test]
fn sanitize_session_list_rejects_too_many_sessions() {
    let input = named_sessions(1001);
    assert!(session_list(&input).is_err());
}

#[test]
fn sanitize_session_list_accepts_max_sessions() {
    let input = named_sessions(1000);
    assert!(session_list(&input).is_ok());
}

#[test]
fn sanitize_session_list_empty_array_ok() {
    assert!(session_list(&parse("[]")).is_ok());
}

#[test]
fn sanitize_session_list_error_messages() {
    assert_eq!(session_list(&parse("42")).unwrap_err(), "session list must be an array");
    assert_eq!(
        session_list(&named_sessions(1001)).unwrap_err(),
        "session list exceeds maximum of 1000 entries (got 1001)"
    );
    assert_eq!(
        session_list(&parse(r#"[{"name": "ok"}, 7]"#)).unwrap_err(),
        "session list entry 1 is not an object"
    );
    assert_eq!(
        session_list(&parse(r#"[{"pid": 1}]"#)).unwrap_err(),
        "session list entry 0 missing 'name' string field"
    );
    assert_eq!(
        session_list(&parse(r#"[{"name": "bad name"}]"#)).unwrap_err(),
        "session list entry 0 has invalid name: 'bad name'"
    );
}

// ── sanitize_proxy_response ───────────────────────────────────

#[test]
fn sanitize_proxy_response_valid_object() {
    let input = parse(r#"{"key": "value"}"#);
    assert!(proxy(&input, 1_048_576).is_ok());
}

#[test]
fn sanitize_proxy_response_valid_array() {
    let input = parse("[1, 2, 3]");
    assert!(proxy(&input, 1_048_576).is_ok());
}

#[test]
fn sanitize_proxy_response_rejects_string() {
    let input = parse(r#""hello""#);
    assert!(proxy(&input, 1_048_576).is_err());
}

#[test]
fn sanitize_proxy_response_rejects_number() {
    let input = parse("42");
    assert!(proxy(&input, 1_048_576).is_err());
}

#[test]
fn sanitize_proxy_response_rejects_null() {
    let input = parse("null");
    assert!(proxy(&input, 1_048_576).is_err());
}

#[test]
fn sanitize_proxy_response_rejects_bool() {
    let input = parse("true");
    assert!(proxy(&input, 1_048_576).is_err());
}

#[test]
fn sanitize_proxy_response_rejects_oversized() {
    let big_value = "x".repeat(100);
    let mut obj = serde_json::Map::new();
    obj.insert("data".to_string(), Value::String(big_value));
    let input = Value::Object(obj);
    assert!(proxy(&input, 50).is_err());
}

#[test]
fn sanitize_proxy_response_accepts_at_limit() {
    let input = parse(r#"{"a": 1}"#);
    let serialized = serde_json::to_string(&input).unwrap();
    let size = serialized.len();
    assert!(proxy(&input, size).is_ok());
}

#[test]
fn sanitize_proxy_response_rejects_just_over_limit() {
    let input = parse(r#"{"a": 1}"#);
    let serialized = serde_json::to_string(&input).unwrap();
    let size = serialized.len();
    assert!(proxy(&input, size - 1).is_err());
}

#[test]
fn sanitize_proxy_response_messages_and_identity() {
    let input = parse(r#"{"a": [1, "b"]}"#);
    assert_eq!(proxy(&input, 100).unwrap(), input);
    assert_eq!(proxy(&parse("3"), 100).unwrap_err(), "proxy response must be an object or array");
    assert_eq!(
        proxy(&parse(r#"{"a": 1}"#), 3).unwrap_err(),
        "proxy response exceeds maximum size of 3 bytes (got 7)"
    );
}

#[test]
fn long_multibyte_invalid_name_is_refused_without_panic() {
    let name = format!("a{}", "é".repeat(60));
    let input = Json::Array(vec![Json::Object(vec![("name".to_string(), Json::Str(name))])]);
    let err = sanitize_session_list(&input).unwrap_err();
    assert_eq!(err, format!("session list entry 0 has invalid name: 'a{}'", "é".repeat(24)));
}

#[test]
fn json_text_matches_serde_json() {
    let texts = [
        r#"{"a": 1, "b": [true, false, null], "c": {"d": "e"}}"#,
        r#"["quote \" backslash \\ slash / tab \t nl \n cr \r bs \b ff \f", "\u0001\u001f\u007f", "é ü 日本 🎉"]"#,
        r#"[]"#,
        r#"{}"#,
        r#"[1.5, -2, 3e10, 0]"#,
    ];
    for t in texts {
        let v = parse(t);
        assert_eq!(json_text_of(&to_json(&v)), serde_json::to_string(&v).unwrap(), "{t}");
    }
}

#[test]
fn proxy_size_counts_the_value_itself() {
    let input = parse(r#"{"data": "éééé"}"#);
    let size = serde_json::to_string(&input).unwrap().len();
    assert!(proxy(&input, size).is_ok());
    assert_eq!(
        proxy(&input, size - 1).unwrap_err(),
        format!("proxy response exceeds maximum size of {} bytes (got {})", size - 1, size)
    );
}
