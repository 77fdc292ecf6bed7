use wsh::api::error::ApiError;
use wsh::json::Json;

fn field<'a>(j: &'a Json, key: &str) -> &'a Json {
    match j {
        Json::Object(fields) => &fields.iter().find(|(k, _)| k == key).unwrap().1,
        _ => panic!("not an object"),
    }
}

fn text(j: &Json) -> &str {
    match j {
        Json::Str(s) => s.as_str(),
        _ => panic!("not a string"),
    }
}

#[test]
fn auth_required_status() {
    assert_eq!(ApiError::AuthRequired.status_code(), 401);
}

#[test]
fn auth_invalid_status() {
    assert_eq!(ApiError::AuthInvalid.status_code(), 403);
}

#[test]
fn not_found_status() {
    assert_eq!(ApiError::NotFound.status_code(), 404);
}

#[test]
fn overlay_not_found_status() {
    assert_eq!(ApiError::OverlayNotFound("x".into()).status_code(), 404);
}

#[test]
fn invalid_request_status() {
    assert_eq!(ApiError::InvalidRequest("x".into()).status_code(), 400);
}

#[test]
fn channel_full_status() {
    assert_eq!(ApiError::ChannelFull.status_code(), 503);
}

#[test]
fn quiesce_timeout_status() {
    assert_eq!(ApiError::QuiesceTimeout.status_code(), 408);
}

#[test]
fn session_name_conflict_status() {
    assert_eq!(ApiError::SessionNameConflict("taken".into()).status_code(), 409);
}

#[test]
fn internal_error_status() {
    assert_eq!(ApiError::InternalError("x".into()).status_code(), 500);
}

#[test]
fn codes_match_variants() {
    assert_eq!(ApiError::AuthRequired.code(), "auth_required");
    assert_eq!(ApiError::AuthInvalid.code(), "auth_invalid");
    assert_eq!(ApiError::NotFound.code(), "not_found");
    assert_eq!(ApiError::OverlayNotFound("x".into()).code(), "overlay_not_found");
    assert_eq!(ApiError::PanelNotFound("x".into()).code(), "panel_not_found");
    assert_eq!(ApiError::InvalidRequest("x".into()).code(), "invalid_request");
    assert_eq!(ApiError::InvalidOverlay("x".into()).code(), "invalid_overlay");
    assert_eq!(ApiError::InvalidInputMode("x".into()).code(), "invalid_input_mode");
    assert_eq!(ApiError::InvalidFormat("x".into()).code(), "invalid_format");
    assert_eq!(ApiError::SessionNotFound("x".into()).code(), "session_not_found");
    assert_eq!(ApiError::ChannelFull.code(), "channel_full");
    assert_eq!(ApiError::ParserUnavailable.code(), "parser_unavailable");
    assert_eq!(ApiError::InputSendFailed.code(), "input_send_failed");
    assert_eq!(ApiError::QuiesceTimeout.code(), "quiesce_timeout");
    assert_eq!(ApiError::SessionCreateFailed("x".into()).code(), "session_create_failed");
    assert_eq!(ApiError::SessionNameConflict("x".into()).code(), "session_name_conflict");
    assert_eq!(ApiError::NoSessions.code(), "no_sessions");
    assert_eq!(ApiError::InternalError("x".into()).code(), "internal_error");
    assert_eq!(ApiError::OriginNotAllowed.code(), "origin_not_allowed");
}

#[test]
fn overlay_not_found_includes_id() {
    assert_eq!(ApiError::OverlayNotFound("abc-123".into()).message(), "No overlay exists with id 'abc-123'.");
}

#[test]
fn invalid_request_includes_detail() {
    assert_eq!(
        ApiError::InvalidRequest("missing field 'x'".into()).message(),
        "Invalid request: missing field 'x'."
    );
}

#[test]
fn invalid_overlay_includes_detail() {
    assert_eq!(
        ApiError::InvalidOverlay("spans must not be empty".into()).message(),
        "Invalid overlay: spans must not be empty."
    );
}

#[test]
fn invalid_input_mode_includes_detail() {
    assert_eq!(
        ApiError::InvalidInputMode("unknown mode 'foo'".into()).message(),
        "Invalid input mode: unknown mode 'foo'."
    );
}

#[test]
fn invalid_format_includes_detail() {
    assert_eq!(
        ApiError::InvalidFormat("expected 'html' or 'text'".into()).message(),
        "Invalid format: expected 'html' or 'text'."
    );
}

#[test]
fn session_not_found_includes_name() {
    assert_eq!(ApiError::SessionNotFound("my-session".into()).message(), "Session not found: my-session.");
}

#[test]
fn internal_error_includes_detail() {
    assert_eq!(ApiError::InternalError("database timeout".into()).message(), "Internal error: database timeout.");
}

#[test]
fn session_create_failed_includes_detail() {
    assert_eq!(
        ApiError::SessionCreateFailed("pty error".into()).message(),
        "Failed to create session: pty error."
    );
}

#[test]
fn session_name_conflict_includes_name() {
    assert_eq!(
        ApiError::SessionNameConflict("taken".into()).message(),
        "Session name already exists: taken."
    );
}

#[test]
fn auth_required_message() {
    assert_eq!(
        ApiError::AuthRequired.message(),
        "Authentication required. Provide a token via Authorization header or ?token= query parameter."
    );
}

#[test]
fn fixed_messages() {
    assert_eq!(ApiError::AuthInvalid.message(), "Invalid authentication token.");
    assert_eq!(ApiError::NotFound.message(), "Not found.");
    assert_eq!(ApiError::ChannelFull.message(), "Server is overloaded. Try again shortly.");
    assert_eq!(ApiError::ParserUnavailable.message(), "Terminal parser is unavailable.");
    assert_eq!(ApiError::InputSendFailed.message(), "Failed to send input to terminal.");
    assert_eq!(
        ApiError::QuiesceTimeout.message(),
        "Terminal did not become quiescent within the deadline."
    );
    assert_eq!(ApiError::NoSessions.message(), "No sessions exist.");
}

#[test]
fn response_has_error_wrapper() {
    let body = ApiError::NotFound.body();
    let inner = field(&body, "error");
    assert_eq!(text(field(inner, "code")), "not_found");
    assert_eq!(text(field(inner, "message")), "Not found.");
}
