//! The errors of the HTTP API: each has a status code, a machine-readable
//! code and a human-readable message.

use vstd::prelude::*;
use crate::json::{lemma_object_view, Json, JsonView};
use crate::text::{concat3, owned};

verus! {

/// Structured error type for all API handlers.
#[derive(Debug)]
pub enum ApiError {
    /// 401 - No authentication credentials provided.
    AuthRequired,
    /// 403 - Credentials provided but invalid.
    AuthInvalid,
    /// 404 - Generic not-found.
    NotFound,
    /// 404 - A specific overlay ID was not found.
    OverlayNotFound(String),
    /// 404 - A specific panel ID was not found.
    PanelNotFound(String),
    /// 400 - Malformed or invalid request.
    InvalidRequest(String),
    /// 400 - Invalid overlay specification.
    InvalidOverlay(String),
    /// 400 - Invalid input mode value.
    InvalidInputMode(String),
    /// 400 - Invalid format parameter.
    InvalidFormat(String),
    /// 404 - A specific session name was not found.
    SessionNotFound(String),
    /// 503 - Internal channel is full; back-pressure signal.
    ChannelFull,
    /// 503 - Terminal parser actor is unavailable.
    ParserUnavailable,
    /// 500 - Failed to write input to the PTY.
    InputSendFailed,
    /// 408 - Quiescence wait exceeded max_wait_ms deadline.
    QuiesceTimeout,
    /// 500 - Failed to create a session (PTY spawn error, etc.).
    SessionCreateFailed(String),
    /// 409 - Session name already exists.
    SessionNameConflict(String),
    /// 404 - No sessions exist in the registry.
    NoSessions,
    /// 500 - Catch-all internal error.
    InternalError(String),
    /// 403 - A browser WebSocket upgrade came from an origin that is not
    /// allowed.
    OriginNotAllowed,
}

/// The HTTP status code of an error.
pub open spec fn api_error_status(e: ApiError) -> u16 {
    match e {
        ApiError::AuthRequired => 401,
        ApiError::AuthInvalid => 403,
        ApiError::NotFound => 404,
        ApiError::OverlayNotFound(_) => 404,
        ApiError::PanelNotFound(_) => 404,
        ApiError::InvalidRequest(_) => 400,
        ApiError::InvalidOverlay(_) => 400,
        ApiError::InvalidInputMode(_) => 400,
        ApiError::InvalidFormat(_) => 400,
        ApiError::SessionNotFound(_) => 404,
        ApiError::ChannelFull => 503,
        ApiError::ParserUnavailable => 503,
        ApiError::InputSendFailed => 500,
        ApiError::QuiesceTimeout => 408,
        ApiError::SessionCreateFailed(_) => 500,
        ApiError::SessionNameConflict(_) => 409,
        ApiError::NoSessions => 404,
        ApiError::InternalError(_) => 500,
        ApiError::OriginNotAllowed => 403,
    }
}

/// The machine-readable code of an error.
pub open spec fn api_error_code(e: ApiError) -> Seq<char> {
    match e {
        ApiError::AuthRequired => "auth_required"@,
        ApiError::AuthInvalid => "auth_invalid"@,
        ApiError::NotFound => "not_found"@,
        ApiError::OverlayNotFound(_) => "overlay_not_found"@,
        ApiError::PanelNotFound(_) => "panel_not_found"@,
        ApiError::InvalidRequest(_) => "invalid_request"@,
        ApiError::InvalidOverlay(_) => "invalid_overlay"@,
        ApiError::InvalidInputMode(_) => "invalid_input_mode"@,
        ApiError::InvalidFormat(_) => "invalid_format"@,
        ApiError::SessionNotFound(_) => "session_not_found"@,
        ApiError::ChannelFull => "channel_full"@,
        ApiError::ParserUnavailable => "parser_unavailable"@,
        ApiError::InputSendFailed => "input_send_failed"@,
        ApiError::QuiesceTimeout => "quiesce_timeout"@,
        ApiError::SessionCreateFailed(_) => "session_create_failed"@,
        ApiError::SessionNameConflict(_) => "session_name_conflict"@,
        ApiError::NoSessions => "no_sessions"@,
        ApiError::InternalError(_) => "internal_error"@,
        ApiError::OriginNotAllowed => "origin_not_allowed"@,
    }
}

/// The human-readable message of an error.
pub open spec fn api_error_message(e: ApiError) -> Seq<char> {
    match e {
        ApiError::AuthRequired => "Authentication required. Provide a token via Authorization header or ?token= query parameter."@,
        ApiError::AuthInvalid => "Invalid authentication token."@,
        ApiError::NotFound => "Not found."@,
        ApiError::OverlayNotFound(id) => "No overlay exists with id '"@ + id@ + "'."@,
        ApiError::PanelNotFound(id) => "No panel exists with id '"@ + id@ + "'."@,
        ApiError::InvalidRequest(d) => "Invalid request: "@ + d@ + "."@,
        ApiError::InvalidOverlay(d) => "Invalid overlay: "@ + d@ + "."@,
        ApiError::InvalidInputMode(d) => "Invalid input mode: "@ + d@ + "."@,
        ApiError::InvalidFormat(d) => "Invalid format: "@ + d@ + "."@,
        ApiError::SessionNotFound(n) => "Session not found: "@ + n@ + "."@,
        ApiError::ChannelFull => "Server is overloaded. Try again shortly."@,
        ApiError::ParserUnavailable => "Terminal parser is unavailable."@,
        ApiError::InputSendFailed => "Failed to send input to terminal."@,
        ApiError::QuiesceTimeout => "Terminal did not become quiescent within the deadline."@,
        ApiError::SessionCreateFailed(d) => "Failed to create session: "@ + d@ + "."@,
        ApiError::SessionNameConflict(n) => "Session name already exists: "@ + n@ + "."@,
        ApiError::NoSessions => "No sessions exist."@,
        ApiError::InternalError(d) => "Internal error: "@ + d@ + "."@,
        ApiError::OriginNotAllowed => "Origin not allowed."@,
    }
}

/// The JSON body of an error response:
/// `{"error": {"code": <code>, "message": <message>}}`.
pub open spec fn api_error_body(e: ApiError) -> JsonView {
    JsonView::Object(seq![(
        "error"@,
        JsonView::Object(seq![
            ("code"@, JsonView::Str(api_error_code(e))),
            ("message"@, JsonView::Str(api_error_message(e))),
        ]),
    )])
}

impl ApiError {
    /// Returns the HTTP status code for this error variant.
    pub fn status_code(&self) -> (r: u16)
        ensures
            r == api_error_status(*self),
    {
        match self {
            ApiError::AuthRequired => 401,
            ApiError::AuthInvalid => 403,
            ApiError::NotFound => 404,
            ApiError::OverlayNotFound(_) => 404,
            ApiError::PanelNotFound(_) => 404,
            ApiError::InvalidRequest(_) => 400,
            ApiError::InvalidOverlay(_) => 400,
            ApiError::InvalidInputMode(_) => 400,
            ApiError::InvalidFormat(_) => 400,
            ApiError::SessionNotFound(_) => 404,
            ApiError::ChannelFull => 503,
            ApiError::ParserUnavailable => 503,
            ApiError::InputSendFailed => 500,
            ApiError::QuiesceTimeout => 408,
            ApiError::SessionCreateFailed(_) => 500,
            ApiError::SessionNameConflict(_) => 409,
            ApiError::NoSessions => 404,
            ApiError::InternalError(_) => 500,
            ApiError::OriginNotAllowed => 403,
        }
    }

    /// Returns a machine-readable error code string.
    pub fn code(&self) -> (r: &'static str)
        ensures
            r@ == api_error_code(*self),
    {
        match self {
            ApiError::AuthRequired => "auth_required",
            ApiError::AuthInvalid => "auth_invalid",
            ApiError::NotFound => "not_found",
            ApiError::OverlayNotFound(_) => "overlay_not_found",
            ApiError::PanelNotFound(_) => "panel_not_found",
            ApiError::InvalidRequest(_) => "invalid_request",
            ApiError::InvalidOverlay(_) => "invalid_overlay",
            ApiError::InvalidInputMode(_) => "invalid_input_mode",
            ApiError::InvalidFormat(_) => "invalid_format",
            ApiError::SessionNotFound(_) => "session_not_found",
            ApiError::ChannelFull => "channel_full",
            ApiError::ParserUnavailable => "parser_unavailable",
            ApiError::InputSendFailed => "input_send_failed",
            ApiError::QuiesceTimeout => "quiesce_timeout",
            ApiError::SessionCreateFailed(_) => "session_create_failed",
            ApiError::SessionNameConflict(_) => "session_name_conflict",
            ApiError::NoSessions => "no_sessions",
            ApiError::InternalError(_) => "internal_error",
            ApiError::OriginNotAllowed => "origin_not_allowed",
        }
    }

    /// Returns a human-readable error message.
    pub fn message(&self) -> (r: String)
        ensures
            r@ == api_error_message(*self),
    {
        match self {
            ApiError::AuthRequired => owned(
                "Authentication required. Provide a token via Authorization header or ?token= query parameter.",
            ),
            ApiError::AuthInvalid => owned("Invalid authentication token."),
            ApiError::NotFound => owned("Not found."),
            ApiError::OverlayNotFound(id) => concat3("No overlay exists with id '", id.as_str(), "'."),
            ApiError::PanelNotFound(id) => concat3("No panel exists with id '", id.as_str(), "'."),
            ApiError::InvalidRequest(d) => concat3("Invalid request: ", d.as_str(), "."),
            ApiError::InvalidOverlay(d) => concat3("Invalid overlay: ", d.as_str(), "."),
            ApiError::InvalidInputMode(d) => concat3("Invalid input mode: ", d.as_str(), "."),
            ApiError::InvalidFormat(d) => concat3("Invalid format: ", d.as_str(), "."),
            ApiError::SessionNotFound(n) => concat3("Session not found: ", n.as_str(), "."),
            ApiError::ChannelFull => owned("Server is overloaded. Try again shortly."),
            ApiError::ParserUnavailable => owned("Terminal parser is unavailable."),
            ApiError::InputSendFailed => owned("Failed to send input to terminal."),
            ApiError::QuiesceTimeout => owned("Terminal did not become quiescent within the deadline."),
            ApiError::SessionCreateFailed(d) => concat3("Failed to create session: ", d.as_str(), "."),
            ApiError::SessionNameConflict(n) => concat3("Session name already exists: ", n.as_str(), "."),
            ApiError::NoSessions => owned("No sessions exist."),
            ApiError::InternalError(d) => concat3("Internal error: ", d.as_str(), "."),
            ApiError::OriginNotAllowed => owned("Origin not allowed."),
        }
    }

    /// The JSON body sent with this error.
    pub fn body(&self) -> (r: Json)
        ensures
            r.jview() == api_error_body(*self),
    {
        let code = Json::Str(owned(self.code()));
        let message = Json::Str(self.message());
        let mut inner: Vec<(String, Json)> = Vec::new();
        inner.push((owned("code"), code));
        inner.push((owned("message"), message));
        proof {
            lemma_object_view(inner);
        }
        let inner_json = Json::Object(inner);
        let mut outer: Vec<(String, Json)> = Vec::new();
        outer.push((owned("error"), inner_json));
        proof {
            lemma_object_view(outer);
        }
        let r = Json::Object(outer);
        proof {
            if let JsonView::Object(o) = r.jview() {
                assert(o =~= seq![("error"@, inner_json.jview())]);
            }
            if let JsonView::Object(i) = inner_json.jview() {
                assert(i =~= seq![
                    ("code"@, JsonView::Str(api_error_code(*self))),
                    ("message"@, JsonView::Str(api_error_message(*self))),
                ]);
            }
        }
        r
    }
}

/// Every API error is answered with a client-error (4xx) or server-error
/// (5xx) status.
pub proof fn law_error_status_is_error_class(e: ApiError)
    ensures
        400 <= api_error_status(e) < 600,
        (api_error_status(e) < 500) <==> !(e is ChannelFull || e is ParserUnavailable || e is InputSendFailed
            || e is SessionCreateFailed || e is InternalError),
{
}

} // verus!
