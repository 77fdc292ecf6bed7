//! The JSON-RPC-like envelopes of the WebSocket API and the parameters of
//! its methods.
//!
//! The application decodes incoming frames into these types and encodes
//! responses from [`WsResponse::to_json`].

use vstd::prelude::*;
use crate::input::keys::opt_string_view;
use crate::json::{clone_json, lemma_object_view, Json, JsonView};
use crate::text::owned;

verus! {

/// Incoming WebSocket request.
#[derive(Debug)]
pub struct WsRequest {
    /// Optional request id, echoed back in the response.
    pub id: Option<Json>,
    /// Method name (e.g. "get_screen", "send_input").
    pub method: String,
    /// Method-specific parameters.
    pub params: Option<Json>,
}

/// Server-level WebSocket request: includes an optional session field.
///
/// Used by the multiplexed `/ws/json` endpoint where a single WebSocket
/// connection can interact with multiple sessions.
#[derive(Debug)]
pub struct ServerWsRequest {
    /// Optional request id, echoed back in the response.
    pub id: Option<Json>,
    /// Method name (e.g. "create_session", "get_screen").
    pub method: String,
    /// Target session name (required for per-session methods).
    pub session: Option<String>,
    /// Method-specific parameters.
    pub params: Option<Json>,
}

/// Error payload inside a [`WsResponse`].
#[derive(Debug)]
pub struct WsError {
    pub code: String,
    pub message: String,
}

/// Outgoing WebSocket response.
#[derive(Debug)]
pub struct WsResponse {
    pub id: Option<Json>,
    pub method: Option<String>,
    pub result: Option<Json>,
    pub error: Option<WsError>,
}

pub open spec fn opt_json_view(o: Option<Json>) -> Option<JsonView> {
    match o {
        Some(j) => Some(j.jview()),
        None => None,
    }
}

/// A one-field list holding `v` under `name`, or nothing.
pub open spec fn opt_field(name: Seq<char>, v: Option<JsonView>) -> Seq<(Seq<char>, JsonView)> {
    match v {
        Some(x) => seq![(name, x)],
        None => seq![],
    }
}

/// The encoded error payload.
pub open spec fn error_json(error: Option<(Seq<char>, Seq<char>)>) -> Option<JsonView> {
    match error {
        Some((code, message)) => Some(JsonView::Object(seq![("code"@, JsonView::Str(code)), ("message"@, JsonView::Str(message))])),
        None => None,
    }
}

/// The error payload as text.
pub open spec fn error_view(e: Option<WsError>) -> Option<(Seq<char>, Seq<char>)> {
    match e {
        Some(x) => Some((x.code@, x.message@)),
        None => None,
    }
}

/// The fields of an encoded response: `id`, `method`, `result` and
/// `error`, in that order, each only when present.
pub open spec fn response_fields(
    id: Option<JsonView>,
    method: Option<Seq<char>>,
    result: Option<JsonView>,
    error: Option<(Seq<char>, Seq<char>)>,
) -> Seq<(Seq<char>, JsonView)> {
    opt_field("id"@, id) + opt_field("method"@, match method {
        Some(m) => Some(JsonView::Str(m)),
        None => None,
    }) + opt_field("result"@, result) + opt_field("error"@, error_json(error))
}

impl WsResponse {
    /// Build a successful response.
    pub fn success(id: Option<Json>, method: &str, result: Json) -> (r: Self)
        ensures
            opt_json_view(r.id) == opt_json_view(id),
            opt_string_view(r.method) == Some(method@),
            opt_json_view(r.result) == Some(result.jview()),
            r.error is None,
    {
        WsResponse { id, method: Some(owned(method)), result: Some(result), error: None }
    }

    /// Build an error response tied to a particular request.
    pub fn error(id: Option<Json>, method: &str, code: &str, message: &str) -> (r: Self)
        ensures
            opt_json_view(r.id) == opt_json_view(id),
            opt_string_view(r.method) == Some(method@),
            r.result is None,
            r.error matches Some(e) && e.code@ == code@ && e.message@ == message@,
    {
        WsResponse {
            id,
            method: Some(owned(method)),
            result: None,
            error: Some(WsError { code: owned(code), message: owned(message) }),
        }
    }

    /// Build a protocol-level error (no method or id available).
    pub fn protocol_error(code: &str, message: &str) -> (r: Self)
        ensures
            r.id is None,
            r.method is None,
            r.result is None,
            r.error matches Some(e) && e.code@ == code@ && e.message@ == message@,
    {
        WsResponse {
            id: None,
            method: None,
            result: None,
            error: Some(WsError { code: owned(code), message: owned(message) }),
        }
    }

    /// The JSON object this response is sent as; absent fields are left
    /// out.
    pub fn to_json(&self) -> (r: Json)
        ensures
            r.jview() == JsonView::Object(response_fields(
                opt_json_view(self.id),
                opt_string_view(self.method),
                opt_json_view(self.result),
                error_view(self.error),
            )),
    {
        let ghost m = match opt_string_view(self.method) {
            Some(m) => Some(JsonView::Str(m)),
            None => None,
        };
        let mut fields: Vec<(String, Json)> = Vec::new();
        if let Some(v) = &self.id {
            fields.push((owned("id"), clone_json(v)));
        }
        proof {
            lemma_object_view(fields);
            if let JsonView::Object(o) = Json::Object(fields).jview() {
                assert(o =~= opt_field("id"@, opt_json_view(self.id)));
            }
        }
        if let Some(x) = &self.method {
            fields.push((owned("method"), Json::Str(x.clone())));
        }
        proof {
            lemma_object_view(fields);
            if let JsonView::Object(o) = Json::Object(fields).jview() {
                assert(o =~= opt_field("id"@, opt_json_view(self.id)) + opt_field("method"@, m));
            }
        }
        if let Some(v) = &self.result {
            fields.push((owned("result"), clone_json(v)));
        }
        proof {
            lemma_object_view(fields);
            if let JsonView::Object(o) = Json::Object(fields).jview() {
                assert(o =~= opt_field("id"@, opt_json_view(self.id)) + opt_field("method"@, m)
                    + opt_field("result"@, opt_json_view(self.result)));
            }
        }
        if let Some(e) = &self.error {
            let mut inner: Vec<(String, Json)> = Vec::new();
            inner.push((owned("code"), Json::Str(e.code.clone())));
            inner.push((owned("message"), Json::Str(e.message.clone())));
            proof {
                lemma_object_view(inner);
                if let JsonView::Object(o) = Json::Object(inner).jview() {
                    assert(o =~= seq![("code"@, JsonView::Str(e.code@)), ("message"@, JsonView::Str(e.message@))]);
                }
            }
            fields.push((owned("error"), Json::Object(inner)));
        }
        let r = Json::Object(fields);
        proof {
            lemma_object_view(fields);
            if let JsonView::Object(o) = r.jview() {
                assert(o =~= opt_field("id"@, opt_json_view(self.id)) + opt_field("method"@, m)
                    + opt_field("result"@, opt_json_view(self.result)) + opt_field("error"@, error_json(error_view(self.error))));
            }
        }
        r
    }
}

/// Default delivery interval of a subscription, in milliseconds.
pub fn default_interval() -> (r: u64)
    ensures
        r == 100,
{
    100
}

/// Default number of scrollback lines returned.
pub fn default_scrollback_limit() -> (r: usize)
    ensures
        r == 100,
{
    100
}

/// Parameters for the `subscribe` method (the event kinds and the output
/// format are read by the terminal parser's side).
#[derive(Debug)]
pub struct SubscribeParams {
    pub interval_ms: u64,
    /// When > 0, the server will emit a `sync` event whenever the terminal has
    /// been idle for this many milliseconds after any activity.
    pub quiesce_ms: u64,
}

/// Parameters for the `await_quiesce` WebSocket method.
#[derive(Debug)]
pub struct AwaitQuiesceParams {
    pub timeout_ms: u64,
    pub max_wait_ms: Option<u64>,
    /// Generation from a previous quiescence response. If provided and matches
    /// the current generation, the server waits for new activity before
    /// checking quiescence.
    pub last_generation: Option<u64>,
    /// When true, always observe real silence for `timeout_ms` before responding.
    pub fresh: bool,
}

/// Parameters for the `get_scrollback` method.
#[derive(Debug)]
pub struct ScrollbackParams {
    pub offset: usize,
    pub limit: usize,
}

/// Encoding used for [`SendInputParams::data`].
#[derive(Debug, Clone, Copy, PartialEq, Eq, Structural)]
pub enum InputEncoding {
    Utf8,
    Base64,
}

impl Default for InputEncoding {
    fn default() -> (r: Self)
        ensures
            r == InputEncoding::Utf8,
    {
        InputEncoding::Utf8
    }
}

/// Parameters for the `send_input` method.
#[derive(Debug)]
pub struct SendInputParams {
    pub data: String,
    pub encoding: InputEncoding,
}

/// What the `base64` crate's standard engine (RFC 4648 alphabet, with
/// padding) decodes from `text`: the bytes, or the text of its error.
pub uninterp spec fn base64_decoded(text: Seq<char>) -> Result<Seq<u8>, Seq<char>>;

/// Decodes `text` with `base64::engine::general_purpose::STANDARD`.
///
/// Trusted: the result (the bytes, or the decoding error's text) is what
/// the engine's `decode` gives for this text, which depends on it alone.
#[verifier::external_body]
fn decode_base64(text: &str) -> (r: Result<Vec<u8>, String>)
    ensures
        match r {
            Ok(b) => base64_decoded(text@) == Ok::<Seq<u8>, Seq<char>>(b@),
            Err(e) => base64_decoded(text@) == Err::<Seq<u8>, Seq<char>>(e@),
        },
{
    match base64::Engine::decode(&base64::engine::general_purpose::STANDARD, text) {
        Ok(bytes) => Ok(bytes),
        Err(e) => Err(e.to_string()),
    }
}

/// The bytes that `send_input` writes for `data`: its UTF-8 encoding, or
/// what base64 decodes from it; undecodable base64 is refused with the
/// message shown.
pub open spec fn input_bytes_result(data: Seq<char>, encoding: InputEncoding) -> Result<Seq<u8>, Seq<char>> {
    match encoding {
        InputEncoding::Utf8 => Ok(vstd::utf8::encode_utf8(data)),
        InputEncoding::Base64 => match base64_decoded(data) {
            Ok(b) => Ok(b),
            Err(e) => Err("Invalid base64: "@ + e + "."@),
        },
    }
}

/// Decode the `data` of a `send_input` request into the bytes to write.
pub fn input_bytes(data: &str, encoding: InputEncoding) -> (r: Result<Vec<u8>, String>)
    ensures
        match input_bytes_result(data@, encoding) {
            Ok(b) => r matches Ok(x) && x@ == b,
            Err(m) => r matches Err(x) && x@ == m,
        },
{
    match encoding {
        InputEncoding::Utf8 => Ok(vstd::slice::slice_to_vec(data.as_bytes())),
        InputEncoding::Base64 => match decode_base64(data) {
            Ok(b) => Ok(b),
            Err(e) => Err(crate::text::concat3("Invalid base64: ", e.as_str(), ".")),
        },
    }
}

/// Parameters that identify an overlay by id (get / delete).
#[derive(Debug)]
pub struct OverlayIdParams {
    pub id: String,
}

/// Parameters that identify a panel by id (get / delete).
#[derive(Debug)]
pub struct PanelIdParams {
    pub id: String,
}

/// Target type for batch updates.
#[derive(Debug, Clone, Copy, PartialEq, Eq, Structural)]
pub enum BatchTargetType {
    Overlay,
    Panel,
}

/// Parameters for the `focus` method.
#[derive(Debug)]
pub struct FocusParams {
    pub id: String,
}

} // verus!
