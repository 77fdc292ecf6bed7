//! The decisions of a session's JSON WebSocket (`/sessions/{name}/ws/json`).
//!
//! The connection is a loop over events: terminal-parser events, input
//! events, the outcome of an idle wait, activity transitions and frames from
//! the client. [`ws_json_step`] takes the connection's state and one event
//! and says what to do; the application performs each effect (sending,
//! querying the screen, starting or stopping watchers) and feeds the next
//! event back. Ping/pong keepalive is decided by
//! [`Keepalive`](crate::api::handlers::Keepalive).

use vstd::prelude::*;
use crate::api::handlers::MAX_WAIT_CEILING_MS;
use crate::api::ws_events::connected_message;
use crate::api::ws_methods::{error_view, opt_json_view, response_fields, WsResponse};
use crate::input::keys::opt_string_view;
use crate::json::{clone_json, lemma_array_view, lemma_object_view, Json, JsonView};
use crate::text::{concat3, decimal, decimal_string, owned};

verus! {

/// The kinds of events a client can subscribe to.
#[derive(Debug, Clone, Copy, PartialEq, Eq, Structural)]
pub enum EventType {
    Lines,
    Cursor,
    Mode,
    Diffs,
    Input,
    Activity,
}

/// The kinds of events the terminal parser emits.
#[derive(Debug, Clone, Copy, PartialEq, Eq, Structural)]
pub enum EventKind {
    Line,
    Cursor,
    Mode,
    Diff,
    Reset,
    Sync,
    Idle,
    Running,
}

/// Whether a parser event of `kind` goes to a client subscribed to
/// `subscribed`: resets and syncs always do, the others when their type is
/// subscribed (idle and running events under `activity`).
pub open spec fn forwards(subscribed: Seq<EventType>, kind: EventKind) -> bool {
    match kind {
        EventKind::Line => subscribed.contains(EventType::Lines),
        EventKind::Cursor => subscribed.contains(EventType::Cursor),
        EventKind::Mode => subscribed.contains(EventType::Mode),
        EventKind::Diff => subscribed.contains(EventType::Diffs),
        EventKind::Reset => true,
        EventKind::Sync => true,
        EventKind::Idle => subscribed.contains(EventType::Activity),
        EventKind::Running => subscribed.contains(EventType::Activity),
    }
}

/// Whether `t` is among `v`.
pub(crate) fn has_type(v: &Vec<EventType>, t: EventType) -> (r: bool)
    ensures
        r == v@.contains(t),
{
    let mut k: usize = 0;
    while k < v.len()
        invariant
            k <= v@.len(),
            forall|j: int| 0 <= j < k ==> v@[j] != t,
        decreases v@.len() - k,
    {
        if v[k] == t {
            assert(v@[k as int] == t);
            return true;
        }
        k = k + 1;
    }
    false
}

/// Check whether a parser event of `kind` should be forwarded to a
/// subscriber of the event types `subscribed`.
pub fn should_forward_session_event(subscribed: &Vec<EventType>, kind: EventKind) -> (r: bool)
    ensures
        r == forwards(subscribed@, kind),
{
    match kind {
        EventKind::Line => has_type(subscribed, EventType::Lines),
        EventKind::Cursor => has_type(subscribed, EventType::Cursor),
        EventKind::Mode => has_type(subscribed, EventType::Mode),
        EventKind::Diff => has_type(subscribed, EventType::Diffs),
        EventKind::Reset => true,
        EventKind::Sync => true,
        EventKind::Idle => has_type(subscribed, EventType::Activity),
        EventKind::Running => has_type(subscribed, EventType::Activity),
    }
}

/// The name of an event type in the protocol.
pub open spec fn event_type_name(t: EventType) -> Seq<char> {
    match t {
        EventType::Lines => "lines"@,
        EventType::Cursor => "cursor"@,
        EventType::Mode => "mode"@,
        EventType::Diffs => "diffs"@,
        EventType::Input => "input"@,
        EventType::Activity => "activity"@,
    }
}

fn protocol_name(t: EventType) -> (r: &'static str)
    ensures
        r@ == event_type_name(t),
{
    match t {
        EventType::Lines => "lines",
        EventType::Cursor => "cursor",
        EventType::Mode => "mode",
        EventType::Diffs => "diffs",
        EventType::Input => "input",
        EventType::Activity => "activity",
    }
}

/// What a subscription to `types` reports: `{"events": [names...]}`.
pub open spec fn subscribed_result(types: Seq<EventType>) -> JsonView {
    JsonView::Object(seq![("events"@, JsonView::Array(types.map_values(|t: EventType| JsonView::Str(event_type_name(t)))))])
}

pub(crate) fn subscribed_result_json(types: &Vec<EventType>) -> (r: Json)
    ensures
        r.jview() == subscribed_result(types@),
{
    let mut names: Vec<Json> = Vec::new();
    let mut k: usize = 0;
    while k < types.len()
        invariant
            k <= types@.len(),
            names@.len() == k,
            forall|j: int| 0 <= j < k ==> (#[trigger] names@[j]).jview() == JsonView::Str(event_type_name(types@[j])),
        decreases types@.len() - k,
    {
        names.push(Json::Str(owned(protocol_name(types[k]))));
        k = k + 1;
    }
    proof {
        lemma_array_view(names);
        assert(crate::json::items_view(names@) =~= types@.map_values(|t: EventType| JsonView::Str(event_type_name(t))));
    }
    let arr = Json::Array(names);
    let fields = vec![(owned("events"), arr)];
    proof {
        lemma_object_view(fields);
        assert(crate::json::fields_view(fields@) =~= seq![("events"@, fields@[0].1.jview())]);
    }
    Json::Object(fields)
}

/// An encoded error response to request `id` of `method`.
pub open spec fn error_reply(id: Option<JsonView>, method: Seq<char>, code: Seq<char>, message: Seq<char>) -> JsonView {
    JsonView::Object(response_fields(id, Some(method), None, Some((code, message))))
}

/// An encoded success response to request `id` of `method`.
pub open spec fn success_reply(id: Option<JsonView>, method: Seq<char>, result: JsonView) -> JsonView {
    JsonView::Object(response_fields(id, Some(method), Some(result), None))
}

/// `j` answers request `id` of `method`: its `id` field is the request's id
/// (absent when the request had none), its `method` field the method, and
/// it holds exactly one of a `result` and an `error`.
pub open spec fn answers(j: JsonView, id: Option<JsonView>, method: Seq<char>) -> bool {
    &&& crate::json::field_of(j, "id"@) == id
    &&& crate::json::field_of(j, "method"@) == Some(JsonView::Str(method))
    &&& (crate::json::field_of(j, "result"@) is Some) != (crate::json::field_of(j, "error"@) is Some)
}

proof fn lemma_reply_answers(id: Option<JsonView>, method: Seq<char>, result: Option<JsonView>, error: Option<(Seq<char>, Seq<char>)>)
    requires
        result is Some != error is Some,
    ensures
        answers(JsonView::Object(response_fields(id, Some(method), result, error)), id, method),
{
    reveal_strlit("id");
    reveal_strlit("method");
    reveal_strlit("result");
    reveal_strlit("error");
    reveal_with_fuel(crate::json::lookup, 4);
    assert("id"@ != "method"@ && "id"@ != "result"@ && "id"@ != "error"@) by {
        assert("id"@.len() == 2);
    }
    assert("method"@ != "result"@ && "method"@ != "error"@) by {
        assert("method"@[0] != "result"@[0]);
        assert("method"@.len() != "error"@.len());
    }
    assert("result"@ != "error"@) by {
        assert("result"@.len() != "error"@.len());
    }
    let m = JsonView::Str(method);
    let f = response_fields(id, Some(method), result, error);
    let tail = match (result, crate::api::ws_methods::error_json(error)) {
        (Some(r), _) => seq![("result"@, r)],
        (None, Some(e)) => seq![("error"@, e)],
        (None, None) => seq![],
    };
    match id {
        Some(x) => {
            assert(f =~= seq![("id"@, x), ("method"@, m)] + tail);
        },
        None => {
            assert(f =~= seq![("method"@, m)] + tail);
        },
    }
}

/// A success reply answers its request.
pub proof fn lemma_success_answers(id: Option<JsonView>, method: Seq<char>, result: JsonView)
    ensures
        answers(success_reply(id, method, result), id, method),
{
    lemma_reply_answers(id, method, Some(result), None);
}

/// An error reply answers its request.
pub proof fn lemma_error_answers(id: Option<JsonView>, method: Seq<char>, code: Seq<char>, message: Seq<char>)
    ensures
        answers(error_reply(id, method, code, message), id, method),
{
    lemma_reply_answers(id, method, None, Some((code, message)));
}

fn clone_id(id: &Option<Json>) -> (r: Option<Json>)
    ensures
        opt_json_view(r) == opt_json_view(*id),
{
    match id {
        Some(j) => Some(clone_json(j)),
        None => None,
    }
}

fn error_reply_json(id: Option<Json>, method: &str, code: &str, message: &str) -> (r: Json)
    ensures
        r.jview() == error_reply(opt_json_view(id), method@, code@, message@),
{
    let resp = WsResponse::error(id, method, code, message);
    resp.to_json()
}

fn success_reply_json(id: Option<Json>, method: &str, result: Json) -> (r: Json)
    ensures
        r.jview() == success_reply(opt_json_view(id), method@, result.jview()),
{
    let resp = WsResponse::success(id, method, result);
    resp.to_json()
}

/// The parameters of a `subscribe` request.
#[derive(Debug)]
pub struct SubscribeRequest {
    /// The event types to receive.
    pub events: Vec<EventType>,
    /// Report activity transitions after this much silence (0: no activity
    /// reports).
    pub idle_timeout_ms: u64,
}

/// The parameters of an `await_idle` (or `await_quiesce`) request.
#[derive(Debug)]
pub struct IdleWaitRequest {
    pub timeout_ms: u64,
    pub max_wait_ms: u64,
    pub last_generation: Option<u64>,
    pub fresh: bool,
}

/// An event of the connection loop.
#[derive(Debug)]
pub enum WsJsonEvent {
    /// The parser emitted an event of this kind.
    Parser(EventKind),
    /// The parser subscription skipped this many events.
    ParserLagged(u64),
    /// An input event arrived (when subscribed to input).
    Input,
    /// The input subscription skipped this many events.
    InputLagged(u64),
    /// The input subscription ended.
    InputClosed,
    /// The pending idle wait ended: idle at this generation, or the
    /// deadline passed.
    IdleResolved(Option<u64>),
    /// The activity watcher saw the terminal go idle at this generation.
    ActivityIdle(u64),
    /// The activity watcher saw output again at this generation.
    ActivityRunning(u64),
    /// The activity watcher stopped.
    ActivityClosed,
    /// A `subscribe` request; its parameters, or why they could not be read.
    Subscribe { id: Option<Json>, params: Result<SubscribeRequest, String> },
    /// An `await_idle` or `await_quiesce` request.
    AwaitIdle { id: Option<Json>, method: String, params: Result<IdleWaitRequest, String> },
    /// Any other request.
    Request,
    /// A text frame that is not a request.
    InvalidFrame,
    /// The client closed, the session ended, the keepalive gave up, or the
    /// server shuts down.
    Closed,
}

/// The mathematical content of a [`WsJsonEvent`].
pub enum WsJsonEventView {
    Parser(EventKind),
    ParserLagged(u64),
    Input,
    InputLagged(u64),
    InputClosed,
    IdleResolved(Option<u64>),
    ActivityIdle(u64),
    ActivityRunning(u64),
    ActivityClosed,
    Subscribe { id: Option<JsonView>, params: Result<(Seq<EventType>, u64), Seq<char>> },
    AwaitIdle { id: Option<JsonView>, method: Seq<char>, params: Result<IdleWaitRequest, Seq<char>> },
    Request,
    InvalidFrame,
    Closed,
}

impl View for WsJsonEvent {
    type V = WsJsonEventView;

    open spec fn view(&self) -> WsJsonEventView {
        match self {
            WsJsonEvent::Parser(k) => WsJsonEventView::Parser(*k),
            WsJsonEvent::ParserLagged(n) => WsJsonEventView::ParserLagged(*n),
            WsJsonEvent::Input => WsJsonEventView::Input,
            WsJsonEvent::InputLagged(n) => WsJsonEventView::InputLagged(*n),
            WsJsonEvent::InputClosed => WsJsonEventView::InputClosed,
            WsJsonEvent::IdleResolved(g) => WsJsonEventView::IdleResolved(*g),
            WsJsonEvent::ActivityIdle(g) => WsJsonEventView::ActivityIdle(*g),
            WsJsonEvent::ActivityRunning(g) => WsJsonEventView::ActivityRunning(*g),
            WsJsonEvent::ActivityClosed => WsJsonEventView::ActivityClosed,
            WsJsonEvent::Subscribe { id, params } => WsJsonEventView::Subscribe {
                id: opt_json_view(*id),
                params: match params {
                    Ok(p) => Ok((p.events@, p.idle_timeout_ms)),
                    Err(e) => Err(e@),
                },
            },
            WsJsonEvent::AwaitIdle { id, method, params } => WsJsonEventView::AwaitIdle {
                id: opt_json_view(*id),
                method: method@,
                params: match params {
                    Ok(p) => Ok(*p),
                    Err(e) => Err(e@),
                },
            },
            WsJsonEvent::Request => WsJsonEventView::Request,
            WsJsonEvent::InvalidFrame => WsJsonEventView::InvalidFrame,
            WsJsonEvent::Closed => WsJsonEventView::Closed,
        }
    }
}

/// What the application does for one step.
#[derive(Debug)]
pub enum WsJsonEffect {
    /// Send this message.
    Send(Json),
    /// Send the event that arrived, as it is.
    ForwardEvent,
    /// Query the screen and send it as a sync event.
    ResyncScreen,
    /// Start receiving input events.
    SubscribeInput,
    /// Stop receiving input events.
    UnsubscribeInput,
    /// Stop the activity watcher, if one runs.
    StopActivityWatch,
    /// Start an activity watcher with this idle timeout.
    StartActivityWatch(u64),
    /// Send the current activity state: an idle event with the screen when
    /// the terminal has been silent for this long, else a running event.
    SendInitialActivity(u64),
    /// Start waiting for idle (replacing any earlier wait).
    StartIdleWait { timeout_ms: u64, deadline_ms: u64, last_generation: Option<u64>, fresh: bool },
    /// Query the screen and answer the idle request with it (see
    /// [`idle_reply`]).
    ReplyIdle { id: Option<Json>, method: String, generation: u64 },
    /// Query the screen and send an idle event at this generation.
    SendIdleEvent(u64),
    /// Send a running event at this generation.
    SendRunningEvent(u64),
    /// Hand the request to the method dispatcher and send its answer.
    Dispatch,
    /// Send a close frame ("session ended") and end the connection.
    Close,
}

/// The mathematical content of a [`WsJsonEffect`].
pub enum WsJsonEffectView {
    Send(JsonView),
    ForwardEvent,
    ResyncScreen,
    SubscribeInput,
    UnsubscribeInput,
    StopActivityWatch,
    StartActivityWatch(u64),
    SendInitialActivity(u64),
    StartIdleWait { timeout_ms: u64, deadline_ms: u64, last_generation: Option<u64>, fresh: bool },
    ReplyIdle { id: Option<JsonView>, method: Seq<char>, generation: u64 },
    SendIdleEvent(u64),
    SendRunningEvent(u64),
    Dispatch,
    Close,
}

impl View for WsJsonEffect {
    type V = WsJsonEffectView;

    open spec fn view(&self) -> WsJsonEffectView {
        match self {
            WsJsonEffect::Send(j) => WsJsonEffectView::Send(j.jview()),
            WsJsonEffect::ForwardEvent => WsJsonEffectView::ForwardEvent,
            WsJsonEffect::ResyncScreen => WsJsonEffectView::ResyncScreen,
            WsJsonEffect::SubscribeInput => WsJsonEffectView::SubscribeInput,
            WsJsonEffect::UnsubscribeInput => WsJsonEffectView::UnsubscribeInput,
            WsJsonEffect::StopActivityWatch => WsJsonEffectView::StopActivityWatch,
            WsJsonEffect::StartActivityWatch(t) => WsJsonEffectView::StartActivityWatch(*t),
            WsJsonEffect::SendInitialActivity(t) => WsJsonEffectView::SendInitialActivity(*t),
            WsJsonEffect::StartIdleWait { timeout_ms, deadline_ms, last_generation, fresh } => WsJsonEffectView::StartIdleWait {
                timeout_ms: *timeout_ms,
                deadline_ms: *deadline_ms,
                last_generation: *last_generation,
                fresh: *fresh,
            },
            WsJsonEffect::ReplyIdle { id, method, generation } => WsJsonEffectView::ReplyIdle {
                id: opt_json_view(*id),
                method: method@,
                generation: *generation,
            },
            WsJsonEffect::SendIdleEvent(g) => WsJsonEffectView::SendIdleEvent(*g),
            WsJsonEffect::SendRunningEvent(g) => WsJsonEffectView::SendRunningEvent(*g),
            WsJsonEffect::Dispatch => WsJsonEffectView::Dispatch,
            WsJsonEffect::Close => WsJsonEffectView::Close,
        }
    }
}

/// The views of a list of effects.
pub open spec fn effects_view(v: Seq<WsJsonEffect>) -> Seq<WsJsonEffectView> {
    v.map_values(|e: WsJsonEffect| e@)
}

/// The state of one connection.
#[derive(Debug)]
pub struct WsJsonState {
    subscribed: Vec<EventType>,
    input_subscribed: bool,
    activity_timeout_ms: u64,
    pending_idle: Option<(Option<Json>, String)>,
}

/// The mathematical content of a [`WsJsonState`].
pub struct WsJsonStateView {
    /// The subscribed event types (none: parser events are discarded).
    pub subscribed: Seq<EventType>,
    /// Whether input events are received.
    pub input_subscribed: bool,
    /// The idle timeout of the running activity watcher (0: none).
    pub activity_timeout_ms: u64,
    /// The id and method of the idle request being waited on.
    pub pending_idle: Option<(Option<JsonView>, Seq<char>)>,
}

impl View for WsJsonState {
    type V = WsJsonStateView;

    closed spec fn view(&self) -> WsJsonStateView {
        WsJsonStateView {
            subscribed: self.subscribed@,
            input_subscribed: self.input_subscribed,
            activity_timeout_ms: self.activity_timeout_ms,
            pending_idle: match self.pending_idle {
                Some((id, m)) => Some((opt_json_view(id), m@)),
                None => None,
            },
        }
    }
}

/// `ms`, at most [`MAX_WAIT_CEILING_MS`].
pub open spec fn capped(ms: u64) -> u64 {
    if ms < MAX_WAIT_CEILING_MS {
        ms
    } else {
        MAX_WAIT_CEILING_MS
    }
}

/// `{"type": <kind>, "skipped": <n>}`.
pub open spec fn skipped_notice(kind: Seq<char>, n: u64) -> JsonView {
    JsonView::Object(seq![("type"@, JsonView::Str(kind)), ("skipped"@, JsonView::Number(decimal(n as nat)))])
}

fn skipped_notice_json(kind: &str, n: u64) -> (r: Json)
    ensures
        r.jview() == skipped_notice(kind@, n),
{
    let f = vec![(owned("type"), Json::Str(owned(kind))), (owned("skipped"), Json::Number(decimal_string(n)))];
    proof {
        lemma_object_view(f);
        assert(crate::json::fields_view(f@) =~= seq![("type"@, f@[0].1.jview()), ("skipped"@, f@[1].1.jview())]);
    }
    Json::Object(f)
}

/// The answer to the protocol error of an unreadable frame.
pub open spec fn invalid_frame_reply() -> JsonView {
    JsonView::Object(response_fields(
        None,
        None,
        None,
        Some(("invalid_request"@, "Invalid JSON or missing 'method' field."@)),
    ))
}

/// The state of a new connection, and its first message
/// `{"connected": true}`.
pub open spec fn ws_json_initial() -> (WsJsonStateView, Seq<WsJsonEffectView>) {
    (
        WsJsonStateView { subscribed: seq![], input_subscribed: false, activity_timeout_ms: 0, pending_idle: None },
        seq![WsJsonEffectView::Send(JsonView::Object(seq![("connected"@, JsonView::Bool(true))]))],
    )
}

/// The step of a `subscribe` request with event types `types` and idle
/// timeout `t`: the subscription is replaced, input events are received
/// exactly when `input` is subscribed, the activity watcher is restarted
/// (when `t > 0`), the reply lists the subscribed types, a sync event
/// follows, and, with activity subscribed and `t > 0`, the current activity
/// state.
pub open spec fn subscribe_next(
    s: WsJsonStateView,
    id: Option<JsonView>,
    types: Seq<EventType>,
    t: u64,
) -> (WsJsonStateView, Seq<WsJsonEffectView>) {
    let wants_input = types.contains(EventType::Input);
    let input_fx = if wants_input && !s.input_subscribed {
        seq![WsJsonEffectView::SubscribeInput]
    } else if !wants_input && s.input_subscribed {
        seq![WsJsonEffectView::UnsubscribeInput]
    } else {
        Seq::<WsJsonEffectView>::empty()
    };
    let watch_fx = if t > 0 {
        seq![WsJsonEffectView::StopActivityWatch, WsJsonEffectView::StartActivityWatch(t)]
    } else {
        seq![WsJsonEffectView::StopActivityWatch]
    };
    let initial_fx = if t > 0 && types.contains(EventType::Activity) {
        seq![WsJsonEffectView::SendInitialActivity(t)]
    } else {
        Seq::<WsJsonEffectView>::empty()
    };
    (
        WsJsonStateView { subscribed: types, input_subscribed: wants_input, activity_timeout_ms: t, ..s },
        input_fx + watch_fx + seq![
            WsJsonEffectView::Send(success_reply(id, "subscribe"@, subscribed_result(types))),
            WsJsonEffectView::ResyncScreen,
        ] + initial_fx,
    )
}

/// The step of an idle request: an earlier pending request is answered
/// `idle_superseded`, and a new wait starts with both durations capped at
/// [`MAX_WAIT_CEILING_MS`].
pub open spec fn await_idle_next(
    s: WsJsonStateView,
    id: Option<JsonView>,
    method: Seq<char>,
    p: IdleWaitRequest,
) -> (WsJsonStateView, Seq<WsJsonEffectView>) {
    let superseded = match s.pending_idle {
        Some((old_id, old_method)) => seq![WsJsonEffectView::Send(error_reply(
            old_id,
            old_method,
            "idle_superseded"@,
            "A new await_idle request superseded this one."@,
        ))],
        None => Seq::<WsJsonEffectView>::empty(),
    };
    (
        WsJsonStateView { pending_idle: Some((id, method)), ..s },
        superseded + seq![WsJsonEffectView::StartIdleWait {
            timeout_ms: capped(p.timeout_ms),
            deadline_ms: capped(p.max_wait_ms),
            last_generation: p.last_generation,
            fresh: p.fresh,
        }],
    )
}

/// The next state of a connection and what to do, after `ev`.
pub open spec fn ws_json_next(s: WsJsonStateView, ev: WsJsonEventView) -> (WsJsonStateView, Seq<WsJsonEffectView>) {
    match ev {
        WsJsonEventView::Parser(kind) => if s.subscribed.len() > 0 && forwards(s.subscribed, kind) {
            (s, seq![WsJsonEffectView::ForwardEvent])
        } else {
            (s, seq![])
        },
        WsJsonEventView::ParserLagged(n) => (
            s,
            seq![WsJsonEffectView::Send(skipped_notice("lagged"@, n)), WsJsonEffectView::ResyncScreen],
        ),
        WsJsonEventView::Input => (s, seq![WsJsonEffectView::ForwardEvent]),
        WsJsonEventView::InputLagged(n) => (s, seq![WsJsonEffectView::Send(skipped_notice("input_lagged"@, n))]),
        WsJsonEventView::InputClosed => (WsJsonStateView { input_subscribed: false, ..s }, seq![]),
        WsJsonEventView::IdleResolved(result) => match s.pending_idle {
            Some((id, method)) => (
                WsJsonStateView { pending_idle: None, ..s },
                match result {
                    Some(g) => seq![WsJsonEffectView::ReplyIdle { id, method, generation: g }],
                    None => seq![WsJsonEffectView::Send(error_reply(
                        id,
                        method,
                        "idle_timeout"@,
                        "Terminal did not become idle within the deadline."@,
                    ))],
                },
            ),
            None => (s, seq![]),
        },
        WsJsonEventView::ActivityIdle(g) => (s, seq![WsJsonEffectView::SendIdleEvent(g)]),
        WsJsonEventView::ActivityRunning(g) => (s, seq![WsJsonEffectView::SendRunningEvent(g)]),
        WsJsonEventView::ActivityClosed => (WsJsonStateView { activity_timeout_ms: 0, ..s }, seq![]),
        WsJsonEventView::Subscribe { id, params } => match params {
            Ok((types, t)) => subscribe_next(s, id, types, t),
            Err(e) => (
                s,
                seq![WsJsonEffectView::Send(error_reply(
                    id,
                    "subscribe"@,
                    "invalid_request"@,
                    "Invalid subscribe params: "@ + e + "."@,
                ))],
            ),
        },
        WsJsonEventView::AwaitIdle { id, method, params } => match params {
            Ok(p) => await_idle_next(s, id, method, p),
            Err(e) => (
                s,
                seq![WsJsonEffectView::Send(error_reply(
                    id,
                    method,
                    "invalid_request"@,
                    "Invalid await_idle params: "@ + e + "."@,
                ))],
            ),
        },
        WsJsonEventView::Request => (s, seq![WsJsonEffectView::Dispatch]),
        WsJsonEventView::InvalidFrame => (s, seq![WsJsonEffectView::Send(invalid_frame_reply())]),
        WsJsonEventView::Closed => (s, seq![WsJsonEffectView::Close]),
    }
}

impl WsJsonState {
    /// A new connection: nothing subscribed, no wait pending. The first
    /// effect sends `{"connected": true}`.
    pub fn new() -> (r: (Self, Vec<WsJsonEffect>))
        ensures
            (r.0@, effects_view(r.1@)) == ws_json_initial(),
    {
        let s = WsJsonState { subscribed: Vec::new(), input_subscribed: false, activity_timeout_ms: 0, pending_idle: None };
        let fx = vec![WsJsonEffect::Send(connected_message())];
        assert(s@.subscribed =~= Seq::<EventType>::empty());
        assert(effects_view(fx@) =~= ws_json_initial().1);
        (s, fx)
    }

    /// The subscribed event types.
    pub fn subscribed(&self) -> (r: &Vec<EventType>)
        ensures
            r@ == self@.subscribed,
    {
        &self.subscribed
    }
}

fn subscribe_step(s: &mut WsJsonState, id: Option<Json>, req: SubscribeRequest) -> (r: Vec<WsJsonEffect>)
    ensures
        (final(s)@, effects_view(r@)) == subscribe_next(old(s)@, opt_json_view(id), req.events@, req.idle_timeout_ms),
{
    let ghost s0 = s@;
    let ghost types = req.events@;
    let t = req.idle_timeout_ms;
    let wants_input = has_type(&req.events, EventType::Input);
    let wants_activity = has_type(&req.events, EventType::Activity);
    let mut fx: Vec<WsJsonEffect> = Vec::new();
    if wants_input && !s.input_subscribed {
        fx.push(WsJsonEffect::SubscribeInput);
    } else if !wants_input && s.input_subscribed {
        fx.push(WsJsonEffect::UnsubscribeInput);
    }
    fx.push(WsJsonEffect::StopActivityWatch);
    if t > 0 {
        fx.push(WsJsonEffect::StartActivityWatch(t));
    }
    let result = subscribed_result_json(&req.events);
    fx.push(WsJsonEffect::Send(success_reply_json(id, "subscribe", result)));
    fx.push(WsJsonEffect::ResyncScreen);
    if t > 0 && wants_activity {
        fx.push(WsJsonEffect::SendInitialActivity(t));
    }
    s.subscribed = req.events;
    s.input_subscribed = wants_input;
    s.activity_timeout_ms = t;
    proof {
        let want = subscribe_next(s0, opt_json_view(id), types, t);
        assert(s@ == want.0);
        assert(effects_view(fx@) =~= want.1);
    }
    fx
}

fn await_idle_step(s: &mut WsJsonState, id: Option<Json>, method: String, p: IdleWaitRequest) -> (r: Vec<WsJsonEffect>)
    ensures
        (final(s)@, effects_view(r@)) == await_idle_next(old(s)@, opt_json_view(id), method@, p),
{
    let ghost s0 = s@;
    let ghost pv = p;
    let mut fx: Vec<WsJsonEffect> = Vec::new();
    let old_pending = s.pending_idle.take();
    match old_pending {
        Some((old_id, old_method)) => {
            fx.push(WsJsonEffect::Send(error_reply_json(
                old_id,
                old_method.as_str(),
                "idle_superseded",
                "A new await_idle request superseded this one.",
            )));
        },
        None => {},
    }
    let timeout_ms = if p.timeout_ms < MAX_WAIT_CEILING_MS { p.timeout_ms } else { MAX_WAIT_CEILING_MS };
    let deadline_ms = if p.max_wait_ms < MAX_WAIT_CEILING_MS { p.max_wait_ms } else { MAX_WAIT_CEILING_MS };
    fx.push(WsJsonEffect::StartIdleWait { timeout_ms, deadline_ms, last_generation: p.last_generation, fresh: p.fresh });
    s.pending_idle = Some((id, method));
    proof {
        let want = await_idle_next(s0, opt_json_view(id), method@, pv);
        assert(s@ == want.0);
        assert(effects_view(fx@) =~= want.1);
    }
    fx
}

/// Decide one step of a session's JSON WebSocket: the next state and the
/// effects to perform, in order.
pub fn ws_json_step(state: &mut WsJsonState, ev: WsJsonEvent) -> (r: Vec<WsJsonEffect>)
    ensures
        (final(state)@, effects_view(r@)) == ws_json_next(old(state)@, ev@),
{
    let ghost s0 = state@;
    let ghost evv = ev@;
    match ev {
        WsJsonEvent::Parser(kind) => {
            let fwd = state.subscribed.len() > 0 && should_forward_session_event(&state.subscribed, kind);
            let fx = if fwd { vec![WsJsonEffect::ForwardEvent] } else { Vec::new() };
            assert(effects_view(fx@) =~= ws_json_next(s0, evv).1);
            fx
        },
        WsJsonEvent::ParserLagged(n) => {
            let fx = vec![WsJsonEffect::Send(skipped_notice_json("lagged", n)), WsJsonEffect::ResyncScreen];
            assert(effects_view(fx@) =~= ws_json_next(s0, evv).1);
            fx
        },
        WsJsonEvent::Input => {
            let fx = vec![WsJsonEffect::ForwardEvent];
            assert(effects_view(fx@) =~= ws_json_next(s0, evv).1);
            fx
        },
        WsJsonEvent::InputLagged(n) => {
            let fx = vec![WsJsonEffect::Send(skipped_notice_json("input_lagged", n))];
            assert(effects_view(fx@) =~= ws_json_next(s0, evv).1);
            fx
        },
        WsJsonEvent::InputClosed => {
            state.input_subscribed = false;
            let fx: Vec<WsJsonEffect> = Vec::new();
            assert(effects_view(fx@) =~= ws_json_next(s0, evv).1);
            fx
        },
        WsJsonEvent::IdleResolved(result) => {
            let pending = state.pending_idle.take();
            match pending {
                Some((id, method)) => {
                    let fx = match result {
                        Some(g) => vec![WsJsonEffect::ReplyIdle { id, method, generation: g }],
                        None => vec![WsJsonEffect::Send(error_reply_json(
                            id,
                            method.as_str(),
                            "idle_timeout",
                            "Terminal did not become idle within the deadline.",
                        ))],
                    };
                    assert(effects_view(fx@) =~= ws_json_next(s0, evv).1);
                    fx
                },
                None => {
                    let fx: Vec<WsJsonEffect> = Vec::new();
                    assert(effects_view(fx@) =~= ws_json_next(s0, evv).1);
                    fx
                },
            }
        },
        WsJsonEvent::ActivityIdle(g) => {
            let fx = vec![WsJsonEffect::SendIdleEvent(g)];
            assert(effects_view(fx@) =~= ws_json_next(s0, evv).1);
            fx
        },
        WsJsonEvent::ActivityRunning(g) => {
            let fx = vec![WsJsonEffect::SendRunningEvent(g)];
            assert(effects_view(fx@) =~= ws_json_next(s0, evv).1);
            fx
        },
        WsJsonEvent::ActivityClosed => {
            state.activity_timeout_ms = 0;
            let fx: Vec<WsJsonEffect> = Vec::new();
            assert(effects_view(fx@) =~= ws_json_next(s0, evv).1);
            fx
        },
        WsJsonEvent::Subscribe { id, params } => match params {
            Ok(p) => subscribe_step(state, id, p),
            Err(e) => {
                let m = concat3("Invalid subscribe params: ", e.as_str(), ".");
                let fx = vec![WsJsonEffect::Send(error_reply_json(id, "subscribe", "invalid_request", m.as_str()))];
                assert(effects_view(fx@) =~= ws_json_next(s0, evv).1);
                fx
            },
        },
        WsJsonEvent::AwaitIdle { id, method, params } => match params {
            Ok(p) => await_idle_step(state, id, method, p),
            Err(e) => {
                let m = concat3("Invalid await_idle params: ", e.as_str(), ".");
                let fx = vec![WsJsonEffect::Send(error_reply_json(id, method.as_str(), "invalid_request", m.as_str()))];
                assert(effects_view(fx@) =~= ws_json_next(s0, evv).1);
                fx
            },
        },
        WsJsonEvent::Request => {
            let fx = vec![WsJsonEffect::Dispatch];
            assert(effects_view(fx@) =~= ws_json_next(s0, evv).1);
            fx
        },
        WsJsonEvent::InvalidFrame => {
            let fx = vec![WsJsonEffect::Send(crate::api::ws_events::invalid_frame_response().to_json())];
            assert(effects_view(fx@) =~= ws_json_next(s0, evv).1);
            fx
        },
        WsJsonEvent::Closed => {
            let fx = vec![WsJsonEffect::Close];
            assert(effects_view(fx@) =~= ws_json_next(s0, evv).1);
            fx
        },
    }
}

/// The answer to an idle request once the terminal went idle at
/// `generation`: the screen and its total line count when the screen query
/// succeeded (`{"generation", "screen", "scrollback_lines"}`), else a
/// `parser_error`.
pub open spec fn idle_reply_view(id: Option<JsonView>, method: Seq<char>, screen: Option<(JsonView, u64)>, generation: u64) -> JsonView {
    match screen {
        Some((sc, lines)) => success_reply(
            id,
            method,
            JsonView::Object(seq![
                ("generation"@, JsonView::Number(decimal(generation as nat))),
                ("screen"@, sc),
                ("scrollback_lines"@, JsonView::Number(decimal(lines as nat))),
            ]),
        ),
        None => error_reply(id, method, "parser_error"@, "Terminal is idle but screen query failed."@),
    }
}

/// Build the answer to an idle request (see [`WsJsonEffect::ReplyIdle`]).
pub fn idle_reply(id: Option<Json>, method: &str, screen: Option<(Json, u64)>, generation: u64) -> (r: Json)
    ensures
        r.jview() == idle_reply_view(
            opt_json_view(id),
            method@,
            match screen {
                Some((sc, lines)) => Some((sc.jview(), lines)),
                None => None,
            },
            generation,
        ),
{
    match screen {
        Some((sc, lines)) => {
            let f = vec![
                (owned("generation"), Json::Number(decimal_string(generation))),
                (owned("screen"), sc),
                (owned("scrollback_lines"), Json::Number(decimal_string(lines))),
            ];
            proof {
                lemma_object_view(f);
                assert(crate::json::fields_view(f@) =~= seq![
                    ("generation"@, f@[0].1.jview()),
                    ("screen"@, f@[1].1.jview()),
                    ("scrollback_lines"@, f@[2].1.jview()),
                ]);
            }
            success_reply_json(id, method, Json::Object(f))
        },
        None => error_reply_json(id, method, "parser_error", "Terminal is idle but screen query failed."),
    }
}

/// Open a connection: nothing at all when the server was already shutting
/// down, else the new state and its first effect, `{"connected": true}`.
pub fn ws_json_open(shutting_down: bool) -> (r: Option<(WsJsonState, Vec<WsJsonEffect>)>)
    ensures
        shutting_down <==> r is None,
        r matches Some((s, fx)) ==> (s@, effects_view(fx@)) == ws_json_initial(),
{
    if shutting_down {
        None
    } else {
        Some(WsJsonState::new())
    }
}

/// The state and all effects after a connection opened and saw `events`,
/// in order.
pub open spec fn ws_json_run(events: Seq<WsJsonEventView>) -> (WsJsonStateView, Seq<WsJsonEffectView>)
    decreases events.len(),
{
    if events.len() == 0 {
        ws_json_initial()
    } else {
        let before = ws_json_run(events.drop_last());
        let step = ws_json_next(before.0, events.last());
        (step.0, before.1 + step.1)
    }
}

/// Over any run, the first thing sent is `{"connected": true}`, and a run
/// that ends (the last event is `Closed`) ends with the close frame.
pub proof fn law_run_opens_connected_and_ends_closed(events: Seq<WsJsonEventView>)
    ensures
        ws_json_run(events).1.len() >= 1,
        ws_json_run(events).1[0] == WsJsonEffectView::Send(JsonView::Object(seq![("connected"@, JsonView::Bool(true))])),
        events.len() > 0 && events.last() is Closed ==> ws_json_run(events).1.last() == WsJsonEffectView::Close,
    decreases events.len(),
{
    if events.len() > 0 {
        law_run_opens_connected_and_ends_closed(events.drop_last());
        let before = ws_json_run(events.drop_last());
        let step = ws_json_next(before.0, events.last());
        assert((before.1 + step.1)[0] == before.1[0]);
        if events.last() is Closed {
            assert(step.1 == seq![WsJsonEffectView::Close]);
        }
    }
}

/// What a subscription receives: with nothing subscribed only resets and
/// syncs; line, cursor, mode and diff events under `lines`, `cursor`,
/// `mode` and `diffs`, idle and running events under `activity` (and
/// `input` brings no parser event); subscribing to more types never loses
/// an event.
pub proof fn law_forwarding(a: Seq<EventType>, b: Seq<EventType>, kind: EventKind)
    ensures
        forwards(seq![], kind) <==> (kind == EventKind::Reset || kind == EventKind::Sync),
        forwards(seq![EventType::Lines], EventKind::Line),
        forwards(seq![EventType::Cursor], EventKind::Cursor),
        forwards(seq![EventType::Mode], EventKind::Mode),
        forwards(seq![EventType::Diffs], EventKind::Diff),
        forwards(seq![EventType::Activity], EventKind::Idle),
        forwards(seq![EventType::Activity], EventKind::Running),
        forwards(seq![EventType::Input], kind) ==> (kind == EventKind::Reset || kind == EventKind::Sync),
        forwards(a, EventKind::Line) ==> a.contains(EventType::Lines),
        forwards(a, EventKind::Cursor) ==> a.contains(EventType::Cursor),
        forwards(a, EventKind::Mode) ==> a.contains(EventType::Mode),
        forwards(a, EventKind::Diff) ==> a.contains(EventType::Diffs),
        (forall|t: EventType| a.contains(t) ==> b.contains(t)) && forwards(a, kind) ==> forwards(b, kind),
{
    assert(seq![EventType::Lines][0] == EventType::Lines);
    assert(seq![EventType::Cursor][0] == EventType::Cursor);
    assert(seq![EventType::Mode][0] == EventType::Mode);
    assert(seq![EventType::Diffs][0] == EventType::Diffs);
    assert(seq![EventType::Activity][0] == EventType::Activity);
    assert(forall|t: EventType| seq![EventType::Input].contains(t) ==> t == EventType::Input) by {
        assert forall|t: EventType| seq![EventType::Input].contains(t) implies t == EventType::Input by {
            let k = choose|k: int| 0 <= k < 1 && seq![EventType::Input][k] == t;
        }
    }
}

} // verus!
