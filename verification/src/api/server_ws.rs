//! The decisions of the server-level multiplexed JSON WebSocket
//! (`/ws/json`): which requests the server answers itself and which need a
//! session, the per-session subscriptions the connection keeps, and what
//! follows each event of its loop.
//!
//! [`route_server_request`] routes a request; [`server_subscribe`] records a
//! subscription; [`server_ws_step`] takes one event of the loop. The
//! application performs the effects (sending, spawning and aborting the
//! forwarding tasks, querying screens) and the session-management methods.

use vstd::prelude::*;
use crate::api::ws_events::{
    apply_session_event, index_of_name, lag_notice, session_event_json, table_insert, table_remove, SessionEvent,
    SubscriptionTable,
};
use crate::api::ws_json::{
    answers, error_reply, forwards, lemma_error_answers, lemma_success_answers, invalid_frame_reply, subscribed_result, success_reply, EventKind, EventType,
    SubscribeRequest,
};
use crate::api::ws_methods::{opt_json_view, WsResponse};
use crate::api::ServerConfig;
use crate::json::{clone_json, Json, JsonView};
use crate::text::{concat3, owned, str_eq};

verus! {

/// The methods the server answers itself; every other method needs a
/// `session` field naming an existing session.
pub open spec fn is_server_method(m: Seq<char>) -> bool {
    ||| m == "create_session"@
    ||| m == "list_sessions"@
    ||| m == "kill_session"@
    ||| m == "detach_session"@
    ||| m == "rename_session"@
    ||| m == "update_tags"@
    ||| m == "set_server_mode"@
}

/// Where a request goes.
#[derive(Debug)]
pub enum ServerRoute {
    /// A session-management method that the server answers itself.
    Server,
    /// A subscription to this session's events (see [`server_subscribe`]).
    Subscribe(String),
    /// A method of this session, for the method dispatcher.
    Dispatch(String),
    /// Answered at once with this (error) response.
    Reply(Json),
}

/// The mathematical content of a [`ServerRoute`].
pub enum ServerRouteView {
    Server,
    Subscribe(Seq<char>),
    Dispatch(Seq<char>),
    Reply(JsonView),
}

impl View for ServerRoute {
    type V = ServerRouteView;

    open spec fn view(&self) -> ServerRouteView {
        match self {
            ServerRoute::Server => ServerRouteView::Server,
            ServerRoute::Subscribe(s) => ServerRouteView::Subscribe(s@),
            ServerRoute::Dispatch(s) => ServerRouteView::Dispatch(s@),
            ServerRoute::Reply(j) => ServerRouteView::Reply(j.jview()),
        }
    }
}

/// The route of request `id` of `method` with session field `session`;
/// `exists` says whether that session exists.
pub open spec fn server_route(id: Option<JsonView>, method: Seq<char>, session: Option<Seq<char>>, exists: bool) -> ServerRouteView {
    if is_server_method(method) {
        ServerRouteView::Server
    } else {
        match session {
            None => ServerRouteView::Reply(
                error_reply(id, method, "session_required"@, "This method requires a 'session' field."@),
            ),
            Some(name) => if !exists {
                ServerRouteView::Reply(error_reply(id, method, "session_not_found"@, "Session not found: "@ + name + "."@))
            } else if method == "subscribe"@ {
                ServerRouteView::Subscribe(name)
            } else {
                ServerRouteView::Dispatch(name)
            },
        }
    }
}

fn clone_id(id: &Option<Json>) -> (r: Option<Json>)
    ensures
        opt_json_view(r) == opt_json_view(*id),
{
    match id {
        Some(j) => Some(clone_json(j)),
        None => None,
    }
}

fn server_method(m: &str) -> (r: bool)
    ensures
        r == is_server_method(m@),
{
    str_eq(m, "create_session") || str_eq(m, "list_sessions") || str_eq(m, "kill_session") || str_eq(m, "detach_session")
        || str_eq(m, "rename_session") || str_eq(m, "update_tags") || str_eq(m, "set_server_mode")
}

/// Route a request of the server-level WebSocket.
pub fn route_server_request(id: &Option<Json>, method: &str, session: &Option<String>, exists: bool) -> (r: ServerRoute)
    ensures
        r@ == server_route(opt_json_view(*id), method@, crate::input::keys::opt_string_view(*session), exists),
{
    if server_method(method) {
        return ServerRoute::Server;
    }
    match session {
        None => ServerRoute::Reply(
            WsResponse::error(clone_id(id), method, "session_required", "This method requires a 'session' field.").to_json(),
        ),
        Some(name) => if !exists {
            let m = concat3("Session not found: ", name.as_str(), ".");
            ServerRoute::Reply(WsResponse::error(clone_id(id), method, "session_not_found", m.as_str()).to_json())
        } else if str_eq(method, "subscribe") {
            ServerRoute::Subscribe(name.clone())
        } else {
            ServerRoute::Dispatch(name.clone())
        },
    }
}

/// What the application does for the server-level connection.
#[derive(Debug)]
pub enum ServerWsEffect {
    /// Send this message.
    Send(Json),
    /// Send the parser event of this session, tagged with its name.
    ForwardTagged(String),
    /// Query this session's screen and send it as a sync event tagged with
    /// the session.
    ResyncScreen(String),
    /// Send this session's current activity state (idle after this timeout,
    /// else running), tagged with the session.
    SendInitialActivity(String, u64),
    /// Abort the forwarding tasks of this session's former subscription.
    StopForwarding(String),
    /// Spawn the forwarding tasks of this session (with an activity watcher
    /// when the idle timeout is not 0).
    StartForwarding(String, u64),
    /// End the connection.
    Close,
}

/// The mathematical content of a [`ServerWsEffect`].
pub enum ServerWsEffectView {
    Send(JsonView),
    ForwardTagged(Seq<char>),
    ResyncScreen(Seq<char>),
    SendInitialActivity(Seq<char>, u64),
    StopForwarding(Seq<char>),
    StartForwarding(Seq<char>, u64),
    Close,
}

impl View for ServerWsEffect {
    type V = ServerWsEffectView;

    open spec fn view(&self) -> ServerWsEffectView {
        match self {
            ServerWsEffect::Send(j) => ServerWsEffectView::Send(j.jview()),
            ServerWsEffect::ForwardTagged(s) => ServerWsEffectView::ForwardTagged(s@),
            ServerWsEffect::ResyncScreen(s) => ServerWsEffectView::ResyncScreen(s@),
            ServerWsEffect::SendInitialActivity(s, t) => ServerWsEffectView::SendInitialActivity(s@, *t),
            ServerWsEffect::StopForwarding(s) => ServerWsEffectView::StopForwarding(s@),
            ServerWsEffect::StartForwarding(s, t) => ServerWsEffectView::StartForwarding(s@, *t),
            ServerWsEffect::Close => ServerWsEffectView::Close,
        }
    }
}

/// The views of a list of effects.
pub open spec fn server_effects_view(v: Seq<ServerWsEffect>) -> Seq<ServerWsEffectView> {
    v.map_values(|e: ServerWsEffect| e@)
}

/// The subscriptions of a connection: per session name, the subscribed
/// event types and idle timeout.
pub type Subscriptions = SubscriptionTable<SubscribeRequest>;

/// After a `subscribe` request `id` for session `name`: with readable
/// parameters, the subscription replaces any earlier one of the session
/// (whose forwarding stops), forwarding starts, the reply lists the types,
/// and a sync event and, with activity subscribed and an idle timeout, the
/// current activity state follow.
pub open spec fn server_subscribe_next(
    s: Seq<(Seq<char>, SubscribeRequest)>,
    id: Option<JsonView>,
    name: Seq<char>,
    params: Result<SubscribeRequest, Seq<char>>,
) -> (Seq<(Seq<char>, SubscribeRequest)>, Seq<ServerWsEffectView>) {
    match params {
        Ok(sub) => {
            let t = sub.idle_timeout_ms;
            let stop = if index_of_name(s, name, 0) is Some {
                seq![ServerWsEffectView::StopForwarding(name)]
            } else {
                Seq::<ServerWsEffectView>::empty()
            };
            let initial = if t > 0 && sub.events@.contains(EventType::Activity) {
                seq![ServerWsEffectView::SendInitialActivity(name, t)]
            } else {
                Seq::<ServerWsEffectView>::empty()
            };
            (
                table_insert(s, name, sub),
                stop + seq![
                    ServerWsEffectView::StartForwarding(name, t),
                    ServerWsEffectView::Send(success_reply(id, "subscribe"@, subscribed_result(sub.events@))),
                    ServerWsEffectView::ResyncScreen(name),
                ] + initial,
            )
        },
        Err(e) => (
            s,
            seq![ServerWsEffectView::Send(
                error_reply(id, "subscribe"@, "invalid_request"@, "Invalid subscribe params: "@ + e + "."@),
            )],
        ),
    }
}

/// Record a `subscribe` request `id` for the existing session `name`, with
/// its parameters or why they could not be read.
pub fn server_subscribe(
    table: &mut Subscriptions,
    id: Option<Json>,
    name: &str,
    params: Result<SubscribeRequest, String>,
) -> (r: Vec<ServerWsEffect>)
    ensures
        (final(table).entries(), server_effects_view(r@)) == server_subscribe_next(
            old(table).entries(),
            opt_json_view(id),
            name@,
            match params {
                Ok(p) => Ok(p),
                Err(e) => Err(e@),
            },
        ),
{
    let ghost s0 = table.entries();
    match params {
        Ok(sub) => {
            let ghost subv = sub;
            let t = sub.idle_timeout_ms;
            let activity = crate::api::ws_json::has_type(&sub.events, EventType::Activity);
            let result = crate::api::ws_json::subscribed_result_json(&sub.events);
            let mut fx: Vec<ServerWsEffect> = Vec::new();
            let replaced = table.insert(owned(name), sub);
            if replaced.is_some() {
                fx.push(ServerWsEffect::StopForwarding(owned(name)));
            }
            fx.push(ServerWsEffect::StartForwarding(owned(name), t));
            fx.push(ServerWsEffect::Send(WsResponse::success(id, "subscribe", result).to_json()));
            fx.push(ServerWsEffect::ResyncScreen(owned(name)));
            if t > 0 && activity {
                fx.push(ServerWsEffect::SendInitialActivity(owned(name), t));
            }
            proof {
                let want = server_subscribe_next(s0, opt_json_view(id), name@, Ok(subv));
                assert(server_effects_view(fx@) =~= want.1);
            }
            fx
        },
        Err(e) => {
            let m = concat3("Invalid subscribe params: ", e.as_str(), ".");
            let fx = vec![ServerWsEffect::Send(WsResponse::error(id, "subscribe", "invalid_request", m.as_str()).to_json())];
            proof {
                let want = server_subscribe_next(s0, opt_json_view(id), name@, Err(e@));
                assert(server_effects_view(fx@) =~= want.1);
            }
            fx
        },
    }
}

/// An event of the server-level connection loop.
#[derive(Debug)]
pub enum ServerWsEvent {
    /// A session was created, renamed, destroyed or retagged.
    Registry(SessionEvent),
    /// A subscribed session's parser emitted an event of this kind.
    Parser { session: String, kind: EventKind },
    /// A subscribed session's parser subscription skipped events.
    Lagged { session: String, skipped: u64 },
    /// The client's `kill_session` request removed this session.
    SessionKilled(String),
    /// A text frame that is not a request.
    InvalidFrame,
    /// The client closed, the session registry ended, or the server shuts
    /// down.
    Closed,
}

/// The mathematical content of a [`ServerWsEvent`].
pub enum ServerWsEventView {
    Registry(SessionEvent),
    Parser { session: Seq<char>, kind: EventKind },
    Lagged { session: Seq<char>, skipped: u64 },
    SessionKilled(Seq<char>),
    InvalidFrame,
    Closed,
}

impl View for ServerWsEvent {
    type V = ServerWsEventView;

    open spec fn view(&self) -> ServerWsEventView {
        match self {
            ServerWsEvent::Registry(e) => ServerWsEventView::Registry(*e),
            ServerWsEvent::Parser { session, kind } => ServerWsEventView::Parser { session: session@, kind: *kind },
            ServerWsEvent::Lagged { session, skipped } => ServerWsEventView::Lagged { session: session@, skipped: *skipped },
            ServerWsEvent::SessionKilled(s) => ServerWsEventView::SessionKilled(s@),
            ServerWsEvent::InvalidFrame => ServerWsEventView::InvalidFrame,
            ServerWsEvent::Closed => ServerWsEventView::Closed,
        }
    }
}

/// `{"type": "lagged", "session": <session>, "skipped": <n>}`.
pub open spec fn session_lag_json(session: Seq<char>, n: u64) -> JsonView {
    JsonView::Object(seq![
        ("type"@, JsonView::Str("lagged"@)),
        ("session"@, JsonView::Str(session)),
        ("skipped"@, JsonView::Number(crate::text::decimal(n as nat))),
    ])
}

/// The subscriptions and what to do after `ev`: session events are
/// announced (a destroyed session's forwarding stops, a renamed session's
/// subscription moves to its new name); a parser event goes out tagged with
/// its session when that session's subscription takes its kind; a lag is
/// announced and followed by a sync; a killed session's subscription ends.
pub open spec fn server_ws_next(
    s: Seq<(Seq<char>, SubscribeRequest)>,
    ev: ServerWsEventView,
) -> (Seq<(Seq<char>, SubscribeRequest)>, Seq<ServerWsEffectView>) {
    match ev {
        ServerWsEventView::Registry(e) => match e {
            SessionEvent::Renamed { old_name, new_name } => (
                crate::api::ws_events::table_rename(s, old_name@, new_name@),
                seq![ServerWsEffectView::Send(session_event_json(e))],
            ),
            SessionEvent::Destroyed { name } => (
                table_remove(s, name@),
                (if index_of_name(s, name@, 0) is Some {
                    seq![ServerWsEffectView::StopForwarding(name@)]
                } else {
                    Seq::<ServerWsEffectView>::empty()
                }) + seq![ServerWsEffectView::Send(session_event_json(e))],
            ),
            _ => (s, seq![ServerWsEffectView::Send(session_event_json(e))]),
        },
        ServerWsEventView::Parser { session, kind } => match index_of_name(s, session, 0) {
            Some(i) => if forwards(s[i].1.events@, kind) {
                (s, seq![ServerWsEffectView::ForwardTagged(session)])
            } else {
                (s, seq![])
            },
            None => (s, seq![]),
        },
        ServerWsEventView::Lagged { session, skipped } => (
            s,
            seq![ServerWsEffectView::Send(session_lag_json(session, skipped)), ServerWsEffectView::ResyncScreen(session)],
        ),
        ServerWsEventView::SessionKilled(name) => (
            table_remove(s, name),
            if index_of_name(s, name, 0) is Some {
                seq![ServerWsEffectView::StopForwarding(name)]
            } else {
                Seq::<ServerWsEffectView>::empty()
            },
        ),
        ServerWsEventView::InvalidFrame => (s, seq![ServerWsEffectView::Send(invalid_frame_reply())]),
        ServerWsEventView::Closed => (s, seq![ServerWsEffectView::Close]),
    }
}

/// Decide one step of the server-level connection.
pub fn server_ws_step(table: &mut Subscriptions, ev: ServerWsEvent) -> (r: Vec<ServerWsEffect>)
    ensures
        (final(table).entries(), server_effects_view(r@)) == server_ws_next(old(table).entries(), ev@),
{
    let ghost s0 = table.entries();
    let ghost evv = ev@;
    match ev {
        ServerWsEvent::Registry(e) => {
            let (message, removed) = apply_session_event(table, &e);
            let mut fx: Vec<ServerWsEffect> = Vec::new();
            match &e {
                SessionEvent::Destroyed { name } => {
                    if removed.is_some() {
                        fx.push(ServerWsEffect::StopForwarding(name.clone()));
                    }
                },
                _ => {},
            }
            fx.push(ServerWsEffect::Send(message));
            assert(server_effects_view(fx@) =~= server_ws_next(s0, evv).1);
            fx
        },
        ServerWsEvent::Parser { session, kind } => {
            let fwd = match table.get(session.as_str()) {
                Some(sub) => crate::api::ws_json::should_forward_session_event(&sub.events, kind),
                None => false,
            };
            let fx = if fwd { vec![ServerWsEffect::ForwardTagged(session)] } else { Vec::new() };
            assert(server_effects_view(fx@) =~= server_ws_next(s0, evv).1);
            fx
        },
        ServerWsEvent::Lagged { session, skipped } => {
            let notice = lag_notice(session.as_str(), skipped);
            let fx = vec![ServerWsEffect::Send(notice), ServerWsEffect::ResyncScreen(session)];
            assert(server_effects_view(fx@) =~= server_ws_next(s0, evv).1);
            fx
        },
        ServerWsEvent::SessionKilled(name) => {
            let removed = table.remove(name.as_str());
            let fx = if removed.is_some() { vec![ServerWsEffect::StopForwarding(name)] } else { Vec::new() };
            assert(server_effects_view(fx@) =~= server_ws_next(s0, evv).1);
            fx
        },
        ServerWsEvent::InvalidFrame => {
            let fx = vec![ServerWsEffect::Send(crate::api::ws_events::invalid_frame_response().to_json())];
            assert(server_effects_view(fx@) =~= server_ws_next(s0, evv).1);
            fx
        },
        ServerWsEvent::Closed => {
            let fx = vec![ServerWsEffect::Close];
            assert(server_effects_view(fx@) =~= server_ws_next(s0, evv).1);
            fx
        },
    }
}

/// The server's persistence after `set_server_mode` with `params`: their
/// boolean `persistent` field when there is one, else unchanged.
pub open spec fn server_mode_next(persistent: bool, params: Option<JsonView>) -> bool {
    match params {
        Some(p) => match crate::json::bool_field(p, "persistent"@) {
            Some(b) => b,
            None => persistent,
        },
        None => persistent,
    }
}

/// The answer to `set_server_mode`: `{"persistent": <mode>}`.
pub open spec fn server_mode_reply(id: Option<JsonView>, persistent: bool) -> JsonView {
    success_reply(id, "set_server_mode"@, JsonView::Object(seq![("persistent"@, JsonView::Bool(persistent))]))
}

/// Answer a `set_server_mode` request: switch persistence when the params
/// ask for it, and report the resulting mode.
pub fn set_server_mode(config: &mut ServerConfig, id: Option<Json>, params: &Option<Json>) -> (r: Json)
    ensures
        final(config)@ == server_mode_next(old(config)@, opt_json_view(*params)),
        r.jview() == server_mode_reply(opt_json_view(id), final(config)@),
{
    match params {
        Some(p) => match p.get_bool("persistent") {
            Some(b) => config.set_persistent(b),
            None => {},
        },
        None => {},
    }
    let f = vec![(owned("persistent"), Json::Bool(config.is_persistent()))];
    proof {
        crate::json::lemma_object_view(f);
        assert(crate::json::fields_view(f@) =~= seq![("persistent"@, JsonView::Bool(config@))]);
    }
    WsResponse::success(id, "set_server_mode", Json::Object(f)).to_json()
}

/// Every request that the server-level socket answers in this library gets
/// back its id and method with exactly one of a result and an error: the
/// routing errors, the answer to `subscribe`, and `set_server_mode`.
pub proof fn law_server_requests_are_answered(
    id: Option<JsonView>,
    method: Seq<char>,
    session: Option<Seq<char>>,
    exists: bool,
    table: Seq<(Seq<char>, SubscribeRequest)>,
    name: Seq<char>,
    params: Result<SubscribeRequest, Seq<char>>,
    persistent: bool,
)
    ensures
        server_route(id, method, session, exists) matches ServerRouteView::Reply(j) ==> answers(j, id, method),
        exists|j: JsonView| #[trigger] server_subscribe_next(table, id, name, params).1.contains(ServerWsEffectView::Send(j))
            && answers(j, id, "subscribe"@),
        answers(server_mode_reply(id, persistent), id, "set_server_mode"@),
{
    match session {
        None => lemma_error_answers(id, method, "session_required"@, "This method requires a 'session' field."@),
        Some(n) => lemma_error_answers(id, method, "session_not_found"@, "Session not found: "@ + n + "."@),
    }
    lemma_success_answers(id, "set_server_mode"@, JsonView::Object(seq![("persistent"@, JsonView::Bool(persistent))]));
    let fx = server_subscribe_next(table, id, name, params).1;
    match params {
        Ok(sub) => {
            let j = success_reply(id, "subscribe"@, subscribed_result(sub.events@));
            lemma_success_answers(id, "subscribe"@, subscribed_result(sub.events@));
            let stop = if index_of_name(table, name, 0) is Some {
                seq![ServerWsEffectView::StopForwarding(name)]
            } else {
                Seq::<ServerWsEffectView>::empty()
            };
            assert(fx[stop.len() + 1int] == ServerWsEffectView::Send(j));
            assert(fx.contains(ServerWsEffectView::Send(j)));
        },
        Err(e) => {
            let j = error_reply(id, "subscribe"@, "invalid_request"@, "Invalid subscribe params: "@ + e + "."@);
            lemma_error_answers(id, "subscribe"@, "invalid_request"@, "Invalid subscribe params: "@ + e + "."@);
            assert(fx[0] == ServerWsEffectView::Send(j));
            assert(fx.contains(ServerWsEffectView::Send(j)));
        },
    }
}

/// The session-management methods are answered by the server itself,
/// whatever the `session` field holds and whether or not that session
/// exists; a `subscribe` to an existing session is a subscription and any
/// other method of an existing session goes to the dispatcher.
pub proof fn law_management_methods_go_to_the_server(
    id: Option<JsonView>,
    session: Option<Seq<char>>,
    exists: bool,
)
    ensures
        server_route(id, "create_session"@, session, exists) is Server,
        server_route(id, "list_sessions"@, session, exists) is Server,
        server_route(id, "kill_session"@, session, exists) is Server,
        server_route(id, "detach_session"@, session, exists) is Server,
        server_route(id, "rename_session"@, session, exists) is Server,
        server_route(id, "update_tags"@, session, exists) is Server,
        server_route(id, "set_server_mode"@, session, exists) is Server,
        exists && session is Some ==> server_route(id, "subscribe"@, session, exists) == ServerRouteView::Subscribe(session->0),
        exists && session is Some ==> server_route(id, "get_screen"@, session, exists) == ServerRouteView::Dispatch(session->0),
{
    reveal_strlit("subscribe");
    reveal_strlit("get_screen");
    reveal_strlit("create_session");
    reveal_strlit("list_sessions");
    reveal_strlit("kill_session");
    reveal_strlit("detach_session");
    reveal_strlit("rename_session");
    reveal_strlit("update_tags");
    reveal_strlit("set_server_mode");
    assert(!is_server_method("subscribe"@)) by {
        assert("subscribe"@.len() == 9);
    }
    assert(!is_server_method("get_screen"@)) by {
        assert("get_screen"@.len() == 10);
        assert("get_screen"@[0] != "list_sessions"@[0]);
        assert("get_screen"@[0] != "kill_session"@[0]);
        assert("get_screen"@[0] != "update_tags"@[0]);
    }
    assert("get_screen"@ != "subscribe"@);
}

} // verus!
