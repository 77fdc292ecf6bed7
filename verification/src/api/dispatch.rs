//! The method dispatcher of a session's WebSocket: the methods decided on
//! the session's control state (input capture, focus, the overlays and
//! panels that can take focus, the screen mode), and which methods are
//! handed to the session's terminal, overlay and panel stores.

use vstd::prelude::*;
use crate::api::ws_json::{answers, error_reply, lemma_error_answers, lemma_success_answers, success_reply};
use crate::api::ws_methods::{input_bytes, input_bytes_result, opt_json_view, InputEncoding, WsRequest, WsResponse};
use crate::input::focus::FocusTracker;
use crate::input::keys::opt_string_view;
use crate::input::mode::{capture_step, input_mode_error_text, release_step, InputMode, InputModeView, Mode};
use crate::json::{clone_json, field_of, lemma_object_view, str_field, Json, JsonView};
use crate::text::{concat3, owned, str_eq};

verus! {

/// An overlay or panel as far as focus is concerned.
#[derive(Debug)]
pub struct Target {
    pub id: String,
    /// Whether it accepts input focus.
    pub focusable: bool,
    /// Whether it belongs to the alternate screen.
    pub alt: bool,
}

/// The mathematical content of a [`Target`].
pub struct TargetView {
    pub id: Seq<char>,
    pub focusable: bool,
    pub alt: bool,
}

impl View for Target {
    type V = TargetView;

    open spec fn view(&self) -> TargetView {
        TargetView { id: self.id@, focusable: self.focusable, alt: self.alt }
    }
}

/// The control state of a session that the dispatcher decides on.
#[derive(Debug)]
pub struct SessionControl {
    pub mode: InputMode,
    pub focus: FocusTracker,
    pub overlays: Vec<Target>,
    pub panels: Vec<Target>,
    /// Whether the session shows the alternate screen.
    pub alt_screen: bool,
}

/// The mathematical content of a [`SessionControl`].
pub struct SessionControlView {
    pub mode: InputModeView,
    pub focused: Option<Seq<char>>,
    pub overlays: Seq<TargetView>,
    pub panels: Seq<TargetView>,
    pub alt_screen: bool,
}

pub open spec fn targets_view(v: Seq<Target>) -> Seq<TargetView> {
    v.map_values(|t: Target| t@)
}

impl View for SessionControl {
    type V = SessionControlView;

    open spec fn view(&self) -> SessionControlView {
        SessionControlView {
            mode: self.mode@,
            focused: self.focus@,
            overlays: targets_view(self.overlays@),
            panels: targets_view(self.panels@),
            alt_screen: self.alt_screen,
        }
    }
}

/// What the session does besides answering.
#[derive(Debug, PartialEq, Eq)]
pub enum SessionAction {
    /// Nothing more.
    Nothing,
    /// The overlays were cleared: tell the renderers.
    OverlaysCleared,
    /// The alternate screen was left: delete its overlays and panels from
    /// the stores, lay out the panels again and tell the renderers.
    LeftAltScreen,
    /// Write these bytes to the terminal, then answer with [`input_sent`].
    SendInput(Vec<u8>),
    /// The method belongs to the session's terminal, overlay or panel store,
    /// which answers it.
    Delegate,
}

/// The mathematical content of a [`SessionAction`].
pub enum SessionActionView {
    Nothing,
    OverlaysCleared,
    LeftAltScreen,
    SendInput(Seq<u8>),
    Delegate,
}

impl View for SessionAction {
    type V = SessionActionView;

    open spec fn view(&self) -> SessionActionView {
        match self {
            SessionAction::Nothing => SessionActionView::Nothing,
            SessionAction::OverlaysCleared => SessionActionView::OverlaysCleared,
            SessionAction::LeftAltScreen => SessionActionView::LeftAltScreen,
            SessionAction::SendInput(b) => SessionActionView::SendInput(b@),
            SessionAction::Delegate => SessionActionView::Delegate,
        }
    }
}

/// The data and encoding of a `send_input` request: `data` must be a
/// string, `encoding` (default `utf8`) `utf8` or `base64`.
pub open spec fn send_input_params(params: Option<JsonView>) -> Option<(Seq<char>, InputEncoding)> {
    match params {
        Some(p) => match str_field(p, "data"@) {
            Some(d) => match field_of(p, "encoding"@) {
                None => Some((d, InputEncoding::Utf8)),
                Some(JsonView::Str(e)) => if e == "utf8"@ {
                    Some((d, InputEncoding::Utf8))
                } else if e == "base64"@ {
                    Some((d, InputEncoding::Base64))
                } else {
                    None
                },
                _ => None,
            },
            None => None,
        },
        None => None,
    }
}

/// The answer to a `send_input` request once its bytes were written to the
/// terminal (`sent`) or could not be.
pub open spec fn input_sent_reply(id: Option<JsonView>, method: Seq<char>, sent: bool) -> JsonView {
    if sent {
        success_reply(id, method, empty_object())
    } else {
        error_reply(id, method, "input_send_failed"@, "Failed to send input to terminal."@)
    }
}

/// Answer a `send_input` request after the write: `{}` when the bytes went
/// to the terminal, else `input_send_failed`; the second part says whether
/// the session's activity is touched (exactly when the write succeeded).
pub fn input_sent(id: Option<Json>, method: &str, sent: bool) -> (r: (Json, bool))
    ensures
        r.0.jview() == input_sent_reply(opt_json_view(id), method@, sent),
        r.1 == sent,
{
    if sent {
        (empty_success(id, method), true)
    } else {
        (WsResponse::error(id, method, "input_send_failed", "Failed to send input to terminal.").to_json(), false)
    }
}

/// The methods that the session's stores answer.
pub open spec fn is_store_method(m: Seq<char>) -> bool {
    ||| m == "list_overlays"@
    ||| m == "create_overlay"@
    ||| m == "get_overlay"@
    ||| m == "update_overlay"@
    ||| m == "patch_overlay"@
    ||| m == "delete_overlay"@
    ||| m == "get_screen"@
    ||| m == "get_scrollback"@
    ||| m == "list_panels"@
    ||| m == "clear_panels"@
    ||| m == "create_panel"@
    ||| m == "get_panel"@
    ||| m == "update_panel"@
    ||| m == "patch_panel"@
    ||| m == "delete_panel"@
    ||| m == "update_overlay_spans"@
    ||| m == "overlay_region_write"@
    ||| m == "update_panel_spans"@
    ||| m == "panel_region_write"@
    ||| m == "batch_update"@
}

/// The empty object `{}`.
pub open spec fn empty_object() -> JsonView {
    JsonView::Object(seq![])
}

/// The protocol name of an input mode.
pub open spec fn mode_name(m: Mode) -> Seq<char> {
    match m {
        Mode::Passthrough => "passthrough"@,
        Mode::Capture => "capture"@,
    }
}

/// Index of the first target with id `id` in `v[from..]`.
pub open spec fn target_index(v: Seq<TargetView>, id: Seq<char>, from: int) -> Option<int>
    decreases v.len() - from,
{
    if from < 0 || from >= v.len() {
        None
    } else if v[from].id == id {
        Some(from)
    } else {
        target_index(v, id, from + 1)
    }
}

/// Whether the target `id` takes focus: an overlay first, else a panel;
/// `None` when there is neither.
pub open spec fn focusable_target(s: SessionControlView, id: Seq<char>) -> Option<bool> {
    match target_index(s.overlays, id, 0) {
        Some(i) => Some(s.overlays[i].focusable),
        None => match target_index(s.panels, id, 0) {
            Some(j) => Some(s.panels[j].focusable),
            None => None,
        },
    }
}

/// The targets of the normal screen among `v`, in order.
pub open spec fn normal_targets(v: Seq<TargetView>) -> Seq<TargetView>
    decreases v.len(),
{
    if v.len() == 0 {
        seq![]
    } else if v.last().alt {
        normal_targets(v.drop_last())
    } else {
        normal_targets(v.drop_last()).push(v.last())
    }
}

/// The session's control state after request `id` of `method` with
/// `params` from connection `conn`, the answer (none when the session's
/// stores answer), and what the session does besides.
pub open spec fn dispatch_decision(
    s: SessionControlView,
    conn: Seq<char>,
    id: Option<JsonView>,
    method: Seq<char>,
    params: Option<JsonView>,
) -> (SessionControlView, Option<JsonView>, SessionActionView) {
    let ok = Some(success_reply(id, method, empty_object()));
    if method == "get_input_mode"@ {
        (s, Some(success_reply(id, method, JsonView::Object(seq![("mode"@, JsonView::Str(mode_name(s.mode.mode)))]))), SessionActionView::Nothing)
    } else if method == "capture_input"@ {
        match capture_step(s.mode, conn) {
            Ok(m) => (SessionControlView { mode: m, ..s }, ok, SessionActionView::Nothing),
            Err(e) => (s, Some(error_reply(id, method, "input_captured"@, input_mode_error_text(e))), SessionActionView::Nothing),
        }
    } else if method == "release_input"@ {
        match release_step(s.mode, conn) {
            Ok(m) => (SessionControlView { mode: m, focused: None, ..s }, ok, SessionActionView::Nothing),
            Err(e) => (s, Some(error_reply(id, method, "not_capture_owner"@, input_mode_error_text(e))), SessionActionView::Nothing),
        }
    } else if method == "focus"@ {
        match (match params {
            Some(p) => str_field(p, "id"@),
            None => None,
        }) {
            None => (
                s,
                Some(error_reply(id, method, "invalid_request"@, "Invalid params: 'id' must be a string."@)),
                SessionActionView::Nothing,
            ),
            Some(target) => match focusable_target(s, target) {
                None => (
                    s,
                    Some(error_reply(id, method, "invalid_request"@, "No overlay or panel with id '"@ + target + "'."@)),
                    SessionActionView::Nothing,
                ),
                Some(false) => (
                    s,
                    Some(error_reply(id, method, "not_focusable"@, "Target '"@ + target + "' is not focusable."@)),
                    SessionActionView::Nothing,
                ),
                Some(true) => (SessionControlView { focused: Some(target), ..s }, ok, SessionActionView::Nothing),
            },
        }
    } else if method == "unfocus"@ {
        (SessionControlView { focused: None, ..s }, ok, SessionActionView::Nothing)
    } else if method == "get_focus"@ {
        (
            s,
            Some(success_reply(id, method, JsonView::Object(seq![("focused"@, match s.focused {
                Some(f) => JsonView::Str(f),
                None => JsonView::Null,
            })]))),
            SessionActionView::Nothing,
        )
    } else if method == "clear_overlays"@ {
        (SessionControlView { overlays: seq![], focused: None, ..s }, ok, SessionActionView::OverlaysCleared)
    } else if method == "get_screen_mode"@ {
        (
            s,
            Some(success_reply(id, method, JsonView::Object(seq![("mode"@, JsonView::Str(if s.alt_screen { "alt"@ } else { "normal"@ }))]))),
            SessionActionView::Nothing,
        )
    } else if method == "enter_alt_screen"@ {
        if s.alt_screen {
            (
                s,
                Some(error_reply(id, method, "already_in_alt_screen"@, "Session is already in alternate screen mode."@)),
                SessionActionView::Nothing,
            )
        } else {
            (SessionControlView { alt_screen: true, ..s }, ok, SessionActionView::Nothing)
        }
    } else if method == "exit_alt_screen"@ {
        if !s.alt_screen {
            (
                s,
                Some(error_reply(id, method, "not_in_alt_screen"@, "Session is not in alternate screen mode."@)),
                SessionActionView::Nothing,
            )
        } else {
            (
                SessionControlView {
                    alt_screen: false,
                    overlays: normal_targets(s.overlays),
                    panels: normal_targets(s.panels),
                    ..s
                },
                ok,
                SessionActionView::LeftAltScreen,
            )
        }
    } else if method == "send_input"@ {
        match send_input_params(params) {
            None => (
                s,
                Some(error_reply(
                    id,
                    method,
                    "invalid_request"@,
                    "Invalid params: 'data' must be a string and 'encoding' utf8 or base64."@,
                )),
                SessionActionView::Nothing,
            ),
            Some((data, encoding)) => match input_bytes_result(data, encoding) {
                Ok(b) => (s, None, SessionActionView::SendInput(b)),
                Err(m) => (s, Some(error_reply(id, method, "invalid_request"@, m)), SessionActionView::Nothing),
            },
        }
    } else if is_store_method(method) {
        (s, None, SessionActionView::Delegate)
    } else {
        (s, Some(error_reply(id, method, "unknown_method"@, "Unknown method '"@ + method + "'."@)), SessionActionView::Nothing)
    }
}

fn clone_id(id: &Option<Json>) -> (r: Option<Json>)
    ensures
        opt_json_view(r) == opt_json_view(*id),
{
    match id {
        Some(j) => Some(clone_json(j)),
        None => None,
    }
}

fn store_method(m: &str) -> (r: bool)
    ensures
        r == is_store_method(m@),
{
    str_eq(m, "list_overlays") || str_eq(m, "create_overlay") || str_eq(m, "get_overlay") || str_eq(m, "update_overlay")
        || str_eq(m, "patch_overlay") || str_eq(m, "delete_overlay") || str_eq(m, "get_screen") || str_eq(m, "get_scrollback")
        || str_eq(m, "list_panels") || str_eq(m, "clear_panels") || str_eq(m, "create_panel")
        || str_eq(m, "get_panel") || str_eq(m, "update_panel") || str_eq(m, "patch_panel") || str_eq(m, "delete_panel")
        || str_eq(m, "update_overlay_spans") || str_eq(m, "overlay_region_write") || str_eq(m, "update_panel_spans")
        || str_eq(m, "panel_region_write") || str_eq(m, "batch_update")
}

fn find_target(v: &Vec<Target>, id: &str) -> (r: Option<usize>)
    ensures
        r matches Some(k) ==> k < v@.len() && target_index(targets_view(v@), id@, 0) == Some(k as int),
        r is None ==> target_index(targets_view(v@), id@, 0) is None,
{
    let ghost tv = targets_view(v@);
    let mut k: usize = 0;
    while k < v.len()
        invariant
            k <= v@.len(),
            tv == targets_view(v@),
            target_index(tv, id@, 0) == target_index(tv, id@, k as int),
        decreases v@.len() - k,
    {
        if str_eq(v[k].id.as_str(), id) {
            assert(tv[k as int].id == id@);
            return Some(k);
        }
        k = k + 1;
    }
    None
}

fn keep_normal(v: &mut Vec<Target>)
    ensures
        targets_view(final(v)@) == normal_targets(targets_view(old(v)@)),
{
    let ghost all = targets_view(v@);
    let mut out: Vec<Target> = Vec::new();
    let mut i: usize = 0;
    while i < v.len()
        invariant
            i <= v@.len(),
            all == targets_view(v@),
            targets_view(out@) == normal_targets(all.take(i as int)),
        decreases v@.len() - i,
    {
        proof {
            assert(all.take(i + 1).drop_last() =~= all.take(i as int));
            assert(all.take(i + 1).last() == v@[i as int]@);
        }
        if !v[i].alt {
            let t = Target { id: v[i].id.clone(), focusable: v[i].focusable, alt: v[i].alt };
            let ghost before = targets_view(out@);
            out.push(t);
            proof {
                assert(targets_view(out@) =~= before.push(v@[i as int]@));
            }
        }
        i = i + 1;
    }
    proof {
        assert(all.take(i as int) =~= all);
    }
    *v = out;
}

/// Decide request `req` of connection `conn` on the session's control
/// state: the state is updated, and the answer (none when the session's
/// stores answer the method) and what the session does besides are
/// returned.
pub fn dispatch_step(session: &mut SessionControl, conn_id: &str, req: &WsRequest) -> (r: (Option<Json>, SessionAction))
    ensures
        ({
            let d = dispatch_decision(old(session)@, conn_id@, opt_json_view(req.id), req.method@, opt_json_view(req.params));
            &&& final(session)@ == d.0
            &&& match r.0 {
                Some(j) => d.1 == Some(j.jview()),
                None => d.1 is None,
            }
            &&& r.1@ == d.2
        }),
{
    let method = req.method.as_str();
    let id = clone_id(&req.id);
    if str_eq(method, "get_input_mode") {
        let mode = session.mode.get();
        let name = match mode {
            Mode::Passthrough => "passthrough",
            Mode::Capture => "capture",
        };
        let f = vec![(owned("mode"), Json::Str(owned(name)))];
        proof {
            lemma_object_view(f);
            assert(crate::json::fields_view(f@) =~= seq![("mode"@, JsonView::Str(mode_name(mode)))]);
        }
        return (Some(WsResponse::success(id, method, Json::Object(f)).to_json()), SessionAction::Nothing);
    }
    if str_eq(method, "capture_input") {
        return match session.mode.capture(conn_id) {
            Ok(()) => (Some(empty_success(id, method)), SessionAction::Nothing),
            Err(e) => {
                let m = e.to_text();
                (Some(WsResponse::error(id, method, "input_captured", m.as_str()).to_json()), SessionAction::Nothing)
            },
        };
    }
    if str_eq(method, "release_input") {
        return match session.mode.release(conn_id) {
            Ok(()) => {
                session.focus.unfocus();
                (Some(empty_success(id, method)), SessionAction::Nothing)
            },
            Err(e) => {
                let m = e.to_text();
                (Some(WsResponse::error(id, method, "not_capture_owner", m.as_str()).to_json()), SessionAction::Nothing)
            },
        };
    }
    if str_eq(method, "focus") {
        let target = match &req.params {
            Some(p) => p.get_str("id"),
            None => None,
        };
        return match target {
            None => (
                Some(WsResponse::error(id, method, "invalid_request", "Invalid params: 'id' must be a string.").to_json()),
                SessionAction::Nothing,
            ),
            Some(t) => {
                let ghost sv = session@;
                let focusable = match find_target(&session.overlays, t.as_str()) {
                    Some(i) => {
                        assert(sv.overlays[i as int] == session.overlays@[i as int]@);
                        Some(session.overlays[i].focusable)
                    },
                    None => match find_target(&session.panels, t.as_str()) {
                        Some(j) => {
                            assert(sv.panels[j as int] == session.panels@[j as int]@);
                            Some(session.panels[j].focusable)
                        },
                        None => {
                            None
                        },
                    },
                };
                assert(focusable == focusable_target(sv, t@));
                match focusable {
                    None => {
                        let m = concat3("No overlay or panel with id '", t.as_str(), "'.");
                        (Some(WsResponse::error(id, method, "invalid_request", m.as_str()).to_json()), SessionAction::Nothing)
                    },
                    Some(false) => {
                        let m = concat3("Target '", t.as_str(), "' is not focusable.");
                        (Some(WsResponse::error(id, method, "not_focusable", m.as_str()).to_json()), SessionAction::Nothing)
                    },
                    Some(true) => {
                        session.focus.focus(t);
                        (Some(empty_success(id, method)), SessionAction::Nothing)
                    },
                }
            },
        };
    }
    if str_eq(method, "unfocus") {
        session.focus.unfocus();
        return (Some(empty_success(id, method)), SessionAction::Nothing);
    }
    if str_eq(method, "get_focus") {
        let focused = match session.focus.focused() {
            Some(f) => Json::Str(f),
            None => Json::Null,
        };
        let f = vec![(owned("focused"), focused)];
        proof {
            lemma_object_view(f);
            assert(crate::json::fields_view(f@) =~= seq![("focused"@, f@[0].1.jview())]);
        }
        return (Some(WsResponse::success(id, method, Json::Object(f)).to_json()), SessionAction::Nothing);
    }
    if str_eq(method, "clear_overlays") {
        session.overlays = Vec::new();
        session.focus.unfocus();
        proof {
            assert(targets_view(session.overlays@) =~= Seq::<TargetView>::empty());
        }
        return (Some(empty_success(id, method)), SessionAction::OverlaysCleared);
    }
    if str_eq(method, "get_screen_mode") {
        let name = if session.alt_screen { "alt" } else { "normal" };
        let f = vec![(owned("mode"), Json::Str(owned(name)))];
        proof {
            lemma_object_view(f);
            assert(crate::json::fields_view(f@) =~= seq![("mode"@, f@[0].1.jview())]);
        }
        return (Some(WsResponse::success(id, method, Json::Object(f)).to_json()), SessionAction::Nothing);
    }
    if str_eq(method, "enter_alt_screen") {
        if session.alt_screen {
            return (
                Some(WsResponse::error(id, method, "already_in_alt_screen", "Session is already in alternate screen mode.").to_json()),
                SessionAction::Nothing,
            );
        }
        session.alt_screen = true;
        return (Some(empty_success(id, method)), SessionAction::Nothing);
    }
    if str_eq(method, "exit_alt_screen") {
        if !session.alt_screen {
            return (
                Some(WsResponse::error(id, method, "not_in_alt_screen", "Session is not in alternate screen mode.").to_json()),
                SessionAction::Nothing,
            );
        }
        session.alt_screen = false;
        keep_normal(&mut session.overlays);
        keep_normal(&mut session.panels);
        return (Some(empty_success(id, method)), SessionAction::LeftAltScreen);
    }
    if str_eq(method, "send_input") {
        return send_input_step(id, method, &req.params);
    }
    if store_method(method) {
        return (None, SessionAction::Delegate);
    }
    let m = concat3("Unknown method '", method, "'.");
    (Some(WsResponse::error(id, method, "unknown_method", m.as_str()).to_json()), SessionAction::Nothing)
}

fn send_input_step(id: Option<Json>, method: &str, params: &Option<Json>) -> (r: (Option<Json>, SessionAction))
    ensures
        match send_input_params(opt_json_view(*params)) {
            None => r.0 matches Some(j) && j.jview() == error_reply(
                opt_json_view(id),
                method@,
                "invalid_request"@,
                "Invalid params: 'data' must be a string and 'encoding' utf8 or base64."@,
            ) && r.1@ == SessionActionView::Nothing,
            Some((data, encoding)) => match input_bytes_result(data, encoding) {
                Ok(b) => r.0 is None && r.1@ == SessionActionView::SendInput(b),
                Err(m) => r.0 matches Some(j) && j.jview() == error_reply(opt_json_view(id), method@, "invalid_request"@, m)
                    && r.1@ == SessionActionView::Nothing,
            },
        },
{
    let parsed = match params {
        Some(p) => match p.get_str("data") {
            Some(d) => match p.field("encoding") {
                None => Some((d, InputEncoding::Utf8)),
                Some(Json::Str(e)) => if str_eq(e.as_str(), "utf8") {
                    Some((d, InputEncoding::Utf8))
                } else if str_eq(e.as_str(), "base64") {
                    Some((d, InputEncoding::Base64))
                } else {
                    None
                },
                Some(_) => None,
            },
            None => None,
        },
        None => None,
    };
    match parsed {
        None => (
            Some(WsResponse::error(
                id,
                method,
                "invalid_request",
                "Invalid params: 'data' must be a string and 'encoding' utf8 or base64.",
            ).to_json()),
            SessionAction::Nothing,
        ),
        Some((data, encoding)) => match input_bytes(data.as_str(), encoding) {
            Ok(b) => (None, SessionAction::SendInput(b)),
            Err(m) => (Some(WsResponse::error(id, method, "invalid_request", m.as_str()).to_json()), SessionAction::Nothing),
        },
    }
}

fn empty_success(id: Option<Json>, method: &str) -> (r: Json)
    ensures
        r.jview() == success_reply(opt_json_view(id), method@, empty_object()),
{
    let f: Vec<(String, Json)> = Vec::new();
    proof {
        lemma_object_view(f);
        assert(crate::json::fields_view(f@) =~= Seq::<(Seq<char>, JsonView)>::empty());
    }
    WsResponse::success(id, method, Json::Object(f)).to_json()
}

/// Every request the dispatcher decides is answered with its id and method
/// and exactly one of a result and an error; the ones it does not answer
/// itself are input to send (answered by [`input_sent`], which answers too)
/// or methods of the session's stores.
pub proof fn law_dispatch_answers(
    s: SessionControlView,
    conn: Seq<char>,
    id: Option<JsonView>,
    method: Seq<char>,
    params: Option<JsonView>,
    sent: bool,
)
    ensures
        dispatch_decision(s, conn, id, method, params).1 matches Some(j) ==> answers(j, id, method),
        dispatch_decision(s, conn, id, method, params).1 is None ==> (dispatch_decision(s, conn, id, method, params).2 is SendInput
            || dispatch_decision(s, conn, id, method, params).2 is Delegate),
        answers(input_sent_reply(id, method, sent), id, method),
{
    assert forall|r: JsonView| #[trigger] answers(success_reply(id, method, r), id, method) by {
        lemma_success_answers(id, method, r);
    }
    assert forall|c: Seq<char>, m: Seq<char>| #[trigger] answers(error_reply(id, method, c, m), id, method) by {
        lemma_error_answers(id, method, c, m);
    }
    lemma_success_answers(id, method, empty_object());
    lemma_error_answers(id, method, "input_send_failed"@, "Failed to send input to terminal."@);
}

/// `unfocus` clears the focus, whatever was focused, touches nothing else
/// and answers `{}`; a `get_focus` right after it reports no focus.
pub proof fn law_unfocus_clears_focus(s: SessionControlView, conn: Seq<char>, id: Option<JsonView>, params: Option<JsonView>)
    ensures
        ({
            let d = dispatch_decision(s, conn, id, "unfocus"@, params);
            &&& d.0.focused is None
            &&& d.0.mode == s.mode && d.0.overlays == s.overlays && d.0.panels == s.panels && d.0.alt_screen == s.alt_screen
            &&& d.1 == Some(success_reply(id, "unfocus"@, JsonView::Object(seq![])))
            &&& d.2 == SessionActionView::Nothing
            &&& dispatch_decision(d.0, conn, id, "get_focus"@, params).1 == Some(success_reply(
                id,
                "get_focus"@,
                JsonView::Object(seq![("focused"@, JsonView::Null)]),
            ))
        }),
{
    reveal_strlit("get_input_mode");
    reveal_strlit("capture_input");
    reveal_strlit("release_input");
    reveal_strlit("focus");
    reveal_strlit("unfocus");
    reveal_strlit("get_focus");
    assert("unfocus"@.len() == 7 && "get_focus"@.len() == 9);
}

/// `get_focus` changes nothing and reports the focused element, or `null`.
pub proof fn law_get_focus_reports_focus(s: SessionControlView, conn: Seq<char>, id: Option<JsonView>, params: Option<JsonView>)
    ensures
        ({
            let d = dispatch_decision(s, conn, id, "get_focus"@, params);
            &&& d.0 == s
            &&& d.1 == Some(success_reply(id, "get_focus"@, JsonView::Object(seq![("focused"@, match s.focused {
                Some(f) => JsonView::Str(f),
                None => JsonView::Null,
            })])))
        }),
{
    reveal_strlit("get_input_mode");
    reveal_strlit("capture_input");
    reveal_strlit("release_input");
    reveal_strlit("focus");
    reveal_strlit("unfocus");
    reveal_strlit("get_focus");
    assert("get_focus"@.len() == 9);
}

/// The method names the dispatcher decides on are told apart by their
/// length and first letter.
proof fn lemma_method_names()
    ensures
        "get_input_mode"@.len() == 14 && "get_input_mode"@[0] == 'g',
        "capture_input"@.len() == 13 && "capture_input"@[0] == 'c',
        "release_input"@.len() == 13 && "release_input"@[0] == 'r',
        "focus"@.len() == 5,
        "unfocus"@.len() == 7,
        "get_focus"@.len() == 9,
        "clear_overlays"@.len() == 14 && "clear_overlays"@[0] == 'c',
        "get_screen_mode"@.len() == 15 && "get_screen_mode"@[0] == 'g',
        "enter_alt_screen"@.len() == 16,
        "exit_alt_screen"@.len() == 15 && "exit_alt_screen"@[0] == 'e',
        "send_input"@.len() == 10,
{
    reveal_strlit("get_input_mode");
    reveal_strlit("capture_input");
    reveal_strlit("release_input");
    reveal_strlit("focus");
    reveal_strlit("unfocus");
    reveal_strlit("get_focus");
    reveal_strlit("clear_overlays");
    reveal_strlit("get_screen_mode");
    reveal_strlit("enter_alt_screen");
    reveal_strlit("exit_alt_screen");
    reveal_strlit("send_input");
}

/// `capture_input` gives the capture to the calling connection unless
/// another connection holds it, in which case nothing changes and the
/// answer names the holder; `release_input` by the holder (or when no one
/// holds it) returns to passthrough and clears focus, and is refused to any
/// other connection.
pub proof fn law_capture_and_release(s: SessionControlView, conn: Seq<char>, id: Option<JsonView>, params: Option<JsonView>)
    ensures
        ({
            let d = dispatch_decision(s, conn, id, "capture_input"@, params);
            match s.mode.owner {
                Some(o) if o != conn => d.0 == s && d.1 == Some(error_reply(
                    id,
                    "capture_input"@,
                    "input_captured"@,
                    "input already captured by "@ + o,
                )),
                _ => d.0.mode == InputModeView { mode: Mode::Capture, owner: Some(conn) } && d.0.focused == s.focused
                    && d.1 == Some(success_reply(id, "capture_input"@, JsonView::Object(seq![]))),
            }
        }),
        ({
            let d = dispatch_decision(s, conn, id, "release_input"@, params);
            match s.mode.owner {
                Some(o) if o != conn => d.0 == s && d.1 == Some(error_reply(
                    id,
                    "release_input"@,
                    "not_capture_owner"@,
                    "caller is not the current capture owner"@,
                )),
                _ => d.0.mode == InputModeView { mode: Mode::Passthrough, owner: None } && d.0.focused is None
                    && d.1 == Some(success_reply(id, "release_input"@, JsonView::Object(seq![]))),
            }
        }),
{
    lemma_method_names();
}

/// The first target with id `t` among `v`, if any.
proof fn lemma_target_index(v: Seq<TargetView>, t: Seq<char>, from: int)
    requires
        0 <= from,
    ensures
        match target_index(v, t, from) {
            Some(i) => from <= i < v.len() && v[i].id == t && forall|j: int| from <= j < i ==> (#[trigger] v[j]).id != t,
            None => forall|j: int| from <= j < v.len() ==> (#[trigger] v[j]).id != t,
        },
    decreases v.len() - from,
{
    if from < v.len() && v[from].id != t {
        lemma_target_index(v, t, from + 1);
    }
}

/// `focus` on id `t`: the first overlay with that id decides, else the
/// first panel with it; a focusable target takes the focus, a target that
/// is not focusable is refused with `not_focusable`, and an id that names
/// no overlay or panel is refused with `invalid_request`; refusals change
/// nothing.
pub proof fn law_focus_targets(s: SessionControlView, conn: Seq<char>, id: Option<JsonView>, params: JsonView, t: Seq<char>)
    requires
        crate::json::str_field(params, "id"@) == Some(t),
    ensures
        ({
            let d = dispatch_decision(s, conn, id, "focus"@, Some(params));
            &&& forall|i: int|
                0 <= i < s.overlays.len() && s.overlays[i].id == t && (forall|j: int|
                    0 <= j < i ==> (#[trigger] s.overlays[j]).id != t) ==> if s.overlays[i].focusable {
                    d.0 == SessionControlView { focused: Some(t), ..s } && d.1 == Some(
                        success_reply(id, "focus"@, JsonView::Object(seq![])),
                    )
                } else {
                    d.0 == s && d.1 == Some(
                        error_reply(id, "focus"@, "not_focusable"@, "Target '"@ + t + "' is not focusable."@),
                    )
                }
            &&& forall|i: int|
                (forall|j: int| 0 <= j < s.overlays.len() ==> (#[trigger] s.overlays[j]).id != t) && 0 <= i < s.panels.len()
                    && s.panels[i].id == t && (forall|j: int| 0 <= j < i ==> (#[trigger] s.panels[j]).id != t) ==> (
                s.panels[i].focusable ==> d.0.focused == Some(t)) && (!s.panels[i].focusable ==> d.0 == s)
            &&& (forall|j: int| 0 <= j < s.overlays.len() ==> (#[trigger] s.overlays[j]).id != t) && (forall|j: int|
                0 <= j < s.panels.len() ==> (#[trigger] s.panels[j]).id != t) ==> d.0 == s && d.1 == Some(
                error_reply(id, "focus"@, "invalid_request"@, "No overlay or panel with id '"@ + t + "'."@),
            )
        }),
{
    lemma_method_names();
    lemma_target_index(s.overlays, t, 0);
    lemma_target_index(s.panels, t, 0);
}

/// `enter_alt_screen` switches to the alternate screen unless already
/// there; `exit_alt_screen` leaves it, keeping exactly the overlays and
/// panels of the normal screen, unless not there. Refusals change nothing.
pub proof fn law_alt_screen(s: SessionControlView, conn: Seq<char>, id: Option<JsonView>, params: Option<JsonView>)
    ensures
        ({
            let d = dispatch_decision(s, conn, id, "enter_alt_screen"@, params);
            if s.alt_screen {
                d.0 == s && d.1 == Some(error_reply(
                    id,
                    "enter_alt_screen"@,
                    "already_in_alt_screen"@,
                    "Session is already in alternate screen mode."@,
                ))
            } else {
                d.0 == SessionControlView { alt_screen: true, ..s } && d.1 == Some(
                    success_reply(id, "enter_alt_screen"@, JsonView::Object(seq![])),
                )
            }
        }),
        ({
            let d = dispatch_decision(s, conn, id, "exit_alt_screen"@, params);
            if !s.alt_screen {
                d.0 == s && d.1 == Some(error_reply(
                    id,
                    "exit_alt_screen"@,
                    "not_in_alt_screen"@,
                    "Session is not in alternate screen mode."@,
                ))
            } else {
                &&& !d.0.alt_screen && d.0.mode == s.mode && d.0.focused == s.focused
                &&& forall|t: TargetView| d.0.overlays.contains(t) <==> (s.overlays.contains(t) && !t.alt)
                &&& forall|t: TargetView| d.0.panels.contains(t) <==> (s.panels.contains(t) && !t.alt)
                &&& d.2 == SessionActionView::LeftAltScreen
            }
        }),
{
    lemma_method_names();
    lemma_normal_targets(s.overlays);
    lemma_normal_targets(s.panels);
}

/// The normal-screen targets are exactly the targets not on the alternate
/// screen.
proof fn lemma_normal_targets(v: Seq<TargetView>)
    ensures
        forall|t: TargetView| normal_targets(v).contains(t) <==> (v.contains(t) && !t.alt),
    decreases v.len(),
{
    if v.len() > 0 {
        let p = v.drop_last();
        let l = v.last();
        lemma_normal_targets(p);
        let np = normal_targets(p);
        assert(v =~= p.push(l));
        assert forall|t: TargetView| normal_targets(v).contains(t) <==> (v.contains(t) && !t.alt) by {
            assert(np.contains(t) <==> (p.contains(t) && !t.alt));
            assert(v.contains(t) <==> (p.contains(t) || t == l)) by {
                if v.contains(t) {
                    let k = choose|k: int| 0 <= k < v.len() && v[k] == t;
                    if k < p.len() {
                        assert(p[k] == t);
                    }
                }
                if p.contains(t) {
                    let k = choose|k: int| 0 <= k < p.len() && p[k] == t;
                    assert(v[k] == t);
                }
                if t == l {
                    assert(v[v.len() - 1] == t);
                }
            }
            if !l.alt {
                assert(normal_targets(v) == np.push(l));
                assert(np.push(l).contains(t) <==> (np.contains(t) || t == l)) by {
                    if np.push(l).contains(t) {
                        let k = choose|k: int| 0 <= k < np.push(l).len() && np.push(l)[k] == t;
                        if k < np.len() {
                            assert(np[k] == t);
                        }
                    }
                    if np.contains(t) {
                        let k = choose|k: int| 0 <= k < np.len() && np[k] == t;
                        assert(np.push(l)[k] == t);
                    }
                    if t == l {
                        assert(np.push(l)[np.len() as int] == t);
                    }
                }
            } else {
                assert(normal_targets(v) == np);
            }
        }
    }
}

/// `clear_overlays` removes every overlay and the focus, keeping the rest.
pub proof fn law_clear_overlays(s: SessionControlView, conn: Seq<char>, id: Option<JsonView>, params: Option<JsonView>)
    ensures
        ({
            let d = dispatch_decision(s, conn, id, "clear_overlays"@, params);
            &&& d.0.overlays.len() == 0 && d.0.focused is None
            &&& d.0.panels == s.panels && d.0.mode == s.mode && d.0.alt_screen == s.alt_screen
            &&& d.2 == SessionActionView::OverlaysCleared
        }),
{
    lemma_method_names();
}

/// `send_input` with text `data` writes its UTF-8 bytes, and with
/// `"encoding": "base64"` the bytes that base64 decodes from it, or answers
/// `invalid_request` with the decoder's complaint; the control state is
/// never changed.
pub proof fn law_send_input(s: SessionControlView, conn: Seq<char>, id: Option<JsonView>, data: Seq<char>)
    ensures
        ({
            let d = dispatch_decision(s, conn, id, "send_input"@, Some(JsonView::Object(seq![("data"@, JsonView::Str(data))])));
            d.0 == s && d.1 is None && d.2 == SessionActionView::SendInput(vstd::utf8::encode_utf8(data))
        }),
        ({
            let d = dispatch_decision(
                s,
                conn,
                id,
                "send_input"@,
                Some(JsonView::Object(seq![("data"@, JsonView::Str(data)), ("encoding"@, JsonView::Str("base64"@))])),
            );
            &&& d.0 == s
            &&& match crate::api::ws_methods::base64_decoded(data) {
                Ok(b) => d.1 is None && d.2 == SessionActionView::SendInput(b),
                Err(e) => d.1 == Some(error_reply(id, "send_input"@, "invalid_request"@, "Invalid base64: "@ + e + "."@))
                    && d.2 == SessionActionView::Nothing,
            }
        }),
{
    lemma_method_names();
    reveal_strlit("data");
    reveal_strlit("encoding");
    reveal_strlit("utf8");
    reveal_strlit("base64");
    assert("data"@ != "encoding"@) by {
        assert("data"@.len() != "encoding"@.len());
    }
    assert("base64"@ != "utf8"@) by {
        assert("base64"@.len() != "utf8"@.len());
    }
    reveal_with_fuel(crate::json::lookup, 3);
}

/// `get_input_mode` and `get_screen_mode` report the mode and change
/// nothing.
pub proof fn law_mode_queries(s: SessionControlView, conn: Seq<char>, id: Option<JsonView>, params: Option<JsonView>)
    ensures
        ({
            let d = dispatch_decision(s, conn, id, "get_input_mode"@, params);
            d.0 == s && d.1 == Some(success_reply(id, "get_input_mode"@, JsonView::Object(seq![("mode"@, JsonView::Str(
                if s.mode.mode == Mode::Capture { "capture"@ } else { "passthrough"@ },
            ))])))
        }),
        ({
            let d = dispatch_decision(s, conn, id, "get_screen_mode"@, params);
            d.0 == s && d.1 == Some(success_reply(id, "get_screen_mode"@, JsonView::Object(seq![("mode"@, JsonView::Str(
                if s.alt_screen { "alt"@ } else { "normal"@ },
            ))])))
        }),
{
    lemma_method_names();
}

} // verus!
