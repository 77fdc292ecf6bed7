//! The decisions of a persistent connection to one backend server.
//!
//! The application runs the connection: it dials `ws://{address}/ws/json`,
//! queries `GET /server/info`, keeps the socket alive and waits between
//! attempts. Each outcome is handed to [`BackendLink::step`], which updates
//! the registry and says what to do next: run the session, retry after a
//! delay (exponential backoff from 1s up to 60s), or stop.

use vstd::prelude::*;
use crate::federation::registry::{
    first_index_from, set_health_step, set_server_id_step, set_hostname_step, BackendEntryView, BackendHealth,
    BackendRegistry,
};
use crate::input::keys::opt_string_view;
use crate::json::{str_field, Json};
use crate::text::{chars_of, chars_start_with, concat3, starts_with, str_eq, string_of};

verus! {

/// Delay before the first retry, in milliseconds.
pub const INITIAL_BACKOFF_MS: u64 = 1000;

/// Longest delay between two attempts, in milliseconds.
pub const MAX_BACKOFF_MS: u64 = 60000;

/// The delay after `b`: doubled, at most [`MAX_BACKOFF_MS`].
pub open spec fn next_backoff(b: u64) -> u64 {
    if 2 * b > MAX_BACKOFF_MS {
        MAX_BACKOFF_MS
    } else {
        (2 * b) as u64
    }
}

/// The delay that follows `current`: doubled, capped at 60 seconds.
pub fn next_backoff_ms(current: u64) -> (r: u64)
    ensures
        r == next_backoff(current),
{
    if current > MAX_BACKOFF_MS / 2 {
        MAX_BACKOFF_MS
    } else {
        current * 2
    }
}

/// `a` without a leading `https://` or `http://`.
pub open spec fn strip_scheme(a: Seq<char>) -> Seq<char> {
    if starts_with(a, "https://"@) {
        a.subrange(8, a.len() as int)
    } else if starts_with(a, "http://"@) {
        a.subrange(7, a.len() as int)
    } else {
        a
    }
}

/// `address` without a leading `https://` or `http://`.
pub fn without_scheme(address: &str) -> (r: String)
    ensures
        r@ == strip_scheme(address@),
{
    let v = chars_of(address);
    let start: usize = if chars_start_with(&v, "https://") {
        8
    } else if chars_start_with(&v, "http://") {
        7
    } else {
        0
    };
    proof {
        reveal_strlit("https://");
        reveal_strlit("http://");
    }
    let r = string_of(v.as_slice(), start, v.len());
    assert(r@ =~= strip_scheme(address@));
    r
}

/// The authority (host and port) of an address: the scheme stripped, then
/// everything up to the first `/`.
pub open spec fn authority_of(a: Seq<char>) -> Seq<char> {
    let r = strip_scheme(a);
    match first_index_from(r, '/', 0) {
        Some(i) => r.subrange(0, i),
        None => r,
    }
}

/// The `Host` header value for a backend address: the scheme, if any, and
/// any path removed.
pub fn host_authority(address: &str) -> (r: String)
    ensures
        r@ == authority_of(address@),
{
    let v = chars_of(address);
    let start: usize = if chars_start_with(&v, "https://") {
        8
    } else if chars_start_with(&v, "http://") {
        7
    } else {
        0
    };
    proof {
        reveal_strlit("https://");
        reveal_strlit("http://");
    }
    let ghost r = strip_scheme(address@);
    assert(r =~= v@.subrange(start as int, v@.len() as int));
    let mut k: usize = start;
    while k < v.len()
        invariant
            start <= k <= v@.len(),
            r == strip_scheme(address@),
            r == v@.subrange(start as int, v@.len() as int),
            first_index_from(r, '/', 0) == first_index_from(r, '/', k - start),
        decreases v@.len() - k,
    {
        if v[k] == '/' {
            assert(r[k - start] == '/');
            assert(first_index_from(r, '/', k - start) == Some((k - start) as int));
            let s = string_of(v.as_slice(), start, k);
            assert(s@ =~= r.subrange(0, k - start));
            return s;
        }
        k = k + 1;
    }
    string_of(v.as_slice(), start, v.len())
}

/// The WebSocket URL of a backend: `ws://{address}/ws/json`.
pub fn backend_ws_url(address: &str) -> (r: String)
    ensures
        r@ == "ws://"@ + address@ + "/ws/json"@,
{
    concat3("ws://", address, "/ws/json")
}

/// The URL that reports a backend's identity: `http://{address}/server/info`.
pub fn backend_info_url(address: &str) -> (r: String)
    ensures
        r@ == "http://"@ + address@ + "/server/info"@,
{
    concat3("http://", address, "/server/info")
}

/// What a backend reports of itself.
#[derive(Debug)]
pub struct ServerInfo {
    pub hostname: Option<String>,
    pub server_id: Option<String>,
}

/// The mathematical content of a [`ServerInfo`].
pub struct ServerInfoView {
    pub hostname: Option<Seq<char>>,
    pub server_id: Option<Seq<char>>,
}

impl View for ServerInfo {
    type V = ServerInfoView;

    open spec fn view(&self) -> ServerInfoView {
        ServerInfoView { hostname: opt_string_view(self.hostname), server_id: opt_string_view(self.server_id) }
    }
}

/// Read the `hostname` and `server_id` string fields of a `/server/info`
/// response body; a field that is missing or not a string is `None`.
pub fn server_info_from_json(body: &Json) -> (r: ServerInfo)
    ensures
        r@.hostname == str_field(body.jview(), "hostname"@),
        r@.server_id == str_field(body.jview(), "server_id"@),
{
    ServerInfo { hostname: body.get_str("hostname"), server_id: body.get_str("server_id") }
}

/// The outcome of one stage of the connection, as the application saw it.
#[derive(Debug)]
pub enum LinkEvent {
    /// The WebSocket opened; the backend's identity as far as it could be read.
    Connected(ServerInfo),
    /// The WebSocket could not be opened.
    ConnectFailed,
    /// An open session ended without a shutdown.
    SessionEnded,
    /// Shutdown was requested.
    ShutdownRequested,
}

/// The mathematical content of a [`LinkEvent`].
pub enum LinkEventView {
    Connected(ServerInfoView),
    ConnectFailed,
    SessionEnded,
    ShutdownRequested,
}

impl View for LinkEvent {
    type V = LinkEventView;

    open spec fn view(&self) -> LinkEventView {
        match self {
            LinkEvent::Connected(i) => LinkEventView::Connected(i@),
            LinkEvent::ConnectFailed => LinkEventView::ConnectFailed,
            LinkEvent::SessionEnded => LinkEventView::SessionEnded,
            LinkEvent::ShutdownRequested => LinkEventView::ShutdownRequested,
        }
    }
}

/// What the application does next.
#[derive(Debug, Clone, Copy, PartialEq, Eq, Structural)]
pub enum LinkAction {
    /// Keep the session running until it ends or shutdown is requested.
    RunSession,
    /// Wait this many milliseconds (unless shutdown comes first), then dial
    /// again.
    RetryAfter(u64),
    /// Stop for good.
    Stop,
}

/// The backend reports this very server: connecting to it would loop.
pub open spec fn is_self_loop(info: ServerInfoView, local_server_id: Seq<char>) -> bool {
    info.server_id == Some(local_server_id)
}

/// What follows `ev` when the current delay is `backoff`.
pub open spec fn link_action(backoff: u64, local_server_id: Seq<char>, ev: LinkEventView) -> LinkAction {
    match ev {
        LinkEventView::Connected(info) => if is_self_loop(info, local_server_id) {
            LinkAction::Stop
        } else {
            LinkAction::RunSession
        },
        LinkEventView::ConnectFailed => LinkAction::RetryAfter(backoff),
        LinkEventView::SessionEnded => LinkAction::RetryAfter(backoff),
        LinkEventView::ShutdownRequested => LinkAction::Stop,
    }
}

/// The delay kept after `ev`: reset by a connection, doubled (up to the
/// cap) by each retry.
pub open spec fn link_backoff(backoff: u64, ev: LinkEventView) -> u64 {
    match ev {
        LinkEventView::Connected(_) => INITIAL_BACKOFF_MS,
        LinkEventView::ConnectFailed => next_backoff(backoff),
        LinkEventView::SessionEnded => next_backoff(backoff),
        LinkEventView::ShutdownRequested => backoff,
    }
}

/// The registry after a connection to another server: healthy, then the
/// hostname it reports (when no other backend holds that hostname), then
/// the server id it reports.
pub open spec fn connected_registry(s: Seq<BackendEntryView>, a: Seq<char>, info: ServerInfoView) -> Seq<BackendEntryView> {
    let s1 = set_health_step(s, a, BackendHealth::Healthy);
    let s2 = match info.hostname {
        Some(h) => match set_hostname_step(s1, a, h) {
            Ok(next) => next,
            Err(_) => s1,
        },
        None => s1,
    };
    match info.server_id {
        Some(id) => set_server_id_step(s2, a, id),
        None => s2,
    }
}

/// The registry after `ev` on the backend at `a`: a connection to another
/// server is recorded by [`connected_registry`]; a self-loop records the
/// reported server id and rejects the backend for good; a failed attempt or
/// an ended session make it unavailable.
pub open spec fn link_registry(
    s: Seq<BackendEntryView>,
    a: Seq<char>,
    local_server_id: Seq<char>,
    ev: LinkEventView,
) -> Seq<BackendEntryView> {
    match ev {
        LinkEventView::Connected(info) => if is_self_loop(info, local_server_id) {
            set_health_step(set_server_id_step(s, a, local_server_id), a, BackendHealth::Rejected)
        } else {
            connected_registry(s, a, info)
        },
        LinkEventView::ConnectFailed => set_health_step(s, a, BackendHealth::Unavailable),
        LinkEventView::SessionEnded => set_health_step(s, a, BackendHealth::Unavailable),
        LinkEventView::ShutdownRequested => s,
    }
}

/// The state of the connection to one backend: its address and the delay
/// before the next retry.
#[derive(Debug)]
pub struct BackendLink {
    address: String,
    backoff_ms: u64,
}

/// The mathematical content of a [`BackendLink`].
pub struct BackendLinkView {
    pub address: Seq<char>,
    pub backoff_ms: u64,
}

impl View for BackendLink {
    type V = BackendLinkView;

    closed spec fn view(&self) -> BackendLinkView {
        BackendLinkView { address: self.address@, backoff_ms: self.backoff_ms }
    }
}

impl BackendLink {
    #[verifier::type_invariant]
    closed spec fn inv(self) -> bool {
        INITIAL_BACKOFF_MS <= self.backoff_ms <= MAX_BACKOFF_MS
    }

    /// A link to the backend at `address`, with the initial delay.
    pub fn new(address: String) -> (r: Self)
        ensures
            r@.address == address@,
            r@.backoff_ms == INITIAL_BACKOFF_MS,
    {
        BackendLink { address, backoff_ms: INITIAL_BACKOFF_MS }
    }

    /// The backend's address.
    pub fn address(&self) -> (r: &str)
        ensures
            r@ == self@.address,
    {
        self.address.as_str()
    }

    /// The delay before the next retry.
    pub fn backoff_ms(&self) -> (r: u64)
        ensures
            r == self@.backoff_ms,
            INITIAL_BACKOFF_MS <= r <= MAX_BACKOFF_MS,
    {
        proof {
            use_type_invariant(self);
        }
        self.backoff_ms
    }

    /// Record `event` in `registry` and say what comes next.
    pub fn step(&mut self, registry: &mut BackendRegistry, local_server_id: &str, event: LinkEvent) -> (r: LinkAction)
        ensures
            r == link_action(old(self)@.backoff_ms, local_server_id@, event@),
            final(self)@.backoff_ms == link_backoff(old(self)@.backoff_ms, event@),
            final(self)@.address == old(self)@.address,
            final(registry)@ == link_registry(old(registry)@, old(self)@.address, local_server_id@, event@),
    {
        proof {
            use_type_invariant(&*self);
        }
        let current = self.backoff_ms;
        match event {
            LinkEvent::Connected(info) => {
                self.backoff_ms = INITIAL_BACKOFF_MS;
                let self_loop = match &info.server_id {
                    Some(id) => str_eq(id.as_str(), local_server_id),
                    None => false,
                };
                if self_loop {
                    registry.set_server_id(self.address.as_str(), local_server_id);
                    registry.set_health(self.address.as_str(), BackendHealth::Rejected);
                    LinkAction::Stop
                } else {
                    registry.set_health(self.address.as_str(), BackendHealth::Healthy);
                    match &info.hostname {
                        Some(h) => {
                            let _ = registry.set_hostname(self.address.as_str(), h.as_str());
                        },
                        None => {},
                    }
                    match &info.server_id {
                        Some(id) => registry.set_server_id(self.address.as_str(), id.as_str()),
                        None => {},
                    }
                    LinkAction::RunSession
                }
            },
            LinkEvent::ConnectFailed => {
                registry.set_health(self.address.as_str(), BackendHealth::Unavailable);
                self.backoff_ms = next_backoff_ms(current);
                LinkAction::RetryAfter(current)
            },
            LinkEvent::SessionEnded => {
                registry.set_health(self.address.as_str(), BackendHealth::Unavailable);
                self.backoff_ms = next_backoff_ms(current);
                LinkAction::RetryAfter(current)
            },
            LinkEvent::ShutdownRequested => LinkAction::Stop,
        }
    }
}

/// Whatever happens, the delay between attempts stays between one second
/// and one minute, and every retry waits that long.
pub proof fn law_backoff_stays_bounded(backoff: u64, local_server_id: Seq<char>, ev: LinkEventView)
    requires
        INITIAL_BACKOFF_MS <= backoff <= MAX_BACKOFF_MS,
    ensures
        INITIAL_BACKOFF_MS <= link_backoff(backoff, ev) <= MAX_BACKOFF_MS,
        link_action(backoff, local_server_id, ev) matches LinkAction::RetryAfter(d) ==> INITIAL_BACKOFF_MS <= d <= MAX_BACKOFF_MS,
{
}

/// A backend that turns out to be this server is never dialled again.
pub proof fn law_self_loop_stops(backoff: u64, info: ServerInfoView, local_server_id: Seq<char>)
    requires
        is_self_loop(info, local_server_id),
    ensures
        link_action(backoff, local_server_id, LinkEventView::Connected(info)) == LinkAction::Stop,
{
}

/// Consecutive failures double the delay until it reaches one minute, and
/// a successful connection brings it back to one second.
pub proof fn law_backoff_doubles_then_resets(backoff: u64, info: ServerInfoView)
    requires
        INITIAL_BACKOFF_MS <= backoff <= MAX_BACKOFF_MS,
    ensures
        link_backoff(backoff, LinkEventView::ConnectFailed) == if 2 * backoff <= MAX_BACKOFF_MS {
            2 * backoff
        } else {
            MAX_BACKOFF_MS as int
        },
        link_backoff(backoff, LinkEventView::Connected(info)) == INITIAL_BACKOFF_MS,
{
}

/// `2^k`.
pub open spec fn doubling(k: nat) -> nat
    decreases k,
{
    if k == 0 {
        1
    } else {
        2 * doubling((k - 1) as nat)
    }
}

/// The wait after `k` consecutive failed attempts of a fresh link:
/// `min(2^k, 60)` seconds, that is 1, 2, 4, 8, 16, 32, 60, 60, ... seconds.
pub open spec fn expected_wait(k: nat) -> int {
    if INITIAL_BACKOFF_MS * doubling(k) <= MAX_BACKOFF_MS {
        INITIAL_BACKOFF_MS * doubling(k)
    } else {
        MAX_BACKOFF_MS as int
    }
}

/// `k` failed connection attempts in a row.
pub open spec fn failures(k: nat) -> Seq<LinkEventView> {
    Seq::new(k, |i: int| LinkEventView::ConnectFailed)
}

/// The delay kept by a link that starts at `b` and sees `evs` in order.
pub open spec fn backoff_after(b: u64, evs: Seq<LinkEventView>) -> u64
    decreases evs.len(),
{
    if evs.len() == 0 {
        b
    } else {
        link_backoff(backoff_after(b, evs.drop_last()), evs.last())
    }
}

/// While every attempt fails, the link waits 1, 2, 4, 8, 16, 32 seconds and
/// then one minute between attempts, for ever: after `k` failures of a fresh
/// link the next failure is retried after `min(2^k, 60)` seconds.
pub proof fn law_waits_double_up_to_a_minute(k: nat, local_server_id: Seq<char>)
    ensures
        backoff_after(INITIAL_BACKOFF_MS, failures(k)) == expected_wait(k),
        link_action(backoff_after(INITIAL_BACKOFF_MS, failures(k)), local_server_id, LinkEventView::ConnectFailed)
            == LinkAction::RetryAfter(expected_wait(k) as u64),
    decreases k,
{
    if k > 0 {
        law_waits_double_up_to_a_minute((k - 1) as nat, local_server_id);
        assert(failures(k).drop_last() =~= failures((k - 1) as nat));
        assert(failures(k).last() == LinkEventView::ConnectFailed);
        assert(doubling(k) == 2 * doubling((k - 1) as nat));
    }
}

/// Whatever came before, a successful connection brings the wait back to one
/// second.
pub proof fn law_connection_resets_wait(b: u64, evs: Seq<LinkEventView>, info: ServerInfoView)
    ensures
        backoff_after(b, evs.push(LinkEventView::Connected(info))) == INITIAL_BACKOFF_MS,
{
    assert(evs.push(LinkEventView::Connected(info)).drop_last() =~= evs);
}

} // verus!
