//! The request-level decisions of the HTTP and WebSocket handlers: limits
//! on waits and page sizes, the description of a session, the keepalive of
//! a WebSocket, and the frame that resynchronises a lagging raw client.

use vstd::prelude::*;
use crate::text::{chars_of, decimal, push_decimal, push_str, sort_strings, sorted_strings, string_seq_view, trim_range, trimmed};
use crate::federation::auth::opt_str_view;
use crate::api::error::ApiError;

verus! {

/// Maximum allowed value for `timeout_ms` and `max_wait_ms` parameters, so
/// that clients cannot hold connections open indefinitely.
pub const MAX_WAIT_CEILING_MS: u64 = 300000;

/// Maximum number of scrollback lines returned at once.
pub const MAX_SCROLLBACK_LIMIT: usize = 10000;

/// Default deadline of an idle wait, in milliseconds.
pub fn default_max_wait() -> (r: u64)
    ensures
        r == 30000,
{
    30000
}

/// Default number of scrollback lines returned.
pub fn default_limit() -> (r: usize)
    ensures
        r == 100,
{
    100
}

/// A wait parameter held to the ceiling.
pub fn clamp_wait_ms(ms: u64) -> (r: u64)
    ensures
        r == if ms < MAX_WAIT_CEILING_MS { ms } else { MAX_WAIT_CEILING_MS },
{
    if ms < MAX_WAIT_CEILING_MS {
        ms
    } else {
        MAX_WAIT_CEILING_MS
    }
}

/// A scrollback page size held to the maximum.
pub fn clamp_scrollback_limit(limit: usize) -> (r: usize)
    ensures
        r == if limit < MAX_SCROLLBACK_LIMIT { limit } else { MAX_SCROLLBACK_LIMIT },
{
    if limit < MAX_SCROLLBACK_LIMIT {
        limit
    } else {
        MAX_SCROLLBACK_LIMIT
    }
}

/// The terminal size of a new session: 24 rows and 80 columns unless
/// given, and at least one of each.
pub fn terminal_size(rows: Option<u16>, cols: Option<u16>) -> (r: (u16, u16))
    ensures
        r.0 == match rows {
            Some(x) => if x >= 1 { x } else { 1 },
            None => 24,
        },
        r.1 == match cols {
            Some(x) => if x >= 1 { x } else { 1 },
            None => 80,
        },
{
    let r = match rows {
        Some(x) => if x >= 1 { x } else { 1 },
        None => 24,
    };
    let c = match cols {
        Some(x) => if x >= 1 { x } else { 1 },
        None => 80,
    };
    (r, c)
}

/// The `,`-separated pieces of `s`, from the piece that starts at
/// `seg_start` on; `i` scans the current piece.
pub open spec fn comma_pieces(s: Seq<char>, seg_start: int, i: int) -> Seq<Seq<char>>
    decreases s.len() - i,
{
    if seg_start < 0 || i < seg_start || i > s.len() {
        seq![]
    } else if i == s.len() {
        seq![s.subrange(seg_start, i)]
    } else if s[i] == ',' {
        seq![s.subrange(seg_start, i)] + comma_pieces(s, i + 1, i + 1)
    } else {
        comma_pieces(s, seg_start, i + 1)
    }
}

/// The pieces trimmed of white space, empty ones left out.
pub open spec fn kept_tags(ps: Seq<Seq<char>>) -> Seq<Seq<char>>
    decreases ps.len(),
{
    if ps.len() == 0 {
        seq![]
    } else {
        let t = trimmed(ps[0]);
        (if t.len() > 0 {
            seq![t]
        } else {
            seq![]
        }) + kept_tags(ps.drop_first())
    }
}

/// The tags of a `?tag=a,b` filter: the comma-separated values, trimmed,
/// empty ones left out (no filter gives no tags).
pub open spec fn tag_filter(param: Option<Seq<char>>) -> Seq<Seq<char>> {
    match param {
        Some(t) => kept_tags(comma_pieces(t, 0, 0)),
        None => seq![],
    }
}

proof fn lemma_kept_tags_front(p: Seq<char>, rest: Seq<Seq<char>>)
    ensures
        kept_tags(seq![p] + rest) == (if trimmed(p).len() > 0 {
            seq![trimmed(p)]
        } else {
            seq![]
        }) + kept_tags(rest),
{
    assert((seq![p] + rest).drop_first() =~= rest);
    assert((seq![p] + rest)[0] == p);
}

/// Parse a `?tag=` filter parameter into the tags it names.
pub fn parse_tag_filter(param: Option<&str>) -> (r: Vec<String>)
    ensures
        string_seq_view(r@) == tag_filter(opt_str_view(param)),
{
    let mut out: Vec<String> = Vec::new();
    let t = match param {
        None => {
            assert(string_seq_view(out@) =~= Seq::<Seq<char>>::empty());
            return out;
        },
        Some(t) => t,
    };
    let v = chars_of(t);
    let n = v.len();
    let mut seg_start: usize = 0;
    let mut i: usize = 0;
    assert(string_seq_view(out@) =~= Seq::<Seq<char>>::empty());
    assert(tag_filter(opt_str_view(param)) =~= string_seq_view(out@) + kept_tags(comma_pieces(t@, 0, 0)));
    while i < n
        invariant
            n == v@.len(),
            v@ == t@,
            opt_str_view(param) == Some(t@),
            seg_start <= i <= n,
            tag_filter(opt_str_view(param)) == string_seq_view(out@) + kept_tags(comma_pieces(t@, seg_start as int, i as int)),
        decreases n - i,
    {
        if v[i] == ',' {
            let piece = trim_range(&v, seg_start, i);
            let ghost p = t@.subrange(seg_start as int, i as int);
            let ghost rest = comma_pieces(t@, i + 1, i + 1);
            let ghost before = string_seq_view(out@);
            proof {
                lemma_kept_tags_front(p, rest);
            }
            if !piece.as_str().is_empty() {
                out.push(piece);
                proof {
                    assert(string_seq_view(out@) =~= before.push(trimmed(p)));
                    assert(before + (seq![trimmed(p)] + kept_tags(rest)) =~= before.push(trimmed(p)) + kept_tags(rest));
                }
            } else {
                proof {
                    assert(seq![] + kept_tags(rest) =~= kept_tags(rest));
                }
            }
            seg_start = i + 1;
        }
        i = i + 1;
    }
    let piece = trim_range(&v, seg_start, n);
    let ghost p = t@.subrange(seg_start as int, n as int);
    let ghost before = string_seq_view(out@);
    proof {
        lemma_kept_tags_front(p, seq![]);
        assert(comma_pieces(t@, seg_start as int, n as int) =~= seq![p] + Seq::<Seq<char>>::empty());
        assert(kept_tags(Seq::<Seq<char>>::empty()) =~= Seq::<Seq<char>>::empty());
    }
    if !piece.as_str().is_empty() {
        out.push(piece);
        proof {
            assert(string_seq_view(out@) =~= before.push(trimmed(p)));
            assert(before + (seq![trimmed(p)] + Seq::<Seq<char>>::empty()) =~= before.push(trimmed(p)));
        }
    } else {
        proof {
            assert(before + (Seq::<Seq<char>>::empty() + Seq::<Seq<char>>::empty()) =~= before);
        }
    }
    out
}

/// The generation a session's idle wait starts from: the one the client
/// saw, for the session it saw it on; none for the others.
pub fn last_seen_for(session: &str, last_session: Option<&str>, last_generation: Option<u64>) -> (r: Option<u64>)
    ensures
        r == (if opt_str_view(last_session) == Some(session@) { last_generation } else { None }),
{
    match last_session {
        Some(s) => if crate::text::str_eq(s, session) {
            last_generation
        } else {
            None
        },
        None => None,
    }
}

/// Query of `GET /sessions/:name/idle` (the output format is read by the
/// terminal parser's side).
#[derive(Debug)]
pub struct IdleQuery {
    pub timeout_ms: u64,
    pub max_wait_ms: u64,
    /// Generation from a previous idle response. If provided and matches
    /// the current generation, the server waits for new activity before
    /// checking idle state.
    pub last_generation: Option<u64>,
    /// When true, always observe at least `timeout_ms` of real silence
    /// before responding.
    pub fresh: bool,
}

impl IdleQuery {
    /// The idle timeout and the deadline of the wait, both held to the
    /// ceiling.
    pub fn bounds(&self) -> (r: (u64, u64))
        ensures
            r.0 == if self.timeout_ms < MAX_WAIT_CEILING_MS { self.timeout_ms } else { MAX_WAIT_CEILING_MS },
            r.1 == if self.max_wait_ms < MAX_WAIT_CEILING_MS { self.max_wait_ms } else { MAX_WAIT_CEILING_MS },
    {
        (clamp_wait_ms(self.timeout_ms), clamp_wait_ms(self.max_wait_ms))
    }
}

/// How `idle_any` waits: each candidate session with the generation its
/// wait starts from, the idle timeout and the deadline.
#[derive(Debug)]
pub struct IdleAnyPlan {
    pub waits: Vec<(String, Option<u64>)>,
    pub timeout_ms: u64,
    pub deadline_ms: u64,
}

/// The waits of `idle_any` over the candidate sessions `names` (all
/// sessions, or those matching the tag filter): one per session, in order,
/// the session the client last saw starting from the generation it saw.
pub open spec fn idle_any_waits(names: Seq<Seq<char>>, last_session: Option<Seq<char>>, last_generation: Option<u64>) -> Seq<(Seq<char>, Option<u64>)> {
    names.map_values(|n: Seq<char>| (n, if last_session == Some(n) { last_generation } else { None }))
}

/// Plan the wait of `GET /idle` (any session) over the candidate sessions
/// `names`: `NoSessions` when there is none; else one wait per session, with
/// both durations held to the ceiling.
pub fn idle_any_plan(names: &Vec<String>, query: &IdleQuery, last_session: Option<&str>) -> (r: Result<IdleAnyPlan, ApiError>)
    ensures
        names@.len() == 0 <==> r matches Err(ApiError::NoSessions),
        r is Err ==> r matches Err(ApiError::NoSessions),
        r matches Ok(p) ==> {
            &&& p.timeout_ms == if query.timeout_ms < MAX_WAIT_CEILING_MS { query.timeout_ms } else { MAX_WAIT_CEILING_MS }
            &&& p.deadline_ms == if query.max_wait_ms < MAX_WAIT_CEILING_MS { query.max_wait_ms } else { MAX_WAIT_CEILING_MS }
            &&& p.waits@.map_values(|w: (String, Option<u64>)| (w.0@, w.1)) == idle_any_waits(
                string_seq_view(names@),
                opt_str_view(last_session),
                query.last_generation,
            )
        },
{
    if names.len() == 0 {
        return Err(ApiError::NoSessions);
    }
    let (timeout_ms, deadline_ms) = query.bounds();
    let ghost want = idle_any_waits(string_seq_view(names@), opt_str_view(last_session), query.last_generation);
    let mut waits: Vec<(String, Option<u64>)> = Vec::new();
    let mut k: usize = 0;
    while k < names.len()
        invariant
            k <= names@.len(),
            want == idle_any_waits(string_seq_view(names@), opt_str_view(last_session), query.last_generation),
            waits@.len() == k,
            forall|j: int| 0 <= j < k ==> (#[trigger] waits@[j]).0@ == want[j].0 && waits@[j].1 == want[j].1,
        decreases names@.len() - k,
    {
        let seen = last_seen_for(names[k].as_str(), last_session, query.last_generation);
        waits.push((names[k].clone(), seen));
        k = k + 1;
    }
    let p = IdleAnyPlan { waits, timeout_ms, deadline_ms };
    assert(p.waits@.map_values(|w: (String, Option<u64>)| (w.0@, w.1)) =~= want);
    Ok(p)
}

/// What a new session runs.
#[derive(Debug)]
pub enum SpawnCommand {
    /// This command, interactively.
    Command { command: String, interactive: bool },
    /// The user's shell, interactively.
    Shell { interactive: bool },
}

/// How `POST /sessions` spawns a session: the command if one was given,
/// else the shell, interactively, at the requested size (24 rows and 80
/// columns by default, at least one of each).
#[derive(Debug)]
pub struct SpawnPlan {
    pub command: SpawnCommand,
    pub rows: u16,
    pub cols: u16,
}

/// Plan the spawning of a session created with `command`, `rows` and `cols`.
pub fn session_create_plan(command: Option<String>, rows: Option<u16>, cols: Option<u16>) -> (r: SpawnPlan)
    ensures
        match command {
            Some(c) => r.command matches SpawnCommand::Command { command: x, interactive: true } && x@ == c@,
            None => r.command matches SpawnCommand::Shell { interactive: true },
        },
        r.rows == match rows {
            Some(x) => if x >= 1 { x } else { 1 },
            None => 24,
        },
        r.cols == match cols {
            Some(x) => if x >= 1 { x } else { 1 },
            None => 80,
        },
{
    let (r, c) = terminal_size(rows, cols);
    let spawn = match command {
        Some(cmd) => SpawnCommand::Command { command: cmd, interactive: true },
        None => SpawnCommand::Shell { interactive: true },
    };
    SpawnPlan { command: spawn, rows: r, cols: c }
}

/// Query of `GET /sessions/:name/scrollback` (the output format is read by
/// the terminal parser's side).
#[derive(Debug)]
pub struct ScrollbackQuery {
    pub offset: usize,
    pub limit: usize,
}

/// Description of a session, as the API reports it.
#[derive(Debug)]
pub struct SessionInfo {
    pub name: String,
    pub pid: Option<u32>,
    pub command: String,
    pub rows: u16,
    pub cols: u16,
    pub clients: usize,
    pub tags: Vec<String>,
    pub last_activity_ms: u64,
}

/// Describe a session from what it holds; its tags (kept as a set) are
/// reported in sorted order.
pub fn build_session_info(
    name: String,
    pid: Option<u32>,
    command: String,
    rows: u16,
    cols: u16,
    clients: usize,
    tags: Vec<String>,
    last_activity_ms: u64,
) -> (r: SessionInfo)
    ensures
        r.name@ == name@,
        r.pid == pid,
        r.command@ == command@,
        r.rows == rows,
        r.cols == cols,
        r.clients == clients,
        r.last_activity_ms == last_activity_ms,
        sorted_strings(string_seq_view(r.tags@)),
        string_seq_view(r.tags@).to_multiset() == string_seq_view(tags@).to_multiset(),
{
    SessionInfo { name, pid, command, rows, cols, clients, tags: sort_strings(tags), last_activity_ms }
}

/// Interval between keepalive pings, in milliseconds.
pub const PING_INTERVAL_MS: u64 = 30000;

/// A client that has not answered a ping for this long is closed.
pub const PONG_TIMEOUT_MS: u64 = 10000;

/// Milliseconds from `since` to `now`, zero when the clock reads earlier.
pub open spec fn elapsed_ms(since: u64, now: u64) -> int {
    if now >= since {
        now - since
    } else {
        0
    }
}

/// What to do at a keepalive tick.
#[derive(Debug, Clone, Copy, PartialEq, Eq, Structural)]
pub enum KeepaliveAction {
    /// Send a ping (and expect a pong).
    SendPing,
    /// The client stopped answering: close the connection.
    Close,
}

/// Ping/pong bookkeeping of one WebSocket connection.
#[derive(Debug)]
pub struct Keepalive {
    ping_sent: bool,
    last_pong_ms: u64,
}

/// The mathematical content of a [`Keepalive`].
pub struct KeepaliveView {
    pub ping_sent: bool,
    pub last_pong_ms: u64,
}

impl View for Keepalive {
    type V = KeepaliveView;

    closed spec fn view(&self) -> KeepaliveView {
        KeepaliveView { ping_sent: self.ping_sent, last_pong_ms: self.last_pong_ms }
    }
}

/// The action at a tick at `now`.
pub open spec fn tick_action(k: KeepaliveView, now: u64) -> KeepaliveAction {
    if k.ping_sent && elapsed_ms(k.last_pong_ms, now) > PONG_TIMEOUT_MS {
        KeepaliveAction::Close
    } else {
        KeepaliveAction::SendPing
    }
}

impl Keepalive {
    /// A connection opened at `now_ms`: no ping outstanding.
    pub fn new(now_ms: u64) -> (r: Self)
        ensures
            r@.ping_sent == false,
            r@.last_pong_ms == now_ms,
    {
        Keepalive { ping_sent: false, last_pong_ms: now_ms }
    }

    /// A pong arrived at `now_ms`.
    pub fn on_pong(&mut self, now_ms: u64)
        ensures
            final(self)@.ping_sent == false,
            final(self)@.last_pong_ms == now_ms,
    {
        self.last_pong_ms = now_ms;
        self.ping_sent = false;
    }

    /// The ping timer fired at `now_ms`: close a connection whose ping went
    /// unanswered for longer than [`PONG_TIMEOUT_MS`], else send a ping.
    pub fn on_tick(&mut self, now_ms: u64) -> (r: KeepaliveAction)
        ensures
            r == tick_action(old(self)@, now_ms),
            r == KeepaliveAction::SendPing ==> final(self)@.ping_sent && final(self)@.last_pong_ms == old(self)@.last_pong_ms,
            r == KeepaliveAction::Close ==> final(self)@ == old(self)@,
    {
        let elapsed = if now_ms >= self.last_pong_ms { now_ms - self.last_pong_ms } else { 0 };
        if self.ping_sent && elapsed > PONG_TIMEOUT_MS {
            KeepaliveAction::Close
        } else {
            self.ping_sent = true;
            KeepaliveAction::SendPing
        }
    }
}

/// A client that answered within the timeout is never closed at the next
/// tick, and one that left a ping unanswered for longer is.
pub proof fn law_keepalive_closes_only_silent_clients(k: KeepaliveView, now: u64)
    ensures
        elapsed_ms(k.last_pong_ms, now) <= PONG_TIMEOUT_MS ==> tick_action(k, now) == KeepaliveAction::SendPing,
        !k.ping_sent ==> tick_action(k, now) == KeepaliveAction::SendPing,
        k.ping_sent && elapsed_ms(k.last_pong_ms, now) > PONG_TIMEOUT_MS ==> tick_action(k, now) == KeepaliveAction::Close,
{
}

/// Lines joined with `\r\n`.
pub open spec fn join_lines(lines: Seq<Seq<char>>) -> Seq<char>
    decreases lines.len(),
{
    if lines.len() == 0 {
        seq![]
    } else if lines.len() == 1 {
        lines[0]
    } else {
        join_lines(lines.drop_last()) + "\r\n"@ + lines.last()
    }
}

/// The frame sent to a raw client that fell behind: clear the screen, draw
/// the current lines, and put the cursor back (rows and columns counted
/// from one).
pub open spec fn screen_sync_text(lines: Seq<Seq<char>>, row: nat, col: nat) -> Seq<char> {
    "\x1b[H\x1b[2J"@ + join_lines(lines) + "\x1b["@ + decimal(row + 1) + ";"@ + decimal(col + 1) + "H"@
}

/// Build the frame that resynchronises a raw client which lagged behind,
/// from the screen's lines (already rendered as ANSI text) and the cursor
/// position (counted from zero).
pub fn screen_sync_frame(lines: &Vec<String>, cursor_row: u32, cursor_col: u32) -> (r: String)
    ensures
        r@ == screen_sync_text(string_seq_view(lines@), cursor_row as nat, cursor_col as nat),
{
    let mut buf = String::new();
    push_str(&mut buf, "\x1b[H\x1b[2J");
    let ghost head = buf@;
    let mut i: usize = 0;
    while i < lines.len()
        invariant
            i <= lines@.len(),
            buf@ == head + join_lines(string_seq_view(lines@.take(i as int))),
        decreases lines@.len() - i,
    {
        let ghost before = string_seq_view(lines@.take(i as int));
        if i > 0 {
            push_str(&mut buf, "\r\n");
        }
        push_str(&mut buf, lines[i].as_str());
        proof {
            let after = string_seq_view(lines@.take(i + 1));
            assert(after.drop_last() =~= before);
            assert(after.last() == lines@[i as int]@);
            if i == 0 {
                assert(before.len() == 0);
                assert(join_lines(before) =~= Seq::<char>::empty());
                assert(after.len() == 1);
            }
        }
        i = i + 1;
    }
    proof {
        assert(lines@.take(i as int) =~= lines@);
    }
    push_str(&mut buf, "\x1b[");
    push_decimal(&mut buf, cursor_row as u64 + 1);
    push_str(&mut buf, ";");
    push_decimal(&mut buf, cursor_col as u64 + 1);
    push_str(&mut buf, "H");
    buf
}

} // verus!
