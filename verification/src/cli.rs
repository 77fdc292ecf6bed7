//! Decisions of the command-line front end: which API token the server
//! requires, the requests the subcommands send, and the reports they print
//! of the server's replies.

use vstd::prelude::*;
use crate::api::ticket::{is_ascii_alnum, random_nonce, TICKET_LEN};
use crate::federation::ip_access::IpAddress;
use crate::federation::registry::{byte_len, is_loopback, prefix_end, take_bytes};
use crate::input::keys::opt_string_view;
use crate::text::{chars_of, concat3, decimal, decimal_string, push_char, push_decimal, push_str};
use crate::json::{bool_field, field_of, str_array_field, str_field, u64_field, Json, JsonView};

verus! {

/// Minimum token length (in bytes) for non-localhost bindings. Shorter
/// tokens are rejected to prevent accidental auth bypass (e.g.
/// `WSH_TOKEN=""`).
pub const MIN_TOKEN_LENGTH: usize = 16;

/// Which token the server requires.
pub enum TokenChoice {
    /// No token: bound to loopback, or authentication disabled.
    NoToken,
    /// The token the user gave.
    UserToken(Seq<char>),
    /// The user's token is too short; its length in bytes.
    TooShort(nat),
    /// A fresh random token.
    Generated,
}

/// The token choice for a server bound to `bind`.
pub open spec fn token_choice(bind: IpAddress, user_token: Option<Seq<char>>, no_auth: bool) -> TokenChoice {
    if is_loopback(bind) || no_auth {
        TokenChoice::NoToken
    } else {
        match user_token {
            Some(t) => if byte_len(t) >= MIN_TOKEN_LENGTH {
                TokenChoice::UserToken(t)
            } else {
                TokenChoice::TooShort(byte_len(t))
            },
            None => TokenChoice::Generated,
        }
    }
}

/// The message refusing a token of `n` bytes.
pub open spec fn short_token_message(n: nat) -> Seq<char> {
    "auth token too short ("@ + decimal(n) + " chars, minimum 16). Use a strong token or omit --token to auto-generate one."@
}

/// Decide the API token of a server bound to `bind`: none on loopback or
/// with `--no-auth`; else the user's token if it is long enough (an error
/// if it is not); else a fresh random token of 32 letters and digits.
pub fn resolve_token(bind: IpAddress, user_token: &Option<String>, no_auth: bool) -> (r: Result<Option<String>, String>)
    ensures
        match token_choice(bind, opt_string_view(*user_token), no_auth) {
            TokenChoice::NoToken => r matches Ok(None),
            TokenChoice::UserToken(t) => r matches Ok(Some(x)) && x@ == t,
            TokenChoice::TooShort(n) => r matches Err(m) && m@ == short_token_message(n),
            TokenChoice::Generated => r matches Ok(Some(x)) && x@.len() == TICKET_LEN
                && forall|i: int| 0 <= i < x@.len() ==> is_ascii_alnum(#[trigger] x@[i]),
        },
{
    let loopback = match bind {
        IpAddress::V4(a) => a / 0x100_0000 == 127,
        IpAddress::V6(a) => a == 1,
    };
    if loopback || no_auth {
        return Ok(None);
    }
    match user_token {
        Some(token) => {
            let bytes = token.as_str().as_bytes();
            let n = bytes.len();
            if n >= MIN_TOKEN_LENGTH {
                Ok(Some(token.clone()))
            } else {
                let num = decimal_string(n as u64);
                Err(concat3(
                    "auth token too short (",
                    num.as_str(),
                    " chars, minimum 16). Use a strong token or omit --token to auto-generate one.",
                ))
            }
        },
        None => Ok(Some(random_nonce())),
    }
}

/// Why a `--base-prefix` is refused, if it is: it must start with `/` and,
/// unless it is `/` itself, must not end with `/`.
pub open spec fn base_prefix_fault(prefix: Option<Seq<char>>) -> Option<Seq<char>> {
    match prefix {
        None => None,
        Some(p) => if !(p.len() > 0 && p[0] == '/') {
            Some("--base-prefix must start with '/'"@)
        } else if p.len() > 1 && p.last() == '/' {
            Some("--base-prefix must not end with '/'"@)
        } else {
            None
        },
    }
}

/// Check the `--base-prefix` argument of the server.
pub fn check_base_prefix(prefix: Option<&str>) -> (r: Result<(), String>)
    ensures
        match base_prefix_fault(crate::federation::auth::opt_str_view(prefix)) {
            None => r is Ok,
            Some(m) => r matches Err(x) && x@ == m,
        },
{
    match prefix {
        None => Ok(()),
        Some(p) => {
            let v = chars_of(p);
            if !(v.len() > 0 && v[0] == '/') {
                Err(crate::text::owned("--base-prefix must start with '/'"))
            } else if v.len() > 1 && v[v.len() - 1] == '/' {
                Err(crate::text::owned("--base-prefix must not end with '/'"))
            } else {
                Ok(())
            }
        },
    }
}

/// The requests per second and client IP that a server on TCP admits when
/// bound to a non-loopback address and no rate limit was given.
pub const DEFAULT_RATE_LIMIT: u32 = 100;

/// The rate limit of a server: the one given; else, on a non-loopback TCP
/// binding, [`DEFAULT_RATE_LIMIT`]; else none.
pub open spec fn rate_limit_choice(bind: Option<IpAddress>, given: Option<u32>) -> Option<u32> {
    match given {
        Some(r) => Some(r),
        None => match bind {
            Some(ip) => if !is_loopback(ip) {
                Some(DEFAULT_RATE_LIMIT)
            } else {
                None
            },
            None => None,
        },
    }
}

/// Choose the rate limit of a server bound to `bind` (none: no TCP).
pub fn effective_rate_limit(bind: Option<IpAddress>, given: Option<u32>) -> (r: Option<u32>)
    ensures
        r == rate_limit_choice(bind, given),
{
    match given {
        Some(r) => Some(r),
        None => match bind {
            Some(ip) => {
                let loopback = match ip {
                    IpAddress::V4(a) => a / 0x100_0000 == 127,
                    IpAddress::V6(a) => a == 1,
                };
                if !loopback {
                    Some(DEFAULT_RATE_LIMIT)
                } else {
                    None
                }
            },
            None => None,
        },
    }
}

/// A duration in whole seconds as `Hh Mm Ss`, `Mm Ss` or `Ss`, leaving out
/// leading zero units.
pub open spec fn duration_text(total: nat) -> Seq<char> {
    let h = total / 3600;
    let m = (total % 3600) / 60;
    let s = total % 60;
    if h > 0 {
        decimal(h) + "h "@ + decimal(m) + "m "@ + decimal(s) + "s"@
    } else if m > 0 {
        decimal(m) + "m "@ + decimal(s) + "s"@
    } else {
        decimal(s) + "s"@
    }
}

/// Show a duration of `total_secs` whole seconds.
pub fn format_duration(total_secs: u64) -> (r: String)
    ensures
        r@ == duration_text(total_secs as nat),
{
    let h = total_secs / 3600;
    let m = (total_secs % 3600) / 60;
    let s = total_secs % 60;
    let mut r = String::new();
    if h > 0 {
        push_decimal(&mut r, h);
        push_str(&mut r, "h ");
        push_decimal(&mut r, m);
        push_str(&mut r, "m ");
    } else if m > 0 {
        push_decimal(&mut r, m);
        push_str(&mut r, "m ");
    }
    push_decimal(&mut r, s);
    push_str(&mut r, "s");
    proof {
        assert(r@ =~= duration_text(total_secs as nat));
    }
    r
}

/// `s` padded with spaces on the right to `w` characters (not cut when
/// longer), as `{:<w}` formats it.
pub open spec fn pad_right(s: Seq<char>, w: nat) -> Seq<char> {
    if s.len() >= w {
        s
    } else {
        s + Seq::new((w - s.len()) as nat, |_i: int| ' ')
    }
}

/// Appends `s` padded to `w` characters.
pub fn push_padded(out: &mut String, s: &str, w: usize)
    ensures
        final(out)@ == old(out)@ + pad_right(s@, w as nat),
{
    push_str(out, s);
    let n = chars_of(s).len();
    let ghost base = out@;
    let mut k: usize = n;
    while k < w
        invariant
            n == s@.len(),
            n <= k <= w || (n > w && k == n),
            base == old(out)@ + s@,
            out@ == base + Seq::new((k - n) as nat, |_i: int| ' '),
        decreases w - k,
    {
        push_char(out, ' ');
        proof {
            assert(base + Seq::new((k + 1 - n) as nat, |_i: int| ' ') =~= (base + Seq::new((k - n) as nat, |_i: int| ' ')).push(' '));
        }
        k = k + 1;
    }
    proof {
        if n >= w {
            assert(out@ =~= base);
        } else {
            assert(k == w);
        }
        assert(old(out)@ + pad_right(s@, w as nat) =~= out@);
    }
}

/// Text of string field `key`, else `dflt`.
pub open spec fn str_or(v: JsonView, key: Seq<char>, dflt: Seq<char>) -> Seq<char> {
    match str_field(v, key) {
        Some(x) => x,
        None => dflt,
    }
}

/// Integer field `key`, else 0.
pub open spec fn u64_or_zero(v: JsonView, key: Seq<char>) -> nat {
    match u64_field(v, key) {
        Some(x) => x as nat,
        None => 0,
    }
}

/// `parts` joined with `sep`.
pub open spec fn join_with(parts: Seq<Seq<char>>, sep: Seq<char>) -> Seq<char>
    decreases parts.len(),
{
    if parts.len() == 0 {
        seq![]
    } else if parts.len() == 1 {
        parts[0]
    } else {
        join_with(parts.drop_last(), sep) + sep + parts.last()
    }
}

/// Appends `parts` joined with `sep`.
pub fn push_joined(out: &mut String, parts: &Vec<String>, sep: &str)
    ensures
        final(out)@ == old(out)@ + join_with(crate::text::string_seq_view(parts@), sep@),
{
    let ghost base = out@;
    let mut i: usize = 0;
    assert(crate::text::string_seq_view(parts@.take(0)) =~= Seq::<Seq<char>>::empty());
    while i < parts.len()
        invariant
            i <= parts@.len(),
            out@ == base + join_with(crate::text::string_seq_view(parts@.take(i as int)), sep@),
        decreases parts@.len() - i,
    {
        let ghost before = crate::text::string_seq_view(parts@.take(i as int));
        if i > 0 {
            push_str(out, sep);
        }
        push_str(out, parts[i].as_str());
        proof {
            let after = crate::text::string_seq_view(parts@.take(i + 1));
            assert(after.drop_last() =~= before);
            assert(after.last() == parts@[i as int]@);
            if i == 0 {
                assert(after.len() == 1);
                assert(join_with(before, sep@) =~= Seq::<char>::empty());
            }
        }
        i = i + 1;
    }
    assert(parts@.take(i as int) =~= parts@);
}

/// The header of the session table.
pub open spec fn session_table_header() -> Seq<char> {
    pad_right("NAME"@, 20) + " "@ + pad_right("PID"@, 8) + " "@ + pad_right("COMMAND"@, 20) + " "@
        + pad_right("SIZE"@, 12) + " "@ + pad_right("CLIENTS"@, 8) + " "@ + "TAGS"@
}

/// The table row of a session: name, process id, command, size
/// (`COLSxROWS`), clients and tags; a missing text is shown as `-`, a
/// missing number as 0.
pub open spec fn session_row(v: JsonView) -> Seq<char> {
    let pid = match u64_field(v, "pid"@) {
        Some(p) => decimal(p as nat),
        None => "-"@,
    };
    pad_right(str_or(v, "name"@, "-"@), 20) + " "@ + pad_right(pid, 8) + " "@
        + pad_right(str_or(v, "command"@, "-"@), 20) + " "@
        + pad_right(decimal(u64_or_zero(v, "cols"@)) + "x"@ + decimal(u64_or_zero(v, "rows"@)), 12) + " "@
        + pad_right(decimal(u64_or_zero(v, "clients"@)), 8) + " "@ + join_with(str_array_field(v, "tags"@), ", "@)
}

/// The lines `wsh list` prints for a session list.
pub open spec fn session_table(sessions: Seq<JsonView>) -> Seq<Seq<char>> {
    if sessions.len() == 0 {
        seq!["No active sessions."@]
    } else {
        seq![session_table_header()] + sessions.map_values(|v: JsonView| session_row(v))
    }
}

fn str_or_default(v: &Json, key: &str, dflt: &str) -> (r: String)
    ensures
        r@ == str_or(v.jview(), key@, dflt@),
{
    match v.get_str(key) {
        Some(x) => x,
        None => crate::text::owned(dflt),
    }
}

fn u64_or_zero_of(v: &Json, key: &str) -> (r: u64)
    ensures
        r as nat == u64_or_zero(v.jview(), key@),
{
    match v.get_u64(key) {
        Some(x) => x,
        None => 0,
    }
}

/// The table row of one session.
pub fn session_row_text(v: &Json) -> (r: String)
    ensures
        r@ == session_row(v.jview()),
{
    let mut out = String::new();
    let name = str_or_default(v, "name", "-");
    push_padded(&mut out, name.as_str(), 20);
    push_str(&mut out, " ");
    let pid = match v.get_u64("pid") {
        Some(p) => decimal_string(p),
        None => crate::text::owned("-"),
    };
    push_padded(&mut out, pid.as_str(), 8);
    push_str(&mut out, " ");
    let command = str_or_default(v, "command", "-");
    push_padded(&mut out, command.as_str(), 20);
    push_str(&mut out, " ");
    let cols = decimal_string(u64_or_zero_of(v, "cols"));
    let rows = decimal_string(u64_or_zero_of(v, "rows"));
    let size = concat3(cols.as_str(), "x", rows.as_str());
    push_padded(&mut out, size.as_str(), 12);
    push_str(&mut out, " ");
    let clients = decimal_string(u64_or_zero_of(v, "clients"));
    push_padded(&mut out, clients.as_str(), 8);
    push_str(&mut out, " ");
    let tags = v.get_str_array("tags");
    push_joined(&mut out, &tags, ", ");
    proof {
        assert(out@ =~= session_row(v.jview()));
    }
    out
}

/// The lines `wsh list` prints: a header and one row per session, or a
/// note that there are none.
pub fn session_table_lines(sessions: &Vec<Json>) -> (r: Vec<String>)
    ensures
        crate::text::string_seq_view(r@) == session_table(crate::json::items_view(sessions@)),
{
    let mut out: Vec<String> = Vec::new();
    if sessions.len() == 0 {
        out.push(crate::text::owned("No active sessions."));
        assert(crate::text::string_seq_view(out@) =~= session_table(crate::json::items_view(sessions@)));
        return out;
    }
    let mut header = String::new();
    push_padded(&mut header, "NAME", 20);
    push_str(&mut header, " ");
    push_padded(&mut header, "PID", 8);
    push_str(&mut header, " ");
    push_padded(&mut header, "COMMAND", 20);
    push_str(&mut header, " ");
    push_padded(&mut header, "SIZE", 12);
    push_str(&mut header, " ");
    push_padded(&mut header, "CLIENTS", 8);
    push_str(&mut header, " ");
    push_str(&mut header, "TAGS");
    assert(header@ =~= session_table_header());
    out.push(header);
    let ghost rows = crate::json::items_view(sessions@).map_values(|v: JsonView| session_row(v));
    let mut i: usize = 0;
    while i < sessions.len()
        invariant
            i <= sessions@.len(),
            rows == crate::json::items_view(sessions@).map_values(|v: JsonView| session_row(v)),
            crate::text::string_seq_view(out@) == seq![session_table_header()] + rows.take(i as int),
        decreases sessions@.len() - i,
    {
        let line = session_row_text(&sessions[i]);
        let ghost before = crate::text::string_seq_view(out@);
        out.push(line);
        proof {
            assert(crate::text::string_seq_view(out@) =~= before.push(line@));
            assert(rows[i as int] == session_row(sessions@[i as int].jview()));
            assert(seq![session_table_header()] + rows.take(i + 1) =~= (seq![session_table_header()] + rows.take(i as int)).push(rows[i as int]));
        }
        i = i + 1;
    }
    assert(rows.take(i as int) =~= rows);
    out
}

/// The lines `wsh info` prints for the server's info.
pub open spec fn server_info_text(info: JsonView) -> Seq<Seq<char>> {
    let head = seq![
        "Server:     "@ + str_or(info, "instance_name"@, "unknown"@),
        "Hostname:   "@ + str_or(info, "hostname"@, "unknown"@),
        "Version:    "@ + str_or(info, "version"@, "unknown"@),
        "Socket:     "@ + str_or(info, "socket_path"@, "unknown"@),
    ];
    let tcp = match str_field(info, "tcp_addr"@) {
        Some(a) => seq!["TCP:        "@ + a],
        None => seq![],
    };
    let persistent = if bool_field(info, "persistent"@) == Some(true) { "yes"@ } else { "no"@ };
    head + tcp + seq!["Persistent: "@ + persistent, "Sessions:   "@ + decimal(u64_or_zero(info, "session_count"@))]
}

/// The lines `wsh info` prints.
pub fn server_info_lines(info: &Json) -> (r: Vec<String>)
    ensures
        crate::text::string_seq_view(r@) == server_info_text(info.jview()),
{
    let mut out: Vec<String> = Vec::new();
    let a = str_or_default(info, "instance_name", "unknown");
    out.push(crate::text::concat2("Server:     ", a.as_str()));
    let b = str_or_default(info, "hostname", "unknown");
    out.push(crate::text::concat2("Hostname:   ", b.as_str()));
    let c = str_or_default(info, "version", "unknown");
    out.push(crate::text::concat2("Version:    ", c.as_str()));
    let d = str_or_default(info, "socket_path", "unknown");
    out.push(crate::text::concat2("Socket:     ", d.as_str()));
    let ghost head = crate::text::string_seq_view(out@);
    match info.get_str("tcp_addr") {
        Some(addr) => {
            out.push(crate::text::concat2("TCP:        ", addr.as_str()));
        },
        None => {},
    }
    let ghost mid = crate::text::string_seq_view(out@);
    let persistent = match info.get_bool("persistent") {
        Some(true) => "yes",
        _ => "no",
    };
    out.push(crate::text::concat2("Persistent: ", persistent));
    let n = decimal_string(u64_or_zero_of(info, "session_count"));
    out.push(crate::text::concat2("Sessions:   ", n.as_str()));
    proof {
        assert(crate::text::string_seq_view(out@) =~= server_info_text(info.jview()));
    }
    out
}

/// How `wsh persist` reads its argument: nothing queries, `on` and `off`
/// set the mode, anything else is refused.
pub open spec fn persist_arg(value: Option<Seq<char>>) -> Result<Option<bool>, Seq<char>> {
    match value {
        None => Ok(None),
        Some(v) => if v == "on"@ {
            Ok(Some(true))
        } else if v == "off"@ {
            Ok(Some(false))
        } else {
            Err("expected 'on' or 'off', got '"@ + v + "'"@)
        },
    }
}

/// Read the argument of `wsh persist`.
pub fn parse_persist_arg(value: Option<&str>) -> (r: Result<Option<bool>, String>)
    ensures
        match persist_arg(crate::federation::auth::opt_str_view(value)) {
            Ok(x) => r == Ok::<Option<bool>, String>(x),
            Err(m) => r matches Err(e) && e@ == m,
        },
{
    match value {
        None => Ok(None),
        Some(v) => if crate::text::str_eq(v, "on") {
            Ok(Some(true))
        } else if crate::text::str_eq(v, "off") {
            Ok(Some(false))
        } else {
            Err(concat3("expected 'on' or 'off', got '", v, "'"))
        },
    }
}

/// What `wsh persist` reports of the server's mode.
pub fn persist_message(persistent: bool) -> (r: &'static str)
    ensures
        r@ == if persistent {
            "Server is in persistent mode (will stay alive when sessions end)."@
        } else {
            "Server is in ephemeral mode (will exit when last session ends)."@
        },
{
    if persistent {
        "Server is in persistent mode (will stay alive when sessions end)."
    } else {
        "Server is in ephemeral mode (will exit when last session ends)."
    }
}

/// The lines that describe a recording: its id (and what just happened to
/// it), session, status, title, duration (whole seconds, when known),
/// size and links (each only when present).
pub open spec fn recording_text(info: JsonView, verb: Seq<char>, duration_secs: Option<u64>) -> Seq<Seq<char>> {
    let id = str_or(info, "id"@, "-"@);
    let first = if verb.len() == 0 { "Recording "@ + id } else { "Recording "@ + id + " "@ + verb };
    let title = match str_field(info, "title"@) {
        Some(t) => seq!["  Title:    "@ + t],
        None => seq![],
    };
    let duration = match duration_secs {
        Some(d) => duration_text(d as nat),
        None => "-"@,
    };
    let urls = match field_of(info, "urls"@) {
        Some(u) => u,
        None => JsonView::Null,
    };
    let link = |key: Seq<char>, label: Seq<char>| {
        let u = str_or(urls, key, seq![]);
        if u.len() > 0 { seq![label + u] } else { seq![] }
    };
    seq![first, "  Session:  "@ + str_or(info, "session"@, "-"@), "  Status:   "@ + str_or(info, "status"@, "-"@)]
        + title + seq!["  Duration: "@ + duration, "  Size:     "@ + decimal(u64_or_zero(info, "bytes_written"@)) + " bytes"@]
        + link("cast"@, "  Cast:     "@) + link("player"@, "  Player:   "@) + link("embed"@, "  Embed:    "@)
}

fn push_link(out: &mut Vec<String>, urls: &Json, key: &str, label: &str)
    ensures
        crate::text::string_seq_view(final(out)@) == crate::text::string_seq_view(old(out)@) + {
            let u = str_or(urls.jview(), key@, seq![]);
            if u.len() > 0 { seq![label@ + u] } else { seq![] }
        },
{
    let u = str_or_default(urls, key, "");
    proof {
        reveal_strlit("");
        assert(""@ =~= Seq::<char>::empty());
    }
    let ghost before = crate::text::string_seq_view(out@);
    if !u.as_str().is_empty() {
        out.push(crate::text::concat2(label, u.as_str()));
        assert(crate::text::string_seq_view(out@) =~= before + seq![label@ + u@]);
    } else {
        assert(crate::text::string_seq_view(out@) =~= before + Seq::<Seq<char>>::empty());
    }
}

/// The lines that describe a recording.
pub fn recording_info_lines(info: &Json, verb: &str, duration_secs: Option<u64>) -> (r: Vec<String>)
    ensures
        crate::text::string_seq_view(r@) == recording_text(info.jview(), verb@, duration_secs),
{
    let mut out: Vec<String> = Vec::new();
    let id = str_or_default(info, "id", "-");
    if verb.is_empty() {
        out.push(crate::text::concat2("Recording ", id.as_str()));
    } else {
        let head = concat3("Recording ", id.as_str(), " ");
        out.push(crate::text::concat2(head.as_str(), verb));
    }
    let session = str_or_default(info, "session", "-");
    out.push(crate::text::concat2("  Session:  ", session.as_str()));
    let status = str_or_default(info, "status", "-");
    out.push(crate::text::concat2("  Status:   ", status.as_str()));
    match info.get_str("title") {
        Some(t) => {
            out.push(crate::text::concat2("  Title:    ", t.as_str()));
        },
        None => {},
    }
    let duration = match duration_secs {
        Some(d) => format_duration(d),
        None => crate::text::owned("-"),
    };
    out.push(crate::text::concat2("  Duration: ", duration.as_str()));
    let bytes = decimal_string(u64_or_zero_of(info, "bytes_written"));
    out.push(concat3("  Size:     ", bytes.as_str(), " bytes"));
    let ghost before_links = crate::text::string_seq_view(out@);
    let null = Json::Null;
    let urls = match info.field("urls") {
        Some(u) => u,
        None => &null,
    };
    push_link(&mut out, urls, "cast", "  Cast:     ");
    push_link(&mut out, urls, "player", "  Player:   ");
    push_link(&mut out, urls, "embed", "  Embed:    ");
    proof {
        assert(crate::text::string_seq_view(out@) =~= recording_text(info.jview(), verb@, duration_secs));
    }
    out
}

/// The header of the server table of `wsh hub list`.
pub open spec fn hub_table_header() -> Seq<char> {
    pad_right("HOSTNAME"@, 20) + " "@ + pad_right("ADDRESS"@, 25) + " "@ + pad_right("HEALTH"@, 12) + " "@
        + pad_right("ROLE"@, 10) + " "@ + "SESSIONS"@
}

/// The row of one server: hostname, address, health, role and session
/// count (`-` when missing).
pub open spec fn hub_row(v: JsonView) -> Seq<char> {
    pad_right(str_or(v, "hostname"@, "-"@), 20) + " "@ + pad_right(str_or(v, "address"@, "-"@), 25) + " "@
        + pad_right(str_or(v, "health"@, "-"@), 12) + " "@ + pad_right(str_or(v, "role"@, "-"@), 10) + " "@
        + match u64_field(v, "sessions"@) {
        Some(n) => decimal(n as nat),
        None => "-"@,
    }
}

/// The lines `wsh hub list` prints.
pub open spec fn hub_table(servers: Seq<JsonView>) -> Seq<Seq<char>> {
    if servers.len() == 0 {
        seq!["No servers."@]
    } else {
        seq![hub_table_header()] + servers.map_values(|v: JsonView| hub_row(v))
    }
}

fn hub_row_text(v: &Json) -> (r: String)
    ensures
        r@ == hub_row(v.jview()),
{
    let mut out = String::new();
    let hostname = str_or_default(v, "hostname", "-");
    push_padded(&mut out, hostname.as_str(), 20);
    push_str(&mut out, " ");
    let address = str_or_default(v, "address", "-");
    push_padded(&mut out, address.as_str(), 25);
    push_str(&mut out, " ");
    let health = str_or_default(v, "health", "-");
    push_padded(&mut out, health.as_str(), 12);
    push_str(&mut out, " ");
    let role = str_or_default(v, "role", "-");
    push_padded(&mut out, role.as_str(), 10);
    push_str(&mut out, " ");
    match v.get_u64("sessions") {
        Some(n) => push_decimal(&mut out, n),
        None => push_str(&mut out, "-"),
    }
    proof {
        assert(out@ =~= hub_row(v.jview()));
    }
    out
}

/// The lines `wsh hub list` prints: a header and one row per server, or a
/// note that there are none.
pub fn hub_table_lines(servers: &Vec<Json>) -> (r: Vec<String>)
    ensures
        crate::text::string_seq_view(r@) == hub_table(crate::json::items_view(servers@)),
{
    let mut out: Vec<String> = Vec::new();
    if servers.len() == 0 {
        out.push(crate::text::owned("No servers."));
        assert(crate::text::string_seq_view(out@) =~= hub_table(crate::json::items_view(servers@)));
        return out;
    }
    let mut header = String::new();
    push_padded(&mut header, "HOSTNAME", 20);
    push_str(&mut header, " ");
    push_padded(&mut header, "ADDRESS", 25);
    push_str(&mut header, " ");
    push_padded(&mut header, "HEALTH", 12);
    push_str(&mut header, " ");
    push_padded(&mut header, "ROLE", 10);
    push_str(&mut header, " ");
    push_str(&mut header, "SESSIONS");
    assert(header@ =~= hub_table_header());
    out.push(header);
    let ghost rows = crate::json::items_view(servers@).map_values(|v: JsonView| hub_row(v));
    let mut i: usize = 0;
    while i < servers.len()
        invariant
            i <= servers@.len(),
            rows == crate::json::items_view(servers@).map_values(|v: JsonView| hub_row(v)),
            crate::text::string_seq_view(out@) == seq![hub_table_header()] + rows.take(i as int),
        decreases servers@.len() - i,
    {
        let line = hub_row_text(&servers[i]);
        let ghost before = crate::text::string_seq_view(out@);
        out.push(line);
        proof {
            assert(crate::text::string_seq_view(out@) =~= before.push(line@));
            assert(rows[i as int] == hub_row(servers@[i as int].jview()));
            assert(seq![hub_table_header()] + rows.take(i + 1) =~= (seq![hub_table_header()] + rows.take(i as int)).push(rows[i as int]));
        }
        i = i + 1;
    }
    assert(rows.take(i as int) =~= rows);
    out
}

/// What `wsh hub add` reports: the address and health the server
/// registered (the requested address and `unknown` when missing).
pub fn hub_added_message(result: &Json, address: &str) -> (r: String)
    ensures
        r@ == "Server added: "@ + str_or(result.jview(), "address"@, address@) + " (health: "@
            + str_or(result.jview(), "health"@, "unknown"@) + ")"@,
{
    let a = str_or_default(result, "address", address);
    let h = str_or_default(result, "health", "unknown");
    let head = concat3("Server added: ", a.as_str(), " (health: ");
    concat3(head.as_str(), h.as_str(), ")")
}

/// What `wsh hub remove` reports.
pub fn hub_removed_message(hostname: &str) -> (r: String)
    ensures
        r@ == "Server '"@ + hostname@ + "' removed."@,
{
    concat3("Server '", hostname, "' removed.")
}

/// What `wsh hub reload` reports: the numbers of servers added and removed
/// (0 when missing).
pub fn hub_reloaded_message(result: &Json) -> (r: String)
    ensures
        r@ == "Config reloaded: "@ + decimal(u64_or_zero(result.jview(), "added"@)) + " added, "@
            + decimal(u64_or_zero(result.jview(), "removed"@)) + " removed."@,
{
    let a = decimal_string(u64_or_zero_of(result, "added"));
    let b = decimal_string(u64_or_zero_of(result, "removed"));
    let head = concat3("Config reloaded: ", a.as_str(), " added, ");
    concat3(head.as_str(), b.as_str(), " removed.")
}

/// The request path of `wsh record list`, with the session and status
/// filters as query parameters.
pub open spec fn recording_list_path(session: Option<Seq<char>>, status: Option<Seq<char>>) -> Seq<char> {
    match (session, status) {
        (None, None) => "/recordings"@,
        (Some(s), None) => "/recordings?session="@ + s,
        (None, Some(t)) => "/recordings?status="@ + t,
        (Some(s), Some(t)) => "/recordings?session="@ + s + "&status="@ + t,
    }
}

/// Build the request path of `wsh record list`.
pub fn recording_list_request(session: Option<&str>, status: Option<&str>) -> (r: String)
    ensures
        r@ == recording_list_path(crate::federation::auth::opt_str_view(session), crate::federation::auth::opt_str_view(status)),
{
    match (session, status) {
        (None, None) => crate::text::owned("/recordings"),
        (Some(s), None) => crate::text::concat2("/recordings?session=", s),
        (None, Some(t)) => crate::text::concat2("/recordings?status=", t),
        (Some(s), Some(t)) => {
            let head = concat3("/recordings?session=", s, "&status=");
            crate::text::concat2(head.as_str(), t)
        },
    }
}

/// The request path for session `name` (followed by `suffix`, such as
/// `/detach`), routed to the backend `server` when one is named.
pub open spec fn session_path(name: Seq<char>, suffix: Seq<char>, server: Option<Seq<char>>) -> Seq<char> {
    match server {
        Some(s) => "/sessions/"@ + name + suffix + "?server="@ + s,
        None => "/sessions/"@ + name + suffix,
    }
}

/// Build the request path of `wsh kill`, `wsh detach` or `wsh tag`.
pub fn session_request(name: &str, suffix: &str, server: Option<&str>) -> (r: String)
    ensures
        r@ == session_path(name@, suffix@, crate::federation::auth::opt_str_view(server)),
{
    let head = concat3("/sessions/", name, suffix);
    match server {
        Some(s) => concat3(head.as_str(), "?server=", s),
        None => head,
    }
}

/// The request body of `wsh tag`: the tags to add and to remove.
pub open spec fn tag_body(add: Seq<Seq<char>>, remove: Seq<Seq<char>>) -> JsonView {
    JsonView::Object(seq![
        ("add_tags"@, JsonView::Array(add.map_values(|t: Seq<char>| JsonView::Str(t)))),
        ("remove_tags"@, JsonView::Array(remove.map_values(|t: Seq<char>| JsonView::Str(t)))),
    ])
}

fn str_array(items: &Vec<String>) -> (r: Json)
    ensures
        r.jview() == JsonView::Array(crate::text::string_seq_view(items@).map_values(|t: Seq<char>| JsonView::Str(t))),
{
    let mut out: Vec<Json> = Vec::new();
    let mut i: usize = 0;
    while i < items.len()
        invariant
            i <= items@.len(),
            out@.len() == i,
            forall|k: int| 0 <= k < i ==> (#[trigger] out@[k]).jview() == JsonView::Str(items@[k]@),
        decreases items@.len() - i,
    {
        out.push(Json::Str(items[i].clone()));
        i = i + 1;
    }
    proof {
        crate::json::lemma_array_view(out);
        assert(crate::json::items_view(out@) =~= crate::text::string_seq_view(items@).map_values(|t: Seq<char>| JsonView::Str(t)));
    }
    Json::Array(out)
}

/// Build the request body of `wsh tag`.
pub fn tag_request_body(add: &Vec<String>, remove: &Vec<String>) -> (r: Json)
    ensures
        r.jview() == tag_body(crate::text::string_seq_view(add@), crate::text::string_seq_view(remove@)),
{
    let a = str_array(add);
    let b = str_array(remove);
    let pairs = vec![(crate::text::owned("add_tags"), a), (crate::text::owned("remove_tags"), b)];
    proof {
        crate::json::lemma_object_view(pairs);
        assert(crate::json::fields_view(pairs@) =~= seq![
            ("add_tags"@, pairs@[0].1.jview()),
            ("remove_tags"@, pairs@[1].1.jview()),
        ]);
    }
    Json::Object(pairs)
}

/// What `wsh tag` reports of the session the server returned: its string
/// tags joined with `, `, or `no tags`.
pub open spec fn tag_report(name: Seq<char>, info: JsonView) -> Seq<char> {
    let tags = str_array_field(info, "tags"@);
    "Session '"@ + name + "': "@ + if tags.len() == 0 {
        "no tags"@
    } else {
        join_with(tags, ", "@)
    }
}

/// Format the report of `wsh tag`.
pub fn tag_report_text(name: &str, info: &Json) -> (r: String)
    ensures
        r@ == tag_report(name@, info.jview()),
{
    let tags = info.get_str_array("tags");
    assert(crate::text::string_seq_view(tags@).len() == tags@.len());
    let mut out = concat3("Session '", name, "': ");
    if tags.len() == 0 {
        push_str(&mut out, "no tags");
    } else {
        push_joined(&mut out, &tags, ", ");
    }
    out
}

/// What `wsh kill` and `wsh detach` report once the server accepted:
/// `Session 'name' killed.` or `Session 'name' detached.`.
pub fn session_done_message(name: &str, verb: &str) -> (r: String)
    ensures
        r@ == "Session '"@ + name@ + "' "@ + verb@ + "."@,
{
    let head = concat3("Session '", name, "' ");
    concat3(head.as_str(), verb, ".")
}

/// A JSON string, or `null` when absent.
pub open spec fn opt_text(o: Option<Seq<char>>) -> JsonView {
    match o {
        Some(t) => JsonView::Str(t),
        None => JsonView::Null,
    }
}

fn opt_text_json(o: &Option<String>) -> (r: Json)
    ensures
        r.jview() == opt_text(opt_string_view(*o)),
{
    match o {
        Some(t) => Json::Str(t.clone()),
        None => Json::Null,
    }
}

/// The request body that creates the session of a plain `wsh` run: the
/// explicit command if one was given, else the shell; a recording only when
/// `--record` or a recording title was given. The fields stand in key order.
pub open spec fn create_session_body(
    name: Option<Seq<char>>,
    cmd: Option<Seq<char>>,
    shell: Option<Seq<char>>,
    rows: u16,
    cols: u16,
    tags: Seq<Seq<char>>,
    record: bool,
    record_title: Option<Seq<char>>,
) -> JsonView {
    JsonView::Object(seq![
        ("cols"@, JsonView::Number(decimal(cols as nat))),
        ("command"@, opt_text(if cmd is Some { cmd } else { shell })),
        ("name"@, opt_text(name)),
        ("recording"@, if record || record_title is Some {
            JsonView::Object(seq![("title"@, opt_text(record_title))])
        } else {
            JsonView::Null
        }),
        ("rows"@, JsonView::Number(decimal(rows as nat))),
        ("tags"@, JsonView::Array(tags.map_values(|t: Seq<char>| JsonView::Str(t)))),
    ])
}

/// Build the request body that creates the session of a plain `wsh` run.
pub fn create_session_request(
    name: &Option<String>,
    cmd: &Option<String>,
    shell: &Option<String>,
    rows: u16,
    cols: u16,
    tags: &Vec<String>,
    record: bool,
    record_title: &Option<String>,
) -> (r: Json)
    ensures
        r.jview() == create_session_body(
            opt_string_view(*name),
            opt_string_view(*cmd),
            opt_string_view(*shell),
            rows,
            cols,
            crate::text::string_seq_view(tags@),
            record,
            opt_string_view(*record_title),
        ),
{
    let command = if cmd.is_some() { opt_text_json(cmd) } else { opt_text_json(shell) };
    let recording = if record || record_title.is_some() {
        let fields = vec![(crate::text::owned("title"), opt_text_json(record_title))];
        proof {
            crate::json::lemma_object_view(fields);
            assert(crate::json::fields_view(fields@) =~= seq![("title"@, opt_text(opt_string_view(*record_title)))]);
        }
        Json::Object(fields)
    } else {
        Json::Null
    };
    let pairs = vec![
        (crate::text::owned("cols"), Json::Number(decimal_string(cols as u64))),
        (crate::text::owned("command"), command),
        (crate::text::owned("name"), opt_text_json(name)),
        (crate::text::owned("recording"), recording),
        (crate::text::owned("rows"), Json::Number(decimal_string(rows as u64))),
        (crate::text::owned("tags"), str_array(tags)),
    ];
    proof {
        crate::json::lemma_object_view(pairs);
        assert(crate::json::fields_view(pairs@) =~= seq![
            ("cols"@, pairs@[0].1.jview()),
            ("command"@, pairs@[1].1.jview()),
            ("name"@, pairs@[2].1.jview()),
            ("recording"@, pairs@[3].1.jview()),
            ("rows"@, pairs@[4].1.jview()),
            ("tags"@, pairs@[5].1.jview()),
        ]);
    }
    Json::Object(pairs)
}

/// What `str::parse::<usize>` accepts: an optional `+`, then one or more
/// decimal digits whose value fits in `usize`.
pub open spec fn usize_text(t: Seq<char>) -> Option<usize> {
    let digits = if t.len() > 0 && t[0] == '+' { t.drop_first() } else { t };
    match crate::json::number_u64(digits) {
        Some(v) => if v <= usize::MAX { Some(v as usize) } else { None },
        None => None,
    }
}

/// Parse a `usize` as `str::parse::<usize>` does.
pub fn parse_usize(t: &str) -> (r: Option<usize>)
    ensures
        r == usize_text(t@),
{
    let v = chars_of(t);
    let digits = if v.len() > 0 && v[0] == '+' {
        let mut rest = String::new();
        let mut i: usize = 1;
        while i < v.len()
            invariant
                1 <= i <= v@.len(),
                v@ == t@,
                rest@ == v@.subrange(1, i as int),
            decreases v@.len() - i,
        {
            push_char(&mut rest, v[i]);
            assert(v@.subrange(1, i + 1) =~= v@.subrange(1, i as int).push(v@[i as int]));
            i = i + 1;
        }
        assert(v@.subrange(1, v@.len() as int) =~= t@.drop_first());
        rest
    } else {
        crate::text::owned(t)
    };
    match crate::json::parse_number_u64(digits.as_str()) {
        Some(n) => if n <= usize::MAX as u64 { Some(n as usize) } else { None },
        None => None,
    }
}

/// The scrollback that `wsh attach --scrollback` asks to replay: none, all,
/// or a number of lines; any other text is refused with the message shown.
pub open spec fn scrollback_choice(arg: Seq<char>) -> Result<Option<usize>, Seq<char>> {
    if arg == "none"@ {
        Ok(None)
    } else if arg == "all"@ {
        Ok(Some(usize::MAX))
    } else {
        match usize_text(arg) {
            Some(n) => Ok(Some(n)),
            None => Err("wsh attach: invalid scrollback value: "@ + arg),
        }
    }
}

/// Parse the `--scrollback` argument of `wsh attach`.
pub fn parse_scrollback_arg(arg: &str) -> (r: Result<Option<usize>, String>)
    ensures
        match scrollback_choice(arg@) {
            Ok(x) => r == Ok::<Option<usize>, String>(x),
            Err(m) => r matches Err(e) && e@ == m,
        },
{
    if crate::text::str_eq(arg, "none") {
        Ok(None)
    } else if crate::text::str_eq(arg, "all") {
        Ok(Some(usize::MAX))
    } else {
        match parse_usize(arg) {
            Some(n) => Ok(Some(n)),
            None => Err(crate::text::concat2("wsh attach: invalid scrollback value: ", arg)),
        }
    }
}

/// The most scrollback lines `wsh attach` replays.
pub const MAX_REPLAY_LINES: usize = 10_000;

/// The request path that fetches the styled scrollback to replay, at most
/// [`MAX_REPLAY_LINES`] lines from the start.
pub open spec fn scrollback_path(name: Seq<char>, limit: usize) -> Seq<char> {
    let n = if limit < MAX_REPLAY_LINES { limit } else { MAX_REPLAY_LINES };
    "/sessions/"@ + name + "/scrollback?format=styled&offset=0&limit="@ + decimal(n as nat)
}

/// Build the scrollback request path of `wsh attach`.
pub fn scrollback_request(name: &str, limit: usize) -> (r: String)
    ensures
        r@ == scrollback_path(name@, limit),
{
    let n = if limit < MAX_REPLAY_LINES { limit } else { MAX_REPLAY_LINES };
    let mut out = concat3("/sessions/", name, "/scrollback?format=styled&offset=0&limit=");
    push_decimal(&mut out, n as u64);
    out
}

/// The escape that puts the cursor back where the replayed screen has it
/// (1-based), when the screen reports a cursor.
pub open spec fn cursor_escape(screen: JsonView) -> Option<Seq<char>> {
    match field_of(screen, "cursor"@) {
        Some(c) => Some(
            "\x1b["@ + decimal(u64_or_zero(c, "row"@) + 1) + ";"@ + decimal(u64_or_zero(c, "col"@) + 1) + "H"@,
        ),
        None => None,
    }
}

/// Build the cursor escape that ends the replay of `wsh attach`. The row
/// and column must leave room for the 1-based count.
pub fn cursor_restore_escape(screen: &Json) -> (r: Option<String>)
    requires
        field_of(screen.jview(), "cursor"@) matches Some(c) ==> u64_or_zero(c, "row"@) < u64::MAX && u64_or_zero(c, "col"@)
            < u64::MAX,
    ensures
        match cursor_escape(screen.jview()) {
            Some(e) => r matches Some(x) && x@ == e,
            None => r is None,
        },
{
    match screen.field("cursor") {
        Some(c) => {
            let row = u64_or_zero_of(c, "row");
            let col = u64_or_zero_of(c, "col");
            let mut out = String::new();
            push_str(&mut out, "\x1b[");
            push_decimal(&mut out, row + 1);
            push_str(&mut out, ";");
            push_decimal(&mut out, col + 1);
            push_str(&mut out, "H");
            Some(out)
        },
        None => None,
    }
}

/// The header of the recording table.
pub open spec fn recording_table_header() -> Seq<char> {
    pad_right("ID"@, 38) + " "@ + pad_right("SESSION"@, 20) + " "@ + pad_right("STATUS"@, 12) + " "@
        + pad_right("DURATION"@, 10) + " "@ + "TITLE"@
}

/// The id as the recording table shows it: at most its first 36 bytes, cut
/// back to the last whole character.
pub open spec fn shown_id(id: Seq<char>) -> Seq<char> {
    if byte_len(id) <= 36 {
        id
    } else {
        take_bytes(id, 36)
    }
}

/// The row of one recording: id (cut to 36 bytes), session, status,
/// duration (whole seconds, when known) and title.
pub open spec fn recording_row(v: JsonView, duration_secs: Option<u64>) -> Seq<char> {
    let duration = match duration_secs {
        Some(d) => duration_text(d as nat),
        None => "-"@,
    };
    pad_right(shown_id(str_or(v, "id"@, "-"@)), 38) + " "@ + pad_right(str_or(v, "session"@, "-"@), 20) + " "@
        + pad_right(str_or(v, "status"@, "-"@), 12) + " "@ + pad_right(duration, 10) + " "@
        + str_or(v, "title"@, seq![])
}

/// The header line of the recording table.
pub fn recording_table_header_text() -> (r: String)
    ensures
        r@ == recording_table_header(),
{
    let mut out = String::new();
    push_padded(&mut out, "ID", 38);
    push_str(&mut out, " ");
    push_padded(&mut out, "SESSION", 20);
    push_str(&mut out, " ");
    push_padded(&mut out, "STATUS", 12);
    push_str(&mut out, " ");
    push_padded(&mut out, "DURATION", 10);
    push_str(&mut out, " ");
    push_str(&mut out, "TITLE");
    assert(out@ =~= recording_table_header());
    out
}

/// The row of one recording in `wsh record list`.
pub fn recording_row_text(v: &Json, duration_secs: Option<u64>) -> (r: String)
    ensures
        r@ == recording_row(v.jview(), duration_secs),
{
    let mut out = String::new();
    let id = str_or_default(v, "id", "-");
    let cs = chars_of(id.as_str());
    let shown = if id.as_str().as_bytes().len() <= 36 {
        id
    } else {
        let p = prefix_end(&cs, 0, cs.len(), 36);
        proof {
            assert(cs@.subrange(0, cs@.len() as int) =~= cs@);
        }
        crate::text::string_of(cs.as_slice(), 0, p)
    };
    push_padded(&mut out, shown.as_str(), 38);
    push_str(&mut out, " ");
    let session = str_or_default(v, "session", "-");
    push_padded(&mut out, session.as_str(), 20);
    push_str(&mut out, " ");
    let status = str_or_default(v, "status", "-");
    push_padded(&mut out, status.as_str(), 12);
    push_str(&mut out, " ");
    let duration = match duration_secs {
        Some(d) => format_duration(d),
        None => crate::text::owned("-"),
    };
    push_padded(&mut out, duration.as_str(), 10);
    push_str(&mut out, " ");
    let title = str_or_default(v, "title", "");
    proof {
        reveal_strlit("");
        assert(""@ =~= Seq::<char>::empty());
    }
    push_str(&mut out, title.as_str());
    proof {
        assert(out@ =~= recording_row(v.jview(), duration_secs));
    }
    out
}

} // verus!
