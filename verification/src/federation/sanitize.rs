//! Sanitization and validation for responses received from remote backends.
//!
//! When proxying data from untrusted backends, structure is validated and size
//! limits are enforced to prevent injection attacks and resource exhaustion.

use vstd::prelude::*;
use crate::json::{
    clone_json, fields_view, find_field, items_view, json_text, json_text_of, json_wf, keys_unique, lemma_array_view, lemma_lookup_wf, lemma_object_view,
    lookup, Json, JsonView,
};
use crate::text::{chars_of, concat3, decimal, decimal_string, owned, string_of};
use crate::federation::registry::{byte_len, prefix_end, take_bytes};

verus! {

/// Maximum number of sessions allowed in a session list response.
pub const MAX_SESSIONS: usize = 1000;

/// Maximum length (in bytes) of a session name from a remote backend.
pub const MAX_SESSION_NAME_LEN: usize = 100;

/// Characters allowed in a session name: ASCII alphanumerics, `-`, `_`, `.`.
pub open spec fn is_session_name_char(c: char) -> bool {
    ('0' <= c <= '9') || ('a' <= c <= 'z') || ('A' <= c <= 'Z') || c == '-' || c == '_' || c == '.'
}

/// A session name accepted from a remote backend: 1 to 100 bytes of allowed
/// characters.
pub open spec fn session_name_ok(name: Seq<char>) -> bool {
    &&& name.len() > 0
    &&& byte_len(name) <= 100
    &&& forall|i: int| 0 <= i < name.len() ==> is_session_name_char(#[trigger] name[i])
}

/// Validate a session name received from a remote backend.
///
/// Allows alphanumeric characters, hyphens, underscores, and dots.
/// Must be 1-100 bytes long.
pub fn validate_session_name_from_remote(name: &str) -> (r: bool)
    ensures
        r == session_name_ok(name@),
{
    let cs = chars_of(name);
    if cs.len() == 0 || name.as_bytes().len() > MAX_SESSION_NAME_LEN {
        return false;
    }
    let mut k: usize = 0;
    while k < cs.len()
        invariant
            k <= cs@.len(),
            cs@ == name@,
            forall|i: int| 0 <= i < k ==> is_session_name_char(#[trigger] cs@[i]),
        decreases cs@.len() - k,
    {
        let c = cs[k];
        if !(('0' <= c && c <= '9') || ('a' <= c && c <= 'z') || ('A' <= c && c <= 'Z') || c == '-' || c == '_' || c == '.') {
            assert(!is_session_name_char(cs@[k as int]));
            return false;
        }
        k = k + 1;
    }
    true
}

/// Fields kept on a session object received from a remote backend.
pub open spec fn allowed_session_fields() -> Seq<Seq<char>> {
    seq!["name"@, "pid"@, "command"@, "rows"@, "cols"@, "clients"@, "tags"@, "server"@, "last_activity_ms"@]
}

/// The fields of `pairs` among `fields`, in the order of `fields`.
pub open spec fn keep_fields(pairs: Seq<(Seq<char>, JsonView)>, fields: Seq<Seq<char>>) -> Seq<(Seq<char>, JsonView)>
    decreases fields.len(),
{
    if fields.len() == 0 {
        seq![]
    } else {
        let r = keep_fields(pairs, fields.drop_last());
        match lookup(pairs, fields.last(), 0) {
            Some(v) => r.push((fields.last(), v)),
            None => r,
        }
    }
}

/// The part of an invalid name that an error message quotes: at most its
/// first 50 bytes, cut back to the last whole character.
pub open spec fn quoted_name(name: Seq<char>) -> Seq<char> {
    if byte_len(name) <= 50 {
        name
    } else {
        take_bytes(name, 50)
    }
}

/// Why a session list is rejected.
pub enum SessionListFault {
    NotArray,
    TooMany(nat),
    NotObject(nat),
    MissingName(nat),
    InvalidName(nat, Seq<char>),
}

/// The message that reports a session list fault.
pub open spec fn session_list_fault_text(f: SessionListFault) -> Seq<char> {
    match f {
        SessionListFault::NotArray => "session list must be an array"@,
        SessionListFault::TooMany(n) => "session list exceeds maximum of 1000 entries (got "@ + decimal(n) + ")"@,
        SessionListFault::NotObject(i) => "session list entry "@ + decimal(i) + " is not an object"@,
        SessionListFault::MissingName(i) => "session list entry "@ + decimal(i) + " missing 'name' string field"@,
        SessionListFault::InvalidName(i, n) => "session list entry "@ + decimal(i) + " has invalid name: '"@ + quoted_name(n) + "'"@,
    }
}

/// The fault of entry `i`, if any.
pub open spec fn entry_fault(i: nat, item: JsonView) -> Option<SessionListFault> {
    match item {
        JsonView::Object(pairs) => match lookup(pairs, "name"@, 0) {
            Some(JsonView::Str(n)) => if session_name_ok(n) {
                None
            } else {
                Some(SessionListFault::InvalidName(i, n))
            },
            _ => Some(SessionListFault::MissingName(i)),
        },
        _ => Some(SessionListFault::NotObject(i)),
    }
}

/// The first fault among `items[from..]`.
pub open spec fn first_entry_fault(items: Seq<JsonView>, from: int) -> Option<SessionListFault>
    decreases items.len() - from,
{
    if from < 0 || from >= items.len() {
        None
    } else {
        match entry_fault(from as nat, items[from]) {
            Some(f) => Some(f),
            None => first_entry_fault(items, from + 1),
        }
    }
}

/// A session entry with only the allowed fields.
pub open spec fn sanitized_entry(item: JsonView) -> JsonView {
    match item {
        JsonView::Object(pairs) => JsonView::Object(keep_fields(pairs, allowed_session_fields())),
        _ => item,
    }
}

/// The result of sanitizing a session list.
pub open spec fn session_list_result(v: JsonView) -> Result<JsonView, SessionListFault> {
    match v {
        JsonView::Array(items) => if items.len() > 1000 {
            Err(SessionListFault::TooMany(items.len()))
        } else {
            match first_entry_fault(items, 0) {
                Some(f) => Err(f),
                None => Ok(JsonView::Array(items.map_values(|x: JsonView| sanitized_entry(x)))),
            }
        },
        _ => Err(SessionListFault::NotArray),
    }
}

fn allowed_fields() -> (v: Vec<&'static str>)
    ensures
        v@.len() == allowed_session_fields().len(),
        forall|i: int| 0 <= i < v@.len() ==> (#[trigger] v@[i])@ == allowed_session_fields()[i],
{
    let v = vec!["name", "pid", "command", "rows", "cols", "clients", "tags", "server", "last_activity_ms"];
    v
}

/// The allowed fields of a session object, in the order of the allowed list.
fn clean_session(pairs: &Vec<(String, Json)>) -> (r: Json)
    ensures
        r.jview() == JsonView::Object(keep_fields(fields_view(pairs@), allowed_session_fields())),
{
    let fields = allowed_fields();
    let ghost af = allowed_session_fields();
    let mut out: Vec<(String, Json)> = Vec::new();
    let mut k: usize = 0;
    while k < fields.len()
        invariant
            k <= fields@.len(),
            fields@.len() == af.len(),
            af == allowed_session_fields(),
            forall|i: int| 0 <= i < fields@.len() ==> (#[trigger] fields@[i])@ == af[i],
            fields_view(out@) == keep_fields(fields_view(pairs@), af.take(k as int)),
        decreases fields@.len() - k,
    {
        proof {
            assert(af.take(k + 1).drop_last() =~= af.take(k as int));
        }
        match find_field(pairs, fields[k]) {
            Some(i) => {
                let v = clone_json(&pairs[i].1);
                let name = owned(fields[k]);
                proof {
                    assert(fields_view(out@.push((name, v))) =~= fields_view(out@).push((af[k as int], pairs@[i as int].1.jview())));
                }
                out.push((name, v));
            },
            None => {},
        }
        k = k + 1;
    }
    proof {
        assert(af.take(k as int) =~= af);
        lemma_object_view(out);
    }
    Json::Object(out)
}

/// Sanitize a session list response from a remote backend.
///
/// - Ensures the value is an array.
/// - Each element must be an object with at least a `name` string field.
/// - Strips unexpected fields, keeping only the allowed set.
/// - Enforces a maximum of 1000 sessions.
/// - Enforces a maximum of 100 bytes per session name.
pub fn sanitize_session_list(value: &Json) -> (r: Result<Json, String>)
    ensures
        match session_list_result(value.jview()) {
            Ok(v) => r matches Ok(j) && j.jview() == v,
            Err(f) => r matches Err(m) && m@ == session_list_fault_text(f),
        },
{
    let items = match value {
        Json::Array(items) => items,
        _ => {
            return Err(owned("session list must be an array"));
        },
    };
    proof {
        lemma_array_view(*items);
    }
    let ghost iv = items_view(items@);
    if items.len() > MAX_SESSIONS {
        return Err(concat3("session list exceeds maximum of 1000 entries (got ", decimal_string(items.len() as u64).as_str(), ")"));
    }
    let mut out: Vec<Json> = Vec::new();
    let mut k: usize = 0;
    while k < items.len()
        invariant
            k <= items@.len(),
            iv == items_view(items@),
            value.jview() == JsonView::Array(iv),
            iv.len() <= 1000,
            first_entry_fault(iv, 0) == first_entry_fault(iv, k as int),
            items_view(out@) == iv.take(k as int).map_values(|x: JsonView| sanitized_entry(x)),
        decreases items@.len() - k,
    {
        let item = &items[k];
        let pairs = match item {
            Json::Object(pairs) => pairs,
            _ => {
                return Err(concat3("session list entry ", decimal_string(k as u64).as_str(), " is not an object"));
            },
        };
        proof {
            lemma_object_view(*pairs);
        }
        let name = match find_field(pairs, "name") {
            Some(i) => match &pairs[i].1 {
                Json::Str(n) => n,
                _ => {
                    return Err(concat3("session list entry ", decimal_string(k as u64).as_str(), " missing 'name' string field"));
                },
            },
            None => {
                return Err(concat3("session list entry ", decimal_string(k as u64).as_str(), " missing 'name' string field"));
            },
        };
        if !validate_session_name_from_remote(name.as_str()) {
            let cs = chars_of(name.as_str());
            let q = if name.as_str().as_bytes().len() <= 50 {
                owned(name.as_str())
            } else {
                let p = prefix_end(&cs, 0, cs.len(), 50);
                proof {
                    assert(cs@.subrange(0, cs@.len() as int) =~= cs@);
                }
                string_of(cs.as_slice(), 0, p)
            };
            let a = concat3("session list entry ", decimal_string(k as u64).as_str(), " has invalid name: '");
            let m = concat3(a.as_str(), q.as_str(), "'");
            return Err(m);
        }
        let clean = clean_session(pairs);
        proof {
            assert(iv[k as int] == items@[k as int].jview());
            assert(items@[k as int] == Json::Object(*pairs));
            assert(iv[k as int] == JsonView::Object(fields_view(pairs@)));
            assert(sanitized_entry(iv[k as int]) == clean.jview());
            assert(items_view(out@.push(clean)) =~= items_view(out@).push(clean.jview()));
            assert(iv.take(k + 1).map_values(|x: JsonView| sanitized_entry(x)) =~= iv.take(k as int).map_values(|x: JsonView| sanitized_entry(x)).push(sanitized_entry(iv[k as int])));
        }
        out.push(clean);
        k = k + 1;
    }
    proof {
        assert(iv.take(k as int) =~= iv);
        lemma_array_view(out);
    }
    Ok(Json::Array(out))
}

/// Sanitize a generic proxy response from a remote backend.
///
/// - Rejects non-object/non-array root types.
/// - Enforces a maximum serialized size (in bytes of the compact JSON text).
/// - Returns the value unchanged if valid.
pub fn sanitize_proxy_response(value: &Json, max_size: usize) -> (r: Result<Json, String>)
    ensures
        !(value.jview() is Object || value.jview() is Array) ==> (r matches Err(m) && m@ == "proxy response must be an object or array"@),
        (value.jview() is Object || value.jview() is Array) && byte_len(json_text(value.jview())) > max_size ==> (r matches Err(m) && m@
            == "proxy response exceeds maximum size of "@ + decimal(max_size as nat) + " bytes (got "@ + decimal(
            byte_len(json_text(value.jview())),
        ) + ")"@),
        (value.jview() is Object || value.jview() is Array) && byte_len(json_text(value.jview())) <= max_size ==> (r matches Ok(j)
            && j.jview() == value.jview()),
{
    let shape_ok = match value {
        Json::Object(_) => true,
        Json::Array(_) => true,
        _ => false,
    };
    if !shape_ok {
        return Err(owned("proxy response must be an object or array"));
    }
    let serialized = json_text_of(value);
    let n = serialized.as_str().as_bytes().len();
    if n > max_size {
        let a = concat3("proxy response exceeds maximum size of ", decimal_string(max_size as u64).as_str(), " bytes (got ");
        let m = concat3(a.as_str(), decimal_string(n as u64).as_str(), ")");
        return Err(m);
    }
    Ok(clone_json(value))
}

/// Every field kept by `keep_fields` is one of the `fields`.
pub proof fn lemma_keep_fields_subset(pairs: Seq<(Seq<char>, JsonView)>, fields: Seq<Seq<char>>)
    ensures
        forall|j: int| 0 <= j < keep_fields(pairs, fields).len() ==> fields.contains(#[trigger] keep_fields(pairs, fields)[j].0),
    decreases fields.len(),
{
    if fields.len() > 0 {
        let f = fields.drop_last();
        lemma_keep_fields_subset(pairs, f);
        let r = keep_fields(pairs, f);
        assert forall|j: int| 0 <= j < keep_fields(pairs, fields).len() implies fields.contains(#[trigger] keep_fields(pairs, fields)[j].0) by {
            if j < r.len() {
                let k = choose|k: int| 0 <= k < f.len() && f[k] == r[j].0;
                assert(fields[k] == f[k]);
            } else {
                assert(fields[fields.len() - 1] == fields.last());
            }
        }
    }
}

/// With no fault from `from` on, every entry from `from` on is an object
/// with a valid name.
pub proof fn lemma_no_entry_fault(items: Seq<JsonView>, from: int)
    requires
        0 <= from,
        first_entry_fault(items, from) is None,
    ensures
        forall|i: int| from <= i < items.len() ==> entry_fault(i as nat, #[trigger] items[i]) is None,
    decreases items.len() - from,
{
    if from < items.len() {
        lemma_no_entry_fault(items, from + 1);
    }
}

/// An object whose fields are all allowed on a session entry.
pub open spec fn only_allowed_fields(e: JsonView) -> bool {
    match e {
        JsonView::Object(p) => forall|j: int| 0 <= j < p.len() ==> allowed_session_fields().contains(#[trigger] p[j].0),
        _ => false,
    }
}

/// A sanitized session list has one entry per received entry (at most
/// 1000), and each is an object holding only allowed fields.
pub proof fn law_sanitized_sessions_hold_only_allowed_fields(v: JsonView)
    requires
        session_list_result(v) is Ok,
    ensures
        match (v, session_list_result(v)) {
            (JsonView::Array(items), Ok(JsonView::Array(out))) => out.len() == items.len() && out.len() <= MAX_SESSIONS
                && forall|i: int| 0 <= i < out.len() ==> only_allowed_fields(#[trigger] out[i]),
            _ => false,
        },
{
    if let JsonView::Array(items) = v {
        lemma_no_entry_fault(items, 0);
        let out = items.map_values(|x: JsonView| sanitized_entry(x));
        assert forall|i: int| 0 <= i < out.len() implies only_allowed_fields(#[trigger] out[i]) by {
            assert(entry_fault(i as nat, items[i]) is None);
            if let JsonView::Object(pairs) = items[i] {
                lemma_keep_fields_subset(pairs, allowed_session_fields());
            }
        }
    }
}

/// Keeping distinct fields of an object with well-formed values gives an
/// object with unique keys and well-formed values.
pub proof fn lemma_keep_fields_wf(pairs: Seq<(Seq<char>, JsonView)>, fields: Seq<Seq<char>>)
    requires
        forall|i: int, j: int| 0 <= i < j < fields.len() ==> fields[i] != fields[j],
        forall|i: int| 0 <= i < pairs.len() ==> json_wf(#[trigger] pairs[i].1),
    ensures
        keys_unique(keep_fields(pairs, fields)),
        forall|i: int| 0 <= i < keep_fields(pairs, fields).len() ==> json_wf(#[trigger] keep_fields(pairs, fields)[i].1),
    decreases fields.len(),
{
    if fields.len() > 0 {
        let f = fields.drop_last();
        lemma_keep_fields_wf(pairs, f);
        lemma_keep_fields_subset(pairs, f);
        lemma_lookup_wf(pairs, fields.last(), 0);
        let r = keep_fields(pairs, f);
        if let Some(v) = lookup(pairs, fields.last(), 0) {
            let n = r.push((fields.last(), v));
            assert forall|i: int, j: int| 0 <= i < j < n.len() implies (#[trigger] n[i]).0 != (#[trigger] n[j]).0 by {
                if j == r.len() {
                    let k = choose|k: int| 0 <= k < f.len() && f[k] == r[i].0;
                    assert(fields[k] == f[k]);
                    assert(fields[fields.len() - 1] == fields.last());
                } else {
                    assert(n[i] == r[i] && n[j] == r[j]);
                }
            }
            assert forall|i: int| 0 <= i < n.len() implies json_wf(#[trigger] n[i].1) by {
                if i < r.len() {
                    assert(n[i] == r[i]);
                }
            }
        }
    }
}

/// Sanitizing keeps JSON well formed: a session list whose objects hold no
/// key twice gives entries that hold no key twice either.
pub proof fn law_sanitized_sessions_keep_unique_keys(v: JsonView)
    requires
        json_wf(v),
        session_list_result(v) is Ok,
    ensures
        json_wf(session_list_result(v)->Ok_0),
{
    if let JsonView::Array(items) = v {
        let out = items.map_values(|x: JsonView| sanitized_entry(x));
        let af = allowed_session_fields();
        assert forall|i: int, j: int| 0 <= i < j < af.len() implies af[i] != af[j] by {
            reveal_strlit("name");
            reveal_strlit("pid");
            reveal_strlit("command");
            reveal_strlit("rows");
            reveal_strlit("cols");
            reveal_strlit("clients");
            reveal_strlit("tags");
            reveal_strlit("server");
            reveal_strlit("last_activity_ms");
            assert(af[i].len() != af[j].len() || af[i][0] != af[j][0] || af[i][1] != af[j][1]);
        }
        assert forall|i: int| 0 <= i < out.len() implies json_wf(#[trigger] out[i]) by {
            assert(json_wf(items[i]));
            if let JsonView::Object(pairs) = items[i] {
                lemma_keep_fields_wf(pairs, af);
            }
        }
    }
}

} // verus!
