//! Events pushed to clients of the server-level WebSocket, and the table of
//! per-session subscriptions such a connection keeps.

use vstd::prelude::*;
use crate::api::ws_methods::WsResponse;
use crate::json::{clone_json, lemma_object_view, Json, JsonView};
use crate::text::{decimal_string, owned, str_eq};

verus! {

/// A change in the set of sessions.
#[derive(Debug)]
pub enum SessionEvent {
    Created { name: String },
    Renamed { old_name: String, new_name: String },
    Destroyed { name: String },
    TagsChanged { name: String, added: Vec<String>, removed: Vec<String> },
}

/// A JSON array of strings.
pub open spec fn str_array(v: Seq<String>) -> JsonView {
    JsonView::Array(Seq::new(v.len(), |i: int| JsonView::Str(v[i]@)))
}

/// The message announcing a session event:
/// `{"event": <kind>, "params": {...}}`.
pub open spec fn session_event_json(e: SessionEvent) -> JsonView {
    match e {
        SessionEvent::Created { name } => JsonView::Object(seq![
            ("event"@, JsonView::Str("session_created"@)),
            ("params"@, JsonView::Object(seq![("name"@, JsonView::Str(name@))])),
        ]),
        SessionEvent::Renamed { old_name, new_name } => JsonView::Object(seq![
            ("event"@, JsonView::Str("session_renamed"@)),
            ("params"@, JsonView::Object(seq![("old_name"@, JsonView::Str(old_name@)), ("new_name"@, JsonView::Str(new_name@))])),
        ]),
        SessionEvent::Destroyed { name } => JsonView::Object(seq![
            ("event"@, JsonView::Str("session_destroyed"@)),
            ("params"@, JsonView::Object(seq![("name"@, JsonView::Str(name@))])),
        ]),
        SessionEvent::TagsChanged { name, added, removed } => JsonView::Object(seq![
            ("event"@, JsonView::Str("session_tags_changed"@)),
            ("params"@, JsonView::Object(seq![
                ("name"@, JsonView::Str(name@)),
                ("added"@, str_array(added@)),
                ("removed"@, str_array(removed@)),
            ])),
        ]),
    }
}

fn json_str_array(v: &Vec<String>) -> (r: Json)
    ensures
        r.jview() == str_array(v@),
{
    let mut items: Vec<Json> = Vec::new();
    let mut i: usize = 0;
    while i < v.len()
        invariant
            i <= v@.len(),
            items@.len() == i,
            forall|j: int| 0 <= j < i ==> (#[trigger] items@[j]).jview() == JsonView::Str(v@[j]@),
        decreases v@.len() - i,
    {
        items.push(Json::Str(v[i].clone()));
        i = i + 1;
    }
    proof {
        crate::json::lemma_array_view(items);
        if let JsonView::Array(a) = Json::Array(items).jview() {
            assert(a =~= Seq::new(v@.len(), |i: int| JsonView::Str(v@[i]@)));
        }
    }
    Json::Array(items)
}

fn object2(k1: &str, v1: Json, k2: &str, v2: Json) -> (r: Json)
    ensures
        r.jview() == JsonView::Object(seq![(k1@, v1.jview()), (k2@, v2.jview())]),
{
    let ghost a = v1.jview();
    let ghost b = v2.jview();
    let mut f: Vec<(String, Json)> = Vec::new();
    f.push((owned(k1), v1));
    f.push((owned(k2), v2));
    proof {
        lemma_object_view(f);
        if let JsonView::Object(o) = Json::Object(f).jview() {
            assert(o =~= seq![(k1@, a), (k2@, b)]);
        }
    }
    Json::Object(f)
}

fn object1(k1: &str, v1: Json) -> (r: Json)
    ensures
        r.jview() == JsonView::Object(seq![(k1@, v1.jview())]),
{
    let ghost a = v1.jview();
    let mut f: Vec<(String, Json)> = Vec::new();
    f.push((owned(k1), v1));
    proof {
        lemma_object_view(f);
        if let JsonView::Object(o) = Json::Object(f).jview() {
            assert(o =~= seq![(k1@, a)]);
        }
    }
    Json::Object(f)
}

/// The message announcing a session event.
pub fn session_event_message(e: &SessionEvent) -> (r: Json)
    ensures
        r.jview() == session_event_json(*e),
{
    match e {
        SessionEvent::Created { name } => {
            let params = object1("name", Json::Str(name.clone()));
            object2("event", Json::Str(owned("session_created")), "params", params)
        },
        SessionEvent::Renamed { old_name, new_name } => {
            let params = object2("old_name", Json::Str(old_name.clone()), "new_name", Json::Str(new_name.clone()));
            object2("event", Json::Str(owned("session_renamed")), "params", params)
        },
        SessionEvent::Destroyed { name } => {
            let params = object1("name", Json::Str(name.clone()));
            object2("event", Json::Str(owned("session_destroyed")), "params", params)
        },
        SessionEvent::TagsChanged { name, added, removed } => {
            let n = Json::Str(name.clone());
            let a = json_str_array(added);
            let d = json_str_array(removed);
            let ghost (nv, av, dv) = (n.jview(), a.jview(), d.jview());
            let mut f: Vec<(String, Json)> = Vec::new();
            f.push((owned("name"), n));
            f.push((owned("added"), a));
            f.push((owned("removed"), d));
            proof {
                lemma_object_view(f);
                if let JsonView::Object(o) = Json::Object(f).jview() {
                    assert(o =~= seq![("name"@, nv), ("added"@, av), ("removed"@, dv)]);
                }
            }
            object2("event", Json::Str(owned("session_tags_changed")), "params", Json::Object(f))
        },
    }
}

/// The first message of a connection: `{"connected": true}`.
pub fn connected_message() -> (r: Json)
    ensures
        r.jview() == JsonView::Object(seq![("connected"@, JsonView::Bool(true))]),
{
    object1("connected", Json::Bool(true))
}

/// The notice that `skipped` events of `session` were missed:
/// `{"type": "lagged", "session": <session>, "skipped": <skipped>}`.
pub fn lag_notice(session: &str, skipped: u64) -> (r: Json)
    ensures
        r.jview() == JsonView::Object(seq![
            ("type"@, JsonView::Str("lagged"@)),
            ("session"@, JsonView::Str(session@)),
            ("skipped"@, JsonView::Number(crate::text::decimal(skipped as nat))),
        ]),
{
    let mut f: Vec<(String, Json)> = Vec::new();
    f.push((owned("type"), Json::Str(owned("lagged"))));
    f.push((owned("session"), Json::Str(owned(session))));
    f.push((owned("skipped"), Json::Number(decimal_string(skipped))));
    proof {
        lemma_object_view(f);
        if let JsonView::Object(o) = Json::Object(f).jview() {
            assert(o =~= seq![
                ("type"@, JsonView::Str("lagged"@)),
                ("session"@, JsonView::Str(session@)),
                ("skipped"@, JsonView::Number(crate::text::decimal(skipped as nat))),
            ]);
        }
    }
    Json::Object(f)
}

/// The answer to a frame that is not a valid request.
pub fn invalid_frame_response() -> (r: WsResponse)
    ensures
        r.id is None,
        r.method is None,
        r.result is None,
        r.error matches Some(e) && e.code@ == "invalid_request"@ && e.message@ == "Invalid JSON or missing 'method' field."@,
{
    WsResponse::protocol_error("invalid_request", "Invalid JSON or missing 'method' field.")
}

/// Index of the first field `key` of `pairs`.
pub open spec fn index_of_field(pairs: Seq<(Seq<char>, JsonView)>, key: Seq<char>, from: int) -> Option<int>
    decreases pairs.len() - from,
{
    if from < 0 || from >= pairs.len() {
        None
    } else if pairs[from].0 == key {
        Some(from)
    } else {
        index_of_field(pairs, key, from + 1)
    }
}

/// An event tagged with the session it comes from: for an object, its
/// `session` field set (replacing an earlier one, or added last); anything
/// else is left as it is.
pub open spec fn tagged_event(event: JsonView, session: Seq<char>) -> JsonView {
    match event {
        JsonView::Object(pairs) => JsonView::Object(match index_of_field(pairs, "session"@, 0) {
            Some(i) => pairs.update(i, ("session"@, JsonView::Str(session))),
            None => pairs.push(("session"@, JsonView::Str(session))),
        }),
        _ => event,
    }
}

fn field_index(pairs: &Vec<(String, Json)>, key: &str) -> (r: Option<usize>)
    ensures
        match r {
            Some(i) => index_of_field(crate::json::fields_view(pairs@), key@, 0) == Some(i as int) && i < pairs@.len(),
            None => index_of_field(crate::json::fields_view(pairs@), key@, 0) is None,
        },
{
    let ghost fv = crate::json::fields_view(pairs@);
    let mut k: usize = 0;
    while k < pairs.len()
        invariant
            k <= pairs@.len(),
            fv == crate::json::fields_view(pairs@),
            index_of_field(fv, key@, 0) == index_of_field(fv, key@, k as int),
        decreases pairs@.len() - k,
    {
        if str_eq(pairs[k].0.as_str(), key) {
            assert(fv[k as int].0 == key@);
            return Some(k);
        }
        k = k + 1;
    }
    None
}

/// Tag an event with the session it comes from.
pub fn tag_with_session(event: Json, session: &str) -> (r: Json)
    ensures
        r.jview() == tagged_event(event.jview(), session@),
{
    match event {
        Json::Object(mut pairs) => {
            proof {
                lemma_object_view(pairs);
            }
            let ghost fv = crate::json::fields_view(pairs@);
            let found = field_index(&pairs, "session");
            if let Some(k) = found {
                pairs.set(k, (owned("session"), Json::Str(owned(session))));
                proof {
                    lemma_object_view(pairs);
                    assert(crate::json::fields_view(pairs@) =~= fv.update(k as int, ("session"@, JsonView::Str(session@))));
                }
            } else {
                pairs.push((owned("session"), Json::Str(owned(session))));
                proof {
                    lemma_object_view(pairs);
                    assert(crate::json::fields_view(pairs@) =~= fv.push(("session"@, JsonView::Str(session@))));
                }
            }
            Json::Object(pairs)
        },
        other => other,
    }
}

/// The subscriptions of one connection, by session name.
#[derive(Debug)]
pub struct SubscriptionTable<T> {
    entries: Vec<(String, T)>,
}

/// Index of the entry for `name` in `s[from..]`.
pub open spec fn index_of_name<T>(s: Seq<(Seq<char>, T)>, name: Seq<char>, from: int) -> Option<int>
    decreases s.len() - from,
{
    if from < 0 || from >= s.len() {
        None
    } else if s[from].0 == name {
        Some(from)
    } else {
        index_of_name(s, name, from + 1)
    }
}

/// No session name occurs twice.
pub open spec fn names_unique<T>(s: Seq<(Seq<char>, T)>) -> bool {
    forall|i: int, j: int| 0 <= i < s.len() && 0 <= j < s.len() && i != j ==> (#[trigger] s[i]).0 != (#[trigger] s[j]).0
}

/// The table without the entry for `name`.
pub open spec fn table_remove<T>(s: Seq<(Seq<char>, T)>, name: Seq<char>) -> Seq<(Seq<char>, T)> {
    match index_of_name(s, name, 0) {
        Some(i) => s.remove(i),
        None => s,
    }
}

/// The table with `v` under `name` (replacing an earlier entry).
pub open spec fn table_insert<T>(s: Seq<(Seq<char>, T)>, name: Seq<char>, v: T) -> Seq<(Seq<char>, T)> {
    match index_of_name(s, name, 0) {
        Some(i) => s.update(i, (name, v)),
        None => s.push((name, v)),
    }
}

/// The table after renaming `old` to `new`: the entry moves, replacing any
/// entry under `new`; nothing changes when there is no entry under `old`.
pub open spec fn table_rename<T>(s: Seq<(Seq<char>, T)>, old: Seq<char>, new: Seq<char>) -> Seq<(Seq<char>, T)> {
    match index_of_name(s, old, 0) {
        Some(i) => table_insert(s.remove(i), new, s[i].1),
        None => s,
    }
}

/// Event `ev` of the subscription at position `i`, as it is forwarded: tagged
/// with the session name the subscription currently stands under.
pub open spec fn forwarded_event<T>(s: Seq<(Seq<char>, T)>, i: int, ev: JsonView) -> JsonView {
    tagged_event(ev, s[i].0)
}

/// After renaming `old` to `new` (two different names), the subscription
/// that stood under `old` stands under `new`, and its events are forwarded
/// tagged with `new`.
pub open spec fn rename_carries<T>(s: Seq<(Seq<char>, T)>, r: Seq<(Seq<char>, T)>, old: Seq<char>, new: Seq<char>) -> bool {
    match index_of_name(s, old, 0) {
        Some(i) => old != new ==> match index_of_name(r, new, 0) {
            Some(j) => r[j].1 == s[i].1 && forall|ev: JsonView| #[trigger] forwarded_event(r, j, ev) == tagged_event(ev, new),
            None => false,
        },
        None => true,
    }
}

pub proof fn lemma_index_of_name<T>(s: Seq<(Seq<char>, T)>, name: Seq<char>, from: int)
    requires
        0 <= from,
    ensures
        match index_of_name(s, name, from) {
            Some(i) => from <= i < s.len() && s[i].0 == name && forall|j: int| from <= j < i ==> (#[trigger] s[j]).0 != name,
            None => forall|j: int| from <= j < s.len() ==> (#[trigger] s[j]).0 != name,
        },
    decreases s.len() - from,
{
    if from < s.len() && s[from].0 != name {
        lemma_index_of_name(s, name, from + 1);
    }
}

pub proof fn lemma_table_ops_unique<T>(s: Seq<(Seq<char>, T)>, name: Seq<char>, v: T)
    requires
        names_unique(s),
    ensures
        names_unique(table_remove(s, name)),
        names_unique(table_insert(s, name, v)),
{
    lemma_index_of_name(s, name, 0);
    match index_of_name(s, name, 0) {
        Some(i) => {
            let q = s.remove(i);
            assert forall|a: int, b: int| 0 <= a < q.len() && 0 <= b < q.len() && a != b implies (#[trigger] q[a]).0 != (#[trigger] q[b]).0 by {
                let a2 = if a < i { a } else { a + 1 };
                let b2 = if b < i { b } else { b + 1 };
                assert(q[a] == s[a2] && q[b] == s[b2]);
            }
            let u = s.update(i, (name, v));
            assert forall|a: int, b: int| 0 <= a < u.len() && 0 <= b < u.len() && a != b implies (#[trigger] u[a]).0 != (#[trigger] u[b]).0 by {
                if a != i && b != i {
                    assert(u[a] == s[a] && u[b] == s[b]);
                } else if a == i {
                    assert(u[b] == s[b]);
                } else {
                    assert(u[a] == s[a]);
                }
            }
        },
        None => {
            let u = s.push((name, v));
            assert forall|a: int, b: int| 0 <= a < u.len() && 0 <= b < u.len() && a != b implies (#[trigger] u[a]).0 != (#[trigger] u[b]).0 by {
                if a < s.len() && b < s.len() {
                    assert(u[a] == s[a] && u[b] == s[b]);
                } else if a < s.len() {
                    assert(u[a] == s[a]);
                } else {
                    assert(u[b] == s[b]);
                }
            }
        },
    }
}

impl<T> SubscriptionTable<T> {
    /// The entries as (session name, subscription) pairs.
    pub closed spec fn entries(&self) -> Seq<(Seq<char>, T)> {
        self.entries@.map_values(|p: (String, T)| (p.0@, p.1))
    }

    #[verifier::type_invariant]
    closed spec fn inv(self) -> bool {
        names_unique(self.entries())
    }

    /// An empty table.
    pub fn new() -> (r: Self)
        ensures
            r.entries() == Seq::<(Seq<char>, T)>::empty(),
    {
        let r = SubscriptionTable { entries: Vec::new() };
        assert(r.entries() =~= Seq::<(Seq<char>, T)>::empty());
        r
    }

    fn find(&self, name: &str) -> (r: Option<usize>)
        ensures
            match r {
                Some(i) => index_of_name(self.entries(), name@, 0) == Some(i as int) && i < self.entries().len(),
                None => index_of_name(self.entries(), name@, 0) is None,
            },
    {
        let ghost s = self.entries();
        let mut i: usize = 0;
        while i < self.entries.len()
            invariant
                i <= self.entries@.len(),
                s == self.entries(),
                s.len() == self.entries@.len(),
                index_of_name(s, name@, 0) == index_of_name(s, name@, i as int),
            decreases self.entries@.len() - i,
        {
            if str_eq(self.entries[i].0.as_str(), name) {
                assert(s[i as int].0 == name@);
                return Some(i);
            }
            i = i + 1;
        }
        None
    }

    /// The subscription for `name`.
    pub fn get(&self, name: &str) -> (r: Option<&T>)
        ensures
            match index_of_name(self.entries(), name@, 0) {
                Some(i) => r == Some(&self.entries()[i].1),
                None => r is None,
            },
    {
        match self.find(name) {
            Some(i) => Some(&self.entries[i].1),
            None => None,
        }
    }

    /// Prepare `event` of session `name` for forwarding to its subscriber:
    /// tagged with the name the subscription stands under; `None` when no
    /// one subscribed to `name`.
    pub fn forward_event(&self, name: &str, event: Json) -> (r: Option<Json>)
        ensures
            match index_of_name(self.entries(), name@, 0) {
                Some(i) => r matches Some(x) && x.jview() == forwarded_event(self.entries(), i, event.jview()),
                None => r is None,
            },
    {
        proof {
            lemma_index_of_name(self.entries(), name@, 0);
        }
        match self.find(name) {
            Some(_) => Some(tag_with_session(event, name)),
            None => None,
        }
    }

    /// Put `v` under `name`; the subscription it replaces, if any, is
    /// returned.
    pub fn insert(&mut self, name: String, v: T) -> (r: Option<T>)
        ensures
            final(self).entries() == table_insert(old(self).entries(), name@, v),
            match index_of_name(old(self).entries(), name@, 0) {
                Some(i) => r == Some(old(self).entries()[i].1),
                None => r is None,
            },
    {
        proof {
            use_type_invariant(&*self);
            lemma_table_ops_unique(self.entries(), name@, v);
        }
        let ghost s = self.entries();
        let ghost nv = name@;
        let mut entries: Vec<(String, T)> = Vec::new();
        std::mem::swap(&mut entries, &mut self.entries);
        let found = {
            let t = SubscriptionTable { entries };
            let f = t.find(name.as_str());
            entries = t.entries;
            f
        };
        match found {
            Some(i) => {
                let (_, old_v) = entries.remove(i);
                entries.insert(i, (name, v));
                proof {
                    assert(entries@.map_values(|p: (String, T)| (p.0@, p.1)) =~= s.update(i as int, (nv, v)));
                }
                self.entries = entries;
                Some(old_v)
            },
            None => {
                entries.push((name, v));
                proof {
                    assert(entries@.map_values(|p: (String, T)| (p.0@, p.1)) =~= s.push((nv, v)));
                }
                self.entries = entries;
                None
            },
        }
    }

    /// Take the subscription for `name` out of the table.
    pub fn remove(&mut self, name: &str) -> (r: Option<T>)
        ensures
            final(self).entries() == table_remove(old(self).entries(), name@),
            match index_of_name(old(self).entries(), name@, 0) {
                Some(i) => r == Some(old(self).entries()[i].1),
                None => r is None,
            },
    {
        proof {
            use_type_invariant(&*self);
        }
        match self.find(name) {
            Some(i) => {
                let ghost s = self.entries();
                proof {
                    lemma_table_ops_unique(s, name@, s[i as int].1);
                }
                let mut entries: Vec<(String, T)> = Vec::new();
                std::mem::swap(&mut entries, &mut self.entries);
                let (_, v) = entries.remove(i);
                proof {
                    assert(entries@.map_values(|p: (String, T)| (p.0@, p.1)) =~= s.remove(i as int));
                }
                self.entries = entries;
                Some(v)
            },
            None => None,
        }
    }

    /// Move the subscription of `old_name` to `new_name` (replacing any
    /// subscription there, which is returned). Returns whether there was a
    /// subscription to move.
    pub fn rename(&mut self, old_name: &str, new_name: &str) -> (r: (bool, Option<T>))
        ensures
            final(self).entries() == table_rename(old(self).entries(), old_name@, new_name@),
            r.0 == index_of_name(old(self).entries(), old_name@, 0) is Some,
    {
        let ghost s = self.entries();
        match self.remove(old_name) {
            Some(v) => {
                let replaced = self.insert(owned(new_name), v);
                (true, replaced)
            },
            None => (false, None),
        }
    }

    /// Drain the table, in order.
    pub fn into_values(self) -> (r: Vec<T>)
        ensures
            r@.len() == self.entries().len(),
            forall|i: int| 0 <= i < r@.len() ==> r@[i] == self.entries()[i].1,
    {
        let mut entries = self.entries;
        let ghost s = entries@;
        let mut out: Vec<T> = Vec::new();
        while entries.len() > 0
            invariant
                out@.len() + entries@.len() == s.len(),
                forall|i: int| 0 <= i < out@.len() ==> out@[i] == s[i].1,
                entries@ == s.subrange(out@.len() as int, s.len() as int),
            decreases entries@.len(),
        {
            let (_, v) = entries.remove(0);
            out.push(v);
        }
        out
    }
}

/// Apply a session event to the subscriptions of a connection and build
/// the message announcing it: a rename moves the subscription, a
/// destruction takes it out. Returns the message, the subscription taken
/// out (to be stopped) and, on a rename, the one it replaced.
pub fn apply_session_event<T>(table: &mut SubscriptionTable<T>, event: &SessionEvent) -> (r: (Json, Option<T>))
    ensures
        r.0.jview() == session_event_json(*event),
        match event {
            SessionEvent::Renamed { old_name, new_name } => final(table).entries()
                == table_rename(old(table).entries(), old_name@, new_name@)
                && rename_carries(old(table).entries(), final(table).entries(), old_name@, new_name@),
            SessionEvent::Destroyed { name } => final(table).entries() == table_remove(old(table).entries(), name@)
                && match index_of_name(old(table).entries(), name@, 0) {
                Some(i) => r.1 == Some(old(table).entries()[i].1),
                None => r.1 is None,
            },
            _ => final(table).entries() == old(table).entries() && r.1 is None,
        },
{
    let message = session_event_message(event);
    match event {
        SessionEvent::Renamed { old_name, new_name } => {
            proof {
                use_type_invariant(&*table);
                if index_of_name(table.entries(), old_name@, 0) is Some && old_name@ != new_name@ {
                    law_rename_moves_subscription(table.entries(), old_name@, new_name@);
                }
            }
            let (_, replaced) = table.rename(old_name.as_str(), new_name.as_str());
            (message, replaced)
        },
        SessionEvent::Destroyed { name } => {
            let removed = table.remove(name.as_str());
            (message, removed)
        },
        _ => (message, None),
    }
}

/// A rename carries the subscription over to the new name, whose later
/// events are then tagged with the new name, and none is left under the old
/// one.
pub proof fn law_rename_moves_subscription<T>(s: Seq<(Seq<char>, T)>, old: Seq<char>, new: Seq<char>)
    requires
        names_unique(s),
        index_of_name(s, old, 0) is Some,
        old != new,
    ensures
        ({
            let r = table_rename(s, old, new);
            &&& index_of_name(r, new, 0) matches Some(j) && r[j].1 == s[index_of_name(s, old, 0)->0].1
                && forall|ev: JsonView| #[trigger] forwarded_event(r, j, ev) == tagged_event(ev, new)
            &&& index_of_name(r, old, 0) is None
        }),
{
    lemma_index_of_name(s, old, 0);
    let i = index_of_name(s, old, 0)->0;
    let v = s[i].1;
    let q = s.remove(i);
    lemma_table_ops_unique(s, old, v);
    lemma_index_of_name(q, new, 0);
    lemma_index_of_name(q, old, 0);
    assert forall|j: int| 0 <= j < q.len() implies (#[trigger] q[j]).0 != old by {
        let j2 = if j < i { j } else { j + 1 };
        assert(q[j] == s[j2]);
    }
    let r = table_insert(q, new, v);
    lemma_index_of_name(r, new, 0);
    lemma_index_of_name(r, old, 0);
    match index_of_name(q, new, 0) {
        Some(k) => {
            assert(r[k].0 == new);
            assert forall|j: int| 0 <= j < r.len() implies (#[trigger] r[j]).0 != old by {
                if j != k {
                    assert(r[j] == q[j]);
                }
            }
            match index_of_name(r, new, 0) {
                Some(j) => {
                    if j != k {
                        assert(r[j] == q[j]);
                        lemma_table_ops_unique(q, new, v);
                    }
                },
                None => {},
            }
        },
        None => {
            assert(r[q.len() as int].0 == new);
            assert forall|j: int| 0 <= j < r.len() implies (#[trigger] r[j]).0 != old by {
                if j < q.len() {
                    assert(r[j] == q[j]);
                }
            }
            match index_of_name(r, new, 0) {
                Some(j) => {
                    if j < q.len() {
                        assert(r[j] == q[j]);
                    }
                },
                None => {},
            }
        },
    }
}

/// After a destruction no subscription is left for the session.
pub proof fn law_destroy_drops_subscription<T>(s: Seq<(Seq<char>, T)>, name: Seq<char>)
    requires
        names_unique(s),
    ensures
        index_of_name(table_remove(s, name), name, 0) is None,
{
    lemma_index_of_name(s, name, 0);
    let r = table_remove(s, name);
    lemma_index_of_name(r, name, 0);
    if let Some(i) = index_of_name(s, name, 0) {
        assert forall|j: int| 0 <= j < r.len() implies (#[trigger] r[j]).0 != name by {
            let j2 = if j < i { j } else { j + 1 };
            assert(r[j] == s[j2]);
        }
    }
}

} // verus!
