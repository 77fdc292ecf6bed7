//! A JSON value held as plain data.

use vstd::prelude::*;
use crate::text::{chars_of, push_char, str_eq};
use crate::federation::registry::digits_value;

verus! {

/// A JSON value. Numbers are kept as their JSON text.
#[derive(Debug)]
pub enum Json {
    Null,
    Bool(bool),
    Number(String),
    Str(String),
    Array(Vec<Json>),
    Object(Vec<(String, Json)>),
}

/// The mathematical content of a [`Json`] value.
pub enum JsonView {
    Null,
    Bool(bool),
    Number(Seq<char>),
    Str(Seq<char>),
    Array(Seq<JsonView>),
    Object(Seq<(Seq<char>, JsonView)>),
}

impl Json {
    pub open spec fn jview(&self) -> JsonView
        decreases self,
    {
        match self {
            Json::Null => JsonView::Null,
            Json::Bool(b) => JsonView::Bool(*b),
            Json::Number(s) => JsonView::Number(s@),
            Json::Str(s) => JsonView::Str(s@),
            Json::Array(v) => JsonView::Array(Seq::new(v@.len(), |i: int| if 0 <= i < v@.len() {
                proof {
                    assert(decreases_to!(v => v@[i]));
                }
                v@[i].jview()
            } else {
                JsonView::Null
            })),
            Json::Object(v) => JsonView::Object(Seq::new(v@.len(), |i: int| if 0 <= i < v@.len() {
                proof {
                    assert(decreases_to!(v => v@[i]));
                    assert(decreases_to!(v@[i] => v@[i].1));
                }
                (v@[i].0@, v@[i].1.jview())
            } else {
                (Seq::empty(), JsonView::Null)
            })),
        }
    }
}

/// The views of the elements of an array.
pub open spec fn items_view(v: Seq<Json>) -> Seq<JsonView> {
    Seq::new(v.len(), |i: int| v[i].jview())
}

/// The views of the fields of an object.
pub open spec fn fields_view(v: Seq<(String, Json)>) -> Seq<(Seq<char>, JsonView)> {
    Seq::new(v.len(), |i: int| (v[i].0@, v[i].1.jview()))
}

pub proof fn lemma_array_view(v: Vec<Json>)
    ensures
        Json::Array(v).jview() == JsonView::Array(items_view(v@)),
{
    if let JsonView::Array(a) = Json::Array(v).jview() {
        assert(a =~= items_view(v@));
    }
}

pub proof fn lemma_object_view(v: Vec<(String, Json)>)
    ensures
        Json::Object(v).jview() == JsonView::Object(fields_view(v@)),
{
    if let JsonView::Object(a) = Json::Object(v).jview() {
        assert(a =~= fields_view(v@));
    }
}

/// A copy of `v`.
pub fn clone_json(v: &Json) -> (r: Json)
    ensures
        r.jview() == v.jview(),
    decreases v,
{
    match v {
        Json::Null => Json::Null,
        Json::Bool(b) => Json::Bool(*b),
        Json::Number(s) => Json::Number(s.clone()),
        Json::Str(s) => Json::Str(s.clone()),
        Json::Array(items) => {
            let mut out: Vec<Json> = Vec::new();
            let mut k: usize = 0;
            while k < items.len()
                invariant
                    *v == Json::Array(*items),
                    k <= items@.len(),
                    out@.len() == k,
                    forall|j: int| 0 <= j < k ==> (#[trigger] out@[j]).jview() == items@[j].jview(),
                decreases items@.len() - k,
            {
                proof {
                    assert(decreases_to!(*v => (*v)->Array_0));
                    assert(decreases_to!(items => items@[k as int]));
                }
                let c = clone_json(&items[k]);
                out.push(c);
                k = k + 1;
            }
            let r = Json::Array(out);
            assert(r.jview() == v.jview()) by {
                if let (JsonView::Array(a), JsonView::Array(b)) = (r.jview(), v.jview()) {
                    assert(a =~= b);
                }
            }
            r
        },
        Json::Object(pairs) => {
            let mut out: Vec<(String, Json)> = Vec::new();
            let mut k: usize = 0;
            while k < pairs.len()
                invariant
                    *v == Json::Object(*pairs),
                    k <= pairs@.len(),
                    out@.len() == k,
                    forall|j: int| 0 <= j < k ==> (#[trigger] out@[j]).0@ == pairs@[j].0@ && out@[j].1.jview() == pairs@[j].1.jview(),
                decreases pairs@.len() - k,
            {
                proof {
                    assert(decreases_to!(*v => (*v)->Object_0));
                    assert(decreases_to!(pairs => pairs@[k as int]));
                    assert(decreases_to!(pairs@[k as int] => pairs@[k as int].1));
                }
                let c = clone_json(&pairs[k].1);
                out.push((pairs[k].0.clone(), c));
                k = k + 1;
            }
            let r = Json::Object(out);
            assert(r.jview() == v.jview()) by {
                if let (JsonView::Object(a), JsonView::Object(b)) = (r.jview(), v.jview()) {
                    assert(a =~= b);
                }
            }
            r
        },
    }
}

/// The value of the first field named `key` in `pairs[from..]`.
pub open spec fn lookup(pairs: Seq<(Seq<char>, JsonView)>, key: Seq<char>, from: int) -> Option<JsonView>
    decreases pairs.len() - from,
{
    if from < 0 || from >= pairs.len() {
        None
    } else if pairs[from].0 == key {
        Some(pairs[from].1)
    } else {
        lookup(pairs, key, from + 1)
    }
}

/// No key occurs twice among `pairs`.
pub open spec fn keys_unique(pairs: Seq<(Seq<char>, JsonView)>) -> bool {
    forall|i: int, j: int| 0 <= i < j < pairs.len() ==> (#[trigger] pairs[i]).0 != (#[trigger] pairs[j]).0
}

/// A well-formed JSON value: no object, at any depth, holds a key twice (as
/// `serde_json`'s map guarantees).
pub open spec fn json_wf(v: JsonView) -> bool
    decreases v,
{
    match v {
        JsonView::Array(items) => forall|i: int| 0 <= i < items.len() ==> json_wf(#[trigger] items[i]),
        JsonView::Object(pairs) => keys_unique(pairs) && forall|i: int| 0 <= i < pairs.len() ==> json_wf(#[trigger] pairs[i].1),
        _ => true,
    }
}

/// A value found by `lookup` among well-formed values is well formed.
pub proof fn lemma_lookup_wf(pairs: Seq<(Seq<char>, JsonView)>, key: Seq<char>, from: int)
    requires
        forall|i: int| 0 <= i < pairs.len() ==> json_wf(#[trigger] pairs[i].1),
    ensures
        lookup(pairs, key, from) matches Some(v) ==> json_wf(v),
    decreases pairs.len() - from,
{
    if 0 <= from < pairs.len() && pairs[from].0 != key {
        lemma_lookup_wf(pairs, key, from + 1);
    }
}

/// Index of the first field named `key`.
pub fn find_field(pairs: &Vec<(String, Json)>, key: &str) -> (r: Option<usize>)
    ensures
        match r {
            Some(i) => i < pairs@.len() && lookup(fields_view(pairs@), key@, 0) == Some(pairs@[i as int].1.jview()),
            None => lookup(fields_view(pairs@), key@, 0) is None,
        },
{
    let ghost fv = fields_view(pairs@);
    let mut k: usize = 0;
    while k < pairs.len()
        invariant
            k <= pairs@.len(),
            fv == fields_view(pairs@),
            lookup(fv, key@, 0) == lookup(fv, key@, k as int),
        decreases pairs@.len() - k,
    {
        if str_eq(pairs[k].0.as_str(), key) {
            return Some(k);
        }
        k = k + 1;
    }
    None
}

/// The text of field `key` of an object, when that field is a string.
pub open spec fn str_field(v: JsonView, key: Seq<char>) -> Option<Seq<char>> {
    match v {
        JsonView::Object(pairs) => match lookup(pairs, key, 0) {
            Some(JsonView::Str(s)) => Some(s),
            _ => None,
        },
        _ => None,
    }
}

/// The value of field `key` of an object, when that field is a boolean.
pub open spec fn bool_field(v: JsonView, key: Seq<char>) -> Option<bool> {
    match v {
        JsonView::Object(pairs) => match lookup(pairs, key, 0) {
            Some(JsonView::Bool(b)) => Some(b),
            _ => None,
        },
        _ => None,
    }
}

impl Json {
    /// The value of field `key` when `self` is an object whose field `key`
    /// is a boolean.
    pub fn get_bool(&self, key: &str) -> (r: Option<bool>)
        ensures
            r == bool_field(self.jview(), key@),
    {
        match self {
            Json::Object(pairs) => {
                proof {
                    lemma_object_view(*pairs);
                }
                match find_field(pairs, key) {
                    Some(i) => match &pairs[i].1 {
                        Json::Bool(b) => Some(*b),
                        _ => None,
                    },
                    None => None,
                }
            },
            _ => None,
        }
    }

    /// The text of field `key` when `self` is an object whose field `key`
    /// is a string.
    pub fn get_str(&self, key: &str) -> (r: Option<String>)
        ensures
            crate::input::keys::opt_string_view(r) == str_field(self.jview(), key@),
    {
        match self {
            Json::Object(pairs) => {
                proof {
                    lemma_object_view(*pairs);
                }
                match find_field(pairs, key) {
                    Some(i) => match &pairs[i].1 {
                        Json::Str(s) => Some(s.clone()),
                        _ => None,
                    },
                    None => None,
                }
            },
            _ => None,
        }
    }
}

/// All characters of `t` are decimal digits.
pub open spec fn all_digits(t: Seq<char>) -> bool {
    forall|i: int| 0 <= i < t.len() ==> '0' <= #[trigger] t[i] <= '9'
}

/// The value of a JSON number's text when it is a non-negative integer
/// that fits in 64 bits (what `serde_json`'s `as_u64` accepts).
pub open spec fn number_u64(t: Seq<char>) -> Option<u64> {
    if t.len() > 0 && all_digits(t) && digits_value(t) <= u64::MAX {
        Some(digits_value(t) as u64)
    } else {
        None
    }
}

/// The value of field `key` of an object, when it is a non-negative
/// integer that fits in 64 bits.
pub open spec fn u64_field(v: JsonView, key: Seq<char>) -> Option<u64> {
    match v {
        JsonView::Object(pairs) => match lookup(pairs, key, 0) {
            Some(JsonView::Number(t)) => number_u64(t),
            _ => None,
        },
        _ => None,
    }
}

pub proof fn lemma_digits_value_grows(t: Seq<char>, k: int)
    requires
        0 <= k <= t.len(),
        all_digits(t),
    ensures
        digits_value(t.take(k)) <= digits_value(t),
    decreases t.len() - k,
{
    if k < t.len() {
        lemma_digits_value_grows(t, k + 1);
        assert(t.take(k + 1).drop_last() =~= t.take(k));
        assert(t.take(k + 1).last() == t[k]);
    } else {
        assert(t.take(k) =~= t);
    }
}

/// The integer written by `t`, as `number_u64` says.
pub fn parse_number_u64(t: &str) -> (r: Option<u64>)
    ensures
        r == number_u64(t@),
{
    let v = chars_of(t);
    if v.len() == 0 {
        return None;
    }
    let mut val: u64 = 0;
    let mut overflow = false;
    let mut i: usize = 0;
    while i < v.len()
        invariant
            v@ == t@,
            i <= v@.len(),
            all_digits(v@.take(i as int)),
            !overflow ==> val == digits_value(v@.take(i as int)),
            overflow ==> digits_value(v@.take(i as int)) > u64::MAX,
        decreases v@.len() - i,
    {
        let c = v[i];
        if !('0' <= c && c <= '9') {
            assert(!all_digits(t@)) by {
                assert(t@[i as int] == c);
            }
            return None;
        }
        let d = (c as u32 - 48) as u64;
        proof {
            assert(v@.take(i + 1).drop_last() =~= v@.take(i as int));
            assert(v@.take(i + 1).last() == c);
            assert(d == (c as int - 48));
        }
        if !overflow {
            if val > (u64::MAX - d) / 10 {
                overflow = true;
                assert(digits_value(v@.take(i + 1)) > u64::MAX) by (nonlinear_arith)
                    requires
                        digits_value(v@.take(i + 1)) == val * 10 + d,
                        val > (u64::MAX - d) / 10,
                        d <= 9,
                ;
            } else {
                assert(val * 10 + d <= u64::MAX) by (nonlinear_arith)
                    requires
                        val <= (u64::MAX - d) / 10,
                        d <= 9,
                ;
                val = val * 10 + d;
            }
        } else {
            assert(digits_value(v@.take(i + 1)) >= digits_value(v@.take(i as int))) by (nonlinear_arith)
                requires
                    digits_value(v@.take(i + 1)) == digits_value(v@.take(i as int)) * 10 + d,
            ;
        }
        i = i + 1;
    }
    assert(v@.take(i as int) =~= t@);
    if overflow {
        None
    } else {
        Some(val)
    }
}

impl Json {
    /// The value of field `key` when `self` is an object whose field `key`
    /// is a non-negative integer that fits in 64 bits.
    pub fn get_u64(&self, key: &str) -> (r: Option<u64>)
        ensures
            r == u64_field(self.jview(), key@),
    {
        match self {
            Json::Object(pairs) => {
                proof {
                    lemma_object_view(*pairs);
                }
                match find_field(pairs, key) {
                    Some(i) => match &pairs[i].1 {
                        Json::Number(t) => parse_number_u64(t.as_str()),
                        _ => None,
                    },
                    None => None,
                }
            },
            _ => None,
        }
    }
}

/// The value of field `key` of an object.
pub open spec fn field_of(v: JsonView, key: Seq<char>) -> Option<JsonView> {
    match v {
        JsonView::Object(pairs) => lookup(pairs, key, 0),
        _ => None,
    }
}

/// The strings among `items`, in order.
pub open spec fn str_items(items: Seq<JsonView>) -> Seq<Seq<char>>
    decreases items.len(),
{
    if items.len() == 0 {
        seq![]
    } else {
        (match items[0] {
            JsonView::Str(s) => seq![s],
            _ => seq![],
        }) + str_items(items.drop_first())
    }
}

/// The strings of array field `key` of an object (none when the field is
/// missing or not an array).
pub open spec fn str_array_field(v: JsonView, key: Seq<char>) -> Seq<Seq<char>> {
    match field_of(v, key) {
        Some(JsonView::Array(items)) => str_items(items),
        _ => seq![],
    }
}

impl Json {
    /// Field `key` of an object.
    pub fn field(&self, key: &str) -> (r: Option<&Json>)
        ensures
            match r {
                Some(x) => field_of(self.jview(), key@) == Some(x.jview()),
                None => field_of(self.jview(), key@) is None,
            },
    {
        match self {
            Json::Object(pairs) => {
                proof {
                    lemma_object_view(*pairs);
                }
                match find_field(pairs, key) {
                    Some(i) => Some(&pairs[i].1),
                    None => None,
                }
            },
            _ => None,
        }
    }

    /// The strings of array field `key` of an object.
    pub fn get_str_array(&self, key: &str) -> (r: Vec<String>)
        ensures
            crate::text::string_seq_view(r@) == str_array_field(self.jview(), key@),
    {
        let mut out: Vec<String> = Vec::new();
        match self.field(key) {
            Some(Json::Array(items)) => {
                proof {
                    lemma_array_view(*items);
                }
                let ghost all = items_view(items@);
                let mut i: usize = 0;
                assert(all.subrange(0, all.len() as int) =~= all);
                assert(crate::text::string_seq_view(out@) + str_items(all) =~= str_items(all));
                while i < items.len()
                    invariant
                        i <= items@.len(),
                        all == items_view(items@),
                        str_items(all) == crate::text::string_seq_view(out@) + str_items(all.subrange(i as int, all.len() as int)),
                    decreases items@.len() - i,
                {
                    let ghost rest = all.subrange(i as int, all.len() as int);
                    assert(rest.drop_first() =~= all.subrange(i + 1, all.len() as int));
                    assert(rest[0] == items@[i as int].jview());
                    let ghost before = crate::text::string_seq_view(out@);
                    match &items[i] {
                        Json::Str(s) => {
                            out.push(s.clone());
                            assert(crate::text::string_seq_view(out@) =~= before.push(s@));
                            assert(before + (seq![s@] + str_items(rest.drop_first())) =~= before.push(s@) + str_items(rest.drop_first()));
                        },
                        _ => {
                            assert(Seq::<Seq<char>>::empty() + str_items(rest.drop_first()) =~= str_items(rest.drop_first()));
                        },
                    }
                    i = i + 1;
                }
                assert(all.subrange(0, all.len() as int) =~= all);
                assert(str_items(all.subrange(i as int, all.len() as int)) =~= Seq::<Seq<char>>::empty());
                assert(crate::text::string_seq_view(out@) + Seq::<Seq<char>>::empty() =~= crate::text::string_seq_view(out@));
                out
            },
            _ => out,
        }
    }
}

impl Clone for Json {
    fn clone(&self) -> (r: Self)
        ensures
            r.jview() == self.jview(),
    {
        clone_json(self)
    }
}

/// The lowercase hexadecimal digits.
pub open spec fn hex_digits() -> Seq<char> {
    seq!['0', '1', '2', '3', '4', '5', '6', '7', '8', '9', 'a', 'b', 'c', 'd', 'e', 'f']
}

/// How a character stands inside a JSON string: `"` and `\` and the control
/// characters escaped (the short forms where JSON has them, else `\u00XX`),
/// every other character as itself.
pub open spec fn escape_char(c: char) -> Seq<char> {
    if c == '"' {
        seq!['\\', '"']
    } else if c == '\\' {
        seq!['\\', '\\']
    } else if c == '\u{8}' {
        seq!['\\', 'b']
    } else if c == '\t' {
        seq!['\\', 't']
    } else if c == '\n' {
        seq!['\\', 'n']
    } else if c == '\u{c}' {
        seq!['\\', 'f']
    } else if c == '\r' {
        seq!['\\', 'r']
    } else if (c as u32) < 0x20 {
        seq!['\\', 'u', '0', '0', hex_digits()[((c as u32) / 16) as int], hex_digits()[((c as u32) % 16) as int]]
    } else {
        seq![c]
    }
}

/// The characters of `s`, escaped.
pub open spec fn escaped(s: Seq<char>) -> Seq<char>
    decreases s.len(),
{
    if s.len() == 0 {
        seq![]
    } else {
        escaped(s.drop_last()) + escape_char(s.last())
    }
}

/// `s` as a JSON string literal.
pub open spec fn quoted(s: Seq<char>) -> Seq<char> {
    seq!['"'] + escaped(s) + seq!['"']
}

/// The compact JSON text of a value, as `serde_json::to_string` writes it:
/// no whitespace, numbers as their text, fields in order.
pub open spec fn json_text(v: JsonView) -> Seq<char>
    decreases v,
{
    match v {
        JsonView::Null => seq!['n', 'u', 'l', 'l'],
        JsonView::Bool(b) => if b {
            seq!['t', 'r', 'u', 'e']
        } else {
            seq!['f', 'a', 'l', 's', 'e']
        },
        JsonView::Number(t) => t,
        JsonView::Str(s) => quoted(s),
        JsonView::Array(items) => seq!['['] + items_text(items) + seq![']'],
        JsonView::Object(pairs) => seq!['{'] + pairs_text(pairs) + seq!['}'],
    }
}

/// The texts of `items`, separated by commas.
pub open spec fn items_text(items: Seq<JsonView>) -> Seq<char>
    decreases items,
{
    if items.len() == 0 {
        seq![]
    } else if items.len() == 1 {
        json_text(items[0])
    } else {
        items_text(items.subrange(0, items.len() - 1)) + seq![','] + json_text(items[items.len() - 1])
    }
}

/// The fields of an object as `"key":value`, separated by commas.
pub open spec fn pairs_text(pairs: Seq<(Seq<char>, JsonView)>) -> Seq<char>
    decreases pairs,
{
    if pairs.len() == 0 {
        seq![]
    } else {
        let last = pairs[pairs.len() - 1];
        let field = quoted(last.0) + seq![':'] + json_text(last.1);
        if pairs.len() == 1 {
            field
        } else {
            pairs_text(pairs.subrange(0, pairs.len() - 1)) + seq![','] + field
        }
    }
}

/// Appends `c` as it stands inside a JSON string.
fn push_escaped_char(out: &mut String, c: char)
    ensures
        final(out)@ == old(out)@ + escape_char(c),
{
    let ghost base = out@;
    let digits = vec!['0', '1', '2', '3', '4', '5', '6', '7', '8', '9', 'a', 'b', 'c', 'd', 'e', 'f'];
    assert(digits@ =~= hex_digits());
    if c == '"' {
        push_char(out, '\\');
        push_char(out, '"');
    } else if c == '\\' {
        push_char(out, '\\');
        push_char(out, '\\');
    } else if c == '\u{8}' {
        push_char(out, '\\');
        push_char(out, 'b');
    } else if c == '\t' {
        push_char(out, '\\');
        push_char(out, 't');
    } else if c == '\n' {
        push_char(out, '\\');
        push_char(out, 'n');
    } else if c == '\u{c}' {
        push_char(out, '\\');
        push_char(out, 'f');
    } else if c == '\r' {
        push_char(out, '\\');
        push_char(out, 'r');
    } else if (c as u32) < 0x20 {
        let n = c as u32;
        push_char(out, '\\');
        push_char(out, 'u');
        push_char(out, '0');
        push_char(out, '0');
        push_char(out, digits[(n / 16) as usize]);
        push_char(out, digits[(n % 16) as usize]);
    } else {
        push_char(out, c);
    }
    assert(out@ =~= base + escape_char(c));
}

/// Appends `s` as a JSON string literal.
fn push_quoted(out: &mut String, s: &str)
    ensures
        final(out)@ == old(out)@ + quoted(s@),
{
    let ghost base = out@;
    push_char(out, '"');
    let cs = chars_of(s);
    let mut k: usize = 0;
    while k < cs.len()
        invariant
            k <= cs@.len(),
            cs@ == s@,
            out@ == base + seq!['"'] + escaped(cs@.take(k as int)),
        decreases cs@.len() - k,
    {
        proof {
            assert(cs@.take(k + 1).drop_last() =~= cs@.take(k as int));
            assert(cs@.take(k + 1).last() == cs@[k as int]);
        }
        push_escaped_char(out, cs[k]);
        k = k + 1;
    }
    assert(cs@.take(k as int) =~= s@);
    push_char(out, '"');
    assert(out@ =~= base + quoted(s@));
}

/// Appends the compact JSON text of `v`.
pub fn push_json_text(out: &mut String, v: &Json)
    ensures
        final(out)@ == old(out)@ + json_text(v.jview()),
    decreases v.jview(),
{
    let ghost base = out@;
    match v {
        Json::Null => {
            crate::text::push_str(out, "null");
            proof {
                reveal_strlit("null");
            }
            assert(out@ =~= base + json_text(v.jview()));
        },
        Json::Bool(b) => {
            if *b {
                crate::text::push_str(out, "true");
                proof {
                    reveal_strlit("true");
                }
            } else {
                crate::text::push_str(out, "false");
                proof {
                    reveal_strlit("false");
                }
            }
            assert(out@ =~= base + json_text(v.jview()));
        },
        Json::Number(t) => {
            crate::text::push_str(out, t.as_str());
        },
        Json::Str(t) => {
            push_quoted(out, t.as_str());
        },
        Json::Array(items) => {
            proof {
                lemma_array_view(*items);
            }
            let ghost all = items_view(items@);
            push_char(out, '[');
            let mut k: usize = 0;
            while k < items.len()
                invariant
                    k <= items@.len(),
                    all == items_view(items@),
                    v.jview() == JsonView::Array(all),
                    out@ == base + seq!['['] + items_text(all.take(k as int)),
                decreases items@.len() - k,
            {
                let ghost t = all.take(k + 1);
                proof {
                    assert(t.subrange(0, k as int) =~= all.take(k as int));
                    assert(t[k as int] == items@[k as int].jview());
                    let a = v.jview();
                    assert(a->Array_0 == all);
                    assert(decreases_to!(a => a->Array_0));
                    assert(decreases_to!(a->Array_0 => a->Array_0[k as int]));
                    assert(decreases_to!(v.jview() => items@[k as int].jview()));
                }
                if k > 0 {
                    push_char(out, ',');
                }
                push_json_text(out, &items[k]);
                proof {
                    if k == 0 {
                        assert(all.take(0) =~= Seq::<JsonView>::empty());
                        assert(out@ =~= base + seq!['['] + items_text(t));
                    } else {
                        assert(out@ =~= base + seq!['['] + items_text(t));
                    }
                }
                k = k + 1;
            }
            assert(all.take(k as int) =~= all);
            push_char(out, ']');
            assert(out@ =~= base + json_text(v.jview()));
        },
        Json::Object(pairs) => {
            proof {
                lemma_object_view(*pairs);
            }
            let ghost all = fields_view(pairs@);
            push_char(out, '{');
            let mut k: usize = 0;
            while k < pairs.len()
                invariant
                    k <= pairs@.len(),
                    all == fields_view(pairs@),
                    v.jview() == JsonView::Object(all),
                    out@ == base + seq!['{'] + pairs_text(all.take(k as int)),
                decreases pairs@.len() - k,
            {
                let ghost t = all.take(k + 1);
                proof {
                    assert(t.subrange(0, k as int) =~= all.take(k as int));
                    assert(t[k as int] == (pairs@[k as int].0@, pairs@[k as int].1.jview()));
                    let a = v.jview();
                    assert(a->Object_0 == all);
                    assert(decreases_to!(a => a->Object_0));
                    assert(decreases_to!(a->Object_0 => a->Object_0[k as int]));
                    assert(decreases_to!(a->Object_0[k as int] => a->Object_0[k as int].1));
                    assert(decreases_to!(v.jview() => pairs@[k as int].1.jview()));
                }
                if k > 0 {
                    push_char(out, ',');
                }
                push_quoted(out, pairs[k].0.as_str());
                push_char(out, ':');
                push_json_text(out, &pairs[k].1);
                proof {
                    if k == 0 {
                        assert(all.take(0) =~= Seq::<(Seq<char>, JsonView)>::empty());
                    }
                    assert(out@ =~= base + seq!['{'] + pairs_text(t));
                }
                k = k + 1;
            }
            assert(all.take(k as int) =~= all);
            push_char(out, '}');
            assert(out@ =~= base + json_text(v.jview()));
        },
    }
}

/// The compact JSON text of `v`.
pub fn json_text_of(v: &Json) -> (r: String)
    ensures
        r@ == json_text(v.jview()),
{
    let mut out = String::new();
    push_json_text(&mut out, v);
    assert(out@ =~= json_text(v.jview()));
    out
}

} // verus!
