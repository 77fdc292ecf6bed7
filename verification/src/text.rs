//! Small string helpers shared by the modules of this crate.

use vstd::prelude::*;
use vstd::utf8::*;
use vstd::string::*;

verus! {

/// Appends one character to a `String`; a thin wrapper over `String::push`.
///
/// Trusted: `String::push` appends the character at the end of the string
/// (std documentation); the contract states exactly that.
#[verifier::external_body]
pub(crate) fn push_char(s: &mut String, c: char)
    ensures
        final(s)@ == old(s)@.push(c),
{
    s.push(c);
}

/// A `String` holding a copy of `s`.
pub fn owned(s: &str) -> (r: String)
    ensures
        r@ == s@,
{
    s.to_owned()
}

/// A `String` holding the single character `c`.
pub fn char_string(c: char) -> (r: String)
    ensures
        r@ == seq![c],
{
    let mut r = String::new();
    push_char(&mut r, c);
    r
}

/// `a` followed by `b`.
pub fn concat2(a: &str, b: &str) -> (r: String)
    ensures
        r@ == a@ + b@,
{
    let r = owned(a);
    r.concat(b)
}

/// `a` followed by `b` and then `c`.
pub fn concat3(a: &str, b: &str, c: &str) -> (r: String)
    ensures
        r@ == a@ + b@ + c@,
{
    let r = owned(a);
    let r = r.concat(b);
    r.concat(c)
}

/// Whether two strings hold the same characters (compared through their
/// UTF-8 bytes, which determine the characters).
pub fn str_eq(a: &str, b: &str) -> (r: bool)
    ensures
        r == (a@ == b@),
{
    let ab = a.as_bytes();
    let bb = b.as_bytes();
    proof {
        encode_utf8_decode_utf8(a@);
        encode_utf8_decode_utf8(b@);
    }
    if ab.len() != bb.len() {
        return false;
    }
    let n = ab.len();
    let mut i: usize = 0;
    while i < n
        invariant
            n == ab@.len(),
            n == bb@.len(),
            ab@ == a.spec_bytes(),
            bb@ == b.spec_bytes(),
            i <= n,
            forall|j: int| 0 <= j < i ==> ab@[j] == bb@[j],
        decreases n - i,
    {
        if ab[i] != bb[i] {
            return false;
        }
        i = i + 1;
    }
    assert(ab@ =~= bb@);
    true
}

/// Whether `a` and the optional string `b` hold the same characters.
pub fn opt_str_eq(a: &Option<String>, b: &str) -> (r: bool)
    ensures
        r == (match a {
            Some(s) => s@ == b@,
            None => false,
        }),
{
    match a {
        Some(s) => str_eq(s.as_str(), b),
        None => false,
    }
}

/// The characters of `s`, in order.
pub fn chars_of(s: &str) -> (v: Vec<char>)
    ensures
        v@ == s@,
{
    broadcast use vstd::string::group_string_axioms;

    let mut v: Vec<char> = Vec::new();
    for c in it: s.chars()
        invariant
            v@ == it.history(),
    {
        v.push(c);
    }
    v
}

/// `c` with an ASCII upper-case letter made lower-case.
pub open spec fn ascii_lower(c: char) -> char {
    if 'A' <= c <= 'Z' {
        ((c as int) + 32) as char
    } else {
        c
    }
}

/// `a` and `b` are equal up to ASCII case.
pub open spec fn ascii_case_eq(a: Seq<char>, b: Seq<char>) -> bool {
    a.len() == b.len() && forall|i: int| 0 <= i < a.len() ==> ascii_lower(#[trigger] a[i]) == ascii_lower(b[i])
}

/// The ASCII lower-case form of `c`.
pub fn ascii_lower_char(c: char) -> (r: char)
    ensures
        r == ascii_lower(c),
{
    if 'A' <= c && c <= 'Z' {
        ((c as u32) + 32) as u8 as char
    } else {
        c
    }
}

/// Whether `a` and `b` are equal up to ASCII case.
pub fn eq_ignore_ascii_case(a: &str, b: &str) -> (r: bool)
    ensures
        r == ascii_case_eq(a@, b@),
{
    let av = chars_of(a);
    let bv = chars_of(b);
    if av.len() != bv.len() {
        return false;
    }
    let mut k: usize = 0;
    while k < av.len()
        invariant
            av@ == a@,
            bv@ == b@,
            av@.len() == bv@.len(),
            k <= av@.len(),
            forall|i: int| 0 <= i < k ==> ascii_lower(#[trigger] a@[i]) == ascii_lower(b@[i]),
        decreases av@.len() - k,
    {
        if ascii_lower_char(av[k]) != ascii_lower_char(bv[k]) {
            return false;
        }
        k = k + 1;
    }
    true
}

/// `a` starts with `p`.
pub open spec fn starts_with(a: Seq<char>, p: Seq<char>) -> bool {
    a.len() >= p.len() && a.subrange(0, p.len() as int) == p
}

/// Appends `t` to `s`.
pub fn push_str(s: &mut String, t: &str)
    ensures
        final(s)@ == old(s)@ + t@,
{
    let v = chars_of(t);
    push_chars(s, v.as_slice(), 0, v.len());
    assert(v@.subrange(0, v@.len() as int) =~= t@);
}

/// Whether the characters `v` start with `p`.
pub fn chars_start_with(v: &Vec<char>, p: &str) -> (r: bool)
    ensures
        r == starts_with(v@, p@),
{
    let pc = chars_of(p);
    if pc.len() > v.len() {
        return false;
    }
    let mut i: usize = 0;
    while i < pc.len()
        invariant
            pc@ == p@,
            pc@.len() <= v@.len(),
            i <= pc@.len(),
            forall|j: int| 0 <= j < i ==> v@[j] == pc@[j],
        decreases pc@.len() - i,
    {
        if v[i] != pc[i] {
            assert(v@.subrange(0, pc@.len() as int)[i as int] != p@[i as int]);
            return false;
        }
        i = i + 1;
    }
    assert(v@.subrange(0, pc@.len() as int) =~= p@);
    true
}

/// `a` comes strictly before `b` in lexicographic order of characters
/// (the order of `str`'s `Ord`, which compares UTF-8 bytes, and UTF-8
/// keeps the order of code points).
pub open spec fn seq_lt(a: Seq<char>, b: Seq<char>) -> bool
    decreases a.len(),
{
    if b.len() == 0 {
        false
    } else if a.len() == 0 {
        true
    } else if a[0] < b[0] {
        true
    } else if a[0] == b[0] {
        seq_lt(a.drop_first(), b.drop_first())
    } else {
        false
    }
}

pub proof fn lemma_seq_lt_transitive(a: Seq<char>, b: Seq<char>, c: Seq<char>)
    requires
        seq_lt(a, b),
        seq_lt(b, c),
    ensures
        seq_lt(a, c),
    decreases a.len(),
{
    if a.len() > 0 && a[0] == b[0] && b[0] == c[0] {
        lemma_seq_lt_transitive(a.drop_first(), b.drop_first(), c.drop_first());
    }
}

pub proof fn lemma_seq_lt_irreflexive(a: Seq<char>)
    ensures
        !seq_lt(a, a),
    decreases a.len(),
{
    if a.len() > 0 {
        lemma_seq_lt_irreflexive(a.drop_first());
    }
}

/// Whether `a` comes strictly before `b`.
pub fn str_lt(a: &str, b: &str) -> (r: bool)
    ensures
        r == seq_lt(a@, b@),
{
    let av = chars_of(a);
    let bv = chars_of(b);
    let mut k: usize = 0;
    assert(a@.subrange(0, a@.len() as int) =~= a@);
    assert(b@.subrange(0, b@.len() as int) =~= b@);
    while k < av.len() && k < bv.len()
        invariant
            av@ == a@,
            bv@ == b@,
            k <= av@.len(),
            k <= bv@.len(),
            seq_lt(a@, b@) == seq_lt(a@.subrange(k as int, a@.len() as int), b@.subrange(k as int, b@.len() as int)),
        decreases av@.len() - k,
    {
        let x = av[k];
        let y = bv[k];
        let ghost sa = a@.subrange(k as int, a@.len() as int);
        let ghost sb = b@.subrange(k as int, b@.len() as int);
        assert(sa[0] == x && sb[0] == y);
        if x < y {
            return true;
        }
        if x != y {
            return false;
        }
        assert(sa.drop_first() =~= a@.subrange(k + 1, a@.len() as int));
        assert(sb.drop_first() =~= b@.subrange(k + 1, b@.len() as int));
        k = k + 1;
    }
    let ghost sa = a@.subrange(k as int, a@.len() as int);
    let ghost sb = b@.subrange(k as int, b@.len() as int);
    assert(k == av@.len() ==> sa.len() == 0);
    assert(k == bv@.len() ==> sb.len() == 0);
    k < bv.len()
}

/// The strings are in non-decreasing order.
pub open spec fn sorted_strings(s: Seq<Seq<char>>) -> bool {
    forall|i: int, j: int| 0 <= i < j < s.len() ==> !seq_lt(#[trigger] s[j], #[trigger] s[i])
}

/// The views of a sequence of strings.
pub open spec fn string_seq_view(v: Seq<String>) -> Seq<Seq<char>> {
    v.map_values(|s: String| s@)
}

/// `v` sorted into non-decreasing order.
pub fn sort_strings(v: Vec<String>) -> (r: Vec<String>)
    ensures
        sorted_strings(string_seq_view(r@)),
        string_seq_view(r@).to_multiset() == string_seq_view(v@).to_multiset(),
{
    let mut r: Vec<String> = Vec::new();
    let mut k: usize = 0;
    assert(string_seq_view(v@.take(0)) =~= string_seq_view(r@));
    while k < v.len()
        invariant
            k <= v@.len(),
            sorted_strings(string_seq_view(r@)),
            string_seq_view(r@).to_multiset() == string_seq_view(v@.take(k as int)).to_multiset(),
        decreases v@.len() - k,
    {
        let x = v[k].clone();
        let ghost s = string_seq_view(r@);
        let mut p: usize = 0;
        while p < r.len() && !str_lt(x.as_str(), r[p].as_str())
            invariant
                p <= r@.len(),
                s == string_seq_view(r@),
                forall|j: int| 0 <= j < p ==> !seq_lt(x@, #[trigger] s[j]),
            decreases r@.len() - p,
        {
            p = p + 1;
        }
        let ghost before = s;
        r.insert(p, x);
        proof {
            let n = string_seq_view(r@);
            assert(n =~= before.insert(p as int, x@));
            before.insert_ensures(p as int, x@);
            assert forall|i: int, j: int| 0 <= i < j < n.len() implies !seq_lt(#[trigger] n[j], #[trigger] n[i]) by {
                if j < p {
                    assert(n[i] == before[i] && n[j] == before[j]);
                } else if j == p {
                    assert(n[j] == x@ && n[i] == before[i]);
                } else if i == p {
                    assert(n[i] == x@ && n[j] == before[j - 1]);
                    assert(seq_lt(x@, before[p as int]));
                    if seq_lt(before[j - 1], x@) {
                        lemma_seq_lt_transitive(before[j - 1], x@, before[p as int]);
                        if j - 1 > p {
                            assert(!seq_lt(before[j - 1], before[p as int]));
                        } else {
                            lemma_seq_lt_irreflexive(before[p as int]);
                        }
                    }
                } else if i < p {
                    assert(n[i] == before[i] && n[j] == before[j - 1]);
                } else {
                    assert(n[i] == before[i - 1] && n[j] == before[j - 1]);
                }
            }
            assert(string_seq_view(v@.take(k + 1)) =~= string_seq_view(v@.take(k as int)).push(x@));
            vstd::seq_lib::to_multiset_insert(before, p as int, x@);
            vstd::seq_lib::to_multiset_build(string_seq_view(v@.take(k as int)), x@);
        }
        k = k + 1;
    }
    proof {
        assert(v@.take(k as int) =~= v@);
    }
    r
}

/// The characters Rust's `char::is_whitespace` accepts (the Unicode
/// `White_Space` property).
pub open spec fn is_white_space(c: char) -> bool {
    c == ' ' || ('\x09' <= c <= '\x0d') || c == '\u{85}' || c == '\u{a0}' || c == '\u{1680}'
        || ('\u{2000}' <= c <= '\u{200a}') || c == '\u{2028}' || c == '\u{2029}' || c == '\u{202f}'
        || c == '\u{205f}' || c == '\u{3000}'
}

/// Whether `c` is white space.
pub fn white_space(c: char) -> (r: bool)
    ensures
        r == is_white_space(c),
{
    c == ' ' || ('\x09' <= c && c <= '\x0d') || c == '\u{85}' || c == '\u{a0}' || c == '\u{1680}'
        || ('\u{2000}' <= c && c <= '\u{200a}') || c == '\u{2028}' || c == '\u{2029}' || c == '\u{202f}'
        || c == '\u{205f}' || c == '\u{3000}'
}

/// Index of the first character of `s[i..]` that is not white space
/// (`s.len()` when there is none).
pub open spec fn skip_white(s: Seq<char>, i: int) -> int
    decreases s.len() - i,
{
    if i < 0 || i >= s.len() {
        s.len() as int
    } else if is_white_space(s[i]) {
        skip_white(s, i + 1)
    } else {
        i
    }
}

/// One past the last character of `s[..j]` that is not white space (0
/// when there is none).
pub open spec fn skip_white_back(s: Seq<char>, j: int) -> int
    decreases j,
{
    if j <= 0 || j > s.len() {
        0
    } else if is_white_space(s[j - 1]) {
        skip_white_back(s, j - 1)
    } else {
        j
    }
}

/// `s` without leading and trailing white space (what `str::trim` gives).
pub open spec fn trimmed(s: Seq<char>) -> Seq<char> {
    let a = skip_white(s, 0);
    if a >= s.len() {
        seq![]
    } else {
        s.subrange(a, skip_white_back(s, s.len() as int))
    }
}

pub proof fn lemma_skip_white(s: Seq<char>, i: int)
    requires
        0 <= i <= s.len(),
    ensures
        i <= skip_white(s, i) <= s.len(),
        skip_white(s, i) < s.len() ==> !is_white_space(s[skip_white(s, i)]),
    decreases s.len() - i,
{
    if i < s.len() && is_white_space(s[i]) {
        lemma_skip_white(s, i + 1);
    }
}

pub proof fn lemma_skip_white_back(s: Seq<char>, j: int, a: int)
    requires
        0 <= a < j <= s.len(),
        !is_white_space(s[a]),
    ensures
        a < skip_white_back(s, j) <= j,
    decreases j,
{
    if is_white_space(s[j - 1]) {
        lemma_skip_white_back(s, j - 1, a);
    }
}

/// `v[from..to]` without leading and trailing white space.
pub fn trim_range(v: &Vec<char>, from: usize, to: usize) -> (r: String)
    requires
        from <= to <= v@.len(),
    ensures
        r@ == trimmed(v@.subrange(from as int, to as int)),
{
    let ghost s = v@.subrange(from as int, to as int);
    let mut a: usize = from;
    while a < to && white_space(v[a])
        invariant
            from <= a <= to <= v@.len(),
            s == v@.subrange(from as int, to as int),
            skip_white(s, 0) == skip_white(s, a - from),
        decreases to - a,
    {
        a = a + 1;
    }
    if a >= to {
        return String::new();
    }
    assert(skip_white(s, a - from) == a - from);
    let mut b: usize = to;
    while b > a && white_space(v[b - 1])
        invariant
            from <= a < to <= v@.len(),
            a < b <= to,
            s == v@.subrange(from as int, to as int),
            !is_white_space(s[a - from]),
            skip_white_back(s, s.len() as int) == skip_white_back(s, b - from),
        decreases b,
    {
        b = b - 1;
    }
    assert(skip_white_back(s, b - from) == b - from);
    let r = string_of(v.as_slice(), a, b);
    assert(r@ =~= s.subrange(a - from, b - from));
    r
}

/// The decimal digit character for `d < 10`.
pub open spec fn digit_char(d: nat) -> char {
    (d + 48) as char
}

/// The decimal representation of `n`, most significant digit first, with no
/// leading zeros (`"0"` for zero).
pub open spec fn decimal(n: nat) -> Seq<char>
    decreases n,
{
    if n < 10 {
        seq![digit_char(n)]
    } else {
        decimal(n / 10).push(digit_char(n % 10))
    }
}

/// Appends the decimal representation of `n` to `s`.
pub fn push_decimal(s: &mut String, n: u64)
    ensures
        final(s)@ == old(s)@ + decimal(n as nat),
    decreases n,
{
    if n >= 10 {
        push_decimal(s, n / 10);
    }
    let d = (n % 10) as u8;
    push_char(s, (d + 48) as char);
    proof {
        assert(old(s)@ + decimal(n as nat) =~= s@);
    }
}

/// The decimal representation of `n` as a `String`.
pub fn decimal_string(n: u64) -> (r: String)
    ensures
        r@ == decimal(n as nat),
{
    let mut r = String::new();
    push_decimal(&mut r, n);
    assert(r@ =~= decimal(n as nat));
    r
}

/// Appends the characters `chars[from..to]` to `s`.
pub fn push_chars(s: &mut String, chars: &[char], from: usize, to: usize)
    requires
        from <= to <= chars@.len(),
    ensures
        final(s)@ == old(s)@ + chars@.subrange(from as int, to as int),
{
    let mut i: usize = from;
    while i < to
        invariant
            from <= i <= to <= chars@.len(),
            s@ == old(s)@ + chars@.subrange(from as int, i as int),
        decreases to - i,
    {
        push_char(s, chars[i]);
        proof {
            assert(old(s)@ + chars@.subrange(from as int, i + 1) =~= s@);
        }
        i = i + 1;
    }
}

/// A `String` of the characters `chars[from..to]`.
pub fn string_of(chars: &[char], from: usize, to: usize) -> (r: String)
    requires
        from <= to <= chars@.len(),
    ensures
        r@ == chars@.subrange(from as int, to as int),
{
    let mut r = String::new();
    push_chars(&mut r, chars, from, to);
    assert(r@ =~= chars@.subrange(from as int, to as int));
    r
}

} // verus!
