//! Registry of federated backend servers, and validation of the hostnames
//! and addresses that enter it.

use vstd::prelude::*;
use vstd::utf8::*;
use crate::text::{ascii_lower, chars_of, concat2, concat3, decimal, decimal_string, opt_str_eq, owned, str_eq, string_of};
use crate::input::keys::opt_string_view;
use crate::federation::ip_access::{ip_literal, parse_ip_literal, IpAddress};

verus! {

/// Number of UTF-8 bytes of a character.
pub open spec fn char_width(c: char) -> nat {
    encode_scalar(c as u32).len()
}

/// Number of UTF-8 bytes of a character sequence (what `str::len` returns).
pub open spec fn byte_len(s: Seq<char>) -> nat {
    encode_utf8(s).len()
}

pub proof fn lemma_encode_concat(a: Seq<char>, b: Seq<char>)
    ensures
        encode_utf8(a + b) == encode_utf8(a) + encode_utf8(b),
    decreases a.len(),
{
    if a.len() == 0 {
        assert(a + b =~= b);
        assert(encode_utf8(a) + encode_utf8(b) =~= encode_utf8(b));
    } else {
        assert((a + b).drop_first() =~= a.drop_first() + b);
        lemma_encode_concat(a.drop_first(), b);
        assert(encode_utf8(a + b) =~= encode_utf8(a) + encode_utf8(b));
    }
}

pub proof fn lemma_byte_len_push(s: Seq<char>, c: char)
    ensures
        byte_len(s.push(c)) == byte_len(s) + char_width(c),
{
    lemma_encode_concat(s, seq![c]);
    assert(s + seq![c] =~= s.push(c));
    assert(seq![c].drop_first() =~= Seq::<char>::empty());
    assert(encode_utf8(Seq::<char>::empty()) =~= Seq::<u8>::empty());
    assert(encode_utf8(seq![c]) =~= encode_scalar(c as u32));
}

pub proof fn lemma_byte_len_subrange(s: Seq<char>, i: int, j: int)
    requires
        0 <= i <= j <= s.len(),
    ensures
        byte_len(s.subrange(i, j)) <= byte_len(s),
{
    lemma_encode_concat(s.subrange(0, i), s.subrange(i, s.len() as int));
    lemma_encode_concat(s.subrange(i, j), s.subrange(j, s.len() as int));
    assert(s.subrange(0, i) + s.subrange(i, s.len() as int) =~= s);
    assert(s.subrange(i, j) + s.subrange(j, s.len() as int) =~= s.subrange(i, s.len() as int));
}

/// The width of `c`'s UTF-8 encoding.
pub(crate) fn utf8_width(c: char) -> (w: usize)
    ensures
        w == char_width(c),
        1 <= w <= 4,
{
    proof {
        char_is_scalar(c);
    }
    let v = c as u32;
    if v <= 0x7f {
        1
    } else if v <= 0x7ff {
        2
    } else if v <= 0xffff {
        3
    } else {
        4
    }
}

/// The UTF-8 byte length of `chars[from..to]`, given that the whole slice
/// has at most `bound` bytes.
fn byte_len_of(chars: &[char], from: usize, to: usize, bound: usize) -> (n: usize)
    requires
        from <= to <= chars@.len(),
        byte_len(chars@) <= bound,
    ensures
        n == byte_len(chars@.subrange(from as int, to as int)),
{
    let ghost whole = chars@;
    let mut n: usize = 0;
    let mut k = from;
    while k < to
        invariant
            from <= k <= to <= chars@.len(),
            chars@ == whole,
            byte_len(whole) <= bound,
            n == byte_len(chars@.subrange(from as int, k as int)),
        decreases to - k,
    {
        proof {
            lemma_byte_len_push(chars@.subrange(from as int, k as int), chars@[k as int]);
            assert(chars@.subrange(from as int, k as int).push(chars@[k as int]) =~= chars@.subrange(from as int, k + 1));
            lemma_byte_len_subrange(chars@, from as int, k + 1);
        }
        n = n + utf8_width(chars[k]);
        k = k + 1;
    }
    n
}

/// Characters allowed in a hostname label: ASCII letters, digits, hyphen.
pub open spec fn is_label_char(c: char) -> bool {
    ('0' <= c <= '9') || ('a' <= c <= 'z') || ('A' <= c <= 'Z') || c == '-'
}

/// The longest prefix of `s` that takes at most `k` UTF-8 bytes.
pub open spec fn take_bytes(s: Seq<char>, k: int) -> Seq<char>
    decreases s.len(),
{
    if s.len() == 0 || char_width(s[0]) > k {
        seq![]
    } else {
        seq![s[0]] + take_bytes(s.drop_first(), k - char_width(s[0]))
    }
}

/// Why a hostname is rejected.
pub enum HostnameFault {
    Empty,
    TooLong(nat),
    EmptyLabel,
    /// The label's first 20 bytes (cut back to a character boundary) and
    /// the label's byte length.
    LabelTooLong(Seq<char>, nat),
    HyphenAtEdge(Seq<char>),
    InvalidChars(Seq<char>),
}

/// The message that reports a hostname fault.
pub open spec fn hostname_fault_text(f: HostnameFault) -> Seq<char> {
    match f {
        HostnameFault::Empty => "hostname must not be empty"@,
        HostnameFault::TooLong(n) => "hostname exceeds 253 characters (got "@ + decimal(n) + ")"@,
        HostnameFault::EmptyLabel => "hostname contains empty label (consecutive dots)"@,
        HostnameFault::LabelTooLong(p, n) => "label '"@ + p + "' exceeds 63 characters (got "@ + decimal(n) + ")"@,
        HostnameFault::HyphenAtEdge(l) => "label '"@ + l + "' must not start or end with a hyphen"@,
        HostnameFault::InvalidChars(l) => "label '"@ + l + "' contains invalid characters (only alphanumeric and hyphens allowed)"@,
    }
}

/// The fault of a single dot-separated label, if any.
pub open spec fn label_fault(label: Seq<char>) -> Option<HostnameFault> {
    if label.len() == 0 {
        Some(HostnameFault::EmptyLabel)
    } else if byte_len(label) > 63 {
        Some(HostnameFault::LabelTooLong(take_bytes(label, 20), byte_len(label)))
    } else if label[0] == '-' || label.last() == '-' {
        Some(HostnameFault::HyphenAtEdge(label))
    } else if exists|i: int| 0 <= i < label.len() && !is_label_char(#[trigger] label[i]) {
        Some(HostnameFault::InvalidChars(label))
    } else {
        None
    }
}

/// Index of the first '.' at or after `start`, or the length of `h`.
pub open spec fn label_end(h: Seq<char>, start: int) -> int
    decreases h.len() - start,
{
    if start >= h.len() {
        h.len() as int
    } else if h[start] == '.' {
        start
    } else {
        label_end(h, start + 1)
    }
}

pub proof fn lemma_label_end(h: Seq<char>, start: int)
    requires
        0 <= start <= h.len(),
    ensures
        start <= label_end(h, start) <= h.len(),
        label_end(h, start) < h.len() ==> h[label_end(h, start)] == '.',
        forall|i: int| start <= i < label_end(h, start) ==> h[i] != '.',
    decreases h.len() - start,
{
    if start < h.len() && h[start] != '.' {
        lemma_label_end(h, start + 1);
    }
}

/// The first fault among the labels that start at or after `start`.
pub open spec fn labels_fault(h: Seq<char>, start: int) -> Option<HostnameFault>
    decreases h.len() - start,
{
    if start < 0 || start > h.len() {
        None
    } else {
        let e = label_end(h, start);
        proof {
            lemma_label_end(h, start);
        }
        match label_fault(h.subrange(start, e)) {
            Some(f) => Some(f),
            None => if e >= h.len() {
                None
            } else {
                labels_fault(h, e + 1)
            },
        }
    }
}

/// Why `h` is not a valid hostname, if it is not.
pub open spec fn hostname_fault(h: Seq<char>) -> Option<HostnameFault> {
    if h.len() == 0 {
        Some(HostnameFault::Empty)
    } else if byte_len(h) > 253 {
        Some(HostnameFault::TooLong(byte_len(h)))
    } else {
        labels_fault(h, 0)
    }
}

/// Validate a hostname according to RFC 952/1123 rules.
///
/// - Must be 1-253 bytes total.
/// - Each dot-separated label must be 1-63 bytes.
/// - Labels may contain ASCII alphanumeric characters and hyphens.
/// - Labels must not start or end with a hyphen.
/// - No empty labels (no consecutive dots).
///
/// A too-long label is quoted by its first 20 bytes, cut back to the last
/// whole character.
pub fn validate_hostname(hostname: &str) -> (r: Result<(), String>)
    ensures
        match hostname_fault(hostname@) {
            None => r is Ok,
            Some(f) => r matches Err(m) && m@ == hostname_fault_text(f),
        },
{
    let h = chars_of(hostname);
    if h.len() == 0 {
        return Err(owned("hostname must not be empty"));
    }
    let total = hostname.as_bytes().len();
    if total > 253 {
        let m = concat3("hostname exceeds 253 characters (got ", decimal_string(total as u64).as_str(), ")");
        return Err(m);
    }
    let ghost hv = h@;
    let mut start: usize = 0;
    loop
        invariant
            h@ == hv,
            hv == hostname@,
            hv.len() > 0,
            byte_len(hv) <= 253,
            start <= hv.len(),
            hostname_fault(hv) == labels_fault(hv, start as int),
        decreases hv.len() - start,
    {
        let e = find_label_end(&h, start);
        proof {
            lemma_label_end(hv, start as int);
        }
        match label_check(&h, start, e) {
            Some(m) => {
                return Err(m);
            },
            None => {},
        }
        if e >= h.len() {
            return Ok(());
        }
        start = e + 1;
    }
}

fn find_label_end(h: &Vec<char>, start: usize) -> (e: usize)
    requires
        start <= h@.len(),
    ensures
        e == label_end(h@, start as int),
{
    proof {
        lemma_label_end(h@, start as int);
    }
    let mut k = start;
    while k < h.len()
        invariant
            start <= k <= h@.len(),
            label_end(h@, start as int) == label_end(h@, k as int),
        decreases h@.len() - k,
    {
        if h[k] == '.' {
            return k;
        }
        k = k + 1;
    }
    k
}

/// The message for the fault of label `h[start..end]`, if any.
fn label_check(h: &Vec<char>, start: usize, end: usize) -> (r: Option<String>)
    requires
        start <= end <= h@.len(),
        byte_len(h@) <= 253,
    ensures
        match label_fault(h@.subrange(start as int, end as int)) {
            None => r is None,
            Some(f) => r matches Some(m) && m@ == hostname_fault_text(f),
        },
{
    let ghost label = h@.subrange(start as int, end as int);
    if start == end {
        return Some(owned("hostname contains empty label (consecutive dots)"));
    }
    let n = byte_len_of(h.as_slice(), start, end, 253);
    if n > 63 {
        let p = prefix_end(h, start, end, 20);
        let q = concat3("label '", string_of(h.as_slice(), start, p).as_str(), "' exceeds 63 characters (got ");
        let m = concat3(q.as_str(), decimal_string(n as u64).as_str(), ")");
        return Some(m);
    }
    if h[start] == '-' || h[end - 1] == '-' {
        let m = concat3("label '", string_of(h.as_slice(), start, end).as_str(), "' must not start or end with a hyphen");
        return Some(m);
    }
    let mut k = start;
    while k < end
        invariant
            start <= k <= end <= h@.len(),
            label == h@.subrange(start as int, end as int),
            label.len() > 0,
            byte_len(label) <= 63,
            !(label[0] == '-' || label.last() == '-'),
            forall|i: int| 0 <= i < k - start ==> is_label_char(#[trigger] label[i]),
        decreases end - k,
    {
        let c = h[k];
        if !(('0' <= c && c <= '9') || ('a' <= c && c <= 'z') || ('A' <= c && c <= 'Z') || c == '-') {
            assert(!is_label_char(label[k - start]));
            let m = concat3(
                "label '",
                string_of(h.as_slice(), start, end).as_str(),
                "' contains invalid characters (only alphanumeric and hyphens allowed)",
            );
            return Some(m);
        }
        k = k + 1;
    }
    None
}

/// End of the longest prefix of `h[start..end]` that takes at most `k` bytes.
pub(crate) fn prefix_end(h: &Vec<char>, start: usize, end: usize, k: usize) -> (p: usize)
    requires
        start <= end <= h@.len(),
    ensures
        start <= p <= end,
        h@.subrange(start as int, p as int) == take_bytes(h@.subrange(start as int, end as int), k as int),
    decreases end - start,
{
    if start == end {
        return start;
    }
    let w = utf8_width(h[start]);
    if w > k {
        return start;
    }
    let p = prefix_end(h, start + 1, end, k - w);
    proof {
        let s = h@.subrange(start as int, end as int);
        assert(s.drop_first() =~= h@.subrange(start + 1, end as int));
        assert(h@.subrange(start as int, p as int) =~= seq![s[0]] + h@.subrange(start + 1, p as int));
    }
    p
}

/// Why a backend address is rejected.
pub enum AddressFault {
    Scheme,
    BadBracket,
    NotHostPort,
    MissingPort,
    EmptyHost,
    BadPort(Seq<char>),
    Localhost,
    Loopback,
    Unspecified,
}

/// The message that reports an address fault.
pub open spec fn address_fault_text(f: AddressFault) -> Seq<char> {
    match f {
        AddressFault::Scheme => "address must not contain a scheme (e.g. 'http://')"@,
        AddressFault::BadBracket => "invalid IPv6 bracket notation"@,
        AddressFault::NotHostPort => "address must be in host:port format"@,
        AddressFault::MissingPort => "address must be in host:port format (missing port)"@,
        AddressFault::EmptyHost => "address has empty host"@,
        AddressFault::BadPort(p) => "invalid port: '"@ + p + "'"@,
        AddressFault::Localhost => "localhost addresses are not allowed (SSRF prevention)"@,
        AddressFault::Loopback => "loopback addresses are not allowed (SSRF prevention)"@,
        AddressFault::Unspecified => "unspecified address (0.0.0.0) is not allowed"@,
    }
}

/// The text `://` starts at index `i` of `a`.
pub open spec fn scheme_separator_at(a: Seq<char>, i: int) -> bool {
    0 <= i && i + 3 <= a.len() && a[i] == ':' && a[i + 1] == '/' && a[i + 2] == '/'
}

/// `a` contains the text `://`.
pub open spec fn has_scheme_separator(a: Seq<char>) -> bool {
    exists|i: int| #[trigger] scheme_separator_at(a, i)
}

/// Index of the first `c` in `a` at or after `from`.
pub open spec fn first_index_from(a: Seq<char>, c: char, from: int) -> Option<int>
    decreases a.len() - from,
{
    if from < 0 || from >= a.len() {
        None
    } else if a[from] == c {
        Some(from)
    } else {
        first_index_from(a, c, from + 1)
    }
}

/// Index of the last `c` in `a[..upto]`.
pub open spec fn last_index_before(a: Seq<char>, c: char, upto: int) -> Option<int>
    decreases upto,
{
    if upto <= 0 || upto > a.len() {
        None
    } else if a[upto - 1] == c {
        Some(upto - 1)
    } else {
        last_index_before(a, c, upto - 1)
    }
}

/// The host and port text of a `host:port` or `[host]:port` address.
pub open spec fn split_host_port(a: Seq<char>) -> Result<(Seq<char>, Seq<char>), AddressFault> {
    if a.len() > 0 && a[0] == '[' {
        match first_index_from(a, ']', 0) {
            None => Err(AddressFault::BadBracket),
            Some(be) => {
                let rest = a.subrange(be + 1, a.len() as int);
                if rest.len() == 0 || rest[0] != ':' {
                    Err(AddressFault::NotHostPort)
                } else {
                    Ok((a.subrange(1, be), rest.drop_first()))
                }
            },
        }
    } else {
        match last_index_before(a, ':', a.len() as int) {
            None => Err(AddressFault::MissingPort),
            Some(cp) => Ok((a.subrange(0, cp), a.subrange(cp + 1, a.len() as int))),
        }
    }
}

pub open spec fn is_digit(c: char) -> bool {
    '0' <= c <= '9'
}

/// The number written by a sequence of decimal digits.
pub open spec fn digits_value(s: Seq<char>) -> nat
    decreases s.len(),
{
    if s.len() == 0 {
        0
    } else {
        digits_value(s.drop_last()) * 10 + (s.last() as int - 48) as nat
    }
}

/// `s` without a leading `+`.
pub open spec fn strip_plus(s: Seq<char>) -> Seq<char> {
    if s.len() > 0 && s[0] == '+' {
        s.drop_first()
    } else {
        s
    }
}

/// One or more decimal digits whose value is at most 65535.
pub open spec fn u16_digits(d: Seq<char>) -> bool {
    &&& d.len() > 0
    &&& forall|i: int| 0 <= i < d.len() ==> is_digit(#[trigger] d[i])
    &&& digits_value(d) <= 65535
}

/// Whether `u16::from_str` accepts `s`: an optional `+`, then one or more
/// decimal digits whose value is at most 65535.
pub open spec fn parses_as_u16(s: Seq<char>) -> bool {
    u16_digits(strip_plus(s))
}

/// Whether lower-casing `host` gives `localhost`. Only ASCII letters
/// lower-case to the letters of `localhost`, so this is an ASCII
/// case-insensitive comparison.
pub open spec fn is_localhost_name(host: Seq<char>) -> bool {
    host.len() == 9 && forall|i: int| 0 <= i < 9 ==> ascii_lower(#[trigger] host[i]) == "localhost"@[i]
}

/// The standard notion of a loopback address: 127.0.0.0/8 or `::1`.
pub open spec fn is_loopback(ip: IpAddress) -> bool {
    match ip {
        IpAddress::V4(a) => a / 0x100_0000 == 127,
        IpAddress::V6(a) => a == 1,
    }
}

/// The unspecified address: 0.0.0.0 or `::`.
pub open spec fn is_unspecified(ip: IpAddress) -> bool {
    match ip {
        IpAddress::V4(a) => a == 0,
        IpAddress::V6(a) => a == 0,
    }
}

/// The address an IP address stands for: an IPv4-mapped IPv6 address
/// (`::ffff:a.b.c.d`) stands for its IPv4 address, any other for itself.
pub open spec fn unmapped(ip: IpAddress) -> IpAddress {
    match ip {
        IpAddress::V6(a) => if a / 0x1_0000_0000 == 0xffff {
            IpAddress::V4((a % 0x1_0000_0000) as u32)
        } else {
            ip
        },
        IpAddress::V4(_) => ip,
    }
}

fn unmap(ip: IpAddress) -> (r: IpAddress)
    ensures
        r == unmapped(ip),
{
    match ip {
        IpAddress::V6(a) => if a / 0x1_0000_0000 == 0xffff {
            IpAddress::V4((a % 0x1_0000_0000) as u32)
        } else {
            ip
        },
        IpAddress::V4(_) => ip,
    }
}

/// Why `a` is not an acceptable backend address, if it is not. An
/// IPv4-mapped address is judged by the IPv4 address it stands for.
pub open spec fn address_fault(a: Seq<char>) -> Option<AddressFault> {
    if has_scheme_separator(a) {
        Some(AddressFault::Scheme)
    } else {
        match split_host_port(a) {
            Err(f) => Some(f),
            Ok((host, port)) => if host.len() == 0 {
                Some(AddressFault::EmptyHost)
            } else if !parses_as_u16(port) {
                Some(AddressFault::BadPort(port))
            } else if is_localhost_name(host) {
                Some(AddressFault::Localhost)
            } else {
                match ip_literal(host) {
                    Some(ip) => if is_loopback(unmapped(ip)) {
                        Some(AddressFault::Loopback)
                    } else if is_unspecified(unmapped(ip)) {
                        Some(AddressFault::Unspecified)
                    } else {
                        None
                    },
                    None => None,
                }
            },
        }
    }
}

/// Validate a backend address in `host:port` format.
///
/// - Must NOT contain a scheme (e.g. `http://`, `file://`).
/// - Must be in `host:port` format (or `[ipv6]:port`) with a valid u16 port.
/// - Must NOT be a localhost/loopback address (SSRF prevention), also in
///   its IPv4-mapped IPv6 form (`::ffff:127.0.0.1`).
/// - Must NOT be an unspecified address (`0.0.0.0`, `::`, `::ffff:0.0.0.0`).
pub fn validate_backend_address(address: &str) -> (r: Result<(), String>)
    ensures
        match address_fault(address@) {
            None => r is Ok,
            Some(f) => r matches Err(m) && m@ == address_fault_text(f),
        },
{
    let a = chars_of(address);
    let n = a.len();
    let mut i: usize = 0;
    while n >= 3 && i <= n - 3
        invariant
            n == a@.len(),
            a@ == address@,
            forall|j: int| 0 <= j < i ==> !#[trigger] scheme_separator_at(a@, j),
        decreases n - i,
    {
        if a[i] == ':' && a[i + 1] == '/' && a[i + 2] == '/' {
            assert(scheme_separator_at(a@, i as int));
            return Err(owned("address must not contain a scheme (e.g. 'http://')"));
        }
        i = i + 1;
    }
    let (host_from, host_to, port_from) = match host_port_bounds(&a) {
        Ok(b) => b,
        Err(m) => {
            return Err(m);
        },
    };
    if host_from == host_to {
        return Err(owned("address has empty host"));
    }
    let port = string_of(a.as_slice(), port_from, n);
    if !port_is_u16(&a, port_from) {
        return Err(concat3("invalid port: '", port.as_str(), "'"));
    }
    if is_localhost_chars(&a, host_from, host_to) {
        return Err(owned("localhost addresses are not allowed (SSRF prevention)"));
    }
    let host = string_of(a.as_slice(), host_from, host_to);
    match parse_ip_literal(host.as_str()) {
        Some(parsed) => {
            let ip = unmap(parsed);
            let loopback = match ip {
                IpAddress::V4(v) => v / 0x100_0000 == 127,
                IpAddress::V6(v) => v == 1,
            };
            if loopback {
                return Err(owned("loopback addresses are not allowed (SSRF prevention)"));
            }
            let unspecified = match ip {
                IpAddress::V4(v) => v == 0,
                IpAddress::V6(v) => v == 0,
            };
            if unspecified {
                return Err(owned("unspecified address (0.0.0.0) is not allowed"));
            }
            Ok(())
        },
        None => Ok(()),
    }
}

/// Bounds of the host (`from..to`) and start of the port text.
fn host_port_bounds(a: &Vec<char>) -> (r: Result<(usize, usize, usize), String>)
    ensures
        match split_host_port(a@) {
            Err(f) => r matches Err(m) && m@ == address_fault_text(f),
            Ok((host, port)) => r matches Ok((hf, ht, pf)) && hf <= ht <= a@.len() && pf <= a@.len()
                && host == a@.subrange(hf as int, ht as int) && port == a@.subrange(pf as int, a@.len() as int),
        },
{
    let n = a.len();
    if n > 0 && a[0] == '[' {
        let mut k: usize = 0;
        while k < n && a[k] != ']'
            invariant
                k <= n == a@.len(),
                first_index_from(a@, ']', 0) == first_index_from(a@, ']', k as int),
            decreases n - k,
        {
            k = k + 1;
        }
        if k == n {
            return Err(owned("invalid IPv6 bracket notation"));
        }
        proof {
            assert(first_index_from(a@, ']', 0) == Some(k as int));
        }
        if k + 1 >= n || a[k + 1] != ':' {
            return Err(owned("address must be in host:port format"));
        }
        proof {
            let rest = a@.subrange(k + 1, n as int);
            assert(rest.drop_first() =~= a@.subrange(k + 2, n as int));
        }
        Ok((1, k, k + 2))
    } else {
        let mut k: usize = n;
        while k > 0 && a[k - 1] != ':'
            invariant
                k <= n == a@.len(),
                last_index_before(a@, ':', n as int) == last_index_before(a@, ':', k as int),
            decreases k,
        {
            k = k - 1;
        }
        if k == 0 {
            return Err(owned("address must be in host:port format (missing port)"));
        }
        proof {
            assert(last_index_before(a@, ':', n as int) == Some(k - 1));
        }
        Ok((0, k - 1, k))
    }
}

/// Whether `a[from..]` is text that `u16::from_str` accepts.
fn port_is_u16(a: &Vec<char>, from: usize) -> (r: bool)
    requires
        from <= a@.len(),
    ensures
        r == parses_as_u16(a@.subrange(from as int, a@.len() as int)),
{
    let ghost s = a@.subrange(from as int, a@.len() as int);
    let n = a.len();
    let start = if from < n && a[from] == '+' {
        from + 1
    } else {
        from
    };
    let ghost d = a@.subrange(start as int, n as int);
    proof {
        if from < n && a@[from as int] == '+' {
            assert(s.len() > 0 && s[0] == '+');
            assert(s.drop_first() =~= d);
        } else {
            assert(!(s.len() > 0 && s[0] == '+'));
            assert(s =~= d);
        }
    }
    if start == n {
        return false;
    }
    assert(strip_plus(s) == d);
    let mut value: u32 = 0;
    let mut k = start;
    while k < n
        invariant
            start <= k <= n == a@.len(),
            d == a@.subrange(start as int, n as int),
            d.len() > 0,
            s == a@.subrange(from as int, a@.len() as int),
            strip_plus(s) == d,
            forall|i: int| 0 <= i < k - start ==> is_digit(#[trigger] d[i]),
            value == if digits_value(a@.subrange(start as int, k as int)) <= 65535 {
                digits_value(a@.subrange(start as int, k as int))
            } else {
                65536
            },
        decreases n - k,
    {
        let c = a[k];
        if !('0' <= c && c <= '9') {
            assert(!is_digit(d[k - start]));
            return false;
        }
        proof {
            assert(a@.subrange(start as int, k + 1).drop_last() =~= a@.subrange(start as int, k as int));
        }
        let dv = (c as u32) - 48;
        value = if value > 65535 {
            65536
        } else {
            let v = value * 10 + dv;
            if v > 65535 {
                65536
            } else {
                v
            }
        };
        k = k + 1;
    }
    assert(a@.subrange(start as int, n as int) == d);
    value <= 65535
}

/// Whether `a[from..to]` is `localhost` up to ASCII case.
fn is_localhost_chars(a: &Vec<char>, from: usize, to: usize) -> (r: bool)
    requires
        from <= to <= a@.len(),
    ensures
        r == is_localhost_name(a@.subrange(from as int, to as int)),
{
    let ghost h = a@.subrange(from as int, to as int);
    if to - from != 9 {
        return false;
    }
    let target = chars_of("localhost");
    proof {
        reveal_strlit("localhost");
    }
    let mut k: usize = 0;
    while k < 9
        invariant
            k <= 9,
            to - from == 9,
            from <= to <= a@.len(),
            h == a@.subrange(from as int, to as int),
            target@ == "localhost"@,
            target@.len() == 9,
            forall|i: int| 0 <= i < k ==> ascii_lower(#[trigger] h[i]) == "localhost"@[i],
        decreases 9 - k,
    {
        let c = a[from + k];
        let lc = if 'A' <= c && c <= 'Z' {
            ((c as u32) + 32) as u8 as char
        } else {
            c
        };
        assert(lc == ascii_lower(h[k as int]));
        if lc != target[k] {
            return false;
        }
        k = k + 1;
    }
    true
}

/// Health of a backend connection.
#[derive(Debug, Clone, Copy, PartialEq, Eq, Structural)]
pub enum BackendHealth {
    Connecting,
    Healthy,
    Unavailable,
    /// The backend turned out to be this very server; it is never dialled
    /// again.
    Rejected,
}

/// Role of a backend in the federation.
#[derive(Debug, Clone, Copy, PartialEq, Eq, Structural)]
pub enum BackendRole {
    Member,
}

/// A registered backend server.
#[derive(Debug)]
pub struct BackendEntry {
    pub address: String,
    pub token: Option<String>,
    pub hostname: Option<String>,
    pub health: BackendHealth,
    pub role: BackendRole,
    /// The id the backend reported of itself, once known.
    pub server_id: Option<String>,
}

/// The mathematical content of a [`BackendEntry`].
pub struct BackendEntryView {
    pub address: Seq<char>,
    pub token: Option<Seq<char>>,
    pub hostname: Option<Seq<char>>,
    pub health: BackendHealth,
    pub role: BackendRole,
    pub server_id: Option<Seq<char>>,
}

impl View for BackendEntry {
    type V = BackendEntryView;

    open spec fn view(&self) -> BackendEntryView {
        BackendEntryView {
            address: self.address@,
            token: opt_string_view(self.token),
            hostname: opt_string_view(self.hostname),
            health: self.health,
            role: self.role,
            server_id: opt_string_view(self.server_id),
        }
    }
}

fn clone_opt_string(o: &Option<String>) -> (r: Option<String>)
    ensures
        opt_string_view(r) == opt_string_view(*o),
{
    match o {
        Some(s) => Some(s.clone()),
        None => None,
    }
}

impl Clone for BackendEntry {
    fn clone(&self) -> (r: Self)
        ensures
            r@ == self@,
    {
        BackendEntry {
            address: self.address.clone(),
            token: clone_opt_string(&self.token),
            hostname: clone_opt_string(&self.hostname),
            health: self.health,
            role: self.role,
            server_id: clone_opt_string(&self.server_id),
        }
    }
}

/// Errors of registry operations.
#[derive(Debug)]
pub enum RegistryError {
    DuplicateAddress(String),
    HostnameCollision(String),
    NotFound(String),
    InvalidAddress(String),
    InvalidHostname(String),
}

/// The mathematical content of a [`RegistryError`].
pub enum RegistryErrorView {
    DuplicateAddress(Seq<char>),
    HostnameCollision(Seq<char>),
    NotFound(Seq<char>),
    InvalidAddress(Seq<char>),
    InvalidHostname(Seq<char>),
}

impl View for RegistryError {
    type V = RegistryErrorView;

    open spec fn view(&self) -> RegistryErrorView {
        match self {
            RegistryError::DuplicateAddress(s) => RegistryErrorView::DuplicateAddress(s@),
            RegistryError::HostnameCollision(s) => RegistryErrorView::HostnameCollision(s@),
            RegistryError::NotFound(s) => RegistryErrorView::NotFound(s@),
            RegistryError::InvalidAddress(s) => RegistryErrorView::InvalidAddress(s@),
            RegistryError::InvalidHostname(s) => RegistryErrorView::InvalidHostname(s@),
        }
    }
}

/// The human-readable text of a registry error.
pub open spec fn registry_error_text(e: RegistryErrorView) -> Seq<char> {
    match e {
        RegistryErrorView::DuplicateAddress(s) => "Backend already registered: "@ + s,
        RegistryErrorView::HostnameCollision(s) => "Hostname already in use: "@ + s,
        RegistryErrorView::NotFound(s) => "Backend not found: "@ + s,
        RegistryErrorView::InvalidAddress(s) => "Invalid backend address: "@ + s,
        RegistryErrorView::InvalidHostname(s) => "Invalid hostname: "@ + s,
    }
}

impl RegistryError {
    /// The human-readable text of this error.
    pub fn to_text(&self) -> (r: String)
        ensures
            r@ == registry_error_text(self@),
    {
        match self {
            RegistryError::DuplicateAddress(s) => concat2("Backend already registered: ", s.as_str()),
            RegistryError::HostnameCollision(s) => concat2("Hostname already in use: ", s.as_str()),
            RegistryError::NotFound(s) => concat2("Backend not found: ", s.as_str()),
            RegistryError::InvalidAddress(s) => concat2("Invalid backend address: ", s.as_str()),
            RegistryError::InvalidHostname(s) => concat2("Invalid hostname: ", s.as_str()),
        }
    }
}

pub open spec fn entries_view(v: Seq<BackendEntry>) -> Seq<BackendEntryView> {
    v.map_values(|e: BackendEntry| e@)
}

/// Some entry of `s` has address `a`.
pub open spec fn has_address(s: Seq<BackendEntryView>, a: Seq<char>) -> bool {
    exists|i: int| 0 <= i < s.len() && (#[trigger] s[i]).address == a
}

/// Some entry of `s` has hostname `h`.
pub open spec fn has_hostname(s: Seq<BackendEntryView>, h: Seq<char>) -> bool {
    exists|i: int| 0 <= i < s.len() && (#[trigger] s[i]).hostname == Some(h)
}

/// No two entries share an address, and no two entries share a hostname.
pub open spec fn registry_wf(s: Seq<BackendEntryView>) -> bool {
    &&& forall|i: int, j: int| 0 <= i < s.len() && 0 <= j < s.len() && i != j ==> (#[trigger] s[i]).address != (#[trigger] s[j]).address
    &&& forall|i: int, j: int| 0 <= i < s.len() && 0 <= j < s.len() && i != j && (#[trigger] s[i]).hostname is Some ==> s[i].hostname != (#[trigger] s[j]).hostname
}

/// Registry after `add_unchecked(e)`.
pub open spec fn add_unchecked_step(s: Seq<BackendEntryView>, e: BackendEntryView) -> Result<Seq<BackendEntryView>, RegistryErrorView> {
    if has_address(s, e.address) {
        Err(RegistryErrorView::DuplicateAddress(e.address))
    } else {
        match e.hostname {
            Some(h) => if has_hostname(s, h) {
                Err(RegistryErrorView::HostnameCollision(h))
            } else {
                Ok(s.push(e))
            },
            None => Ok(s.push(e)),
        }
    }
}

/// Registry after `add(e)`: the address, then the hostname are validated
/// first.
pub open spec fn add_step(s: Seq<BackendEntryView>, e: BackendEntryView) -> Result<Seq<BackendEntryView>, RegistryErrorView> {
    match address_fault(e.address) {
        Some(f) => Err(RegistryErrorView::InvalidAddress(address_fault_text(f))),
        None => match e.hostname {
            Some(h) => match hostname_fault(h) {
                Some(f) => Err(RegistryErrorView::InvalidHostname(hostname_fault_text(f))),
                None => add_unchecked_step(s, e),
            },
            None => add_unchecked_step(s, e),
        },
    }
}

/// The entries of `s` whose address is not `a`.
pub open spec fn without_address(s: Seq<BackendEntryView>, a: Seq<char>) -> Seq<BackendEntryView>
    decreases s.len(),
{
    if s.len() == 0 {
        seq![]
    } else {
        let r = without_address(s.drop_last(), a);
        if s.last().address == a {
            r
        } else {
            r.push(s.last())
        }
    }
}

/// The entries of `s` whose hostname is not `h`.
pub open spec fn without_hostname(s: Seq<BackendEntryView>, h: Seq<char>) -> Seq<BackendEntryView>
    decreases s.len(),
{
    if s.len() == 0 {
        seq![]
    } else {
        let r = without_hostname(s.drop_last(), h);
        if s.last().hostname == Some(h) {
            r
        } else {
            r.push(s.last())
        }
    }
}

/// The healthy entries of `s`, in order.
pub open spec fn healthy_entries(s: Seq<BackendEntryView>) -> Seq<BackendEntryView>
    decreases s.len(),
{
    if s.len() == 0 {
        seq![]
    } else {
        let r = healthy_entries(s.drop_last());
        if s.last().health == BackendHealth::Healthy {
            r.push(s.last())
        } else {
            r
        }
    }
}

/// Index of the first entry of `s[from..]` with address `a`.
pub open spec fn index_of_address(s: Seq<BackendEntryView>, a: Seq<char>, from: int) -> Option<int>
    decreases s.len() - from,
{
    if from < 0 || from >= s.len() {
        None
    } else if s[from].address == a {
        Some(from)
    } else {
        index_of_address(s, a, from + 1)
    }
}

/// Index of the first entry of `s[from..]` with hostname `h`.
pub open spec fn index_of_hostname(s: Seq<BackendEntryView>, h: Seq<char>, from: int) -> Option<int>
    decreases s.len() - from,
{
    if from < 0 || from >= s.len() {
        None
    } else if s[from].hostname == Some(h) {
        Some(from)
    } else {
        index_of_hostname(s, h, from + 1)
    }
}

/// Some entry other than the one at address `a` has hostname `h`.
pub open spec fn hostname_taken_elsewhere(s: Seq<BackendEntryView>, a: Seq<char>, h: Seq<char>) -> bool {
    exists|i: int| 0 <= i < s.len() && (#[trigger] s[i]).address != a && s[i].hostname == Some(h)
}

/// Registry after `set_hostname(a, h)`.
pub open spec fn set_hostname_step(s: Seq<BackendEntryView>, a: Seq<char>, h: Seq<char>) -> Result<Seq<BackendEntryView>, RegistryErrorView> {
    if hostname_taken_elsewhere(s, a, h) {
        Err(RegistryErrorView::HostnameCollision(h))
    } else {
        match index_of_address(s, a, 0) {
            None => Err(RegistryErrorView::NotFound(a)),
            Some(i) => Ok(s.update(i, BackendEntryView { hostname: Some(h), ..s[i] })),
        }
    }
}

/// Registry after `set_health(a, health)`.
pub open spec fn set_health_step(s: Seq<BackendEntryView>, a: Seq<char>, health: BackendHealth) -> Seq<BackendEntryView> {
    match index_of_address(s, a, 0) {
        None => s,
        Some(i) => s.update(i, BackendEntryView { health: health, ..s[i] }),
    }
}

/// The registry after recording `id` as the server id of the backend at
/// `a` (unchanged when there is none).
pub open spec fn set_server_id_step(s: Seq<BackendEntryView>, a: Seq<char>, id: Seq<char>) -> Seq<BackendEntryView> {
    match index_of_address(s, a, 0) {
        None => s,
        Some(i) => s.update(i, BackendEntryView { server_id: Some(id), ..s[i] }),
    }
}

pub proof fn lemma_index_of_address(s: Seq<BackendEntryView>, a: Seq<char>, from: int)
    requires
        0 <= from,
    ensures
        index_of_address(s, a, from) matches Some(i) ==> from <= i < s.len() && s[i].address == a
            && forall|j: int| from <= j < i ==> (#[trigger] s[j]).address != a,
        index_of_address(s, a, from) is None ==> forall|j: int| from <= j < s.len() ==> (#[trigger] s[j]).address != a,
    decreases s.len() - from,
{
    if from < s.len() && s[from].address != a {
        lemma_index_of_address(s, a, from + 1);
    }
}

pub proof fn lemma_index_of_hostname(s: Seq<BackendEntryView>, h: Seq<char>, from: int)
    requires
        0 <= from,
    ensures
        index_of_hostname(s, h, from) matches Some(i) ==> from <= i < s.len() && s[i].hostname == Some(h)
            && forall|j: int| from <= j < i ==> (#[trigger] s[j]).hostname != Some(h),
        index_of_hostname(s, h, from) is None ==> forall|j: int| from <= j < s.len() ==> (#[trigger] s[j]).hostname != Some(h),
    decreases s.len() - from,
{
    if from < s.len() && s[from].hostname != Some(h) {
        lemma_index_of_hostname(s, h, from + 1);
    }
}

pub proof fn lemma_without_address(s: Seq<BackendEntryView>, a: Seq<char>)
    ensures
        forall|i: int| 0 <= i < without_address(s, a).len() ==> (#[trigger] without_address(s, a)[i]).address != a,
        forall|i: int| 0 <= i < s.len() && s[i].address != a ==> without_address(s, a).contains(#[trigger] s[i]),
        forall|x: BackendEntryView| #[trigger] without_address(s, a).contains(x) ==> s.contains(x),
        without_address(s, a).len() < s.len() <==> has_address(s, a),
        without_address(s, a).len() <= s.len(),
    decreases s.len(),
{
    if s.len() > 0 {
        let p = s.drop_last();
        lemma_without_address(p, a);
        assert forall|i: int| 0 <= i < s.len() && s[i].address != a implies without_address(s, a).contains(#[trigger] s[i]) by {
            let r = without_address(p, a);
            if i < s.len() - 1 {
                assert(p[i] == s[i]);
                assert(r.contains(p[i]));
                let j = choose|j: int| 0 <= j < r.len() && r[j] == p[i];
                if without_address(s, a) != r {
                    assert(r.push(s.last())[j] == s[i]);
                }
            } else {
                assert(r.push(s.last())[r.len() as int] == s[i]);
            }
        }
        assert forall|x: BackendEntryView| #[trigger] without_address(s, a).contains(x) implies s.contains(x) by {
            if without_address(p, a).contains(x) {
                let j = choose|j: int| 0 <= j < p.len() && p[j] == x;
                assert(s[j] == x);
            } else {
                assert(s[s.len() - 1] == x);
            }
        }
        if has_address(p, a) {
            let j = choose|j: int| 0 <= j < p.len() && (#[trigger] p[j]).address == a;
            assert(s[j].address == a);
        }
        if has_address(s, a) && !has_address(p, a) {
            let j = choose|j: int| 0 <= j < s.len() && (#[trigger] s[j]).address == a;
            if j < s.len() - 1 {
                assert(p[j].address == a);
            }
        }
    }
}

pub proof fn lemma_without_hostname(s: Seq<BackendEntryView>, h: Seq<char>)
    ensures
        forall|i: int| 0 <= i < without_hostname(s, h).len() ==> (#[trigger] without_hostname(s, h)[i]).hostname != Some(h),
        forall|i: int| 0 <= i < s.len() && s[i].hostname != Some(h) ==> without_hostname(s, h).contains(#[trigger] s[i]),
        forall|x: BackendEntryView| #[trigger] without_hostname(s, h).contains(x) ==> s.contains(x),
        without_hostname(s, h).len() < s.len() <==> has_hostname(s, h),
        without_hostname(s, h).len() <= s.len(),
    decreases s.len(),
{
    if s.len() > 0 {
        let p = s.drop_last();
        lemma_without_hostname(p, h);
        assert forall|i: int| 0 <= i < s.len() && s[i].hostname != Some(h) implies without_hostname(s, h).contains(#[trigger] s[i]) by {
            let r = without_hostname(p, h);
            if i < s.len() - 1 {
                assert(p[i] == s[i]);
                assert(r.contains(p[i]));
                let j = choose|j: int| 0 <= j < r.len() && r[j] == p[i];
                if without_hostname(s, h) != r {
                    assert(r.push(s.last())[j] == s[i]);
                }
            } else {
                assert(r.push(s.last())[r.len() as int] == s[i]);
            }
        }
        assert forall|x: BackendEntryView| #[trigger] without_hostname(s, h).contains(x) implies s.contains(x) by {
            if without_hostname(p, h).contains(x) {
                let j = choose|j: int| 0 <= j < p.len() && p[j] == x;
                assert(s[j] == x);
            } else {
                assert(s[s.len() - 1] == x);
            }
        }
        if has_hostname(p, h) {
            let j = choose|j: int| 0 <= j < p.len() && (#[trigger] p[j]).hostname == Some(h);
            assert(s[j].hostname == Some(h));
        }
        if has_hostname(s, h) && !has_hostname(p, h) {
            let j = choose|j: int| 0 <= j < s.len() && (#[trigger] s[j]).hostname == Some(h);
            if j < s.len() - 1 {
                assert(p[j].hostname == Some(h));
            }
        }
    }
}

pub proof fn lemma_without_absent_address(s: Seq<BackendEntryView>, a: Seq<char>)
    requires
        !has_address(s, a),
    ensures
        without_address(s, a) == s,
    decreases s.len(),
{
    if s.len() > 0 {
        let p = s.drop_last();
        assert(!has_address(p, a)) by {
            if has_address(p, a) {
                let j = choose|j: int| 0 <= j < p.len() && (#[trigger] p[j]).address == a;
                assert(s[j].address == a);
            }
        }
        lemma_without_absent_address(p, a);
        assert(s[s.len() - 1].address != a);
        assert(p.push(s.last()) =~= s);
    }
}

/// In a well-formed registry, removing an address removes exactly the one
/// entry that has it.
pub proof fn lemma_without_address_unique(s: Seq<BackendEntryView>, a: Seq<char>, i: int)
    requires
        registry_wf(s),
        0 <= i < s.len(),
        s[i].address == a,
    ensures
        without_address(s, a) == s.remove(i),
    decreases s.len(),
{
    let p = s.drop_last();
    if i == s.len() - 1 {
        assert(!has_address(p, a)) by {
            if has_address(p, a) {
                let j = choose|j: int| 0 <= j < p.len() && (#[trigger] p[j]).address == a;
                assert(s[j].address == s[i].address);
            }
        }
        lemma_without_absent_address(p, a);
        assert(s.remove(i) =~= p);
    } else {
        assert(s[s.len() - 1].address != a);
        assert(registry_wf(p));
        lemma_without_address_unique(p, a, i);
        assert(s.remove(i) =~= p.remove(i).push(s.last()));
    }
}

pub proof fn lemma_without_absent_hostname(s: Seq<BackendEntryView>, h: Seq<char>)
    requires
        !has_hostname(s, h),
    ensures
        without_hostname(s, h) == s,
    decreases s.len(),
{
    if s.len() > 0 {
        let p = s.drop_last();
        assert(!has_hostname(p, h)) by {
            if has_hostname(p, h) {
                let j = choose|j: int| 0 <= j < p.len() && (#[trigger] p[j]).hostname == Some(h);
                assert(s[j].hostname == Some(h));
            }
        }
        lemma_without_absent_hostname(p, h);
        assert(s[s.len() - 1].hostname != Some(h));
        assert(p.push(s.last()) =~= s);
    }
}

/// In a well-formed registry, removing a hostname removes exactly the one
/// entry that has it.
pub proof fn lemma_without_hostname_unique(s: Seq<BackendEntryView>, h: Seq<char>, i: int)
    requires
        registry_wf(s),
        0 <= i < s.len(),
        s[i].hostname == Some(h),
    ensures
        without_hostname(s, h) == s.remove(i),
    decreases s.len(),
{
    let p = s.drop_last();
    if i == s.len() - 1 {
        assert(!has_hostname(p, h)) by {
            if has_hostname(p, h) {
                let j = choose|j: int| 0 <= j < p.len() && (#[trigger] p[j]).hostname == Some(h);
                assert(s[j].hostname == s[i].hostname);
            }
        }
        lemma_without_absent_hostname(p, h);
        assert(s.remove(i) =~= p);
    } else {
        assert(s[s.len() - 1].hostname != Some(h));
        assert(registry_wf(p));
        lemma_without_hostname_unique(p, h, i);
        assert(s.remove(i) =~= p.remove(i).push(s.last()));
    }
}

/// The set of registered backends: unique addresses, unique hostnames.
#[derive(Debug)]
pub struct BackendRegistry {
    backends: Vec<BackendEntry>,
}

impl View for BackendRegistry {
    type V = Seq<BackendEntryView>;

    closed spec fn view(&self) -> Seq<BackendEntryView> {
        entries_view(self.backends@)
    }
}

fn find_address(v: &Vec<BackendEntry>, a: &str) -> (r: Option<usize>)
    ensures
        match r {
            Some(i) => index_of_address(entries_view(v@), a@, 0) == Some(i as int) && i < v@.len(),
            None => index_of_address(entries_view(v@), a@, 0) is None,
        },
{
    let ghost s = entries_view(v@);
    let mut k: usize = 0;
    while k < v.len()
        invariant
            k <= v@.len(),
            s == entries_view(v@),
            index_of_address(s, a@, 0) == index_of_address(s, a@, k as int),
        decreases v@.len() - k,
    {
        if str_eq(v[k].address.as_str(), a) {
            return Some(k);
        }
        k = k + 1;
    }
    None
}

fn find_hostname(v: &Vec<BackendEntry>, h: &str) -> (r: Option<usize>)
    ensures
        match r {
            Some(i) => index_of_hostname(entries_view(v@), h@, 0) == Some(i as int) && i < v@.len(),
            None => index_of_hostname(entries_view(v@), h@, 0) is None,
        },
{
    let ghost s = entries_view(v@);
    let mut k: usize = 0;
    while k < v.len()
        invariant
            k <= v@.len(),
            s == entries_view(v@),
            index_of_hostname(s, h@, 0) == index_of_hostname(s, h@, k as int),
        decreases v@.len() - k,
    {
        if opt_str_eq(&v[k].hostname, h) {
            return Some(k);
        }
        k = k + 1;
    }
    None
}

impl BackendRegistry {
    #[verifier::type_invariant]
    closed spec fn inv(self) -> bool {
        registry_wf(self@)
    }

    /// Create an empty registry.
    pub fn new() -> (r: Self)
        ensures
            r@ == Seq::<BackendEntryView>::empty(),
    {
        let r = BackendRegistry { backends: Vec::new() };
        assert(r@ =~= Seq::<BackendEntryView>::empty());
        r
    }

    /// The registry is well formed: unique addresses, unique hostnames.
    pub fn wf(&self) -> (r: bool)
        ensures
            r,
            registry_wf(self@),
    {
        proof {
            use_type_invariant(self);
        }
        true
    }

    /// Add a backend entry. Validates the address (and hostname if present),
    /// then rejects duplicate addresses and hostname collisions.
    pub fn add(&mut self, entry: BackendEntry) -> (r: Result<(), RegistryError>)
        ensures
            match add_step(old(self)@, entry@) {
                Ok(next) => r is Ok && final(self)@ == next,
                Err(e) => r matches Err(x) && x@ == e && final(self)@ == old(self)@,
            },
    {
        match validate_backend_address(entry.address.as_str()) {
            Err(m) => {
                return Err(RegistryError::InvalidAddress(m));
            },
            Ok(()) => {},
        }
        match &entry.hostname {
            Some(h) => match validate_hostname(h.as_str()) {
                Err(m) => {
                    return Err(RegistryError::InvalidHostname(m));
                },
                Ok(()) => {},
            },
            None => {},
        }
        self.add_unchecked(entry)
    }

    /// Add a backend entry WITHOUT validating the address or hostname.
    ///
    /// Intended for internal use (e.g. registering local test servers).
    /// Still checks for duplicate addresses and hostname collisions.
    pub fn add_unchecked(&mut self, entry: BackendEntry) -> (r: Result<(), RegistryError>)
        ensures
            match add_unchecked_step(old(self)@, entry@) {
                Ok(next) => r is Ok && final(self)@ == next,
                Err(e) => r matches Err(x) && x@ == e && final(self)@ == old(self)@,
            },
    {
        proof {
            use_type_invariant(&*self);
        }
        let ghost s = self@;
        match find_address(&self.backends, entry.address.as_str()) {
            Some(i) => {
                proof {
                    lemma_index_of_address(s, entry@.address, 0);
                }
                return Err(RegistryError::DuplicateAddress(entry.address));
            },
            None => {
                proof {
                    lemma_index_of_address(s, entry@.address, 0);
                }
            },
        }
        match &entry.hostname {
            Some(h) => match find_hostname(&self.backends, h.as_str()) {
                Some(i) => {
                    proof {
                        lemma_index_of_hostname(s, h@, 0);
                    }
                    return Err(RegistryError::HostnameCollision(h.clone()));
                },
                None => {
                    proof {
                        lemma_index_of_hostname(s, h@, 0);
                    }
                },
            },
            None => {},
        }
        let ghost e = entry@;
        proof {
            assert(entries_view(self.backends@.push(entry)) =~= s.push(e));
            assert(registry_wf(s.push(e)));
        }
        let mut v: Vec<BackendEntry> = Vec::new();
        std::mem::swap(&mut v, &mut self.backends);
        v.push(entry);
        self.backends = v;
        Ok(())
    }

    /// Remove a backend by address. Returns true if an entry was removed.
    pub fn remove_by_address(&mut self, addr: &str) -> (r: bool)
        ensures
            final(self)@ == without_address(old(self)@, addr@),
            r == has_address(old(self)@, addr@),
    {
        proof {
            use_type_invariant(&*self);
            lemma_without_address(self@, addr@);
        }
        let ghost s = self@;
        match find_address(&self.backends, addr) {
            Some(i) => {
                proof {
                    lemma_index_of_address(s, addr@, 0);
                    lemma_without_address_unique(s, addr@, i as int);
                    assert(entries_view(self.backends@.remove(i as int)) =~= s.remove(i as int));
                }
                let mut v: Vec<BackendEntry> = Vec::new();
                std::mem::swap(&mut v, &mut self.backends);
                v.remove(i);
                self.backends = v;
                true
            },
            None => {
                proof {
                    lemma_index_of_address(s, addr@, 0);
                    lemma_without_absent_address(s, addr@);
                }
                false
            },
        }
    }

    /// Remove a backend by hostname. Returns true if an entry was removed.
    pub fn remove_by_hostname(&mut self, hostname: &str) -> (r: bool)
        ensures
            final(self)@ == without_hostname(old(self)@, hostname@),
            r == has_hostname(old(self)@, hostname@),
    {
        proof {
            use_type_invariant(&*self);
            lemma_without_hostname(self@, hostname@);
        }
        let ghost s = self@;
        match find_hostname(&self.backends, hostname) {
            Some(i) => {
                proof {
                    lemma_index_of_hostname(s, hostname@, 0);
                    lemma_without_hostname_unique(s, hostname@, i as int);
                    assert(entries_view(self.backends@.remove(i as int)) =~= s.remove(i as int));
                }
                let mut v: Vec<BackendEntry> = Vec::new();
                std::mem::swap(&mut v, &mut self.backends);
                v.remove(i);
                self.backends = v;
                true
            },
            None => {
                proof {
                    lemma_index_of_hostname(s, hostname@, 0);
                    lemma_without_absent_hostname(s, hostname@);
                }
                false
            },
        }
    }

    /// List all backends.
    pub fn list(&self) -> (r: Vec<BackendEntry>)
        ensures
            entries_view(r@) == self@,
    {
        let mut r: Vec<BackendEntry> = Vec::new();
        let mut k: usize = 0;
        while k < self.backends.len()
            invariant
                k <= self.backends@.len(),
                entries_view(r@) == entries_view(self.backends@).take(k as int),
            decreases self.backends@.len() - k,
        {
            let e = self.backends[k].clone();
            proof {
                assert(entries_view(r@.push(e)) =~= entries_view(r@).push(e@));
                assert(entries_view(r@.push(e)) =~= entries_view(self.backends@).take(k + 1));
            }
            r.push(e);
            k = k + 1;
        }
        assert(entries_view(self.backends@).take(k as int) =~= self@);
        r
    }

    /// List only healthy backends.
    pub fn healthy(&self) -> (r: Vec<BackendEntry>)
        ensures
            entries_view(r@) == healthy_entries(self@),
    {
        let mut r: Vec<BackendEntry> = Vec::new();
        let mut k: usize = 0;
        while k < self.backends.len()
            invariant
                k <= self.backends@.len(),
                entries_view(r@) == healthy_entries(entries_view(self.backends@).take(k as int)),
            decreases self.backends@.len() - k,
        {
            proof {
                assert(entries_view(self.backends@).take(k + 1).drop_last() =~= entries_view(self.backends@).take(k as int));
            }
            if self.backends[k].health == BackendHealth::Healthy {
                let e = self.backends[k].clone();
                proof {
                    assert(entries_view(r@.push(e)) =~= entries_view(r@).push(e@));
                }
                r.push(e);
            }
            k = k + 1;
        }
        assert(entries_view(self.backends@).take(k as int) =~= self@);
        r
    }

    /// Look up a backend by hostname.
    pub fn get_by_hostname(&self, hostname: &str) -> (r: Option<BackendEntry>)
        ensures
            match index_of_hostname(self@, hostname@, 0) {
                Some(i) => r matches Some(e) && e@ == self@[i],
                None => r is None,
            },
    {
        match find_hostname(&self.backends, hostname) {
            Some(i) => Some(self.backends[i].clone()),
            None => None,
        }
    }

    /// Look up a backend by address.
    pub fn get_by_address(&self, address: &str) -> (r: Option<BackendEntry>)
        ensures
            match index_of_address(self@, address@, 0) {
                Some(i) => r matches Some(e) && e@ == self@[i],
                None => r is None,
            },
    {
        match find_address(&self.backends, address) {
            Some(i) => Some(self.backends[i].clone()),
            None => None,
        }
    }

    /// Set the hostname for a backend identified by address. Checks for
    /// hostname collisions with OTHER backends.
    pub fn set_hostname(&mut self, address: &str, hostname: &str) -> (r: Result<(), RegistryError>)
        ensures
            match set_hostname_step(old(self)@, address@, hostname@) {
                Ok(next) => r is Ok && final(self)@ == next,
                Err(e) => r matches Err(x) && x@ == e && final(self)@ == old(self)@,
            },
    {
        proof {
            use_type_invariant(&*self);
        }
        let ghost s = self@;
        let mut k: usize = 0;
        while k < self.backends.len()
            invariant
                k <= self.backends@.len(),
                s == entries_view(self.backends@),
                forall|j: int| 0 <= j < k ==> !((#[trigger] s[j]).address != address@ && s[j].hostname == Some(hostname@)),
            decreases self.backends@.len() - k,
        {
            if !str_eq(self.backends[k].address.as_str(), address) && opt_str_eq(&self.backends[k].hostname, hostname) {
                assert(s[k as int].address != address@ && s[k as int].hostname == Some(hostname@));
                return Err(RegistryError::HostnameCollision(owned(hostname)));
            }
            k = k + 1;
        }
        match find_address(&self.backends, address) {
            None => Err(RegistryError::NotFound(owned(address))),
            Some(i) => {
                proof {
                    lemma_index_of_address(s, address@, 0);
                }
                let ghost next = s.update(i as int, BackendEntryView { hostname: Some(hostname@), ..s[i as int] });
                proof {
                    assert(registry_wf(next));
                }
                let mut v: Vec<BackendEntry> = Vec::new();
                std::mem::swap(&mut v, &mut self.backends);
                v[i].hostname = Some(owned(hostname));
                proof {
                    assert(entries_view(v@) =~= next);
                }
                self.backends = v;
                Ok(())
            },
        }
    }

    /// Set the health status for a backend identified by address.
    pub fn set_health(&mut self, address: &str, health: BackendHealth)
        ensures
            final(self)@ == set_health_step(old(self)@, address@, health),
    {
        proof {
            use_type_invariant(&*self);
        }
        let ghost s = self@;
        match find_address(&self.backends, address) {
            None => {},
            Some(i) => {
                proof {
                    lemma_index_of_address(s, address@, 0);
                }
                let ghost next = s.update(i as int, BackendEntryView { health: health, ..s[i as int] });
                proof {
                    assert(registry_wf(next));
                }
                let mut v: Vec<BackendEntry> = Vec::new();
                std::mem::swap(&mut v, &mut self.backends);
                v[i].health = health;
                proof {
                    assert(entries_view(v@) =~= next);
                }
                self.backends = v;
            },
        }
    }
}

impl BackendRegistry {
    /// Record the server id that the backend at `address` reported.
    pub fn set_server_id(&mut self, address: &str, id: &str)
        ensures
            final(self)@ == set_server_id_step(old(self)@, address@, id@),
    {
        proof {
            use_type_invariant(&*self);
        }
        let ghost s = self@;
        match find_address(&self.backends, address) {
            None => {},
            Some(i) => {
                proof {
                    lemma_index_of_address(s, address@, 0);
                }
                let ghost next = s.update(i as int, BackendEntryView { server_id: Some(id@), ..s[i as int] });
                proof {
                    assert(registry_wf(next));
                }
                let mut v: Vec<BackendEntry> = Vec::new();
                std::mem::swap(&mut v, &mut self.backends);
                v[i].server_id = Some(owned(id));
                proof {
                    assert(entries_view(v@) =~= next);
                }
                self.backends = v;
            },
        }
    }
}

impl Default for BackendRegistry {
    fn default() -> (r: Self)
        ensures
            r@ == Seq::<BackendEntryView>::empty(),
    {
        Self::new()
    }
}

/// Every registry operation keeps addresses and hostnames unique.
pub proof fn law_operations_keep_registry_wf(s: Seq<BackendEntryView>, e: BackendEntryView, a: Seq<char>, h: Seq<char>, health: BackendHealth)
    requires
        registry_wf(s),
    ensures
        add_step(s, e) matches Ok(n) ==> registry_wf(n),
        add_unchecked_step(s, e) matches Ok(n) ==> registry_wf(n),
        set_hostname_step(s, a, h) matches Ok(n) ==> registry_wf(n),
        registry_wf(set_health_step(s, a, health)),
        registry_wf(set_server_id_step(s, a, h)),
        registry_wf(without_address(s, a)),
        registry_wf(without_hostname(s, h)),
{
    lemma_index_of_address(s, a, 0);
    lemma_index_of_address(s, e.address, 0);
    if has_address(s, a) {
        let i = choose|i: int| 0 <= i < s.len() && (#[trigger] s[i]).address == a;
        lemma_without_address_unique(s, a, i);
    } else {
        lemma_without_absent_address(s, a);
    }
    if has_hostname(s, h) {
        let i = choose|i: int| 0 <= i < s.len() && (#[trigger] s[i]).hostname == Some(h);
        lemma_without_hostname_unique(s, h, i);
    } else {
        lemma_without_absent_hostname(s, h);
    }
}

/// A backend that was added is found again by its address, after the
/// entries that were there before.
pub proof fn law_add_then_get_by_address(s: Seq<BackendEntryView>, e: BackendEntryView)
    requires
        registry_wf(s),
        add_unchecked_step(s, e) is Ok,
    ensures
        add_unchecked_step(s, e) == Ok::<Seq<BackendEntryView>, RegistryErrorView>(s.push(e)),
        index_of_address(s.push(e), e.address, 0) == Some(s.len() as int),
{
    let n = s.push(e);
    lemma_index_of_address(n, e.address, 0);
    assert(!has_address(s, e.address));
    assert(n[s.len() as int].address == e.address);
    match index_of_address(n, e.address, 0) {
        Some(i) => {
            if i < s.len() {
                assert(n[i] == s[i]);
            }
        },
        None => {},
    }
}

/// After a removal by address, no backend has that address any more, and
/// every other backend is still there.
pub proof fn law_remove_by_address(s: Seq<BackendEntryView>, a: Seq<char>)
    ensures
        !has_address(without_address(s, a), a),
        forall|i: int| 0 <= i < s.len() && s[i].address != a ==> without_address(s, a).contains(#[trigger] s[i]),
{
    lemma_without_address(s, a);
    if has_address(without_address(s, a), a) {
        let i = choose|i: int| 0 <= i < without_address(s, a).len() && (#[trigger] without_address(s, a)[i]).address == a;
    }
}

/// A health update changes only the health of the backend with that
/// address, and leaves the registry unchanged when there is none.
pub proof fn law_set_health_changes_only_health(s: Seq<BackendEntryView>, a: Seq<char>, health: BackendHealth)
    ensures
        set_health_step(s, a, health).len() == s.len(),
        forall|i: int| 0 <= i < s.len() ==> (#[trigger] set_health_step(s, a, health)[i]).address == s[i].address
            && set_health_step(s, a, health)[i].hostname == s[i].hostname
            && set_health_step(s, a, health)[i].token == s[i].token,
        has_address(s, a) ==> get_health(set_health_step(s, a, health), a) == Some(health),
        !has_address(s, a) ==> set_health_step(s, a, health) == s,
{
    lemma_index_of_address(s, a, 0);
    if has_address(s, a) {
        let n = set_health_step(s, a, health);
        let i = index_of_address(s, a, 0)->0;
        lemma_index_of_address(n, a, 0);
        assert(n[i].address == a);
    } else {
        let i = index_of_address(s, a, 0);
        if i is Some {
            let j = i->0;
            assert(s[j].address == a);
        }
    }
}

/// Health of the first backend with address `a`.
pub open spec fn get_health(s: Seq<BackendEntryView>, a: Seq<char>) -> Option<BackendHealth> {
    match index_of_address(s, a, 0) {
        Some(i) => Some(s[i].health),
        None => None,
    }
}

/// The healthy listing holds exactly the healthy backends.
pub proof fn law_healthy_are_healthy(s: Seq<BackendEntryView>)
    ensures
        forall|i: int| 0 <= i < healthy_entries(s).len() ==> (#[trigger] healthy_entries(s)[i]).health == BackendHealth::Healthy,
        forall|i: int| 0 <= i < s.len() && s[i].health == BackendHealth::Healthy ==> healthy_entries(s).contains(#[trigger] s[i]),
    decreases s.len(),
{
    if s.len() > 0 {
        let p = s.drop_last();
        law_healthy_are_healthy(p);
        assert forall|i: int| 0 <= i < s.len() && s[i].health == BackendHealth::Healthy implies healthy_entries(s).contains(#[trigger] s[i]) by {
            let r = healthy_entries(p);
            if i < s.len() - 1 {
                assert(p[i] == s[i]);
                assert(r.contains(p[i]));
                let j = choose|j: int| 0 <= j < r.len() && r[j] == p[i];
                assert(r.push(s.last())[j] == s[i]);
            } else {
                assert(r.push(s.last())[r.len() as int] == s[i]);
            }
        }
    }
}

/// Text of ASCII characters takes one byte per character.
pub proof fn lemma_ascii_byte_len(s: Seq<char>)
    requires
        forall|i: int| 0 <= i < s.len() ==> (#[trigger] s[i] as u32) < 0x80,
    ensures
        byte_len(s) == s.len(),
    decreases s.len(),
{
    if s.len() > 0 {
        let p = s.drop_last();
        lemma_ascii_byte_len(p);
        lemma_byte_len_push(p, s.last());
        assert(p.push(s.last()) =~= s);
        assert((s[s.len() - 1] as u32) < 0x80);
    }
}

/// A hostname that is one label of 1 to 63 ASCII letters (of either case),
/// digits and hyphens, neither starting nor ending with a hyphen, is valid.
pub proof fn law_alphanumeric_label_is_valid(label: Seq<char>)
    requires
        1 <= label.len() <= 63,
        forall|i: int|
            0 <= i < label.len() ==> ('a' <= #[trigger] label[i] <= 'z' || 'A' <= label[i] <= 'Z' || '0' <= label[i] <= '9'
                || label[i] == '-'),
        label[0] != '-',
        label[label.len() - 1] != '-',
    ensures
        hostname_fault(label) is None,
{
    assert forall|i: int| 0 <= i < label.len() implies (#[trigger] label[i] as u32) < 0x80 by {
        assert('a' <= label[i] <= 'z' || 'A' <= label[i] <= 'Z' || '0' <= label[i] <= '9' || label[i] == '-');
    }
    lemma_ascii_byte_len(label);
    lemma_label_end(label, 0);
    assert(label_end(label, 0) == label.len());
    assert(label.subrange(0, label.len() as int) =~= label);
    assert(label_fault(label) is None);
}

} // verus!
