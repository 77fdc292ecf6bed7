//! IP access control for SSRF mitigation in federation backend connections.
//!
//! Configurable blocklist/allowlist based on CIDR ranges. Evaluation order:
//! blocklist denies first, then the allowlist permits, then the default policy.
//! If an allowlist is configured, only matching IPs are allowed (implicit
//! deny); otherwise all non-blocked IPs are allowed (implicit allow). There is
//! no hardcoded blocklist.

use vstd::prelude::*;
use crate::text::{chars_of, chars_start_with, concat2, concat3, starts_with, string_of};
use crate::federation::registry::first_index_from;
use crate::config::IpAccessConfig;

verus! {

/// An IP address: 32 bits for IPv4, 128 bits for IPv6.
#[derive(Debug, Clone, Copy, PartialEq, Eq, Structural)]
pub enum IpAddress {
    V4(u32),
    V6(u128),
}

/// An IP network in CIDR notation: an address (as written, not truncated to
/// the network) and a prefix length (at most 32 for IPv4, 128 for IPv6).
#[derive(Debug, Clone, Copy, PartialEq, Eq, Structural)]
pub enum IpNetwork {
    V4 { addr: u32, prefix_len: u8 },
    V6 { addr: u128, prefix_len: u8 },
}

impl IpNetwork {
    /// The prefix length fits the address family.
    pub open spec fn wf(self) -> bool {
        match self {
            IpNetwork::V4 { prefix_len, .. } => prefix_len <= 32,
            IpNetwork::V6 { prefix_len, .. } => prefix_len <= 128,
        }
    }
}

/// Mask of the first `p` bits of an IPv4 address.
pub open spec fn v4_mask(p: u8) -> u32 {
    if p == 0 {
        0u32
    } else {
        0xffff_ffffu32 << ((32 - p) as u32)
    }
}

/// Mask of the first `p` bits of an IPv6 address.
pub open spec fn v6_mask(p: u8) -> u128 {
    if p == 0 {
        0u128
    } else {
        0xffff_ffff_ffff_ffff_ffff_ffff_ffff_ffffu128 << ((128 - p) as u128)
    }
}

/// Whether `net` contains `ip`: same family, and the first `prefix_len` bits
/// agree (that is, `ip` lies between the network and broadcast addresses).
pub open spec fn net_contains(net: IpNetwork, ip: IpAddress) -> bool {
    match (net, ip) {
        (IpNetwork::V4 { addr, prefix_len }, IpAddress::V4(x)) => x & v4_mask(prefix_len) == addr
            & v4_mask(prefix_len),
        (IpNetwork::V6 { addr, prefix_len }, IpAddress::V6(x)) => x & v6_mask(prefix_len) == addr
            & v6_mask(prefix_len),
        _ => false,
    }
}

impl IpNetwork {
    /// Whether this network contains `ip`.
    pub fn contains(&self, ip: &IpAddress) -> (r: bool)
        requires
            self.wf(),
        ensures
            r == net_contains(*self, *ip),
    {
        match (*self, *ip) {
            (IpNetwork::V4 { addr, prefix_len }, IpAddress::V4(x)) => {
                let m: u32 = if prefix_len == 0 {
                    0u32
                } else {
                    0xffff_ffffu32 << ((32 - prefix_len) as u32)
                };
                x & m == addr & m
            },
            (IpNetwork::V6 { addr, prefix_len }, IpAddress::V6(x)) => {
                let m: u128 = if prefix_len == 0 {
                    0u128
                } else {
                    0xffff_ffff_ffff_ffff_ffff_ffff_ffff_ffffu128 << ((128 - prefix_len) as u128)
                };
                x & m == addr & m
            },
            _ => false,
        }
    }
}

/// What `ipnet` parses from a CIDR string (`addr/prefix`), if anything.
pub uninterp spec fn cidr_literal(text: Seq<char>) -> Option<IpNetwork>;

/// How `std` displays an IP address.
pub uninterp spec fn ip_display(ip: IpAddress) -> Seq<char>;

/// How `ipnet` displays a network: the address as `std` displays it, `/`,
/// and the prefix length in decimal.
pub open spec fn network_display(net: IpNetwork) -> Seq<char> {
    match net {
        IpNetwork::V4 { addr, prefix_len } => ip_display(IpAddress::V4(addr)) + "/"@ + crate::text::decimal(prefix_len as nat),
        IpNetwork::V6 { addr, prefix_len } => ip_display(IpAddress::V6(addr)) + "/"@ + crate::text::decimal(prefix_len as nat),
    }
}

/// What `std` parses from an IP address literal, if anything.
pub uninterp spec fn ip_literal(text: Seq<char>) -> Option<IpAddress>;

/// Parses a CIDR string with `ipnet::IpNet::from_str`.
///
/// Trusted: the result is what `ipnet` parses, converted field by field; the
/// parser only yields prefix lengths up to 32 (IPv4) or 128 (IPv6).
#[verifier::external_body]
fn parse_cidr(text: &str) -> (r: Option<IpNetwork>)
    ensures
        r == cidr_literal(text@),
        r matches Some(n) ==> n.wf(),
{
    match text.parse::<ipnet::IpNet>() {
        Ok(ipnet::IpNet::V4(n)) => Some(IpNetwork::V4 { addr: u32::from(n.addr()), prefix_len: n.prefix_len() }),
        Ok(ipnet::IpNet::V6(n)) => Some(IpNetwork::V6 { addr: u128::from(n.addr()), prefix_len: n.prefix_len() }),
        Err(_) => None,
    }
}

/// Parses an IP address literal with `core::net::IpAddr::from_str`.
///
/// Trusted: the result is what the standard parser accepts, converted to the
/// address bits.
#[verifier::external_body]
pub(crate) fn parse_ip_literal(text: &str) -> (r: Option<IpAddress>)
    ensures
        r == ip_literal(text@),
{
    match text.parse::<core::net::IpAddr>() {
        Ok(core::net::IpAddr::V4(a)) => Some(IpAddress::V4(u32::from(a))),
        Ok(core::net::IpAddr::V6(a)) => Some(IpAddress::V6(u128::from(a))),
        Err(_) => None,
    }
}

/// Formats an IP address with the standard `Display` of `core::net::IpAddr`.
///
/// Trusted: the text is the standard display of the address, which depends
/// on the address alone.
#[verifier::external_body]
fn display_ip(ip: &IpAddress) -> (r: String)
    ensures
        r@ == ip_display(*ip),
{
    match *ip {
        IpAddress::V4(a) => core::net::Ipv4Addr::from(a).to_string(),
        IpAddress::V6(a) => core::net::Ipv6Addr::from(a).to_string(),
    }
}

/// Formats a network with `ipnet`'s `Display` (`addr/prefix`).
///
/// Trusted: `ipnet` writes the network as `{addr}/{prefix_len}` with the
/// address's standard display; the prefix bound makes the constructor
/// succeed, and the constructor keeps the address as given.
#[verifier::external_body]
fn display_network(net: &IpNetwork) -> (r: String)
    requires
        net.wf(),
    ensures
        r@ == network_display(*net),
{
    match *net {
        IpNetwork::V4 { addr, prefix_len } => match ipnet::Ipv4Net::new(core::net::Ipv4Addr::from(addr), prefix_len) {
            Ok(n) => n.to_string(),
            Err(_) => String::new(),
        },
        IpNetwork::V6 { addr, prefix_len } => match ipnet::Ipv6Net::new(core::net::Ipv6Addr::from(addr), prefix_len) {
            Ok(n) => n.to_string(),
            Err(_) => String::new(),
        },
    }
}

/// The networks of `texts` that parse, in order; the others are skipped.
pub open spec fn parsed_networks(texts: Seq<Seq<char>>) -> Seq<IpNetwork>
    decreases texts.len(),
{
    if texts.len() == 0 {
        seq![]
    } else {
        let rest = parsed_networks(texts.drop_last());
        match cidr_literal(texts.last()) {
            Some(n) => rest.push(n),
            None => rest,
        }
    }
}

/// Index of the first network in `nets[from..]` that contains `ip`.
pub open spec fn first_containing(nets: Seq<IpNetwork>, ip: IpAddress, from: int) -> Option<int>
    decreases nets.len() - from,
{
    if from < 0 || from >= nets.len() {
        None
    } else if net_contains(nets[from], ip) {
        Some(from)
    } else {
        first_containing(nets, ip, from + 1)
    }
}

/// The verdict on `ip`: `Ok` when allowed, otherwise the reason.
pub open spec fn access_verdict(blocklist: Seq<IpNetwork>, allowlist: Seq<IpNetwork>, ip: IpAddress) -> Result<(), Seq<char>> {
    match first_containing(blocklist, ip, 0) {
        Some(i) => Err("IP "@ + ip_display(ip) + " is in blocklist ("@ + network_display(blocklist[i]) + ")"@),
        None => if allowlist.len() == 0 || first_containing(allowlist, ip, 0) is Some {
            Ok(())
        } else {
            Err("IP "@ + ip_display(ip) + " is not in allowlist"@)
        },
    }
}

pub open spec fn strings_seq(v: Seq<String>) -> Seq<Seq<char>> {
    v.map_values(|s: String| s@)
}

/// Parsed IP access control rules.
#[derive(Debug)]
pub struct IpAccessControl {
    blocklist: Vec<IpNetwork>,
    allowlist: Vec<IpNetwork>,
}

impl IpAccessControl {
    /// The parsed blocklist.
    pub closed spec fn blocked(&self) -> Seq<IpNetwork> {
        self.blocklist@
    }

    /// The parsed allowlist.
    pub closed spec fn allowed(&self) -> Seq<IpNetwork> {
        self.allowlist@
    }

    #[verifier::type_invariant]
    closed spec fn inv(self) -> bool {
        &&& forall|i: int| 0 <= i < self.blocklist@.len() ==> (#[trigger] self.blocklist@[i]).wf()
        &&& forall|i: int| 0 <= i < self.allowlist@.len() ==> (#[trigger] self.allowlist@[i]).wf()
    }

    /// Build from the config representation, parsing CIDR strings. Invalid
    /// CIDR entries are skipped.
    pub fn from_config(config: &IpAccessConfig) -> (r: Self)
        ensures
            r.blocked() == parsed_networks(strings_seq(config.blocklist@)),
            r.allowed() == parsed_networks(strings_seq(config.allowlist@)),
    {
        let blocklist = parse_networks(&config.blocklist);
        let allowlist = parse_networks(&config.allowlist);
        IpAccessControl { blocklist, allowlist }
    }

    /// Check whether the given IP address is allowed.
    ///
    /// Returns `Ok(())` if allowed, or `Err(reason)` if denied.
    pub fn check(&self, ip: IpAddress) -> (r: Result<(), String>)
        ensures
            match access_verdict(self.blocked(), self.allowed(), ip) {
                Ok(()) => r is Ok,
                Err(m) => r matches Err(e) && e@ == m,
            },
    {
        proof {
            use_type_invariant(self);
        }
        match find_containing(&self.blocklist, &ip) {
            Some(i) => {
                let a = concat3("IP ", display_ip(&ip).as_str(), " is in blocklist (");
                let b = concat2(a.as_str(), display_network(&self.blocklist[i]).as_str());
                let m = b.concat(")");
                assert(m@ =~= "IP "@ + ip_display(ip) + " is in blocklist ("@ + network_display(self.blocklist@[i as int]) + ")"@);
                return Err(m);
            },
            None => {},
        }
        if self.allowlist.len() != 0 {
            if find_containing(&self.allowlist, &ip).is_some() {
                return Ok(());
            }
            return Err(concat3("IP ", display_ip(&ip).as_str(), " is not in allowlist"));
        }
        Ok(())
    }

    /// Check every resolved address of `host_port`: an error when there are
    /// none, else the verdict on the first address that is denied.
    pub fn check_resolved(&self, host_port: &str, ips: &[IpAddress]) -> (r: Result<(), String>)
        ensures
            ips@.len() == 0 ==> (r matches Err(e) && e@ == "DNS resolution returned no addresses for "@ + host_port@),
            ips@.len() > 0 ==> match r {
                Ok(()) => forall|i: int| 0 <= i < ips@.len() ==> access_verdict(self.blocked(), self.allowed(), #[trigger] ips@[i]) is Ok,
                Err(e) => exists|i: int| 0 <= i < ips@.len() && access_verdict(self.blocked(), self.allowed(), ips@[i]) == Err::<(), Seq<char>>(e@)
                    && forall|j: int| 0 <= j < i ==> access_verdict(self.blocked(), self.allowed(), #[trigger] ips@[j]) is Ok,
            },
    {
        if ips.len() == 0 {
            return Err(concat2("DNS resolution returned no addresses for ", host_port));
        }
        let mut k: usize = 0;
        while k < ips.len()
            invariant
                k <= ips@.len(),
                forall|j: int| 0 <= j < k ==> access_verdict(self.blocked(), self.allowed(), #[trigger] ips@[j]) is Ok,
            decreases ips@.len() - k,
        {
            match self.check(ips[k]) {
                Ok(()) => {},
                Err(e) => {
                    return Err(e);
                },
            }
            k = k + 1;
        }
        Ok(())
    }

    /// Returns true if both blocklist and allowlist are empty (no access
    /// control configured).
    pub fn is_unconfigured(&self) -> (r: bool)
        ensures
            r == (self.blocked().len() == 0 && self.allowed().len() == 0),
    {
        self.blocklist.len() == 0 && self.allowlist.len() == 0
    }
}

fn parse_networks(texts: &Vec<String>) -> (r: Vec<IpNetwork>)
    ensures
        r@ == parsed_networks(strings_seq(texts@)),
        forall|i: int| 0 <= i < r@.len() ==> (#[trigger] r@[i]).wf(),
{
    let mut r: Vec<IpNetwork> = Vec::new();
    let mut k: usize = 0;
    while k < texts.len()
        invariant
            k <= texts@.len(),
            r@ == parsed_networks(strings_seq(texts@.take(k as int))),
            forall|i: int| 0 <= i < r@.len() ==> (#[trigger] r@[i]).wf(),
        decreases texts@.len() - k,
    {
        proof {
            assert(strings_seq(texts@.take(k + 1)).drop_last() =~= strings_seq(texts@.take(k as int)));
        }
        match parse_cidr(texts[k].as_str()) {
            Some(n) => r.push(n),
            None => {},
        }
        k = k + 1;
    }
    assert(texts@.take(texts@.len() as int) =~= texts@);
    r
}

fn find_containing(nets: &Vec<IpNetwork>, ip: &IpAddress) -> (r: Option<usize>)
    requires
        forall|i: int| 0 <= i < nets@.len() ==> (#[trigger] nets@[i]).wf(),
    ensures
        match r {
            Some(k) => first_containing(nets@, *ip, 0) == Some(k as int) && k < nets@.len(),
            None => first_containing(nets@, *ip, 0) is None,
        },
{
    let mut k: usize = 0;
    while k < nets.len()
        invariant
            k <= nets@.len(),
            forall|i: int| 0 <= i < nets@.len() ==> (#[trigger] nets@[i]).wf(),
            first_containing(nets@, *ip, 0) == first_containing(nets@, *ip, k as int),
        decreases nets@.len() - k,
    {
        proof {
            lemma_first_containing_range(nets@, *ip, k as int);
        }
        if nets[k].contains(ip) {
            return Some(k);
        }
        k = k + 1;
    }
    None
}

/// The blocklist takes precedence: an address in a blocked network is denied
/// whatever the allowlist says.
pub proof fn law_blocklist_wins(blocklist: Seq<IpNetwork>, allowlist: Seq<IpNetwork>, ip: IpAddress, i: int)
    requires
        0 <= i < blocklist.len(),
        net_contains(blocklist[i], ip),
    ensures
        access_verdict(blocklist, allowlist, ip) is Err,
    decreases i,
{
    lemma_first_containing_found(blocklist, ip, 0, i);
}

/// With no rules every address is allowed; with an allowlist and no
/// blocklist an address is allowed exactly when some allowed network
/// contains it.
pub proof fn law_default_policy(allowlist: Seq<IpNetwork>, ip: IpAddress)
    ensures
        access_verdict(seq![], seq![], ip) is Ok,
        allowlist.len() > 0 ==> (access_verdict(seq![], allowlist, ip) is Ok <==> exists|i: int| 0 <= i < allowlist.len() && net_contains(allowlist[i], ip)),
{
    if allowlist.len() > 0 {
        if exists|i: int| 0 <= i < allowlist.len() && net_contains(allowlist[i], ip) {
            let i = choose|i: int| 0 <= i < allowlist.len() && net_contains(allowlist[i], ip);
            lemma_first_containing_found(allowlist, ip, 0, i);
        } else {
            lemma_first_containing_none(allowlist, ip, 0);
        }
    }
}

proof fn lemma_first_containing_found(nets: Seq<IpNetwork>, ip: IpAddress, from: int, i: int)
    requires
        0 <= from <= i < nets.len(),
        net_contains(nets[i], ip),
    ensures
        first_containing(nets, ip, from) is Some,
    decreases i - from,
{
    if from < i && !net_contains(nets[from], ip) {
        lemma_first_containing_found(nets, ip, from + 1, i);
    }
}

proof fn lemma_first_containing_range(nets: Seq<IpNetwork>, ip: IpAddress, from: int)
    ensures
        first_containing(nets, ip, from) matches Some(i) ==> from <= i < nets.len(),
    decreases nets.len() - from,
{
    if 0 <= from < nets.len() && !net_contains(nets[from], ip) {
        lemma_first_containing_range(nets, ip, from + 1);
    }
}

proof fn lemma_first_containing_none(nets: Seq<IpNetwork>, ip: IpAddress, from: int)
    requires
        0 <= from,
        forall|i: int| 0 <= i < nets.len() ==> !net_contains(nets[i], ip),
    ensures
        first_containing(nets, ip, from) is None,
    decreases nets.len() - from,
{
    if from < nets.len() {
        lemma_first_containing_none(nets, ip, from + 1);
    }
}


/// The `host:port` to resolve for a backend URL: the scheme (`https://` or
/// `http://`, required) and any path removed, and the scheme's default port
/// (443 or 80) added when there is no `:` and no `[`.
pub open spec fn lookup_target(a: Seq<char>) -> Result<Seq<char>, Seq<char>> {
    let https = starts_with(a, "https://"@);
    let http = starts_with(a, "http://"@);
    if !https && !http {
        Err("address missing scheme: "@ + a)
    } else {
        let auth = if https { a.subrange(8, a.len() as int) } else { a.subrange(7, a.len() as int) };
        let hp = match first_index_from(auth, '/', 0) {
            Some(i) => auth.subrange(0, i),
            None => auth,
        };
        if hp.contains(':') || starts_with(hp, "["@) {
            Ok(hp)
        } else if https {
            Ok(hp + ":443"@)
        } else {
            Ok(hp + ":80"@)
        }
    }
}

/// Compute the `host:port` to resolve before connecting to the backend at
/// `address` (a URL with an `http://` or `https://` scheme).
pub fn backend_lookup_target(address: &str) -> (r: Result<String, String>)
    ensures
        match lookup_target(address@) {
            Ok(t) => r matches Ok(x) && x@ == t,
            Err(m) => r matches Err(x) && x@ == m,
        },
{
    let v = chars_of(address);
    let https = chars_start_with(&v, "https://");
    let http = chars_start_with(&v, "http://");
    proof {
        reveal_strlit("https://");
        reveal_strlit("http://");
    }
    if !https && !http {
        return Err(concat2("address missing scheme: ", address));
    }
    let start: usize = if https { 8 } else { 7 };
    let ghost auth = address@.subrange(start as int, address@.len() as int);
    let mut end: usize = start;
    while end < v.len() && v[end] != '/'
        invariant
            start <= end <= v@.len(),
            v@ == address@,
            auth == v@.subrange(start as int, v@.len() as int),
            first_index_from(auth, '/', 0) == first_index_from(auth, '/', end - start),
        decreases v@.len() - end,
    {
        end = end + 1;
    }
    if end < v.len() {
        assert(auth[end - start] == '/');
        assert(first_index_from(auth, '/', end - start) == Some((end - start) as int));
    }
    let ghost hp = v@.subrange(start as int, end as int);
    assert(hp =~= match first_index_from(auth, '/', 0) {
        Some(i) => auth.subrange(0, i),
        None => auth,
    });
    let mut has_colon = false;
    let mut k: usize = start;
    while k < end
        invariant
            start <= k <= end <= v@.len(),
            hp == v@.subrange(start as int, end as int),
            has_colon == exists|j: int| 0 <= j < k - start && hp[j] == ':',
        decreases end - k,
    {
        if v[k] == ':' {
            assert(hp[k - start] == ':');
            has_colon = true;
        }
        k = k + 1;
    }
    assert(has_colon == hp.contains(':'));
    let bracket = start < end && v[start] == '[';
    proof {
        reveal_strlit("[");
        assert("["@ =~= seq!['[']);
        if start < end {
            assert(hp[0] == v@[start as int]);
            assert(hp.subrange(0, 1) =~= seq![hp[0]]);
            if hp[0] != '[' {
                assert(hp.subrange(0, 1)[0] != "["@[0]);
            } else {
                assert(hp.subrange(0, 1) =~= "["@);
            }
        } else {
            assert(hp.len() == 0);
        }
        assert(bracket == starts_with(hp, "["@));
        assert(auth == (if https { address@.subrange(8, address@.len() as int) } else { address@.subrange(7, address@.len() as int) }));
    }
    let host_port = string_of(v.as_slice(), start, end);
    if has_colon || bracket {
        Ok(host_port)
    } else if https {
        Ok(host_port.concat(":443"))
    } else {
        Ok(host_port.concat(":80"))
    }
}

/// An IPv4 network with prefix length `p` contains exactly the IPv4
/// addresses whose first `p` bits are those of its address (every address
/// when `p` is 0), and no IPv6 address.
pub proof fn law_v4_network_holds_its_prefix(addr: u32, p: u8, x: u32, y: u128)
    requires
        p <= 32,
    ensures
        net_contains(IpNetwork::V4 { addr, prefix_len: p }, IpAddress::V4(x)) <==> (p == 0 || x >> ((32 - p) as u32) == addr >> ((
        32 - p) as u32)),
        !net_contains(IpNetwork::V4 { addr, prefix_len: p }, IpAddress::V6(y)),
{
    if p > 0 {
        let s: u32 = (32 - p) as u32;
        assert(v4_mask(p) == 0xffff_ffffu32 << s);
        assert(((x & (0xffff_ffffu32 << s)) == (addr & (0xffff_ffffu32 << s))) <==> ((x >> s) == (addr >> s))) by (bit_vector)
            requires
                s < 32,
        ;
    } else {
        assert(x & 0u32 == 0u32 && addr & 0u32 == 0u32) by (bit_vector);
    }
}

/// An IPv6 network with prefix length `p` contains exactly the IPv6
/// addresses whose first `p` bits are those of its address (every address
/// when `p` is 0), and no IPv4 address.
pub proof fn law_v6_network_holds_its_prefix(addr: u128, p: u8, x: u128, y: u32)
    requires
        p <= 128,
    ensures
        net_contains(IpNetwork::V6 { addr, prefix_len: p }, IpAddress::V6(x)) <==> (p == 0 || x >> ((128 - p) as u128) == addr
            >> ((128 - p) as u128)),
        !net_contains(IpNetwork::V6 { addr, prefix_len: p }, IpAddress::V4(y)),
{
    if p > 0 {
        let s: u128 = (128 - p) as u128;
        let m: u128 = 0xffff_ffff_ffff_ffff_ffff_ffff_ffff_ffffu128 << s;
        assert(v6_mask(p) == m);
        assert(x & m == (x >> s) << s) by (bit_vector)
            requires
                s < 128,
                m == 0xffff_ffff_ffff_ffff_ffff_ffff_ffff_ffffu128 << s,
        ;
        assert(addr & m == (addr >> s) << s) by (bit_vector)
            requires
                s < 128,
                m == 0xffff_ffff_ffff_ffff_ffff_ffff_ffff_ffffu128 << s,
        ;
        let xs = x >> s;
        let ys = addr >> s;
        assert(xs << s == ys << s ==> xs == ys) by (bit_vector)
            requires
                s < 128,
                xs == x >> s,
                ys == addr >> s,
        ;
    } else {
        assert(x & 0u128 == 0u128 && addr & 0u128 == 0u128) by (bit_vector);
    }
}

} // verus!
