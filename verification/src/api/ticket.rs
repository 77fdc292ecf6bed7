//! Short-lived, single-use tickets for WebSocket authentication.
//!
//! Browser WebSocket connections cannot set custom HTTP headers, so the
//! `Authorization: Bearer <token>` flow doesn't work for them. Instead:
//!
//! 1. Client authenticates via `POST /auth/ws-ticket` (with Bearer token)
//! 2. Server returns a single-use nonce (the "ticket")
//! 3. Client opens WebSocket with `?ticket=<nonce>`
//! 4. Server validates and consumes the ticket on upgrade
//!
//! Tickets expire after 30 seconds and can only be used once.

use vstd::prelude::*;
use rand::Rng;
use crate::text::{push_char, str_eq};

verus! {

/// Time-to-live of a pending ticket (30 s), in nanoseconds.
pub const TICKET_TTL_NS: u64 = 30_000_000_000;

/// Maximum number of pending (unconsumed) tickets.
pub const MAX_PENDING_TICKETS: usize = 1024;

/// Number of characters of a ticket.
pub const TICKET_LEN: usize = 32;

/// An ASCII letter or digit.
pub open spec fn is_ascii_alnum(c: char) -> bool {
    ('a' <= c <= 'z') || ('A' <= c <= 'Z') || ('0' <= c <= '9')
}

/// A ticket created at `created` (nanoseconds) is still valid at `now`.
pub open spec fn ticket_alive(created: u64, now: u64) -> bool {
    now < created + TICKET_TTL_NS
}

/// The pending tickets of `s` that are still valid at `now`, in order.
pub open spec fn live_tickets(s: Seq<(Seq<char>, u64)>, now: u64) -> Seq<(Seq<char>, u64)>
    decreases s.len(),
{
    if s.len() == 0 {
        seq![]
    } else {
        let r = live_tickets(s.drop_last(), now);
        if ticket_alive(s.last().1, now) {
            r.push(s.last())
        } else {
            r
        }
    }
}

/// Index of the first ticket `k` in `s[from..]`.
pub open spec fn index_of_ticket(s: Seq<(Seq<char>, u64)>, k: Seq<char>, from: int) -> Option<int>
    decreases s.len() - from,
{
    if from < 0 || from >= s.len() {
        None
    } else if s[from].0 == k {
        Some(from)
    } else {
        index_of_ticket(s, k, from + 1)
    }
}

/// No ticket is pending twice.
pub open spec fn tickets_unique(s: Seq<(Seq<char>, u64)>) -> bool {
    forall|i: int, j: int| 0 <= i < s.len() && 0 <= j < s.len() && i != j ==> (#[trigger] s[i]).0 != (#[trigger] s[j]).0
}

/// `s` with ticket `k` created at `t` (replacing an earlier `k`).
pub open spec fn ticket_insert(s: Seq<(Seq<char>, u64)>, k: Seq<char>, t: u64) -> Seq<(Seq<char>, u64)> {
    match index_of_ticket(s, k, 0) {
        Some(i) => s.update(i, (k, t)),
        None => s.push((k, t)),
    }
}

/// `s` without ticket `k`.
pub open spec fn ticket_remove(s: Seq<(Seq<char>, u64)>, k: Seq<char>) -> Seq<(Seq<char>, u64)> {
    match index_of_ticket(s, k, 0) {
        Some(i) => s.remove(i),
        None => s,
    }
}

/// Ticket `k` is pending in `s` and still valid at `now`.
pub open spec fn ticket_valid(s: Seq<(Seq<char>, u64)>, k: Seq<char>, now: u64) -> bool {
    match index_of_ticket(s, k, 0) {
        Some(i) => ticket_alive(s[i].1, now),
        None => false,
    }
}

/// The pending tickets after creating `nonce` at `now`, and the result:
/// expired tickets are pruned first; then the ticket is refused when the
/// limit is reached.
pub open spec fn create_step(s: Seq<(Seq<char>, u64)>, nonce: Seq<char>, now: u64) -> (Seq<(Seq<char>, u64)>, Result<Seq<char>, ()>) {
    let p = live_tickets(s, now);
    if p.len() >= MAX_PENDING_TICKETS {
        (p, Err(()))
    } else {
        (ticket_insert(p, nonce, now), Ok(nonce))
    }
}

pub proof fn lemma_index_of_ticket(s: Seq<(Seq<char>, u64)>, k: Seq<char>, from: int)
    requires
        0 <= from,
    ensures
        match index_of_ticket(s, k, from) {
            Some(i) => from <= i < s.len() && s[i].0 == k && forall|j: int| from <= j < i ==> (#[trigger] s[j]).0 != k,
            None => forall|j: int| from <= j < s.len() ==> (#[trigger] s[j]).0 != k,
        },
    decreases s.len() - from,
{
    if from < s.len() && s[from].0 != k {
        lemma_index_of_ticket(s, k, from + 1);
    }
}

pub proof fn lemma_live_tickets(s: Seq<(Seq<char>, u64)>, now: u64)
    ensures
        live_tickets(s, now).len() <= s.len(),
        forall|i: int| 0 <= i < live_tickets(s, now).len() ==> s.contains(#[trigger] live_tickets(s, now)[i])
            && ticket_alive(live_tickets(s, now)[i].1, now),
        tickets_unique(s) ==> tickets_unique(live_tickets(s, now)),
    decreases s.len(),
{
    if s.len() > 0 {
        let p = s.drop_last();
        lemma_live_tickets(p, now);
        let r = live_tickets(p, now);
        assert forall|i: int| 0 <= i < live_tickets(s, now).len() implies s.contains(#[trigger] live_tickets(s, now)[i])
            && ticket_alive(live_tickets(s, now)[i].1, now) by {
            if i < r.len() {
                assert(p.contains(r[i]));
                let j = choose|j: int| 0 <= j < p.len() && p[j] == r[i];
                assert(s[j] == r[i]);
            } else {
                assert(s[s.len() - 1] == s.last());
            }
        }
        if tickets_unique(s) {
            assert(tickets_unique(p)) by {
                assert forall|i: int, j: int| 0 <= i < p.len() && 0 <= j < p.len() && i != j implies (#[trigger] p[i]).0 != (#[trigger] p[j]).0 by {
                    assert(s[i] == p[i] && s[j] == p[j]);
                }
            }
            if ticket_alive(s.last().1, now) {
                assert forall|i: int| 0 <= i < r.len() implies (#[trigger] r[i]).0 != s.last().0 by {
                    assert(p.contains(r[i]));
                    let j = choose|j: int| 0 <= j < p.len() && p[j] == r[i];
                    assert(s[j] == r[i]);
                    assert(s[s.len() - 1] == s.last());
                }
                let q = r.push(s.last());
                assert forall|i: int, j: int| 0 <= i < q.len() && 0 <= j < q.len() && i != j implies (#[trigger] q[i]).0 != (#[trigger] q[j]).0 by {
                    if i < r.len() && j < r.len() {
                        assert(q[i] == r[i] && q[j] == r[j]);
                    } else if i < r.len() {
                        assert(q[i] == r[i]);
                    } else if j < r.len() {
                        assert(q[j] == r[j]);
                    }
                }
            }
        }
    }
}

/// A random ASCII letter or digit, through `rand`.
///
/// Trusted: `rand::distributions::Alphanumeric` samples a byte among
/// `A-Z`, `a-z` and `0-9` (see its `Distribution<u8>` impl); the contract
/// says only that. Which character comes out depends on chance.
#[verifier::external_body]
fn random_alphanumeric() -> (c: char)
    ensures
        is_ascii_alnum(c),
{
    char::from(rand::thread_rng().sample(rand::distributions::Alphanumeric))
}

/// A fresh random nonce of [`TICKET_LEN`] ASCII letters and digits.
pub(crate) fn random_nonce() -> (r: String)
    ensures
        r@.len() == TICKET_LEN,
        forall|i: int| 0 <= i < r@.len() ==> is_ascii_alnum(#[trigger] r@[i]),
{
    let mut r = String::new();
    let mut k: usize = 0;
    while k < TICKET_LEN
        invariant
            k <= TICKET_LEN,
            r@.len() == k,
            forall|i: int| 0 <= i < r@.len() ==> is_ascii_alnum(#[trigger] r@[i]),
        decreases TICKET_LEN - k,
    {
        let c = random_alphanumeric();
        push_char(&mut r, c);
        k = k + 1;
    }
    r
}

#[verifier::external_type_specification]
#[verifier::external_body]
pub struct ExInstant(std::time::Instant);

/// The current instant, through `std::time::Instant::now`. Nothing is
/// stated of it.
#[verifier::external_body]
fn instant_now() -> (r: std::time::Instant) {
    std::time::Instant::now()
}

/// The time elapsed since `start`, through `Instant::elapsed`. Nothing is
/// stated of it: it depends on the clock.
#[verifier::external_body]
fn elapsed_since(start: &std::time::Instant) -> (r: core::time::Duration) {
    start.elapsed()
}

/// The whole nanoseconds in `d`, through `Duration::as_nanos`. Nothing is
/// stated of the result, since a `Duration` is opaque here.
#[verifier::external_body]
fn whole_nanos(d: &core::time::Duration) -> (r: u128) {
    d.as_nanos()
}

/// In-memory store of short-lived, single-use tickets.
///
/// Times are nanoseconds since the store was created, the resolution of
/// the monotonic clock, so that expiry is decided on exact durations.
#[derive(Debug)]
pub struct TicketStore {
    tickets: Vec<(String, u64)>,
    epoch: std::time::Instant,
}

/// The pending tickets as (nonce, creation time) pairs.
pub open spec fn tickets_view(v: Seq<(String, u64)>) -> Seq<(Seq<char>, u64)> {
    v.map_values(|p: (String, u64)| (p.0@, p.1))
}

impl View for TicketStore {
    type V = Seq<(Seq<char>, u64)>;

    closed spec fn view(&self) -> Seq<(Seq<char>, u64)> {
        tickets_view(self.tickets@)
    }
}

fn find_ticket(v: &Vec<(String, u64)>, k: &str) -> (r: Option<usize>)
    ensures
        match r {
            Some(i) => index_of_ticket(tickets_view(v@), k@, 0) == Some(i as int) && i < v@.len(),
            None => index_of_ticket(tickets_view(v@), k@, 0) is None,
        },
{
    let ghost s = tickets_view(v@);
    let mut i: usize = 0;
    while i < v.len()
        invariant
            i <= v@.len(),
            s == tickets_view(v@),
            index_of_ticket(s, k@, 0) == index_of_ticket(s, k@, i as int),
        decreases v@.len() - i,
    {
        if str_eq(v[i].0.as_str(), k) {
            return Some(i);
        }
        i = i + 1;
    }
    None
}

impl TicketStore {
    #[verifier::type_invariant]
    closed spec fn inv(self) -> bool {
        &&& tickets_unique(self@)
        &&& self@.len() <= MAX_PENDING_TICKETS
    }

    /// An empty store.
    pub fn new() -> (r: Self)
        ensures
            r@ == Seq::<(Seq<char>, u64)>::empty(),
    {
        let r = TicketStore { tickets: Vec::new(), epoch: instant_now() };
        assert(r@ =~= Seq::<(Seq<char>, u64)>::empty());
        r
    }

    /// Number of pending tickets (expired ones included until the next
    /// creation prunes them).
    pub fn pending(&self) -> (r: usize)
        ensures
            r == self@.len(),
            r <= MAX_PENDING_TICKETS,
    {
        proof {
            use_type_invariant(self);
        }
        self.tickets.len()
    }

    /// Create ticket `nonce` at time `now_ns`: expired tickets are pruned
    /// first; fails when [`MAX_PENDING_TICKETS`] tickets are still pending.
    pub fn create_at(&mut self, nonce: String, now_ns: u64) -> (r: Result<String, ()>)
        ensures
            final(self)@ == create_step(old(self)@, nonce@, now_ns).0,
            match create_step(old(self)@, nonce@, now_ns).1 {
                Ok(n) => r matches Ok(x) && x@ == n,
                Err(()) => r is Err,
            },
    {
        proof {
            use_type_invariant(&*self);
            lemma_live_tickets(self@, now_ns);
        }
        let ghost s = self@;
        let mut old_tickets: Vec<(String, u64)> = Vec::new();
        std::mem::swap(&mut old_tickets, &mut self.tickets);
        assert(tickets_view(old_tickets@) == s);
        let mut kept: Vec<(String, u64)> = Vec::new();
        let mut k: usize = 0;
        while k < old_tickets.len()
            invariant
                k <= old_tickets@.len(),
                tickets_view(old_tickets@) == s,
                tickets_view(kept@) == live_tickets(s.take(k as int), now_ns),
            decreases old_tickets@.len() - k,
        {
            proof {
                assert(s.take(k + 1).drop_last() =~= s.take(k as int));
                assert(s.take(k + 1).last() == s[k as int]);
            }
            let created = old_tickets[k].1;
            if now_ns < created || now_ns - created < TICKET_TTL_NS {
                let t = old_tickets[k].0.clone();
                kept.push((t, created));
                proof {
                    assert(tickets_view(kept@) =~= live_tickets(s.take(k as int), now_ns).push(s[k as int]));
                }
            }
            k = k + 1;
        }
        proof {
            assert(s.take(k as int) =~= s);
            lemma_live_tickets(s, now_ns);
        }
        let ghost p = live_tickets(s, now_ns);
        if kept.len() >= MAX_PENDING_TICKETS {
            self.tickets = kept;
            return Err(());
        }
        let r = nonce.clone();
        match find_ticket(&kept, nonce.as_str()) {
            Some(i) => {
                proof {
                    lemma_index_of_ticket(p, nonce@, 0);
                }
                kept.set(i, (nonce, now_ns));
                proof {
                    let q = p.update(i as int, (r@, now_ns));
                    assert(tickets_view(kept@) =~= q);
                    assert forall|a: int, b: int| 0 <= a < q.len() && 0 <= b < q.len() && a != b implies (#[trigger] q[a]).0 != (#[trigger] q[b]).0 by {
                        if a != i && b != i {
                            assert(q[a] == p[a] && q[b] == p[b]);
                        }
                    }
                }
                self.tickets = kept;
            },
            None => {
                proof {
                    lemma_index_of_ticket(p, nonce@, 0);
                }
                kept.push((nonce, now_ns));
                proof {
                    let q = p.push((r@, now_ns));
                    assert(tickets_view(kept@) =~= q);
                    assert forall|a: int, b: int| 0 <= a < q.len() && 0 <= b < q.len() && a != b implies (#[trigger] q[a]).0 != (#[trigger] q[b]).0 by {
                        if a < p.len() && b < p.len() {
                            assert(q[a] == p[a] && q[b] == p[b]);
                        } else if a < p.len() {
                            assert(q[a] == p[a]);
                        } else if b < p.len() {
                            assert(q[b] == p[b]);
                        }
                    }
                }
                self.tickets = kept;
            },
        }
        Ok(r)
    }

    /// Validate and consume ticket `ticket` at time `now_ns`: it is removed,
    /// and the answer is whether it was pending and not expired.
    pub fn validate_at(&mut self, ticket: &str, now_ns: u64) -> (r: bool)
        ensures
            final(self)@ == ticket_remove(old(self)@, ticket@),
            r == ticket_valid(old(self)@, ticket@, now_ns),
    {
        proof {
            use_type_invariant(&*self);
        }
        let ghost s = self@;
        match find_ticket(&self.tickets, ticket) {
            Some(i) => {
                proof {
                    lemma_index_of_ticket(s, ticket@, 0);
                }
                let mut v: Vec<(String, u64)> = Vec::new();
                std::mem::swap(&mut v, &mut self.tickets);
                let (_, created) = v.remove(i);
                proof {
                    let q = s.remove(i as int);
                    assert(tickets_view(v@) =~= q);
                    assert forall|a: int, b: int| 0 <= a < q.len() && 0 <= b < q.len() && a != b implies (#[trigger] q[a]).0 != (#[trigger] q[b]).0 by {
                        let a2 = if a < i { a } else { a + 1 };
                        let b2 = if b < i { b } else { b + 1 };
                        assert(q[a] == s[a2] && q[b] == s[b2]);
                    }
                }
                self.tickets = v;
                now_ns < created || now_ns - created < TICKET_TTL_NS
            },
            None => false,
        }
    }

    /// Nanoseconds since the store was created, by the monotonic clock.
    /// Saturates at `u64::MAX` (over 500 years), which no process reaches.
    pub fn now_ns(&self) -> (r: u64) {
        let ns = whole_nanos(&elapsed_since(&self.epoch));
        if ns > 0xffff_ffff_ffff_ffff {
            0xffff_ffff_ffff_ffff
        } else {
            ns as u64
        }
    }

    /// Create a new ticket now. Returns the nonce on success, or `Err(())`
    /// if the maximum number of pending tickets has been reached.
    pub fn create(&mut self) -> (r: Result<String, ()>)
        ensures
            r matches Ok(n) ==> n@.len() == TICKET_LEN && (forall|i: int| 0 <= i < n@.len() ==> is_ascii_alnum(#[trigger] n@[i]))
                && exists|t: u64| #![trigger ticket_alive(t, t)] final(self)@ == create_step(old(self)@, n@, t).0 && ticket_valid(final(self)@, n@, t),
            r is Err ==> final(self)@.len() == MAX_PENDING_TICKETS,
            old(self)@.len() < MAX_PENDING_TICKETS ==> r is Ok,
    {
        let nonce = random_nonce();
        let now = self.now_ns();
        proof {
            lemma_live_tickets(self@, now);
        }
        let r = self.create_at(nonce, now);
        proof {
            use_type_invariant(&*self);
            if r is Ok {
                law_created_ticket_is_valid(old(self)@, r->Ok_0@, now, now);
                assert(ticket_alive(now, now));
            }
        }
        r
    }

    /// Validate and consume a ticket now. Returns `true` if the ticket was
    /// pending and not expired; in every case it is no longer pending.
    pub fn validate(&mut self, ticket: &str) -> (r: bool)
        ensures
            final(self)@ == ticket_remove(old(self)@, ticket@),
            r ==> index_of_ticket(old(self)@, ticket@, 0) is Some,
    {
        let now = self.now_ns();
        self.validate_at(ticket, now)
    }
}

/// A ticket that was just created is valid until its time-to-live has
/// passed.
pub proof fn law_created_ticket_is_valid(s: Seq<(Seq<char>, u64)>, nonce: Seq<char>, now: u64, later: u64)
    requires
        create_step(s, nonce, now).1 is Ok,
        later < now + TICKET_TTL_NS,
    ensures
        ticket_valid(create_step(s, nonce, now).0, nonce, later),
{
    let p = live_tickets(s, now);
    let q = create_step(s, nonce, now).0;
    lemma_index_of_ticket(p, nonce, 0);
    lemma_index_of_ticket(q, nonce, 0);
    match index_of_ticket(p, nonce, 0) {
        Some(i) => {
            assert(q[i].0 == nonce);
        },
        None => {
            assert(q[p.len() as int].0 == nonce);
        },
    }
}

/// A ticket can be used only once: after it has been consumed, validating
/// it again fails.
pub proof fn law_ticket_single_use(s: Seq<(Seq<char>, u64)>, ticket: Seq<char>, now: u64)
    requires
        tickets_unique(s),
    ensures
        !ticket_valid(ticket_remove(s, ticket), ticket, now),
{
    lemma_index_of_ticket(s, ticket, 0);
    let q = ticket_remove(s, ticket);
    lemma_index_of_ticket(q, ticket, 0);
    if let Some(i) = index_of_ticket(s, ticket, 0) {
        if let Some(j) = index_of_ticket(q, ticket, 0) {
            let j2 = if j < i { j } else { j + 1 };
            assert(q[j] == s[j2]);
        }
    }
}

/// Expired tickets never validate.
pub proof fn law_expired_ticket_is_refused(s: Seq<(Seq<char>, u64)>, ticket: Seq<char>, now: u64)
    requires
        index_of_ticket(s, ticket, 0) matches Some(i) && now >= s[i].1 + TICKET_TTL_NS,
    ensures
        !ticket_valid(s, ticket, now),
{
}

/// The store never holds more than [`MAX_PENDING_TICKETS`] tickets.
pub proof fn law_pending_tickets_bounded(s: Seq<(Seq<char>, u64)>, nonce: Seq<char>, now: u64)
    ensures
        create_step(s, nonce, now).0.len() <= if s.len() <= MAX_PENDING_TICKETS { MAX_PENDING_TICKETS as int } else { s.len() as int },
{
    lemma_live_tickets(s, now);
    lemma_index_of_ticket(live_tickets(s, now), nonce, 0);
}

} // verus!
