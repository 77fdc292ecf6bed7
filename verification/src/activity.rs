//! Terminal activity: a generation counter bumped by every activity event,
//! the time of the last one, and the decisions of waiting for quiescence
//! (a period of inactivity exceeding a timeout).
//!
//! The application owns the clock and the timers: it asks [`ActivityState`]
//! what to do, sleeps when told to, and asks again when woken.

use vstd::prelude::*;

verus! {

/// What a waiter does next.
#[derive(Debug, Clone, Copy, PartialEq, Eq, Structural)]
pub enum QuiesceStep {
    /// The terminal has been quiet for the whole timeout.
    Quiescent,
    /// Sleep this many milliseconds (or until new activity), then check
    /// again.
    SleepFor(u64),
}

/// The step of a plain quiescence wait when `elapsed` milliseconds have
/// passed since the last activity.
pub open spec fn quiesce_step(elapsed: u64, timeout: u64) -> QuiesceStep {
    if elapsed >= timeout {
        QuiesceStep::Quiescent
    } else {
        QuiesceStep::SleepFor((timeout - elapsed) as u64)
    }
}

/// Decide a plain quiescence wait: quiescent once the timeout has elapsed,
/// else sleep for the remainder.
pub fn quiescence_check(elapsed_ms: u64, timeout_ms: u64) -> (r: QuiesceStep)
    ensures
        r == quiesce_step(elapsed_ms, timeout_ms),
{
    if elapsed_ms >= timeout_ms {
        QuiesceStep::Quiescent
    } else {
        QuiesceStep::SleepFor(timeout_ms - elapsed_ms)
    }
}

/// How long a fresh quiescence wait sleeps before checking: the remainder
/// of the timeout, or a whole timeout when the terminal is already quiet
/// (so that at least `timeout` of real silence is observed).
pub fn fresh_quiescence_sleep(elapsed_ms: u64, timeout_ms: u64) -> (r: u64)
    ensures
        r == if elapsed_ms >= timeout_ms { timeout_ms } else { (timeout_ms - elapsed_ms) as u64 },
{
    if elapsed_ms >= timeout_ms {
        timeout_ms
    } else {
        timeout_ms - elapsed_ms
    }
}

/// A caller who already saw the current generation must first wait for
/// new activity (this prevents a busy loop of immediate answers).
pub fn must_await_new_activity(last_seen: Option<u64>, current_generation: u64) -> (r: bool)
    ensures
        r == (last_seen == Some(current_generation)),
{
    match last_seen {
        Some(seen) => seen == current_generation,
        None => false,
    }
}

/// The generation after `g`: one more, wrapping around.
pub open spec fn next_generation(g: u64) -> u64 {
    if g == u64::MAX {
        0
    } else {
        (g + 1) as u64
    }
}

/// The activity of one terminal.
#[derive(Debug)]
pub struct ActivityState {
    generation: u64,
    last_activity_ms: u64,
}

/// The mathematical content of an [`ActivityState`].
pub struct ActivityView {
    pub generation: u64,
    pub last_activity_ms: u64,
}

impl View for ActivityState {
    type V = ActivityView;

    closed spec fn view(&self) -> ActivityView {
        ActivityView { generation: self.generation, last_activity_ms: self.last_activity_ms }
    }
}

/// Milliseconds from `since` to `now`, zero when the clock reads earlier.
pub open spec fn since(last: u64, now: u64) -> u64 {
    if now >= last {
        (now - last) as u64
    } else {
        0
    }
}

impl ActivityState {
    /// A terminal seen at `now_ms`, generation zero.
    pub fn new(now_ms: u64) -> (r: Self)
        ensures
            r@.generation == 0,
            r@.last_activity_ms == now_ms,
    {
        ActivityState { generation: 0, last_activity_ms: now_ms }
    }

    /// Record activity at `now_ms`.
    pub fn touch(&mut self, now_ms: u64)
        ensures
            final(self)@.generation == next_generation(old(self)@.generation),
            final(self)@.last_activity_ms == now_ms,
    {
        self.generation = if self.generation == u64::MAX { 0 } else { self.generation + 1 };
        self.last_activity_ms = now_ms;
    }

    /// Current generation counter value.
    pub fn generation(&self) -> (r: u64)
        ensures
            r == self@.generation,
    {
        self.generation
    }

    /// Time of the last activity.
    pub fn last_activity_ms(&self) -> (r: u64)
        ensures
            r == self@.last_activity_ms,
    {
        self.last_activity_ms
    }

    /// The step of a plain quiescence wait at `now_ms`.
    pub fn quiescence_at(&self, now_ms: u64, timeout_ms: u64) -> (r: QuiesceStep)
        ensures
            r == quiesce_step(since(self@.last_activity_ms, now_ms), timeout_ms),
    {
        let elapsed = if now_ms >= self.last_activity_ms { now_ms - self.last_activity_ms } else { 0 };
        quiescence_check(elapsed, timeout_ms)
    }
}

/// Activity resets the timer: after a touch at `t`, the terminal is not
/// quiescent until the whole timeout has passed again, and sleeping for
/// what the quiescence test says reaches the timeout exactly.
pub proof fn law_touch_resets_quiescence(t: u64, now: u64, timeout: u64)
    requires
        t <= now,
        now - t < timeout,
    ensures
        quiesce_step(since(t, now), timeout) == QuiesceStep::SleepFor((timeout - (now - t)) as u64),
        quiesce_step(since(t, now), timeout) matches QuiesceStep::SleepFor(d) ==> (now - t) + d == timeout,
{
}

/// Every touch changes the generation, so a caller holding a generation
/// learns of any activity after it.
pub proof fn law_touch_changes_generation(g: u64)
    ensures
        next_generation(g) != g,
{
}

} // verus!
