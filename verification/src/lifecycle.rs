//! When an ephemeral server shuts itself down.
//!
//! In ephemeral mode (the default) the server exits once nothing keeps it
//! alive: no session exists and no persistent connection is open (that is
//! its "interest"). A fresh daemon first gets 30 seconds to establish
//! interest; after that it exits as soon as interest drains. In persistent
//! mode it never exits on its own.
//!
//! The application watches the session events, the interest notifications
//! and the timers; at each of them it asks [`monitor_step`] what to do.

use vstd::prelude::*;

verus! {

/// How long a fresh ephemeral daemon waits for interest, in milliseconds.
pub const IDLE_WINDOW_MS: u64 = 30000;

/// How long to wait before concluding, after lagging behind the session
/// events, that interest is really gone, in milliseconds.
pub const LAG_GRACE_MS: u64 = 2000;

/// The phase of the monitor.
#[derive(Debug, Clone, Copy, PartialEq, Eq, Structural)]
pub enum MonitorPhase {
    /// The first 30 seconds of an ephemeral daemon.
    IdleWindow,
    /// Normal monitoring.
    Monitoring,
}

/// What the monitor observed.
#[derive(Debug, Clone, Copy, PartialEq, Eq, Structural)]
pub enum MonitorEvent {
    /// Look at the state afresh (at start and after each wait).
    Check,
    /// A session event arrived; `removal` when a session was destroyed.
    SessionEvent { removal: bool },
    /// Session events were missed.
    EventsLagged,
    /// The session event stream ended.
    EventsClosed,
    /// The number of open connections changed.
    InterestChanged,
    /// The idle window elapsed.
    IdleTimeout,
    /// The grace period after a lag elapsed.
    LagGraceElapsed,
}

/// What the monitor does next.
#[derive(Debug, Clone, Copy, PartialEq, Eq, Structural)]
pub enum MonitorAction {
    /// Wait for the next event (in persistent mode, for session events
    /// only).
    Wait,
    /// Wait [`LAG_GRACE_MS`], then report `LagGraceElapsed`.
    GraceWait,
    /// Shut the server down.
    ShutDown,
    /// Stop monitoring without shutting down.
    Stop,
}

/// The phase a monitor starts in.
pub open spec fn start_phase(persistent: bool) -> MonitorPhase {
    if persistent {
        MonitorPhase::Monitoring
    } else {
        MonitorPhase::IdleWindow
    }
}

/// The next phase and action of normal monitoring when the state is looked
/// at afresh.
pub open spec fn monitoring_check(persistent: bool, interest: bool) -> (MonitorPhase, MonitorAction) {
    if persistent {
        (MonitorPhase::Monitoring, MonitorAction::Wait)
    } else if !interest {
        (MonitorPhase::Monitoring, MonitorAction::ShutDown)
    } else {
        (MonitorPhase::Monitoring, MonitorAction::Wait)
    }
}

/// The next phase and action after `ev`, where `persistent` is the current
/// mode and `interest` whether anything keeps the server alive right now.
pub open spec fn monitor_transition(phase: MonitorPhase, persistent: bool, interest: bool, ev: MonitorEvent) -> (MonitorPhase, MonitorAction) {
    match ev {
        MonitorEvent::EventsClosed => (phase, MonitorAction::Stop),
        _ => match phase {
            MonitorPhase::IdleWindow => match ev {
                MonitorEvent::Check => if interest {
                    monitoring_check(persistent, interest)
                } else {
                    (MonitorPhase::IdleWindow, MonitorAction::Wait)
                },
                MonitorEvent::InterestChanged => if interest {
                    monitoring_check(persistent, interest)
                } else {
                    (MonitorPhase::IdleWindow, MonitorAction::Wait)
                },
                MonitorEvent::IdleTimeout => if interest {
                    monitoring_check(persistent, interest)
                } else {
                    (MonitorPhase::IdleWindow, MonitorAction::ShutDown)
                },
                _ => monitoring_check(persistent, interest),
            },
            MonitorPhase::Monitoring => match ev {
                MonitorEvent::EventsLagged => if !persistent && !interest {
                    (MonitorPhase::Monitoring, MonitorAction::GraceWait)
                } else {
                    (MonitorPhase::Monitoring, MonitorAction::Wait)
                },
                MonitorEvent::IdleTimeout => (MonitorPhase::Monitoring, MonitorAction::Wait),
                _ => monitoring_check(persistent, interest),
            },
        },
    }
}

/// The phase a monitor starts in: the idle window unless the server is
/// persistent.
pub fn monitor_start(persistent: bool) -> (r: MonitorPhase)
    ensures
        r == start_phase(persistent),
{
    if persistent {
        MonitorPhase::Monitoring
    } else {
        MonitorPhase::IdleWindow
    }
}

fn check_monitoring(persistent: bool, interest: bool) -> (r: (MonitorPhase, MonitorAction))
    ensures
        r == monitoring_check(persistent, interest),
{
    if persistent {
        (MonitorPhase::Monitoring, MonitorAction::Wait)
    } else if !interest {
        (MonitorPhase::Monitoring, MonitorAction::ShutDown)
    } else {
        (MonitorPhase::Monitoring, MonitorAction::Wait)
    }
}

/// Decide what the monitor does after `event`.
pub fn monitor_step(phase: MonitorPhase, persistent: bool, interest: bool, event: MonitorEvent) -> (r: (MonitorPhase, MonitorAction))
    ensures
        r == monitor_transition(phase, persistent, interest, event),
{
    match event {
        MonitorEvent::EventsClosed => (phase, MonitorAction::Stop),
        _ => match phase {
            MonitorPhase::IdleWindow => match event {
                MonitorEvent::Check | MonitorEvent::InterestChanged => if interest {
                    check_monitoring(persistent, interest)
                } else {
                    (MonitorPhase::IdleWindow, MonitorAction::Wait)
                },
                MonitorEvent::IdleTimeout => if interest {
                    check_monitoring(persistent, interest)
                } else {
                    (MonitorPhase::IdleWindow, MonitorAction::ShutDown)
                },
                _ => check_monitoring(persistent, interest),
            },
            MonitorPhase::Monitoring => match event {
                MonitorEvent::EventsLagged => if !persistent && !interest {
                    (MonitorPhase::Monitoring, MonitorAction::GraceWait)
                } else {
                    (MonitorPhase::Monitoring, MonitorAction::Wait)
                },
                MonitorEvent::IdleTimeout => (MonitorPhase::Monitoring, MonitorAction::Wait),
                _ => check_monitoring(persistent, interest),
            },
        },
    }
}

/// A server that something keeps alive, or that is persistent, is never
/// shut down.
pub proof fn law_never_shut_down_with_interest_or_persistence(phase: MonitorPhase, persistent: bool, interest: bool, ev: MonitorEvent)
    requires
        interest || (persistent && phase == MonitorPhase::Monitoring),
    ensures
        monitor_transition(phase, persistent, interest, ev).1 != MonitorAction::ShutDown,
{
}

/// Once monitoring, an ephemeral server without interest shuts down at the
/// next look, and the idle window ends with a shutdown when no interest
/// appeared.
pub proof fn law_ephemeral_shuts_down_without_interest(persistent: bool, ev: MonitorEvent)
    requires
        !persistent,
        ev == MonitorEvent::Check || ev == MonitorEvent::InterestChanged || ev matches MonitorEvent::SessionEvent { .. },
    ensures
        monitor_transition(MonitorPhase::Monitoring, persistent, false, ev).1 == MonitorAction::ShutDown,
        monitor_transition(MonitorPhase::IdleWindow, persistent, false, MonitorEvent::IdleTimeout).1 == MonitorAction::ShutDown,
{
}

/// The idle window only ever leads to monitoring: the monitor never goes
/// back to it.
pub proof fn law_idle_window_is_left_for_good(phase: MonitorPhase, persistent: bool, interest: bool, ev: MonitorEvent)
    requires
        phase == MonitorPhase::Monitoring,
    ensures
        monitor_transition(phase, persistent, interest, ev).0 == MonitorPhase::Monitoring,
{
}

} // verus!
