use wsh::api::handlers::{last_seen_for, parse_tag_filter};
use wsh::lifecycle::{monitor_start, monitor_step, MonitorAction, MonitorEvent, MonitorPhase};

#[test]
fn ephemeral_daemon_without_interest_exits_after_idle_window() {
    let phase = monitor_start(false);
    assert_eq!(phase, MonitorPhase::IdleWindow);
    assert_eq!(monitor_step(phase, false, false, MonitorEvent::Check), (MonitorPhase::IdleWindow, MonitorAction::Wait));
    assert_eq!(
        monitor_step(phase, false, false, MonitorEvent::IdleTimeout),
        (MonitorPhase::IdleWindow, MonitorAction::ShutDown)
    );
}

#[test]
fn last_session_ending_shuts_down() {
    let (phase, action) = monitor_step(MonitorPhase::IdleWindow, false, true, MonitorEvent::Check);
    assert_eq!((phase, action), (MonitorPhase::Monitoring, MonitorAction::Wait));
    assert_eq!(
        monitor_step(phase, false, false, MonitorEvent::SessionEvent { removal: true }),
        (MonitorPhase::Monitoring, MonitorAction::ShutDown)
    );
    assert_eq!(
        monitor_step(phase, false, true, MonitorEvent::SessionEvent { removal: true }),
        (MonitorPhase::Monitoring, MonitorAction::Wait)
    );
}

#[test]
fn persistent_server_stays() {
    let phase = monitor_start(true);
    assert_eq!(phase, MonitorPhase::Monitoring);
    assert_eq!(
        monitor_step(phase, true, false, MonitorEvent::SessionEvent { removal: true }),
        (MonitorPhase::Monitoring, MonitorAction::Wait)
    );
    assert_eq!(monitor_step(phase, true, false, MonitorEvent::EventsLagged), (MonitorPhase::Monitoring, MonitorAction::Wait));
}

#[test]
fn lag_gets_a_grace_period() {
    let phase = MonitorPhase::Monitoring;
    assert_eq!(monitor_step(phase, false, false, MonitorEvent::EventsLagged), (phase, MonitorAction::GraceWait));
    assert_eq!(monitor_step(phase, false, true, MonitorEvent::LagGraceElapsed), (phase, MonitorAction::Wait));
    assert_eq!(monitor_step(phase, false, false, MonitorEvent::LagGraceElapsed), (phase, MonitorAction::ShutDown));
    assert_eq!(monitor_step(phase, false, true, MonitorEvent::EventsClosed), (phase, MonitorAction::Stop));
}

#[test]
fn tag_filters() {
    assert_eq!(parse_tag_filter(None), Vec::<String>::new());
    assert_eq!(parse_tag_filter(Some("")), Vec::<String>::new());
    assert_eq!(parse_tag_filter(Some("web")), vec!["web"]);
    assert_eq!(parse_tag_filter(Some(" web , api,,\tdb ")), vec!["web", "api", "db"]);
    assert_eq!(parse_tag_filter(Some(",\u{3000},")), Vec::<String>::new());
}

#[test]
fn last_seen_only_for_named_session() {
    assert_eq!(last_seen_for("a", Some("a"), Some(5)), Some(5));
    assert_eq!(last_seen_for("b", Some("a"), Some(5)), None);
    assert_eq!(last_seen_for("a", None, Some(5)), None);
}
