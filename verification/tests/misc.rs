use wsh::activity::{fresh_quiescence_sleep, must_await_new_activity, quiescence_check, ActivityState, QuiesceStep};
use wsh::build_version;
use wsh::cli::{format_duration, resolve_token};
use wsh::federation::ip_access::IpAddress;

#[test]
fn touch_increments_generation() {
    let mut tracker = ActivityState::new(0);
    assert_eq!(tracker.generation(), 0);
    tracker.touch(5);
    assert_eq!(tracker.generation(), 1);
    tracker.touch(9);
    assert_eq!(tracker.generation(), 2);
    assert_eq!(tracker.last_activity_ms(), 9);
}

#[test]
fn quiescence_decisions() {
    assert_eq!(quiescence_check(60, 50), QuiesceStep::Quiescent);
    assert_eq!(quiescence_check(50, 50), QuiesceStep::Quiescent);
    assert_eq!(quiescence_check(20, 50), QuiesceStep::SleepFor(30));
    assert_eq!(fresh_quiescence_sleep(80, 50), 50);
    assert_eq!(fresh_quiescence_sleep(20, 50), 30);
    assert!(must_await_new_activity(Some(3), 3));
    assert!(!must_await_new_activity(Some(2), 3));
    assert!(!must_await_new_activity(None, 3));
    let mut s = ActivityState::new(100);
    assert_eq!(s.quiescence_at(120, 50), QuiesceStep::SleepFor(30));
    s.touch(130);
    assert_eq!(s.quiescence_at(150, 50), QuiesceStep::SleepFor(30));
    assert_eq!(s.quiescence_at(180, 50), QuiesceStep::Quiescent);
}

#[test]
fn version_line() {
    assert_eq!(build_version("0.3.1", "v0.3.1-4-gabc", "release"), "0.3.1 (v0.3.1-4-gabc release)");
}

#[test]
fn duration_formats() {
    assert_eq!(format_duration(0), "0s");
    assert_eq!(format_duration(59), "59s");
    assert_eq!(format_duration(61), "1m 1s");
    assert_eq!(format_duration(3600), "1h 0m 0s");
    assert_eq!(format_duration(3725), "1h 2m 5s");
}

#[test]
fn token_resolution() {
    let public = IpAddress::V4(0x0a00_0001);
    let loopback = IpAddress::V4(0x7f00_0001);
    assert_eq!(resolve_token(loopback, &Some("x".to_string()), false).unwrap(), None);
    assert_eq!(resolve_token(public, &None, true).unwrap(), None);
    assert_eq!(
        resolve_token(public, &Some("0123456789abcdef".to_string()), false).unwrap(),
        Some("0123456789abcdef".to_string())
    );
    assert_eq!(
        resolve_token(public, &Some("short".to_string()), false).unwrap_err(),
        "auth token too short (5 chars, minimum 16). Use a strong token or omit --token to auto-generate one."
    );
    let generated = resolve_token(public, &None, false).unwrap().unwrap();
    assert_eq!(generated.len(), 32);
    assert!(generated.chars().all(|c| c.is_ascii_alphanumeric()));
    assert_eq!(resolve_token(IpAddress::V6(1), &None, false).unwrap(), None);
}
