use wsh::input::focus::FocusTracker;

#[test]
fn test_new_has_no_focus() {
    let tracker = FocusTracker::new();
    assert!(tracker.focused().is_none());
}

#[test]
fn test_focus_sets_element() {
    let mut tracker = FocusTracker::new();
    tracker.focus("overlay-1".to_string());
    assert_eq!(tracker.focused(), Some("overlay-1".to_string()));
}

#[test]
fn test_focus_replaces_previous() {
    let mut tracker = FocusTracker::new();
    tracker.focus("overlay-1".to_string());
    tracker.focus("panel-2".to_string());
    assert_eq!(tracker.focused(), Some("panel-2".to_string()));
}

#[test]
fn test_unfocus_clears_focus() {
    let mut tracker = FocusTracker::new();
    tracker.focus("overlay-1".to_string());
    tracker.unfocus();
    assert!(tracker.focused().is_none());
}

#[test]
fn test_unfocus_when_already_none() {
    let mut tracker = FocusTracker::new();
    tracker.unfocus();
    assert!(tracker.focused().is_none());
}

#[test]
fn test_clear_if_focused_clears_matching() {
    let mut tracker = FocusTracker::new();
    tracker.focus("overlay-1".to_string());
    tracker.clear_if_focused("overlay-1");
    assert!(tracker.focused().is_none());
}

#[test]
fn test_clear_if_focused_ignores_non_matching() {
    let mut tracker = FocusTracker::new();
    tracker.focus("overlay-1".to_string());
    tracker.clear_if_focused("panel-2");
    assert_eq!(tracker.focused(), Some("overlay-1".to_string()));
}

#[test]
fn test_clear_if_focused_when_none() {
    let mut tracker = FocusTracker::new();
    tracker.clear_if_focused("overlay-1");
    assert!(tracker.focused().is_none());
}

#[test]
fn test_default_has_no_focus() {
    let tracker = FocusTracker::default();
    assert!(tracker.focused().is_none());
}
