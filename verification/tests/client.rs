//! The scroll-region part of a panel update. The layout (which rows the
//! panels leave to the shell) is given directly: a bottom panel of height 1
//! on a 24-row terminal leaves rows 1..=23, and an extra top panel of
//! height 1 leaves rows 2..=23.
use wsh::client::{scroll_region_change, scroll_region_escape, ScrollRegionChange};

fn region_output(had_panels: bool, has_panels: bool, top: u16, bottom: u16) -> String {
    scroll_region_escape(scroll_region_change(had_panels, has_panels, top, bottom))
}

#[test]
fn test_panel_sync_no_panels_to_no_panels_skips_scroll_region() {
    let output = region_output(false, false, 1, 24);
    assert!(!output.contains("\x1b[r"), "empty→empty must not emit DECSTBM; got: {:?}", output);
}

#[test]
fn test_panel_sync_panels_to_no_panels_resets_scroll_region() {
    let output = region_output(true, false, 1, 24);
    assert!(output.contains("\x1b[r"), "panels→empty must emit DECSTBM reset; got: {:?}", output);
    assert!(
        output.contains("\x1b[s\x1b[r\x1b[u"),
        "DECSTBM reset must be wrapped in SCOSC save/restore; got: {:?}",
        output,
    );
}

#[test]
fn test_panel_sync_no_panels_to_panels_sets_scroll_region() {
    let output = region_output(false, true, 1, 23);
    assert!(
        output.contains("\x1b[s\x1b[1;23r\x1b[u"),
        "empty→panels must set scroll region with save/restore; got: {:?}",
        output,
    );
}

#[test]
fn test_panel_sync_panels_to_panels_updates_scroll_region() {
    let output = region_output(true, true, 2, 23);
    assert!(
        output.contains("\x1b[s\x1b[2;23r\x1b[u"),
        "panels→panels must update scroll region with save/restore; got: {:?}",
        output,
    );
}

#[test]
fn scroll_region_keep_is_empty() {
    assert_eq!(scroll_region_change(false, false, 1, 24), ScrollRegionChange::Keep);
    assert_eq!(region_output(false, false, 1, 24), "");
    assert_eq!(region_output(true, false, 1, 24), "\x1b[s\x1b[r\x1b[u");
}
