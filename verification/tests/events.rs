use wsh::input::events::InputEvent;
use wsh::input::mode::Mode;

#[test]
fn test_broadcast_input_with_parsed_key() {
    let event = InputEvent::input(b"a", Mode::Passthrough, None);
    match event {
        InputEvent::Input { mode, raw, parsed, target } => {
            assert_eq!(mode, Mode::Passthrough);
            assert_eq!(raw, vec![b'a']);
            assert!(parsed.is_some());
            let parsed = parsed.unwrap();
            assert_eq!(parsed.key, Some("a".to_string()));
            assert!(target.is_none());
        }
        _ => panic!("Expected Input event"),
    }
}

#[test]
fn test_broadcast_input_without_parsed_key() {
    let event = InputEvent::input(&[0x80, 0x81], Mode::Capture, None);
    match event {
        InputEvent::Input { mode, raw, parsed, target } => {
            assert_eq!(mode, Mode::Capture);
            assert_eq!(raw, vec![0x80, 0x81]);
            assert!(parsed.is_none());
            assert!(target.is_none());
        }
        _ => panic!("Expected Input event"),
    }
}

#[test]
fn test_broadcast_mode() {
    let event = InputEvent::mode_change(Mode::Capture);
    match event {
        InputEvent::Mode { mode } => {
            assert_eq!(mode, Mode::Capture);
        }
        _ => panic!("Expected Mode event"),
    }
}

#[test]
fn input_event_keeps_target() {
    match InputEvent::input(&[0x03], Mode::Capture, Some("overlay-1".to_string())) {
        InputEvent::Input { parsed, target, .. } => {
            let parsed = parsed.unwrap();
            assert_eq!(parsed.key, Some("c".to_string()));
            assert_eq!(parsed.modifiers, vec!["ctrl".to_string()]);
            assert_eq!(target, Some("overlay-1".to_string()));
        }
        _ => panic!("Expected Input event"),
    }
}
