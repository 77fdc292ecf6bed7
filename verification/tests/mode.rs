use wsh::input::mode::{InputMode, InputModeError, Mode};

#[test]
fn test_default_mode_is_passthrough() {
    let input_mode = InputMode::new();
    assert_eq!(input_mode.get(), Mode::Passthrough);
}

#[test]
fn test_capture_mode() {
    let mut input_mode = InputMode::new();
    input_mode.capture("agent-1").unwrap();
    assert_eq!(input_mode.get(), Mode::Capture);
}

#[test]
fn test_release_mode() {
    let mut input_mode = InputMode::new();
    input_mode.capture("agent-1").unwrap();
    assert_eq!(input_mode.get(), Mode::Capture);
    input_mode.release("agent-1").unwrap();
    assert_eq!(input_mode.get(), Mode::Passthrough);
}

#[test]
fn test_capture_rejected_if_different_owner() {
    let mut input_mode = InputMode::new();
    input_mode.capture("agent-1").unwrap();
    let err = input_mode.capture("agent-2").unwrap_err();
    assert_eq!(err, InputModeError::AlreadyCaptured { owner: "agent-1".to_string() });
}

#[test]
fn test_same_owner_can_recapture() {
    let mut input_mode = InputMode::new();
    input_mode.capture("agent-1").unwrap();
    input_mode.capture("agent-1").unwrap();
    assert_eq!(input_mode.get(), Mode::Capture);
}

#[test]
fn test_release_rejected_if_not_owner() {
    let mut input_mode = InputMode::new();
    input_mode.capture("agent-1").unwrap();
    let err = input_mode.release("agent-2").unwrap_err();
    assert_eq!(err, InputModeError::NotOwner);
}

#[test]
fn test_release_if_owner() {
    let mut input_mode = InputMode::new();
    input_mode.capture("agent-1").unwrap();
    input_mode.release_if_owner("agent-2");
    assert_eq!(input_mode.get(), Mode::Capture);
    input_mode.release_if_owner("agent-1");
    assert_eq!(input_mode.get(), Mode::Passthrough);
}

#[test]
fn test_toggle() {
    let mut input_mode = InputMode::new();
    assert_eq!(input_mode.get(), Mode::Passthrough);

    let new_mode = input_mode.toggle();
    assert_eq!(new_mode, Mode::Capture);
    assert_eq!(input_mode.get(), Mode::Capture);
    assert_eq!(input_mode.owner(), Some("local".to_string()));

    let new_mode = input_mode.toggle();
    assert_eq!(new_mode, Mode::Passthrough);
    assert_eq!(input_mode.get(), Mode::Passthrough);
    assert_eq!(input_mode.owner(), None);
}

#[test]
fn test_is_capture() {
    let mut input_mode = InputMode::new();
    assert!(!input_mode.is_capture());
    input_mode.capture("test").unwrap();
    assert!(input_mode.is_capture());
    input_mode.release("test").unwrap();
    assert!(!input_mode.is_capture());
}

#[test]
fn test_mode_default() {
    let mode = Mode::default();
    assert_eq!(mode, Mode::Passthrough);
}

#[test]
fn input_mode_error_texts() {
    assert_eq!(
        InputModeError::AlreadyCaptured { owner: "agent-1".to_string() }.to_text(),
        "input already captured by agent-1"
    );
    assert_eq!(InputModeError::NotOwner.to_text(), "caller is not the current capture owner");
}

#[test]
fn release_when_not_captured_is_ok() {
    let mut input_mode = InputMode::new();
    assert!(input_mode.release("anyone").is_ok());
    assert_eq!(input_mode.get(), Mode::Passthrough);
}
