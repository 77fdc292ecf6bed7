use wsh::input::keys::{is_ctrl_backslash, parse_key, ParsedKey};

#[test]
fn test_parse_printable_char() {
    let result = parse_key(b"a");
    assert_eq!(result.key, Some("a".to_string()));
    assert!(result.modifiers.is_empty());
}

#[test]
fn test_parse_ctrl_c() {
    // Ctrl+C is 0x03
    let result = parse_key(&[0x03]);
    assert_eq!(result.key, Some("c".to_string()));
    assert_eq!(result.modifiers, vec!["ctrl".to_string()]);
}

#[test]
fn test_parse_escape() {
    let result = parse_key(&[0x1b]);
    assert_eq!(result.key, Some("Escape".to_string()));
    assert!(result.modifiers.is_empty());
}

#[test]
fn test_parse_arrow_up() {
    let result = parse_key(&[0x1b, b'[', b'A']);
    assert_eq!(result.key, Some("ArrowUp".to_string()));
    assert!(result.modifiers.is_empty());
}

#[test]
fn test_parse_ctrl_backslash() {
    let result = parse_key(&[0x1c]);
    assert_eq!(result.key, Some("\\".to_string()));
    assert_eq!(result.modifiers, vec!["ctrl".to_string()]);
}

#[test]
fn test_is_ctrl_backslash() {
    assert!(is_ctrl_backslash(&[0x1c]));
    assert!(!is_ctrl_backslash(&[0x03]));
    assert!(!is_ctrl_backslash(&[0x1c, 0x00]));
    assert!(!is_ctrl_backslash(&[]));
}

#[test]
fn parsed_key_constructors() {
    let k = ParsedKey::new(Some("x".to_string()));
    assert_eq!(k.key, Some("x".to_string()));
    assert!(k.modifiers.is_empty());
    let k = ParsedKey::with_modifiers(Some("a".to_string()), vec!["ctrl".to_string(), "alt".to_string()]);
    assert_eq!(k.modifiers, vec!["ctrl".to_string(), "alt".to_string()]);
}

#[test]
fn parse_key_other_csi_and_controls() {
    assert_eq!(parse_key(&[0x1b, b'[', b'B']).key, Some("ArrowDown".to_string()));
    assert_eq!(parse_key(&[0x1b, b'[', b'C']).key, Some("ArrowRight".to_string()));
    assert_eq!(parse_key(&[0x1b, b'[', b'D']).key, Some("ArrowLeft".to_string()));
    assert_eq!(parse_key(&[0x0d]).key, Some("Enter".to_string()));
    assert_eq!(parse_key(&[0x09]).key, Some("Tab".to_string()));
    assert_eq!(parse_key(&[]).key, None);
}
