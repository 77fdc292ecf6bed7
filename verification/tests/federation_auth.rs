use wsh::federation::auth::resolve_backend_token;

#[test]
fn per_server_token_wins() {
    let token = resolve_backend_token(Some("per-server"), Some("default"), Some("local"));
    assert_eq!(token.as_deref(), Some("per-server"));
}

#[test]
fn default_token_fallback() {
    let token = resolve_backend_token(None, Some("default"), Some("local"));
    assert_eq!(token.as_deref(), Some("default"));
}

#[test]
fn local_token_fallback() {
    let token = resolve_backend_token(None, None, Some("local"));
    assert_eq!(token.as_deref(), Some("local"));
}

#[test]
fn no_token_available() {
    let token = resolve_backend_token(None, None, None);
    assert!(token.is_none());
}
