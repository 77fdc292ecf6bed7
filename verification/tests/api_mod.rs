use wsh::api::error::ApiError;
use wsh::api::{get_session, ws_allowed_origins, ServerConfig};

#[test]
fn test_server_config_defaults_to_ephemeral() {
    let config = ServerConfig::new(false);
    assert!(!config.is_persistent());
}

#[test]
fn test_server_config_can_be_created_persistent() {
    let config = ServerConfig::new(true);
    assert!(config.is_persistent());
}

#[test]
fn test_server_config_set_persistent_toggles() {
    let mut config = ServerConfig::new(false);
    assert!(!config.is_persistent());
    config.set_persistent(true);
    assert!(config.is_persistent());
    config.set_persistent(false);
    assert!(!config.is_persistent());
}

#[test]
fn get_session_reports_missing_name() {
    assert_eq!(get_session(Some(7u32), "s1").unwrap(), 7);
    match get_session::<u32>(None, "ghost") {
        Err(ApiError::SessionNotFound(name)) => assert_eq!(name, "ghost"),
        other => panic!("unexpected {:?}", other),
    }
}

#[test]
fn allowed_origins_for_port() {
    let extra = vec!["https://app.example.com".to_string()];
    let origins = ws_allowed_origins(8080, &extra);
    assert_eq!(
        origins,
        vec![
            "http://127.0.0.1:8080".to_string(),
            "http://localhost:8080".to_string(),
            "http://[::1]:8080".to_string(),
            "https://app.example.com".to_string(),
        ]
    );
}
