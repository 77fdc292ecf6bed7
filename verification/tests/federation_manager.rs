use wsh::config::{BackendServerConfig, FederationConfig};
use wsh::federation::connection::{
    backend_info_url, backend_ws_url, host_authority, next_backoff_ms, server_info_from_json,
    BackendLink, LinkAction, LinkEvent, ServerInfo,
};
use wsh::federation::manager::FederationManager;
use wsh::federation::registry::BackendHealth;
use wsh::json::Json;

#[test]
fn manager_from_empty_config() {
    let config = FederationConfig::default();
    let manager = FederationManager::from_config(config, None, None);
    assert!(manager.registry().list().is_empty());
}

#[test]
fn manager_from_config_with_backends() {
    let config = FederationConfig {
        server: None,
        default_token: Some("default-tok".into()),
        servers: vec![
            BackendServerConfig { address: "http://10.0.1.10:8080".into(), token: None },
            BackendServerConfig { address: "http://10.0.1.11:8080".into(), token: Some("specific".into()) },
        ],
        ip_access: None,
    };
    let manager = FederationManager::from_config(config, None, None);
    let backends = manager.registry().list();
    assert_eq!(backends.len(), 2);
    // All start in Connecting state
    assert!(backends.iter().all(|b| b.health == BackendHealth::Connecting));
}

#[test]
fn manager_add_and_remove() {
    let mut manager = FederationManager::new();
    manager.add_backend("http://10.0.99.1:9999", Some("tok")).unwrap();
    assert_eq!(manager.registry().list().len(), 1);
    assert!(manager.remove_backend_by_address("http://10.0.99.1:9999"));
    assert!(manager.registry().list().is_empty());
}

#[test]
fn manager_rejects_duplicate() {
    let mut manager = FederationManager::new();
    manager.add_backend("http://10.0.99.1:9999", None).unwrap();
    assert!(manager.add_backend("http://10.0.99.1:9999", None).is_err());
}

#[test]
fn manager_rejects_localhost_address() {
    let mut manager = FederationManager::new();
    let result = manager.add_backend("http://127.0.0.1:9999", None);
    assert!(result.is_err());
}

#[test]
fn manager_registers_addresses_without_scheme() {
    let config = FederationConfig {
        servers: vec![
            BackendServerConfig { address: "https://10.0.1.12:8443".into(), token: None },
            BackendServerConfig { address: "10.0.1.13:8080".into(), token: None },
        ],
        ..Default::default()
    };
    let mut manager = FederationManager::from_config(config, Some("local".into()), None);
    let backends = manager.registry().list();
    assert_eq!(backends[0].address, "10.0.1.12:8443");
    assert_eq!(backends[1].address, "10.0.1.13:8080");
    assert_eq!(backends[0].token.as_deref(), Some("local"));
    // The same backend with and without a scheme is one backend.
    assert!(manager.add_backend("http://10.0.1.13:8080", None).is_err());
    assert!(manager.remove_backend_by_address("10.0.1.12:8443"));
}

#[test]
fn manager_default_token_cascade() {
    let config = FederationConfig { default_token: Some("cfg-default".into()), ..Default::default() };
    let mut manager = FederationManager::from_config(config, Some("local".into()), None);
    manager.add_backend("10.0.99.2:9999", None).unwrap();
    assert_eq!(manager.registry().list()[0].token.as_deref(), Some("cfg-default"));
}

#[test]
fn manager_skips_invalid_configured_backends() {
    let config = FederationConfig {
        servers: vec![
            BackendServerConfig { address: "ftp://10.0.1.10:8080".into(), token: None },
            BackendServerConfig { address: "http://10.0.1.11:8080".into(), token: None },
            BackendServerConfig { address: "10.0.1.11:8080".into(), token: None },
        ],
        ..Default::default()
    };
    let manager = FederationManager::from_config(config, None, None);
    let backends = manager.registry().list();
    assert_eq!(backends.len(), 1);
    assert_eq!(backends[0].address, "10.0.1.11:8080");
}

#[test]
fn backoff_doubles_up_to_a_minute() {
    assert_eq!(next_backoff_ms(1000), 2000);
    assert_eq!(next_backoff_ms(16_000), 32_000);
    assert_eq!(next_backoff_ms(32_000), 60_000);
    assert_eq!(next_backoff_ms(60_000), 60_000);
}

#[test]
fn urls_and_authority() {
    assert_eq!(backend_ws_url("10.0.0.1:8080"), "ws://10.0.0.1:8080/ws/json");
    assert_eq!(backend_info_url("10.0.0.1:8080"), "http://10.0.0.1:8080/server/info");
    assert_eq!(host_authority("https://example.com:8443/path"), "example.com:8443");
    assert_eq!(host_authority("http://example.com"), "example.com");
    assert_eq!(host_authority("10.0.0.1:8080"), "10.0.0.1:8080");
}

#[test]
fn server_info_fields() {
    let body = Json::Object(vec![
        ("hostname".to_string(), Json::Str("node-a".to_string())),
        ("server_id".to_string(), Json::Number("5".to_string())),
    ]);
    let info = server_info_from_json(&body);
    assert_eq!(info.hostname.as_deref(), Some("node-a"));
    assert_eq!(info.server_id, None);
}

#[test]
fn link_lifecycle_updates_registry() {
    let mut manager = FederationManager::new();
    manager.add_backend("10.0.5.5:8080", None).unwrap();
    let mut link = BackendLink::new("10.0.5.5:8080".to_string());

    assert_eq!(manager.apply_link_event(&mut link, "me", LinkEvent::ConnectFailed), LinkAction::RetryAfter(1000));
    assert_eq!(manager.registry().list()[0].health, BackendHealth::Unavailable);
    assert_eq!(link.backoff_ms(), 2000);

    let info = ServerInfo { hostname: Some("remote-1".to_string()), server_id: Some("other".to_string()) };
    assert_eq!(manager.apply_link_event(&mut link, "me", LinkEvent::Connected(info)), LinkAction::RunSession);
    let entry = &manager.registry().list()[0];
    assert_eq!(entry.health, BackendHealth::Healthy);
    assert_eq!(entry.hostname.as_deref(), Some("remote-1"));
    assert_eq!(entry.server_id.as_deref(), Some("other"));
    assert_eq!(link.backoff_ms(), 1000);

    assert_eq!(manager.apply_link_event(&mut link, "me", LinkEvent::SessionEnded), LinkAction::RetryAfter(1000));
    assert_eq!(manager.registry().list()[0].health, BackendHealth::Unavailable);
    assert_eq!(manager.apply_link_event(&mut link, "me", LinkEvent::ShutdownRequested), LinkAction::Stop);
}

#[test]
fn self_loop_is_stopped() {
    let mut manager = FederationManager::new();
    manager.add_backend("10.0.5.6:8080", None).unwrap();
    let mut link = BackendLink::new("10.0.5.6:8080".to_string());
    let info = ServerInfo { hostname: None, server_id: Some("me".to_string()) };
    assert_eq!(manager.apply_link_event(&mut link, "me", LinkEvent::Connected(info)), LinkAction::Stop);
    assert_eq!(manager.registry().list()[0].health, BackendHealth::Rejected);
    assert_eq!(manager.registry().list()[0].server_id.as_deref(), Some("me"));
}
