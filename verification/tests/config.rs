use wsh::config::{choose_hostname, resolve_hostname, FederationConfig, ServerIdentityConfig};

#[test]
fn resolve_hostname_from_config() {
    let config = FederationConfig {
        server: Some(ServerIdentityConfig { hostname: Some("my-custom-host".into()) }),
        ..Default::default()
    };
    assert_eq!(resolve_hostname(config.server.as_ref()), "my-custom-host");
}

#[test]
fn resolve_hostname_falls_back_to_system() {
    let hostname = resolve_hostname(None);
    assert!(!hostname.is_empty());
}

#[test]
fn choose_hostname_cascade() {
    let with_override = ServerIdentityConfig { hostname: Some("cfg".into()) };
    let without_override = ServerIdentityConfig { hostname: None };
    assert_eq!(choose_hostname(Some(&with_override), Some("sys".into())), "cfg");
    assert_eq!(choose_hostname(Some(&without_override), Some("sys".into())), "sys");
    assert_eq!(choose_hostname(None, Some("sys".into())), "sys");
    assert_eq!(choose_hostname(None, None), "unknown");
}

#[test]
fn default_config_is_empty() {
    let config = FederationConfig::default();
    assert!(config.server.is_none());
    assert!(config.default_token.is_none());
    assert!(config.servers.is_empty());
    assert!(config.ip_access.is_none());
}
