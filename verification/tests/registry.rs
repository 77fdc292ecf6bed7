use wsh::federation::registry::{
    validate_backend_address, validate_hostname, BackendEntry, BackendHealth, BackendRegistry,
    BackendRole, RegistryError,
};
#[test]
fn new_registry_is_empty() {
    let mut reg = BackendRegistry::new();
    assert!(reg.list().is_empty());
}

#[test]
fn add_and_list_backend() {
    let mut reg = BackendRegistry::new();
    reg.add(BackendEntry {
        address: "10.0.1.10:8080".into(),
        token: Some("tok".into()),
        hostname: None,
        health: BackendHealth::Connecting,
        role: BackendRole::Member,
        server_id: None,
    })
    .unwrap();
    let list = reg.list();
    assert_eq!(list.len(), 1);
    assert_eq!(list[0].address, "10.0.1.10:8080");
}

#[test]
fn remove_backend_by_address() {
    let mut reg = BackendRegistry::new();
    reg.add(BackendEntry {
        address: "10.0.1.10:8080".into(),
        token: Some("tok".into()),
        hostname: None,
        health: BackendHealth::Connecting,
        role: BackendRole::Member,
        server_id: None,
    })
    .unwrap();
    assert!(reg.remove_by_address("10.0.1.10:8080"));
    assert!(reg.list().is_empty());
}

#[test]
fn remove_backend_by_hostname() {
    let mut reg = BackendRegistry::new();
    reg.add(BackendEntry {
        address: "10.0.1.10:8080".into(),
        token: Some("tok".into()),
        hostname: Some("prod-1".into()),
        health: BackendHealth::Healthy,
        role: BackendRole::Member,
        server_id: None,
    })
    .unwrap();
    assert!(reg.remove_by_hostname("prod-1"));
    assert!(reg.list().is_empty());
}

#[test]
fn duplicate_address_rejected() {
    let mut reg = BackendRegistry::new();
    reg.add(BackendEntry {
        address: "10.0.1.10:8080".into(),
        token: None,
        hostname: None,
        health: BackendHealth::Connecting,
        role: BackendRole::Member,
        server_id: None,
    })
    .unwrap();
    assert!(reg
        .add(BackendEntry {
            address: "10.0.1.10:8080".into(),
            token: None,
            hostname: None,
            health: BackendHealth::Connecting,
            role: BackendRole::Member,
            server_id: None,
        })
        .is_err());
}

#[test]
fn hostname_collision_rejected() {
    let mut reg = BackendRegistry::new();
    reg.add(BackendEntry {
        address: "10.0.1.10:8080".into(),
        token: None,
        hostname: Some("same-host".into()),
        health: BackendHealth::Healthy,
        role: BackendRole::Member,
        server_id: None,
    })
    .unwrap();
    assert!(reg
        .add(BackendEntry {
            address: "10.0.1.11:8080".into(),
            token: None,
            hostname: Some("same-host".into()),
            health: BackendHealth::Healthy,
            role: BackendRole::Member,
            server_id: None,
        })
        .is_err());
}

#[test]
fn set_hostname_updates_entry() {
    let mut reg = BackendRegistry::new();
    reg.add(BackendEntry {
        address: "10.0.1.10:8080".into(),
        token: None,
        hostname: None,
        health: BackendHealth::Connecting,
        role: BackendRole::Member,
        server_id: None,
    })
    .unwrap();
    reg.set_hostname("10.0.1.10:8080", "prod-1").unwrap();
    let list = reg.list();
    assert_eq!(list[0].hostname.as_deref(), Some("prod-1"));
}

#[test]
fn set_health_updates_entry() {
    let mut reg = BackendRegistry::new();
    reg.add(BackendEntry {
        address: "10.0.1.10:8080".into(),
        token: None,
        hostname: None,
        health: BackendHealth::Connecting,
        role: BackendRole::Member,
        server_id: None,
    })
    .unwrap();
    reg.set_health("10.0.1.10:8080", BackendHealth::Unavailable);
    let list = reg.list();
    assert_eq!(list[0].health, BackendHealth::Unavailable);
}

#[test]
fn get_by_hostname() {
    let mut reg = BackendRegistry::new();
    reg.add(BackendEntry {
        address: "10.0.1.10:8080".into(),
        token: None,
        hostname: Some("prod-1".into()),
        health: BackendHealth::Healthy,
        role: BackendRole::Member,
        server_id: None,
    })
    .unwrap();
    let entry = reg.get_by_hostname("prod-1").unwrap();
    assert_eq!(entry.address, "10.0.1.10:8080");
}

#[test]
fn healthy_backends_only() {
    let mut reg = BackendRegistry::new();
    reg.add(BackendEntry {
        address: "10.0.1.10:8080".into(),
        token: None,
        hostname: Some("healthy".into()),
        health: BackendHealth::Healthy,
        role: BackendRole::Member,
        server_id: None,
    })
    .unwrap();
    reg.add(BackendEntry {
        address: "10.0.1.11:8080".into(),
        token: None,
        hostname: Some("down".into()),
        health: BackendHealth::Unavailable,
        role: BackendRole::Member,
        server_id: None,
    })
    .unwrap();
    let healthy = reg.healthy();
    assert_eq!(healthy.len(), 1);
    assert_eq!(healthy[0].hostname.as_deref(), Some("healthy"));
}

// ── Hostname validation tests ────────────────────────────────

#[test]
fn hostname_valid_simple() {
    assert!(validate_hostname("prod-1").is_ok());
}

#[test]
fn hostname_valid_fqdn() {
    assert!(validate_hostname("app.example.com").is_ok());
}

#[test]
fn hostname_valid_single_char() {
    assert!(validate_hostname("a").is_ok());
}

#[test]
fn hostname_valid_with_numbers() {
    assert!(validate_hostname("node-01.cluster-3.internal").is_ok());
}

#[test]
fn hostname_empty_rejected() {
    assert!(validate_hostname("").is_err());
}

#[test]
fn hostname_too_long_rejected() {
    let long = "a".repeat(254);
    assert!(validate_hostname(&long).is_err());
}

#[test]
fn hostname_253_chars_accepted() {
    // 63 chars per label, 3 labels + 2 dots = 63*3 + 2 = 191 < 253
    let label = "a".repeat(63);
    let hostname = format!("{}.{}.{}", label, label, label);
    assert!(validate_hostname(&hostname).is_ok());
}

#[test]
fn hostname_label_too_long_rejected() {
    let long_label = "a".repeat(64);
    assert!(validate_hostname(&long_label).is_err());
}

#[test]
fn hostname_leading_hyphen_rejected() {
    assert!(validate_hostname("-invalid").is_err());
}

#[test]
fn hostname_trailing_hyphen_rejected() {
    assert!(validate_hostname("invalid-").is_err());
}

#[test]
fn hostname_consecutive_dots_rejected() {
    assert!(validate_hostname("a..b").is_err());
}

#[test]
fn hostname_leading_dot_rejected() {
    assert!(validate_hostname(".example.com").is_err());
}

#[test]
fn hostname_trailing_dot_accepted_as_labels() {
    // A trailing dot produces an empty final label.
    assert!(validate_hostname("example.com.").is_err());
}

#[test]
fn hostname_invalid_chars_rejected() {
    assert!(validate_hostname("host_name").is_err());
    assert!(validate_hostname("host name").is_err());
    assert!(validate_hostname("host@name").is_err());
}

#[test]
fn hostname_hyphen_in_middle_ok() {
    assert!(validate_hostname("my-host").is_ok());
    assert!(validate_hostname("a-b-c").is_ok());
}

// ── Address validation tests ─────────────────────────────────

#[test]
fn address_valid_ip_port() {
    assert!(validate_backend_address("10.0.1.10:8080").is_ok());
}

#[test]
fn address_valid_hostname_port() {
    assert!(validate_backend_address("example.com:443").is_ok());
}

#[test]
fn address_valid_ipv6_bracket() {
    assert!(validate_backend_address("[2001:db8::1]:8080").is_ok());
}

#[test]
fn address_scheme_rejected() {
    assert!(validate_backend_address("http://example.com:8080").is_err());
    assert!(validate_backend_address("https://example.com:443").is_err());
    assert!(validate_backend_address("file:///etc/passwd").is_err());
}

#[test]
fn address_missing_port_rejected() {
    assert!(validate_backend_address("example.com").is_err());
}

#[test]
fn address_empty_host_rejected() {
    assert!(validate_backend_address(":8080").is_err());
}

#[test]
fn address_invalid_port_rejected() {
    assert!(validate_backend_address("example.com:99999").is_err());
    assert!(validate_backend_address("example.com:abc").is_err());
    assert!(validate_backend_address("example.com:").is_err());
}

#[test]
fn address_localhost_rejected() {
    assert!(validate_backend_address("localhost:8080").is_err());
    assert!(validate_backend_address("LOCALHOST:8080").is_err());
}

#[test]
fn address_loopback_ipv4_rejected() {
    assert!(validate_backend_address("127.0.0.1:8080").is_err());
    assert!(validate_backend_address("127.0.0.2:8080").is_err());
    assert!(validate_backend_address("127.255.255.255:8080").is_err());
}

#[test]
fn address_loopback_ipv6_rejected() {
    assert!(validate_backend_address("[::1]:8080").is_err());
}

#[test]
fn address_unspecified_rejected() {
    assert!(validate_backend_address("0.0.0.0:8080").is_err());
}

#[test]
fn address_unspecified_ipv6_rejected() {
    assert!(validate_backend_address("[::]:8080").is_err());
}

#[test]
fn address_private_ip_accepted() {
    // Private IPs are allowed -- only loopback is blocked.
    assert!(validate_backend_address("10.0.0.1:8080").is_ok());
    assert!(validate_backend_address("192.168.1.1:8080").is_ok());
    assert!(validate_backend_address("172.16.0.1:8080").is_ok());
}

// ── Registry add with validation ─────────────────────────────

#[test]
fn registry_add_rejects_localhost_address() {
    let mut reg = BackendRegistry::new();
    let result = reg.add(BackendEntry {
        address: "127.0.0.1:8080".into(),
        token: None,
        hostname: None,
        health: BackendHealth::Connecting,
        role: BackendRole::Member,
        server_id: None,
    });
    assert!(result.is_err());
    assert!(matches!(result.unwrap_err(), RegistryError::InvalidAddress(_)));
}

#[test]
fn registry_add_rejects_invalid_hostname() {
    let mut reg = BackendRegistry::new();
    let result = reg.add(BackendEntry {
        address: "10.0.1.10:8080".into(),
        token: None,
        hostname: Some("-invalid".into()),
        health: BackendHealth::Connecting,
        role: BackendRole::Member,
        server_id: None,
    });
    assert!(result.is_err());
    assert!(matches!(result.unwrap_err(), RegistryError::InvalidHostname(_)));
}

#[test]
fn registry_add_rejects_scheme_in_address() {
    let mut reg = BackendRegistry::new();
    let result = reg.add(BackendEntry {
        address: "http://10.0.1.10:8080".into(),
        token: None,
        hostname: None,
        health: BackendHealth::Connecting,
        role: BackendRole::Member,
        server_id: None,
    });
    assert!(result.is_err());
    assert!(matches!(result.unwrap_err(), RegistryError::InvalidAddress(_)));
}

#[test]
fn rejects_ipv4_mapped_loopback_and_unspecified() {
    assert!(validate_backend_address("[::ffff:127.0.0.1]:8080").is_err());
    assert!(validate_backend_address("[::ffff:127.9.9.9]:8080").is_err());
    assert!(validate_backend_address("[::ffff:0.0.0.0]:8080").is_err());
    assert!(validate_backend_address("[::ffff:10.0.0.1]:8080").is_ok());
}

#[test]
fn long_multibyte_label_is_refused_without_panic() {
    let hostname = format!("{}{}", "a".repeat(19), "é".repeat(30));
    let err = validate_hostname(&hostname).unwrap_err();
    assert_eq!(err, format!("label '{}' exceeds 63 characters (got 79)", "a".repeat(19)));
}

#[test]
fn registry_add_refuses_long_multibyte_hostname() {
    let mut reg = BackendRegistry::new();
    let result = reg.add(BackendEntry {
        address: "10.0.1.10:8080".into(),
        token: None,
        hostname: Some(format!("{}{}", "a".repeat(19), "é".repeat(30))),
        health: BackendHealth::Connecting,
        role: BackendRole::Member,
        server_id: None,
    });
    assert!(matches!(result, Err(RegistryError::InvalidHostname(_))));
}

#[test]
fn registry_records_server_id() {
    let mut reg = BackendRegistry::new();
    reg.add(BackendEntry {
        address: "10.0.1.10:8080".into(),
        token: None,
        hostname: None,
        health: BackendHealth::Connecting,
        role: BackendRole::Member,
        server_id: None,
    })
    .unwrap();
    reg.set_server_id("10.0.1.10:8080", "srv-1");
    reg.set_server_id("10.0.9.9:8080", "srv-2");
    assert_eq!(reg.list()[0].server_id.as_deref(), Some("srv-1"));
    assert_eq!(reg.list().len(), 1);
}
