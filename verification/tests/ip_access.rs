use wsh::config::IpAccessConfig;
use wsh::federation::ip_access::{backend_lookup_target, IpAccessControl, IpAddress};

fn ip(text: &str) -> IpAddress {
    match text.parse::<core::net::IpAddr>().unwrap() {
        core::net::IpAddr::V4(a) => IpAddress::V4(u32::from(a)),
        core::net::IpAddr::V6(a) => IpAddress::V6(u128::from(a)),
    }
}
fn make_config(blocklist: &[&str], allowlist: &[&str]) -> IpAccessConfig {
    IpAccessConfig {
        blocklist: blocklist.iter().map(|s| s.to_string()).collect(),
        allowlist: allowlist.iter().map(|s| s.to_string()).collect(),
    }
}

#[test]
fn empty_config_allows_everything() {
    let ctrl = IpAccessControl::from_config(&make_config(&[], &[]));
    assert!(ctrl.is_unconfigured());
    assert!(ctrl.check(ip("10.0.1.1")).is_ok());
    assert!(ctrl.check(ip("127.0.0.1")).is_ok());
    assert!(ctrl.check(ip("::1")).is_ok());
}

#[test]
fn blocklist_denies_matching_ip() {
    let ctrl = IpAccessControl::from_config(&make_config(
        &["169.254.0.0/16"],
        &[],
    ));
    assert!(!ctrl.is_unconfigured());
    assert!(ctrl.check(ip("169.254.1.1")).is_err());
    assert!(ctrl.check(ip("10.0.1.1")).is_ok());
}

#[test]
fn blocklist_ipv6() {
    let ctrl = IpAccessControl::from_config(&make_config(
        &["::1/128"],
        &[],
    ));
    assert!(ctrl.check(ip("::1")).is_err());
    assert!(ctrl.check(ip("::2")).is_ok());
}

#[test]
fn allowlist_restricts_to_listed_cidrs() {
    let ctrl = IpAccessControl::from_config(&make_config(
        &[],
        &["10.0.0.0/8", "192.168.0.0/16"],
    ));
    assert!(ctrl.check(ip("10.0.1.1")).is_ok());
    assert!(ctrl.check(ip("192.168.1.1")).is_ok());
    assert!(ctrl.check(ip("172.16.0.1")).is_err());
    assert!(ctrl.check(ip("8.8.8.8")).is_err());
}

#[test]
fn blocklist_takes_precedence_over_allowlist() {
    let ctrl = IpAccessControl::from_config(&make_config(
        &["10.0.1.0/24"],
        &["10.0.0.0/8"],
    ));
    // 10.0.1.1 is in both blocklist and allowlist — blocklist wins
    assert!(ctrl.check(ip("10.0.1.1")).is_err());
    // 10.0.2.1 is in allowlist but not blocklist — allowed
    assert!(ctrl.check(ip("10.0.2.1")).is_ok());
    // 172.16.0.1 is in neither — denied by allowlist
    assert!(ctrl.check(ip("172.16.0.1")).is_err());
}

#[test]
fn single_host_cidr() {
    let ctrl = IpAccessControl::from_config(&make_config(
        &["192.168.1.100/32"],
        &[],
    ));
    assert!(ctrl.check(ip("192.168.1.100")).is_err());
    assert!(ctrl.check(ip("192.168.1.101")).is_ok());
}

#[test]
fn invalid_cidr_skipped() {
    let ctrl = IpAccessControl::from_config(&make_config(
        &["not-a-cidr", "10.0.0.0/8"],
        &[],
    ));
    // Invalid entry is skipped, valid entry still works
    assert!(ctrl.check(ip("10.0.1.1")).is_err());
    assert!(ctrl.check(ip("172.16.0.1")).is_ok());
}

#[test]
fn loopback_allowed_by_default() {
    // No hardcoded blocklist — loopback is legitimate for local federation testing
    let ctrl = IpAccessControl::from_config(&make_config(&[], &[]));
    assert!(ctrl.check(ip("127.0.0.1")).is_ok());
    assert!(ctrl.check(ip("::1")).is_ok());
}

#[test]
fn loopback_blocked_when_configured() {
    let ctrl = IpAccessControl::from_config(&make_config(
        &["127.0.0.0/8", "::1/128"],
        &[],
    ));
    assert!(ctrl.check(ip("127.0.0.1")).is_err());
    assert!(ctrl.check(ip("::1")).is_err());
}

#[test]
fn denial_messages_name_the_rule() {
    let ctrl = IpAccessControl::from_config(&make_config(&["10.0.1.0/24"], &["10.0.0.0/8"]));
    assert_eq!(ctrl.check(ip("10.0.1.1")).unwrap_err(), "IP 10.0.1.1 is in blocklist (10.0.1.0/24)");
    assert_eq!(ctrl.check(ip("172.16.0.1")).unwrap_err(), "IP 172.16.0.1 is not in allowlist");
}

#[test]
fn resolved_addresses_all_checked() {
    let ctrl = IpAccessControl::from_config(&make_config(&["169.254.0.0/16"], &[]));
    assert!(ctrl.check_resolved("example.com:80", &[ip("10.0.0.1"), ip("10.0.0.2")]).is_ok());
    assert_eq!(
        ctrl.check_resolved("example.com:80", &[ip("10.0.0.1"), ip("169.254.1.1")]).unwrap_err(),
        "IP 169.254.1.1 is in blocklist (169.254.0.0/16)"
    );
    assert_eq!(
        ctrl.check_resolved("example.com:80", &[]).unwrap_err(),
        "DNS resolution returned no addresses for example.com:80"
    );
}

#[test]
fn lookup_target_adds_default_ports() {
    assert_eq!(backend_lookup_target("http://example.com").unwrap(), "example.com:80");
    assert_eq!(backend_lookup_target("https://example.com/path").unwrap(), "example.com:443");
    assert_eq!(backend_lookup_target("http://10.0.0.1:8080/x").unwrap(), "10.0.0.1:8080");
    assert_eq!(backend_lookup_target("https://[::1]").unwrap(), "[::1]");
    assert_eq!(
        backend_lookup_target("example.com:80").unwrap_err(),
        "address missing scheme: example.com:80"
    );
}
