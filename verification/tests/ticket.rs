use wsh::api::ticket::{TicketStore, MAX_PENDING_TICKETS};

#[test]
fn create_returns_nonce() {
    let mut store = TicketStore::new();
    let ticket = store.create().unwrap();
    assert_eq!(ticket.len(), 32);
    assert!(ticket.chars().all(|c| c.is_ascii_alphanumeric()));
}

#[test]
fn validate_consumes_ticket() {
    let mut store = TicketStore::new();
    let ticket = store.create().unwrap();
    assert!(store.validate(&ticket));
    assert!(!store.validate(&ticket));
}

#[test]
fn validate_rejects_unknown() {
    let mut store = TicketStore::new();
    assert!(!store.validate("nonexistent"));
}

#[test]
fn limit_enforced() {
    let mut store = TicketStore::new();
    for _ in 0..MAX_PENDING_TICKETS {
        store.create().unwrap();
    }
    assert!(store.create().is_err());
}

const SEC: u64 = 1_000_000_000;

#[test]
fn expired_tickets_pruned_on_create() {
    let mut store = TicketStore::new();
    // A ticket created 60 seconds before "now".
    store.create_at("old-ticket".to_string(), 0).unwrap();
    assert!(!store.validate_at("old-ticket", 60 * SEC));

    store.create_at("old-ticket-2".to_string(), 0).unwrap();
    let ticket = store.create_at("fresh".to_string(), 60 * SEC).unwrap();
    assert_eq!(store.pending(), 1);
    assert!(store.validate_at(&ticket, 60 * SEC + 1));
}

#[test]
fn ticket_valid_until_ttl() {
    let mut store = TicketStore::new();
    store.create_at("a".to_string(), SEC).unwrap();
    assert!(store.validate_at("a", 31 * SEC - 1));
    store.create_at("b".to_string(), SEC).unwrap();
    assert!(!store.validate_at("b", 31 * SEC));
}

#[test]
fn full_store_frees_up_after_expiry() {
    let mut store = TicketStore::new();
    for i in 0..MAX_PENDING_TICKETS {
        store.create_at(format!("t{i}"), 0).unwrap();
    }
    assert!(store.create_at("late".to_string(), 30 * SEC - 1).is_err());
    assert!(store.create_at("later".to_string(), 30 * SEC).is_ok());
    assert_eq!(store.pending(), 1);
}
