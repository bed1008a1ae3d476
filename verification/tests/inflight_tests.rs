use imagequick::inflight::{InFlight, Role};

#[test]
fn new_registry_is_empty() {
    let registry = InFlight::new();
    assert_eq!(registry.len(), 0);
    assert!(!registry.is_in_flight("a.jpg"));
}

#[test]
fn first_request_leads_and_the_rest_follow() {
    let mut registry = InFlight::new();
    let roles: Vec<Role> = (0..5).map(|_| registry.join("DCIM/a.jpg")).collect();
    assert_eq!(roles[0], Role::Leader);
    assert_eq!(roles.iter().filter(|r| **r == Role::Leader).count(), 1);
    assert_eq!(roles.iter().filter(|r| **r == Role::Follower).count(), 4);
    assert_eq!(registry.len(), 1);
    assert!(registry.is_in_flight("DCIM/a.jpg"));
}

#[test]
fn keys_do_not_disturb_each_other() {
    let mut registry = InFlight::new();
    assert_eq!(registry.join("a.jpg"), Role::Leader);
    assert_eq!(registry.join("b.jpg"), Role::Leader);
    assert_eq!(registry.join("a.jpg"), Role::Follower);
    assert_eq!(registry.len(), 2);
    assert!(registry.complete("a.jpg"));
    assert!(registry.is_in_flight("b.jpg"));
    assert!(!registry.is_in_flight("a.jpg"));
    assert_eq!(registry.join("b.jpg"), Role::Follower);
}

#[test]
fn after_completion_the_next_request_leads_again() {
    let mut registry = InFlight::new();
    assert_eq!(registry.join("a.jpg"), Role::Leader);
    assert!(registry.complete("a.jpg"));
    assert_eq!(registry.len(), 0);
    assert_eq!(registry.join("a.jpg"), Role::Leader);
}

#[test]
fn completing_an_idle_key_changes_nothing() {
    let mut registry = InFlight::new();
    registry.join("a.jpg");
    assert!(!registry.complete("b.jpg"));
    assert_eq!(registry.len(), 1);
    assert!(registry.is_in_flight("a.jpg"));
}
