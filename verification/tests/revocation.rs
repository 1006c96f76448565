use login_core::Denylist;

#[test]
fn new_registry_is_empty() {
    let registry = Denylist::new();
    assert!(!registry.is_revoked(&"alice".to_string()));
}

#[test]
fn revoke_then_is_revoked() {
    let mut registry = Denylist::new();
    let alice = "alice".to_string();
    assert!(registry.revoke(&alice));
    assert!(registry.is_revoked(&alice));
    assert!(!registry.is_revoked(&"bob".to_string()));
}

#[test]
fn revoke_is_idempotent() {
    let mut registry = Denylist::new();
    let alice = "alice".to_string();
    assert!(registry.revoke(&alice));
    assert!(!registry.revoke(&alice));
    assert!(registry.is_revoked(&alice));
}

#[test]
fn clear_after_revoke_readmits() {
    let mut registry = Denylist::new();
    let alice = "alice".to_string();
    registry.revoke(&alice);
    assert!(registry.is_revoked(&alice));
    assert!(registry.clear(&alice));
    assert!(!registry.is_revoked(&alice));
}

#[test]
fn clear_reports_absence() {
    let mut registry = Denylist::new();
    let alice = "alice".to_string();
    assert!(!registry.clear(&alice));
    registry.revoke(&alice);
    registry.revoke(&"bob".to_string());
    assert!(registry.clear(&alice));
    assert!(!registry.is_revoked(&alice));
    assert!(registry.is_revoked(&"bob".to_string()));
}
