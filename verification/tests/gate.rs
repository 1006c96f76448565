use login_core::create_jwt_at;
use login_core::delete_user;
use login_core::login;
use login_core::logout;
use login_core::AuthError;
use login_core::AuthMiddleware;
use login_core::Denylist;
use login_core::LoginError;
use login_core::TokenCodec;

const SECRET: &[u8] = b"unit-test-signing-secret";

fn codec() -> TokenCodec {
    TokenCodec::new(SECRET.to_vec())
}

fn gate() -> login_core::AuthMiddlewareService {
    AuthMiddleware.new_transform(codec())
}

fn bearer(token: &str) -> String {
    format!("Bearer {}", token)
}

#[test]
fn gate_rejects_missing_header() {
    let service = gate();
    let registry = Denylist::new();
    let verdict = service.call_at(&registry, None, 2_000);
    assert_eq!(verdict, Err(AuthError::MissingHeader));
    assert_eq!(
        AuthError::MissingHeader.message(),
        "Missing or Invalid Authorization header"
    );
}

#[test]
fn gate_rejects_malformed_header() {
    let service = gate();
    let registry = Denylist::new();
    let token = create_jwt_at(&codec(), "alice", 1_000);
    // Wrong scheme word, and a bare token without any scheme.
    for header in [format!("Token {}", token), token.clone(), "Bearer".to_string()] {
        let verdict = service.call_at(&registry, Some(&header), 2_000);
        assert_eq!(verdict, Err(AuthError::MalformedHeader));
    }
    assert_eq!(
        AuthError::MalformedHeader.message(),
        "Missing or Invalid Authorization header"
    );
}

#[test]
fn gate_rejects_invalid_token() {
    let service = gate();
    let registry = Denylist::new();
    let header = bearer("definitely-not-a-token");
    let verdict = service.call_at(&registry, Some(&header), 2_000);
    assert_eq!(verdict, Err(AuthError::InvalidToken));
    assert_eq!(AuthError::InvalidToken.message(), "Invalid token");
}

#[test]
fn gate_rejects_expired_token() {
    let service = gate();
    let registry = Denylist::new();
    let token = create_jwt_at(&codec(), "alice", 1_000);
    let header = bearer(&token);
    let verdict = service.call_at(&registry, Some(&header), 5_000);
    assert_eq!(verdict, Err(AuthError::ExpiredToken));
    assert_eq!(AuthError::ExpiredToken.message(), "Invalid token");
}

#[test]
fn gate_admits_valid_token() {
    let service = gate();
    let registry = Denylist::new();
    let token = create_jwt_at(&codec(), "alice", 1_000);
    let header = bearer(&token);
    let verdict = service.call_at(&registry, Some(&header), 2_000);
    assert_eq!(verdict.as_deref(), Ok("alice"));
}

#[test]
fn gate_rejects_revoked_subject() {
    let service = gate();
    let mut registry = Denylist::new();
    let token = create_jwt_at(&codec(), "alice", 1_000);
    let header = bearer(&token);
    registry.revoke(&"alice".to_string());
    // The token itself is structurally valid and unexpired, yet refused.
    let verdict = service.call_at(&registry, Some(&header), 2_000);
    assert_eq!(verdict, Err(AuthError::Revoked));
    assert_eq!(AuthError::Revoked.message(), "Token is invalidated...");
}

#[test]
fn logout_invalidates_token_until_relogin() {
    let service = gate();
    let mut registry = Denylist::new();
    let alice = "alice".to_string();
    let token = login(&codec(), &mut registry, &alice, true, 1_000).expect("login issues a token");
    let header = bearer(&token);
    assert_eq!(service.call_at(&registry, Some(&header), 2_000).as_deref(), Ok("alice"));

    assert_eq!(logout(&mut registry, &alice), "Logged out successfully...");
    // The very same token is now turned away.
    assert_eq!(
        service.call_at(&registry, Some(&header), 2_000),
        Err(AuthError::Revoked)
    );
    assert_eq!(
        logout(&mut registry, &alice),
        "Already logged out or invalid token..."
    );
}

#[test]
fn login_clears_revocation() {
    let mut registry = Denylist::new();
    let alice = "alice".to_string();
    registry.revoke(&alice);
    assert!(registry.is_revoked(&alice));
    let token = login(&codec(), &mut registry, &alice, true, 1_000);
    assert!(token.is_ok());
    assert!(!registry.is_revoked(&alice));
}

#[test]
fn failed_login_changes_nothing() {
    let mut registry = Denylist::new();
    let alice = "alice".to_string();
    registry.revoke(&alice);
    let verdict = login(&codec(), &mut registry, &alice, false, 1_000);
    assert_eq!(verdict, Err(LoginError::InvalidCredentials));
    assert!(registry.is_revoked(&alice));
    assert_eq!(
        LoginError::InvalidCredentials.message(),
        "Invalid username or password..."
    );
}

#[test]
fn delete_user_revokes_existing_subject() {
    let mut registry = Denylist::new();
    let alice = "alice".to_string();
    assert!(delete_user(&mut registry, &alice, 1));
    assert!(registry.is_revoked(&alice));
}

#[test]
fn delete_user_reports_missing_subject() {
    let mut registry = Denylist::new();
    let alice = "alice".to_string();
    assert!(!delete_user(&mut registry, &alice, 0));
    assert!(!registry.is_revoked(&alice));
}
