use login_core::create_jwt;
use login_core::create_jwt_at;
use login_core::decode_jwt;
use login_core::decode_jwt_at;
use login_core::AuthError;
use login_core::TokenCodec;

fn codec() -> TokenCodec {
    TokenCodec::new(b"unit-test-signing-secret".to_vec())
}

#[test]
fn token_round_trip_subject() {
    let codec = codec();
    let token = create_jwt_at(&codec, "alice", 1_000);
    let subject = decode_jwt_at(&codec, &token, 2_000).expect("token verifies");
    assert_eq!(subject, "alice");
}

#[test]
fn token_round_trip_wall_clock() {
    let codec = codec();
    let token = create_jwt(&codec, "bob").expect("token issued");
    let subject = decode_jwt(&codec, &token).expect("token verifies");
    assert_eq!(subject, "bob");
}

#[test]
fn expired_token_rejected() {
    let codec = codec();
    let token = create_jwt_at(&codec, "alice", 1_000);
    // Expiry is issue time + 3600; current time == expiry already counts as expired.
    assert_eq!(decode_jwt_at(&codec, &token, 4_600), Err(AuthError::ExpiredToken));
    assert_eq!(decode_jwt_at(&codec, &token, 10_000), Err(AuthError::ExpiredToken));
    // One second before expiry it still verifies.
    assert_eq!(decode_jwt_at(&codec, &token, 4_599).as_deref(), Ok("alice"));
}

#[test]
fn tampered_signature_rejected() {
    let codec = codec();
    let token = create_jwt_at(&codec, "alice", 1_000);
    let (head, signature) = token.rsplit_once('.').expect("three segments");
    let mut sig_bytes = signature.as_bytes().to_vec();
    sig_bytes[0] = if sig_bytes[0] == b'A' { b'B' } else { b'A' };
    let tampered = format!("{}.{}", head, String::from_utf8(sig_bytes).unwrap());
    assert_ne!(tampered, token);
    assert_eq!(decode_jwt_at(&codec, &tampered, 2_000), Err(AuthError::InvalidToken));
}

#[test]
fn malformed_token_rejected() {
    let codec = codec();
    assert_eq!(decode_jwt_at(&codec, "garbage", 2_000), Err(AuthError::InvalidToken));
    assert_eq!(decode_jwt_at(&codec, "not.a.jwt", 2_000), Err(AuthError::InvalidToken));
    assert_eq!(decode_jwt_at(&codec, "", 2_000), Err(AuthError::InvalidToken));
}

#[test]
fn wrong_secret_rejected() {
    let codec = codec();
    let other = TokenCodec::new(b"a-different-secret".to_vec());
    let token = create_jwt_at(&codec, "alice", 1_000);
    assert_eq!(decode_jwt_at(&other, &token, 2_000), Err(AuthError::InvalidToken));
}
