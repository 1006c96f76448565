//! Token issuance and verification.
//!
//! A token is an opaque signed string embedding a subject and an expiry in
//! unix seconds. Signing and signature checking are done by the jsonwebtoken
//! crate under a secret that is loaded once at startup and passed in
//! explicitly; this module owns every decision around the call: what goes
//! into a token, and how a verification outcome maps to a result.

use crate::errors::AuthError;
use crate::errors::TokenError;
use vstd::prelude::*;

verus! {

/// Seconds a freshly issued token stays valid.
pub const TOKEN_VALIDITY_SECS: u64 = 3600;

/// The signed token that the codec produces for a secret, a subject and an
/// expiry. One fixed result per input: signing is deterministic.
pub uninterp spec fn token_of(secret: Seq<u8>, sub: Seq<char>, exp: u64) -> Seq<char>;

/// What decoding a token under a secret yields: the embedded subject and
/// expiry, or nothing if the token is not well-formed or its signature does
/// not match the secret. Expiry is not judged here.
pub uninterp spec fn claims_of(secret: Seq<u8>, token: Seq<char>) -> Option<(Seq<char>, u64)>;

/// Signs and verifies identity tokens. Holds nothing but the immutable
/// signing secret; safe to call concurrently without synchronisation.
pub struct TokenCodec {
    secret: Vec<u8>,
}

impl TokenCodec {
    /// The signing key, as the contracts speak of it.
    pub closed spec fn secret_key(&self) -> Seq<u8> {
        self.secret@
    }

    /// A codec over the given secret. Configuration is explicit: the caller
    /// loads the secret once at startup and refuses to start without one.
    pub fn new(secret: Vec<u8>) -> (c: TokenCodec)
        ensures
            c.secret_key() == secret@,
    {
        TokenCodec { secret }
    }
}

/// Relies on jsonwebtoken::encode with HS256: it cannot fail there — HMAC
/// signing is total and serialising the claims object cannot error — for a
/// fixed key the token is a function of the claims alone, and
/// jsonwebtoken::decode under the same key recovers exactly the subject and
/// expiry that were embedded.
#[verifier::external_body]
fn jwt_encode(secret: &Vec<u8>, sub: &str, exp: u64) -> (t: String)
    ensures
        t@ == token_of(secret@, sub@, exp),
        claims_of(secret@, t@) == Some((sub@, exp)),
{
    let mut claims = serde_json::Map::new();
    claims.insert("sub".to_string(), serde_json::Value::String(sub.to_string()));
    claims.insert("exp".to_string(), serde_json::Value::Number(serde_json::Number::from(exp)));
    let key = jsonwebtoken::EncodingKey::from_secret(secret.as_slice());
    jsonwebtoken::encode(&jsonwebtoken::Header::default(), &serde_json::Value::Object(claims), &key)
        .expect("HS256 encoding is total")
}

/// Relies on jsonwebtoken::decode with HS256 and expiry validation switched
/// off: parsing and signature checking are then a function of key and token
/// alone, and yield the embedded subject and expiry.
#[verifier::external_body]
fn jwt_decode(secret: &Vec<u8>, token: &str) -> (r: Option<(String, u64)>)
    ensures
        r matches Some(p) ==> claims_of(secret@, token@) == Some((p.0@, p.1)),
        r is None ==> claims_of(secret@, token@) is None,
{
    let mut validation = jsonwebtoken::Validation::new(jsonwebtoken::Algorithm::HS256);
    validation.validate_exp = false;
    let key = jsonwebtoken::DecodingKey::from_secret(secret.as_slice());
    let claims = match jsonwebtoken::decode::<serde_json::Value>(token, &key, &validation) {
        Ok(data) => data.claims,
        Err(_) => return None,
    };
    let sub = claims.get("sub").and_then(serde_json::Value::as_str);
    let exp = claims.get("exp").and_then(serde_json::Value::as_u64);
    match (sub, exp) {
        (Some(s), Some(e)) => Some((s.to_string(), e)),
        _ => None,
    }
}

/// Relies on std::time::SystemTime for the wall clock: seconds since the unix
/// epoch, or zero if the clock reads earlier than the epoch.
#[verifier::external_body]
pub(crate) fn now_seconds() -> u64 {
    match std::time::SystemTime::now().duration_since(std::time::UNIX_EPOCH) {
        Ok(d) => d.as_secs(),
        Err(_) => 0,
    }
}

/// How decoded claims are judged at time `now`: no claims means the token is
/// invalid, a passed expiry means it is expired, anything else is accepted
/// and names the subject.
pub open spec fn verify_outcome(claims: Option<(Seq<char>, u64)>, now: u64) -> Result<
    Seq<char>,
    AuthError,
> {
    match claims {
        None => Err(AuthError::InvalidToken),
        Some(c) => if now >= c.1 {
            Err(AuthError::ExpiredToken)
        } else {
            Ok(c.0)
        },
    }
}

/// A verification result, seen at the specification level.
pub open spec fn result_view(r: Result<String, AuthError>) -> Result<Seq<char>, AuthError> {
    match r {
        Ok(s) => Ok(s@),
        Err(e) => Err(e),
    }
}

/// Issue a token for `username` as of time `now`. Issuance always succeeds:
/// the expiry is `now` plus the fixed validity window, and the claims
/// embedded under the codec's secret are exactly that subject and expiry.
pub fn create_jwt_at(codec: &TokenCodec, username: &str, now: u64) -> (t: String)
    requires
        now + TOKEN_VALIDITY_SECS <= u64::MAX,
    ensures
        t@ == token_of(codec.secret_key(), username@, (now + TOKEN_VALIDITY_SECS) as u64),
        claims_of(codec.secret_key(), t@) == Some(
            (username@, (now + TOKEN_VALIDITY_SECS) as u64),
        ),
{
    let exp = now + TOKEN_VALIDITY_SECS;
    jwt_encode(&codec.secret, username, exp)
}

/// Issue a token for `username`, expiring one validity window after the
/// current wall-clock time. Fails only if the clock reads so late that the
/// expiry would not fit in the timestamp type.
pub fn create_jwt(codec: &TokenCodec, username: &str) -> (r: Result<String, TokenError>)
    ensures
        r matches Ok(t) ==> (claims_of(codec.secret_key(), t@) matches Some(c) && c.0
            == username@),
        r matches Err(e) ==> e == TokenError::ExpiryOverflow,
{
    let now = now_seconds();
    if now > u64::MAX - TOKEN_VALIDITY_SECS {
        return Err(TokenError::ExpiryOverflow);
    }
    Ok(create_jwt_at(codec, username, now))
}

/// Verify a token as of time `now`: exactly the judgement of
/// `verify_outcome` on the token's claims under the codec's secret.
pub fn decode_jwt_at(codec: &TokenCodec, token: &str, now: u64) -> (r: Result<String, AuthError>)
    ensures
        result_view(r) == verify_outcome(claims_of(codec.secret_key(), token@), now),
{
    match jwt_decode(&codec.secret, token) {
        None => Err(AuthError::InvalidToken),
        Some((sub, exp)) => if now >= exp {
            Err(AuthError::ExpiredToken)
        } else {
            Ok(sub)
        },
    }
}

/// Verify a token against the current wall-clock time. A success names the
/// token's subject; a failure never says more than invalid or expired.
pub fn decode_jwt(codec: &TokenCodec, token: &str) -> (r: Result<String, AuthError>)
    ensures
        r matches Ok(s) ==> (claims_of(codec.secret_key(), token@) matches Some(c) && c.0 == s@),
        claims_of(codec.secret_key(), token@) is None ==> r == Err::<String, AuthError>(
            AuthError::InvalidToken,
        ),
        claims_of(codec.secret_key(), token@) matches Some(c) ==> ((r matches Ok(s) && s@ == c.0)
            || r == Err::<String, AuthError>(AuthError::ExpiredToken)),
        r matches Err(e) ==> (e == AuthError::InvalidToken || e == AuthError::ExpiredToken),
{
    let now = now_seconds();
    decode_jwt_at(codec, token, now)
}

/// Law: a token freshly created for a subject verifies back to that subject.
/// If a token's claims name subject `sub` with expiry `exp` — which
/// `create_jwt_at` ensures of every token it returns — then verification at
/// any time strictly before `exp` succeeds and yields exactly `sub`.
pub proof fn lemma_fresh_token_verifies(
    claims: Option<(Seq<char>, u64)>,
    sub: Seq<char>,
    exp: u64,
    now: u64,
)
    requires
        claims == Some((sub, exp)),
        now < exp,
    ensures
        verify_outcome(claims, now) == Ok::<Seq<char>, AuthError>(sub),
{
}

} // verus!
