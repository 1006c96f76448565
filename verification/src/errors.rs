//! Error taxonomy of the authentication core.
//!
//! Every rejection that a client can see is one of these values; the
//! accompanying `message` functions fix the exact reason line that the HTTP
//! layer sends, so that no finer diagnostic leaks by accident.

use vstd::prelude::*;

verus! {

/// Why a request failed authentication at the interceptor.
///
/// `InvalidToken` deliberately covers both structural and signature failures:
/// the client must not learn which of the two occurred.
#[derive(Clone, Copy, Debug, PartialEq, Eq, Structural)]
pub enum AuthError {
    /// No `Authorization` header was present.
    MissingHeader,
    /// The header was present but not of the form `Bearer <token>`.
    MalformedHeader,
    /// The token was not well-formed or its signature did not match.
    InvalidToken,
    /// The token was genuine but its expiry has passed.
    ExpiredToken,
    /// The subject of the token has been revoked server-side.
    Revoked,
}

impl AuthError {
    /// The reason line sent with the 401 response for this failure.
    pub open spec fn spec_message(self) -> Seq<char> {
        match self {
            AuthError::MissingHeader => "Missing or Invalid Authorization header"@,
            AuthError::MalformedHeader => "Missing or Invalid Authorization header"@,
            AuthError::InvalidToken => "Invalid token"@,
            AuthError::ExpiredToken => "Invalid token"@,
            AuthError::Revoked => "Token is invalidated..."@,
        }
    }

    /// Client-facing reason line; token failures share one generic message.
    pub fn message(&self) -> (r: String)
        ensures
            r@ == self.spec_message(),
    {
        match self {
            AuthError::MissingHeader => String::from_str("Missing or Invalid Authorization header"),
            AuthError::MalformedHeader => String::from_str(
                "Missing or Invalid Authorization header",
            ),
            AuthError::InvalidToken => String::from_str("Invalid token"),
            AuthError::ExpiredToken => String::from_str("Invalid token"),
            AuthError::Revoked => String::from_str("Token is invalidated..."),
        }
    }
}

/// Law: token failures are indistinguishable to the client. A token refused
/// for its structure or signature and one refused for its expiry are
/// answered with the same generic reason line, so the response never betrays
/// which check failed.
pub proof fn lemma_token_failures_share_message()
    ensures
        AuthError::InvalidToken.spec_message() == AuthError::ExpiredToken.spec_message(),
{
}

/// Why issuing a token failed.
#[derive(Clone, Copy, Debug, PartialEq, Eq, Structural)]
pub enum TokenError {
    /// The clock reads so late that the expiry would overflow its type;
    /// signing itself never fails.
    ExpiryOverflow,
}

/// Why a login attempt was turned away.
#[derive(Clone, Copy, Debug, PartialEq, Eq, Structural)]
pub enum LoginError {
    /// Unknown user or wrong password; answered with 401.
    InvalidCredentials,
    /// The credentials were right but no token could be issued — the clock
    /// reading left no room for an expiry; answered with 500.
    TokenCreation,
}

impl LoginError {
    /// The body text the login endpoint answers with for this failure.
    pub open spec fn spec_message(self) -> Seq<char> {
        match self {
            LoginError::InvalidCredentials => "Invalid username or password..."@,
            LoginError::TokenCreation => "Error creating token..."@,
        }
    }

    /// Client-facing body text for a failed login.
    pub fn message(&self) -> (r: String)
        ensures
            r@ == self.spec_message(),
    {
        match self {
            LoginError::InvalidCredentials => String::from_str("Invalid username or password..."),
            LoginError::TokenCreation => String::from_str("Error creating token..."),
        }
    }
}

/// Which registration-time password rule was not met; answered with 400.
#[derive(Clone, Copy, Debug, PartialEq, Eq, Structural)]
pub enum PolicyError {
    /// Fewer than eight characters.
    TooShort,
    /// Lowercase, uppercase or special character missing.
    MissingCharacterClass,
}

impl PolicyError {
    /// The body text sent with the 400 response for this violation.
    pub open spec fn spec_message(self) -> Seq<char> {
        match self {
            PolicyError::TooShort => "Password must be at least 8 characters long..."@,
            PolicyError::MissingCharacterClass => "Password must contain at least one lowercase letter, one uppercase letter, and one special character."@,
        }
    }

    /// Client-facing body text for a rejected registration password.
    pub fn message(&self) -> (r: String)
        ensures
            r@ == self.spec_message(),
    {
        match self {
            PolicyError::TooShort => String::from_str(
                "Password must be at least 8 characters long...",
            ),
            PolicyError::MissingCharacterClass => String::from_str(
                "Password must contain at least one lowercase letter, one uppercase letter, and one special character.",
            ),
        }
    }
}

} // verus!
