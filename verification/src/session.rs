//! Decision cores of the session endpoints. Each function takes what the
//! outside collaborators — credential store and database — have already
//! established as plain values, and decides everything else: what the
//! revocation registry does, and what the client is told.

use crate::auth::claims_of;
use crate::auth::create_jwt_at;
use crate::auth::token_of;
use crate::auth::TokenCodec;
use crate::auth::TOKEN_VALIDITY_SECS;
use crate::denylist::Denylist;
use crate::errors::LoginError;
use vstd::prelude::*;

verus! {

/// Complete a login after the credential store has judged the password.
///
/// A correct password first re-admits the subject — its revocation is lifted
/// even if it stood revoked — and is then owed a fresh token expiring one
/// validity window after `now`. A wrong password changes nothing and is
/// answered `InvalidCredentials`.
pub fn login(
    codec: &TokenCodec,
    denylist: &mut Denylist,
    username: &String,
    password_ok: bool,
    now: u64,
) -> (r: Result<String, LoginError>)
    requires
        now + TOKEN_VALIDITY_SECS <= u64::MAX,
    ensures
        !password_ok ==> (r == Err::<String, LoginError>(LoginError::InvalidCredentials)
            && final(denylist)@ == old(denylist)@),
        password_ok ==> (final(denylist)@ == old(denylist)@.remove(username@)
            && !final(denylist)@.contains(username@)),
        password_ok <==> r is Ok,
        r matches Ok(t) ==> (t@ == token_of(
            codec.secret_key(),
            username@,
            (now + TOKEN_VALIDITY_SECS) as u64,
        ) && claims_of(codec.secret_key(), t@) == Some(
            (username@, (now + TOKEN_VALIDITY_SECS) as u64),
        )),
{
    if !password_ok {
        return Err(LoginError::InvalidCredentials);
    }
    denylist.clear(username);
    Ok(create_jwt_at(codec, username.as_str(), now))
}

/// Complete a logout for an authenticated subject: revoke it — every
/// outstanding token of that subject is refused from here on — and word the
/// answer by whether this call newly invalidated it.
pub fn logout(denylist: &mut Denylist, username: &String) -> (r: String)
    ensures
        final(denylist)@ == old(denylist)@.insert(username@),
        !old(denylist)@.contains(username@) ==> r@ == "Logged out successfully..."@,
        old(denylist)@.contains(username@) ==> r@ == "Already logged out or invalid token..."@,
{
    if denylist.revoke(username) {
        String::from_str("Logged out successfully...")
    } else {
        String::from_str("Already logged out or invalid token...")
    }
}

/// Complete an account deletion, given how many rows the database removed:
/// an existing user is revoked alongside, a missing one changes nothing and
/// is reported not found.
pub fn delete_user(denylist: &mut Denylist, username: &String, rows_affected: u64) -> (deleted:
    bool)
    ensures
        rows_affected > 0 ==> (deleted && final(denylist)@ == old(denylist)@.insert(username@)),
        rows_affected == 0 ==> (!deleted && final(denylist)@ == old(denylist)@),
{
    if rows_affected > 0 {
        denylist.revoke(username);
        true
    } else {
        false
    }
}

} // verus!
