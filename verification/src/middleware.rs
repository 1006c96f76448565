//! The request gate: runs before every protected operation and turns an
//! `Authorization` header into either an authenticated subject or a terminal
//! rejection.
//!
//! The judgement is a straight pipeline — header present, `Bearer ` prefix,
//! token verification, revocation check — and every rejection is final; no
//! retries, no recovery. The surrounding application only carries the
//! returned subject for the rest of the request.

use crate::auth::claims_of;
use crate::auth::decode_jwt_at;
use crate::auth::now_seconds;
use crate::auth::result_view;
use crate::auth::verify_outcome;
use crate::auth::TokenCodec;
use crate::denylist::Denylist;
use crate::errors::AuthError;
use vstd::prelude::*;

verus! {

/// Does the header start with the literal `Bearer ` scheme prefix?
pub open spec fn spec_has_bearer_prefix(h: Seq<char>) -> bool {
    h.len() >= 7 && h.subrange(0, 7) == "Bearer "@
}

/// The token carried after the `Bearer ` prefix.
pub open spec fn spec_bearer_token(h: Seq<char>) -> Seq<char> {
    h.skip(7)
}

/// The header an incoming request carried, if any, at specification level.
pub open spec fn header_view(header: Option<&String>) -> Option<Seq<char>> {
    match header {
        Some(h) => Some(h@),
        None => None,
    }
}

/// The token a header carries, or the empty sequence where there is no
/// well-formed header to carry one (it is never consulted then).
pub open spec fn header_token(header: Option<Seq<char>>) -> Seq<char> {
    match header {
        Some(h) => spec_bearer_token(h),
        None => Seq::empty(),
    }
}

/// The interceptor's whole judgement: missing header, malformed header, token
/// verdict, then the revocation registry; first failure wins.
pub open spec fn gate_outcome(
    header: Option<Seq<char>>,
    claims: Option<(Seq<char>, u64)>,
    revoked: Set<Seq<char>>,
    now: u64,
) -> Result<Seq<char>, AuthError> {
    match header {
        None => Err(AuthError::MissingHeader),
        Some(h) => if !spec_has_bearer_prefix(h) {
            Err(AuthError::MalformedHeader)
        } else {
            match verify_outcome(claims, now) {
                Err(e) => Err(e),
                Ok(sub) => if revoked.contains(sub) {
                    Err(AuthError::Revoked)
                } else {
                    Ok(sub)
                },
            }
        },
    }
}

/// Strip the `Bearer ` scheme from an `Authorization` header; none if the
/// header does not carry that scheme.
pub fn extract_bearer_token(header: &str) -> (r: Option<&str>)
    ensures
        spec_has_bearer_prefix(header@) ==> (r matches Some(t) && t@ == spec_bearer_token(
            header@,
        )),
        !spec_has_bearer_prefix(header@) ==> r is None,
{
    proof {
        reveal_strlit("Bearer ");
    }
    let n = header.unicode_len();
    if n < 7 {
        proof {
            assert(!spec_has_bearer_prefix(header@));
        }
        return None;
    }
    let scheme_ok = header.get_char(0) == 'B' && header.get_char(1) == 'e' && header.get_char(2)
        == 'a' && header.get_char(3) == 'r' && header.get_char(4) == 'e' && header.get_char(5)
        == 'r' && header.get_char(6) == ' ';
    if scheme_ok {
        proof {
            assert(header@.subrange(0, 7) =~= "Bearer "@);
        }
        Some(header.substring_char(7, n))
    } else {
        proof {
            let sb = header@.subrange(0, 7);
            assert(sb[0] == header@[0] && sb[1] == header@[1] && sb[2] == header@[2] && sb[3]
                == header@[3] && sb[4] == header@[4] && sb[5] == header@[5] && sb[6]
                == header@[6]);
            assert(sb != "Bearer "@);
        }
        None
    }
}

/// Middleware factory: equips the per-request gate with the codec it judges
/// tokens by. Mirrors how the HTTP layer builds one gate per service.
pub struct AuthMiddleware;

impl AuthMiddleware {
    /// Build the per-request gate around a token codec.
    pub fn new_transform(&self, codec: TokenCodec) -> (s: AuthMiddlewareService)
        ensures
            s.codec_key() == codec.secret_key(),
    {
        AuthMiddlewareService { codec }
    }
}

/// The per-request interceptor: holds the codec and decides, request by
/// request, whether the downstream operation may run.
pub struct AuthMiddlewareService {
    codec: TokenCodec,
}

impl AuthMiddlewareService {
    /// The signing key this interceptor judges tokens by.
    pub closed spec fn codec_key(&self) -> Seq<u8> {
        self.codec.secret_key()
    }

    /// Judge one request as of time `now`: the result is exactly
    /// `gate_outcome` over the header, the token's claims and the registry.
    /// A success carries the subject to attach to the request context.
    pub fn call_at(&self, denylist: &Denylist, header: Option<&String>, now: u64) -> (r: Result<
        String,
        AuthError,
    >)
        ensures
            result_view(r) == gate_outcome(
                header_view(header),
                claims_of(self.codec_key(), header_token(header_view(header))),
                denylist@,
                now,
            ),
    {
        let h = match header {
            None => {
                return Err(AuthError::MissingHeader);
            },
            Some(h) => h,
        };
        let token = match extract_bearer_token(h.as_str()) {
            None => {
                return Err(AuthError::MalformedHeader);
            },
            Some(t) => t,
        };
        let subject = match decode_jwt_at(&self.codec, token, now) {
            Err(e) => {
                return Err(e);
            },
            Ok(s) => s,
        };
        if denylist.is_revoked(&subject) {
            Err(AuthError::Revoked)
        } else {
            Ok(subject)
        }
    }

    /// Judge one request against the current wall-clock time. Everything but
    /// the expiry judgement is pinned: a genuine token is never called
    /// invalid, and whether it is revoked or admitted is fixed by the
    /// registry; only on which side of the expiry the clock lands does the
    /// clock decide.
    pub fn call(&self, denylist: &Denylist, header: Option<&String>) -> (r: Result<
        String,
        AuthError,
    >)
        ensures
            header is None <==> r == Err::<String, AuthError>(AuthError::MissingHeader),
            (header matches Some(h) && !spec_has_bearer_prefix(h@)) <==> r == Err::<
                String,
                AuthError,
            >(AuthError::MalformedHeader),
            r matches Ok(s) ==> (header matches Some(h) && claims_of(
                self.codec_key(),
                spec_bearer_token(h@),
            ) matches Some(c) && c.0 == s@ && !denylist@.contains(s@)),
            r == Err::<String, AuthError>(AuthError::Revoked) ==> (header matches Some(h)
                && claims_of(self.codec_key(), spec_bearer_token(h@)) matches Some(c)
                && denylist@.contains(c.0)),
            claims_of(self.codec_key(), header_token(header_view(header))) matches Some(c) ==> ((
            header matches Some(h) && spec_has_bearer_prefix(h@) && denylist@.contains(c.0)) ==> (
            r == Err::<String, AuthError>(AuthError::ExpiredToken) || r == Err::<
                String,
                AuthError,
            >(AuthError::Revoked))),
            claims_of(self.codec_key(), header_token(header_view(header))) matches Some(c) ==> ((
            header matches Some(h) && spec_has_bearer_prefix(h@) && !denylist@.contains(c.0)) ==> (
            r == Err::<String, AuthError>(AuthError::ExpiredToken) || (r matches Ok(s) && s@
                == c.0))),
            (header matches Some(h) && spec_has_bearer_prefix(h@) && claims_of(
                self.codec_key(),
                spec_bearer_token(h@),
            ) is None) ==> r == Err::<String, AuthError>(AuthError::InvalidToken),
    {
        let now = now_seconds();
        self.call_at(denylist, header, now)
    }
}

/// Law: a revoked subject is rejected by the interceptor, however valid its token.
/// After `revoke(sub)` the registry contains `sub`; a request carrying a
/// well-formed `Bearer` header whose token's claims name `sub` with an
/// unexpired expiry is then answered `Revoked`.
pub proof fn lemma_revoked_subject_rejected(
    header: Seq<char>,
    claims: Option<(Seq<char>, u64)>,
    sub: Seq<char>,
    exp: u64,
    now: u64,
    revoked_before: Set<Seq<char>>,
)
    requires
        spec_has_bearer_prefix(header),
        claims == Some((sub, exp)),
        now < exp,
    ensures
        revoked_before.insert(sub).contains(sub),
        gate_outcome(Some(header), claims, revoked_before.insert(sub), now) == Err::<
            Seq<char>,
            AuthError,
        >(AuthError::Revoked),
{
}

} // verus!
