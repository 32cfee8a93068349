//! The guard in front of a request: who is asking, and may they.
//!
//! A request shows a bearer token in its `Authorization` header. The guard
//! takes the token out of the header, has it validated, and then holds the
//! asserted identity against the owner of what the request wants to touch.
//! There are no roles: a club may act on what is its own and on nothing
//! else.

use crate::token::{validate, validate_at, validate_outcome, Claims, ClaimsView, Keys, TokenError};
use vstd::prelude::*;
use vstd::string::*;

verus! {

/// Why a request was turned away.
#[derive(Clone, Copy, Debug, PartialEq, Eq, Structural)]
pub enum AuthError {
    /// There is no `Authorization` header, or it is not of the bearer scheme.
    MissingCredentials,
    /// The token is no token of ours.
    InvalidToken,
    /// The token was ours and has expired.
    TokenExpired,
    /// The identity is known and does not own the resource.
    Forbidden,
}

impl AuthError {
    /// Whether the request failed to say who it comes from, as opposed to
    /// asking for what is not its own.
    pub open spec fn is_authentication_failure(self) -> bool {
        self != AuthError::Forbidden
    }

    /// The HTTP status that the failure is answered with: 401 for every
    /// authentication failure alike, 403 for a request that is not allowed.
    pub fn status(&self) -> (code: u16)
        ensures
            code == if self.is_authentication_failure() {
                401u16
            } else {
                403u16
            },
    {
        match self {
            AuthError::Forbidden => 403,
            _ => 401,
        }
    }

    /// The message that the failure is answered with. Every authentication
    /// failure reads the same, so that a client cannot tell the causes
    /// apart.
    pub fn message(&self) -> (text: &'static str)
        ensures
            text@ == if self.is_authentication_failure() {
                "unauthorized"@
            } else {
                "forbidden"@
            },
    {
        match self {
            AuthError::Forbidden => "forbidden",
            _ => "unauthorized",
        }
    }
}

/// The prefix of a bearer header: the scheme and one space.
pub open spec fn bearer_prefix() -> Seq<char> {
    seq!['B', 'e', 'a', 'r', 'e', 'r', ' ']
}

/// The token that a header value carries, if the value is of the bearer
/// scheme: what follows `Bearer` and one space.
pub open spec fn bearer_of(header: Seq<char>) -> Option<Seq<char>> {
    if header.len() >= 7 && header.subrange(0, 7) == bearer_prefix() {
        Some(header.subrange(7, header.len() as int))
    } else {
        None
    }
}

/// How a request with the given `Authorization` header, or without one, is
/// received at `now`.
pub open spec fn authenticate_outcome(secret: Seq<char>, header: Option<Seq<char>>, now: u64)
    -> Result<ClaimsView, AuthError> {
    match header {
        None => Err(AuthError::MissingCredentials),
        Some(h) => match bearer_of(h) {
            None => Err(AuthError::MissingCredentials),
            Some(token) => match validate_outcome(secret, token, now) {
                Ok(claims) => Ok(claims),
                Err(TokenError::InvalidSignature) => Err(AuthError::InvalidToken),
                Err(TokenError::Expired) => Err(AuthError::TokenExpired),
            },
        },
    }
}

/// The text of a header value, if the request has the header.
pub open spec fn header_text(header: Option<&str>) -> Option<Seq<char>> {
    match header {
        Some(h) => Some(h@),
        None => None,
    }
}

/// Takes the token out of an `Authorization` header value.
pub fn bearer_token(header: &str) -> (token: Option<&str>)
    ensures
        match bearer_of(header@) {
            Some(t) => token matches Some(s) && s@ == t,
            None => token is None,
        },
{
    let n = header.unicode_len();
    if n < 7 {
        return None;
    }
    let prefix = "Bearer ";
    proof {
        reveal_strlit("Bearer ");
    }
    let mut i: usize = 0;
    while i < 7
        invariant
            i <= 7,
            n == header@.len(),
            n >= 7,
            prefix@ == bearer_prefix(),
            forall|j: int| 0 <= j < i ==> header@[j] == bearer_prefix()[j],
        decreases 7 - i,
    {
        if header.get_char(i) != prefix.get_char(i) {
            assert(header@.subrange(0, 7)[i as int] != bearer_prefix()[i as int]);
            return None;
        }
        i += 1;
    }
    assert(header@.subrange(0, 7) =~= bearer_prefix());
    Some(header.substring_char(7, n))
}

/// An identity that a valid token has asserted.
#[derive(Clone, Debug)]
pub struct Auth(pub Claims);

impl Auth {
    /// Receives the outcome of a token's validation: valid claims make an
    /// identity, and each way of being invalid has its own refusal.
    pub fn from_validation(validated: Result<Claims, TokenError>) -> (r: Result<Auth, AuthError>)
        ensures
            match validated {
                Ok(claims) => r matches Ok(auth) && auth.0 == claims,
                Err(TokenError::InvalidSignature) => r matches Err(e) && e
                    == AuthError::InvalidToken,
                Err(TokenError::Expired) => r matches Err(e) && e == AuthError::TokenExpired,
            },
    {
        match validated {
            Ok(claims) => Ok(Auth(claims)),
            Err(TokenError::InvalidSignature) => Err(AuthError::InvalidToken),
            Err(TokenError::Expired) => Err(AuthError::TokenExpired),
        }
    }

    /// Lets the identity act on the resource owned by the club `club_id`:
    /// the claims come back exactly where the token's handle equals
    /// `club_id`, and every other request is `Forbidden`.
    pub fn into_authorized(self, club_id: &str) -> (r: Result<Claims, AuthError>)
        ensures
            match r {
                Ok(claims) => self.0.club_id@ == club_id@ && claims == self.0,
                Err(e) => self.0.club_id@ != club_id@ && e == AuthError::Forbidden,
            },
    {
        let owner = club_id.to_owned();
        if self.0.club_id == owner {
            Ok(self.0)
        } else {
            Err(AuthError::Forbidden)
        }
    }

    /// Lets the identity act on the resource owned by the account
    /// `club_db_id`: the claims come back exactly where the token's account
    /// number equals `club_db_id`, and every other request is `Forbidden`.
    pub fn into_authorized_account(self, club_db_id: i32) -> (r: Result<Claims, AuthError>)
        ensures
            match r {
                Ok(claims) => self.0.club_db_id == club_db_id && claims == self.0,
                Err(e) => self.0.club_db_id != club_db_id && e == AuthError::Forbidden,
            },
    {
        if self.0.club_db_id == club_db_id {
            Ok(self.0)
        } else {
            Err(AuthError::Forbidden)
        }
    }
}

/// Receives a request as of the second `now`: `header` is the value of its
/// `Authorization` header, if it has one.
///
/// A request without the header, or with one that is not of the bearer
/// scheme, is refused as `MissingCredentials`. Otherwise the token is
/// validated: a valid one yields the identity it asserts, one that is not
/// ours is refused as `InvalidToken`, and one that has expired as
/// `TokenExpired`.
pub fn authenticate_at(keys: &Keys, header: Option<&str>, now: u64) -> (r: Result<Auth, AuthError>)
    ensures
        match authenticate_outcome(keys.secret(), header_text(header), now) {
            Ok(claims) => r matches Ok(auth) && auth.0@ == claims,
            Err(e) => r matches Err(f) && f == e,
        },
{
    match header {
        None => Err(AuthError::MissingCredentials),
        Some(h) => match bearer_token(h) {
            None => Err(AuthError::MissingCredentials),
            Some(token) => Auth::from_validation(validate_at(keys, token, now)),
        },
    }
}

/// Receives a request as of the present, which is read from the clock where
/// a token is to be validated. Whatever second the clock gives, the result
/// is what `authenticate_at` gives at that second.
pub fn authenticate(keys: &Keys, header: Option<&str>) -> (r: Result<Auth, AuthError>)
    ensures
        exists|now: u64|
            match #[trigger] authenticate_outcome(keys.secret(), header_text(header), now) {
                Ok(claims) => r matches Ok(auth) && auth.0@ == claims,
                Err(e) => r matches Err(f) && f == e,
            },
{
    let ghost shown = header_text(header);
    match header {
        None => {
            proof {
                let _ = authenticate_outcome(keys.secret(), shown, 0);
            }
            Err(AuthError::MissingCredentials)
        },
        Some(h) => match bearer_token(h) {
            None => {
                proof {
                    let _ = authenticate_outcome(keys.secret(), shown, 0);
                }
                Err(AuthError::MissingCredentials)
            },
            Some(token) => {
                let validated = validate(keys, token);
                proof {
                    let now = choose|now: u64|
                        match #[trigger] validate_outcome(keys.secret(), token@, now) {
                            Ok(claims) => validated matches Ok(c) && c@ == claims,
                            Err(e) => validated matches Err(f) && f == e,
                        };
                    let _ = authenticate_outcome(keys.secret(), shown, now);
                }
                Auth::from_validation(validated)
            },
        },
    }
}

/// Receiving a request never forbids it: every refusal at this step is an
/// authentication failure, and so is answered with 401 whatever its cause.
pub proof fn law_refusals_are_authentication_failures(
    secret: Seq<char>,
    header: Option<Seq<char>>,
    now: u64,
)
    ensures
        authenticate_outcome(secret, header, now) matches Err(e) ==> e.is_authentication_failure(),
{
}

} // verus!
