//! Bearer tokens: signed claims about who a request comes from.
//!
//! A token is a JSON Web Token signed with HMAC-SHA256 under one secret that
//! the whole process shares. It carries the club's handle, the club's
//! account number and the second at which it expires. Nothing is stored on
//! the server: a token is judged by its signature and its expiry alone, each
//! time it is shown. Signing and checking are the work of the `jsonwebtoken`
//! crate; what expiry means is decided here.

use crate::account::Club;
use jsonwebtoken::{DecodingKey, EncodingKey, Header, Validation};
use serde_json::Value;
use vstd::prelude::*;

verus! {

/// The name of the claim that holds the club's handle.
pub const CLAIM_SUBJECT: &'static str = "clubId";

/// The name of the claim that holds the club's account number.
pub const CLAIM_ACCOUNT: &'static str = "clubDbId";

/// The name of the claim that holds the second of expiry.
pub const CLAIM_EXPIRY: &'static str = "exp";

/// What a valid token asserts.
#[derive(Clone, Debug)]
pub struct Claims {
    /// The club's handle.
    pub club_id: String,
    /// The club's account number.
    pub club_db_id: i32,
    /// The last second, counted from the Unix epoch, at which the token is
    /// valid.
    pub exp: u64,
}

/// The mathematical content of `Claims`.
pub struct ClaimsView {
    /// The text of the club's handle.
    pub club_id: Seq<char>,
    /// The club's account number.
    pub club_db_id: i32,
    /// The last second at which the token is valid.
    pub exp: u64,
}

impl View for Claims {
    type V = ClaimsView;

    open spec fn view(&self) -> ClaimsView {
        ClaimsView { club_id: self.club_id@, club_db_id: self.club_db_id, exp: self.exp }
    }
}

/// What a token's payload holds under the three claim names, each as far as
/// it is there and of the right kind: a string, an integer, a natural
/// number.
#[derive(Clone, Debug)]
pub struct Payload {
    /// The string under the name of the handle.
    pub club_id: Option<String>,
    /// The integer under the name of the account number.
    pub club_db_id: Option<i64>,
    /// The natural number under the name of the expiry.
    pub exp: Option<u64>,
}

/// The mathematical content of `Payload`.
pub struct PayloadView {
    /// The text under the name of the handle.
    pub club_id: Option<Seq<char>>,
    /// The integer under the name of the account number.
    pub club_db_id: Option<i64>,
    /// The natural number under the name of the expiry.
    pub exp: Option<u64>,
}

impl View for Payload {
    type V = PayloadView;

    open spec fn view(&self) -> PayloadView {
        PayloadView {
            club_id: match self.club_id {
                Some(s) => Some(s@),
                None => None,
            },
            club_db_id: self.club_db_id,
            exp: self.exp,
        }
    }
}

/// Why a token was not accepted.
#[derive(Clone, Copy, Debug, PartialEq, Eq, Structural)]
pub enum TokenError {
    /// The text is no token, its signature does not match, or its payload
    /// does not hold the three claims.
    InvalidSignature,
    /// The signature matches, and the expiry lies before the present.
    Expired,
}

/// Why a token was not issued.
#[derive(Clone, Copy, Debug, PartialEq, Eq, Structural)]
pub enum IssueError {
    /// The expiry, the present plus the time to live, is beyond the last
    /// second that the claim can hold.
    ExpiryOutOfRange,
    /// The signer refused the claims. It does so only under a secret that
    /// makes no key, which accepted keys never hold.
    Signing,
}

/// Why the signing secret was not accepted.
#[derive(Clone, Copy, Debug, PartialEq, Eq, Structural)]
pub enum SecretError {
    /// No secret was configured.
    Missing,
    /// What was configured is not base64.
    Malformed,
}

/// The error of `jsonwebtoken`. It is carried from a call to where the
/// library names the failure in its own terms, and never looked into.
#[verifier::external_type_specification]
#[verifier::external_body]
pub struct ExJwtError(jsonwebtoken::errors::Error);

/// Whether `EncodingKey::from_base64_secret` accepts `secret`.
pub uninterp spec fn is_signing_secret(secret: Seq<char>) -> bool;

/// Whether `DecodingKey::from_base64_secret` accepts `secret`.
pub uninterp spec fn is_checking_secret(secret: Seq<char>) -> bool;

/// The token that signing `claims` under `secret` gives, or `None` where the
/// signer refuses.
pub uninterp spec fn signed_token(secret: Seq<char>, claims: ClaimsView) -> Option<Seq<char>>;

/// The payload of `token`, if `token` is well formed and its signature
/// matches under `secret`; `None` otherwise. The expiry is not looked at.
pub uninterp spec fn token_payload(secret: Seq<char>, token: Seq<char>) -> Option<PayloadView>;

/// The payload that holds exactly `claims`.
pub open spec fn payload_of(claims: ClaimsView) -> PayloadView {
    PayloadView {
        club_id: Some(claims.club_id),
        club_db_id: Some(claims.club_db_id as i64),
        exp: Some(claims.exp),
    }
}

/// The claims that a payload makes: all three must be there, and the account
/// number must fit its type.
pub open spec fn claims_of(payload: PayloadView) -> Option<ClaimsView> {
    match (payload.club_id, payload.club_db_id, payload.exp) {
        (Some(club_id), Some(account), Some(exp)) => if i32::MIN <= account <= i32::MAX {
            Some(ClaimsView { club_id, club_db_id: account as i32, exp })
        } else {
            None
        },
        _ => None,
    }
}

/// How a token with the given payload, or without one, is judged at `now`:
/// it is valid up to and including the second of its expiry.
pub open spec fn judge(payload: Option<PayloadView>, now: u64) -> Result<ClaimsView, TokenError> {
    match payload {
        None => Err(TokenError::InvalidSignature),
        Some(p) => match claims_of(p) {
            None => Err(TokenError::InvalidSignature),
            Some(claims) => if claims.exp < now {
                Err(TokenError::Expired)
            } else {
                Ok(claims)
            },
        },
    }
}

/// What was read of a token, if anything was.
pub open spec fn payload_read(payload: Option<Payload>) -> Option<PayloadView> {
    match payload {
        Some(p) => Some(p@),
        None => None,
    }
}

/// How `token` is judged at `now` under `secret`.
pub open spec fn validate_outcome(secret: Seq<char>, token: Seq<char>, now: u64) -> Result<
    ClaimsView,
    TokenError,
> {
    judge(token_payload(secret, token), now)
}

/// The claims of a token issued to a club at `now` with `ttl` seconds to
/// live, or `None` where the expiry is out of range.
pub open spec fn claims_at(club_id: Seq<char>, club_db_id: i32, now: u64, ttl: u64) -> Option<
    ClaimsView,
> {
    if now + ttl <= u64::MAX {
        Some(ClaimsView { club_id, club_db_id, exp: (now + ttl) as u64 })
    } else {
        None
    }
}

/// What issuing a token to a club at `now` with `ttl` seconds to live gives.
pub open spec fn issue_outcome(
    secret: Seq<char>,
    club_id: Seq<char>,
    club_db_id: i32,
    now: u64,
    ttl: u64,
) -> Result<Seq<char>, IssueError> {
    match claims_at(club_id, club_db_id, now, ttl) {
        None => Err(IssueError::ExpiryOutOfRange),
        Some(claims) => match signed_token(secret, claims) {
            Some(token) => Ok(token),
            None => Err(IssueError::Signing),
        },
    }
}

/// Tries `EncodingKey::from_base64_secret` on `secret` and drops the key.
#[verifier::external_body]
fn try_signing_secret(secret: &str) -> (r: Result<(), jsonwebtoken::errors::Error>)
    ensures
        r is Ok <==> is_signing_secret(secret@),
{
    EncodingKey::from_base64_secret(secret).map(|_| ())
}

/// Tries `DecodingKey::from_base64_secret` on `secret` and drops the key.
#[verifier::external_body]
fn try_checking_secret(secret: &str) -> (r: Result<(), jsonwebtoken::errors::Error>)
    ensures
        r is Ok <==> is_checking_secret(secret@),
{
    DecodingKey::from_base64_secret(secret).map(|_| ())
}

/// Reads the clock with `jsonwebtoken::get_current_timestamp`: seconds since
/// the Unix epoch. Nothing is claimed of the second that comes back. The
/// call does not return where the system clock stands before the epoch.
#[verifier::external_body]
fn current_timestamp() -> (now: u64) {
    jsonwebtoken::get_current_timestamp()
}

/// Signs with `jsonwebtoken::encode`, under the default header (HS256) and
/// the key that `EncodingKey::from_base64_secret` makes of `secret`. The
/// payload is a JSON object that holds the three claims under their names.
///
/// The call is a function of its arguments, so its result is `signed_token`
/// of them. The contract claims two things more, which the crate's source
/// shows. Once the key is made nothing can fail: the key and the header are
/// both of the HMAC family, a JSON object of a string and two integers
/// always serialises, and an HMAC signature is always computed; so signing
/// succeeds exactly under a secret that makes a key. And of a token that
/// comes back, `jsonwebtoken::decode` under the same secret recomputes the
/// same signature over the same text and reads the same three values back.
#[verifier::external_body]
fn sign_claims(secret: &str, claims: &Claims) -> (r: Result<String, jsonwebtoken::errors::Error>)
    ensures
        r is Ok <==> signed_token(secret@, claims@) is Some,
        r is Ok <==> is_signing_secret(secret@),
        r matches Ok(token) ==> {
            &&& signed_token(secret@, claims@) == Some(token@)
            &&& token_payload(secret@, token@) == Some(payload_of(claims@))
        },
{
    let key = EncodingKey::from_base64_secret(secret)?;
    let mut payload = serde_json::Map::new();
    payload.insert(CLAIM_SUBJECT.to_string(), Value::from(claims.club_id.as_str()));
    payload.insert(CLAIM_ACCOUNT.to_string(), Value::from(claims.club_db_id));
    payload.insert(CLAIM_EXPIRY.to_string(), Value::from(claims.exp));
    jsonwebtoken::encode(&Header::default(), &payload, &key)
}

/// Checks and reads with `jsonwebtoken::decode`, under the key that
/// `DecodingKey::from_base64_secret` makes of `secret` and the default
/// validation (HS256, an `exp` claim required) with the comparison of `exp`
/// against the clock switched off. With that the call is a function of its
/// arguments, so its result is `token_payload` of them. Of the payload it
/// hands on what stands under the three claim names, each as far as it is
/// of the right kind. The call reads the clock even so, and does not return
/// where the system clock stands before the epoch.
#[verifier::external_body]
fn read_payload(secret: &str, token: &str) -> (r: Option<Payload>)
    ensures
        r is Some <==> token_payload(secret@, token@) is Some,
        r matches Some(payload) ==> token_payload(secret@, token@) == Some(payload@),
{
    let key = DecodingKey::from_base64_secret(secret).ok()?;
    let mut validation = Validation::default();
    validation.validate_exp = false;
    let claims = jsonwebtoken::decode::<Value>(token, &key, &validation).ok()?.claims;
    Some(Payload {
        club_id: claims.get(CLAIM_SUBJECT).and_then(Value::as_str).map(str::to_string),
        club_db_id: claims.get(CLAIM_ACCOUNT).and_then(Value::as_i64),
        exp: claims.get(CLAIM_EXPIRY).and_then(Value::as_u64),
    })
}

/// The signing secret, accepted.
///
/// A value of this type exists only for a secret from which both a signing
/// key and a checking key can be made.
pub struct Keys {
    secret: String,
}

impl Keys {
    #[verifier::type_invariant]
    spec fn well_formed(&self) -> bool {
        is_signing_secret(self.secret@) && is_checking_secret(self.secret@)
    }

    /// The base64 text that the keys were made from.
    pub closed spec fn secret(&self) -> Seq<char> {
        self.secret@
    }

    /// Accepts a base64 secret, or says that it is malformed.
    pub fn from_base64_secret(secret: &str) -> (r: Result<Keys, SecretError>)
        ensures
            r is Ok <==> is_signing_secret(secret@) && is_checking_secret(secret@),
            r matches Ok(keys) ==> keys.secret() == secret@,
            r matches Err(e) ==> e == SecretError::Malformed,
    {
        match try_signing_secret(secret) {
            Err(_) => Err(SecretError::Malformed),
            Ok(_) => match try_checking_secret(secret) {
                Err(_) => Err(SecretError::Malformed),
                Ok(_) => Ok(Keys { secret: secret.to_owned() }),
            },
        }
    }
}

/// Decides at start-up whether the configured secret can be used: it must be
/// there, and it must be base64. The process goes on only with the keys that
/// come back.
pub fn ensure_jwt_secret_is_valid(secret: Option<&str>) -> (r: Result<Keys, SecretError>)
    ensures
        r is Ok <==> (secret matches Some(s) && is_signing_secret(s@) && is_checking_secret(s@)),
        r matches Ok(keys) ==> secret matches Some(s) && keys.secret() == s@,
        r matches Err(e) ==> e == if secret is None {
            SecretError::Missing
        } else {
            SecretError::Malformed
        },
{
    match secret {
        None => Err(SecretError::Missing),
        Some(s) => Keys::from_base64_secret(s),
    }
}

impl Claims {
    /// The claims of a token issued to `club` at `now` with `ttl` seconds to
    /// live: they expire at `now + ttl`. `None` where that second is out of
    /// range.
    pub fn issued_to(club: &Club, now: u64, ttl: u64) -> (r: Option<Claims>)
        ensures
            match claims_at(club.username@, club.id, now, ttl) {
                Some(claims) => r matches Some(c) && c@ == claims,
                None => r is None,
            },
    {
        match now.checked_add(ttl) {
            Some(exp) => Some(Claims { club_id: club.username.clone(), club_db_id: club.id, exp }),
            None => None,
        }
    }

    /// Reads the claims out of a payload: all three must be there, and the
    /// account number must fit its type.
    pub fn from_payload(payload: Payload) -> (r: Option<Claims>)
        ensures
            match claims_of(payload@) {
                Some(claims) => r matches Some(c) && c@ == claims,
                None => r is None,
            },
    {
        match (payload.club_id, payload.club_db_id, payload.exp) {
            (Some(club_id), Some(account), Some(exp)) => {
                if -2147483648 <= account && account <= 2147483647 {
                    Some(Claims { club_id, club_db_id: account as i32, exp })
                } else {
                    None
                }
            },
            _ => None,
        }
    }
}

/// Judges at `now` a token whose signature has been checked: `payload` is
/// what the check read, or `None` where the check failed.
///
/// Without a payload, or with one that lacks a claim, the token is refused
/// as `InvalidSignature`. With the three claims it is `Expired` exactly
/// where its expiry lies before `now`, and yields its claims otherwise.
pub fn judge_payload(payload: Option<Payload>, now: u64) -> (r: Result<Claims, TokenError>)
    ensures
        match judge(payload_read(payload), now) {
            Ok(claims) => r matches Ok(c) && c@ == claims,
            Err(e) => r matches Err(f) && f == e,
        },
{
    match payload {
        None => Err(TokenError::InvalidSignature),
        Some(p) => match Claims::from_payload(p) {
            None => Err(TokenError::InvalidSignature),
            Some(claims) => {
                if claims.exp < now {
                    Err(TokenError::Expired)
                } else {
                    Ok(claims)
                }
            },
        },
    }
}

/// Validates `token` as of the second `now`.
pub fn validate_at(keys: &Keys, token: &str, now: u64) -> (r: Result<Claims, TokenError>)
    ensures
        match validate_outcome(keys.secret(), token@, now) {
            Ok(claims) => r matches Ok(c) && c@ == claims,
            Err(e) => r matches Err(f) && f == e,
        },
{
    judge_payload(read_payload(keys.secret.as_str(), token), now)
}

/// Validates `token` as of the present, which it reads from the clock.
/// Whatever second the clock gives, the result is the judgement at that
/// second.
pub fn validate(keys: &Keys, token: &str) -> (r: Result<Claims, TokenError>)
    ensures
        exists|now: u64|
            match #[trigger] validate_outcome(keys.secret(), token@, now) {
                Ok(claims) => r matches Ok(c) && c@ == claims,
                Err(e) => r matches Err(f) && f == e,
            },
{
    let now = current_timestamp();
    let r = validate_at(keys, token, now);
    proof {
        let _ = validate_outcome(keys.secret(), token@, now);
    }
    r
}

/// Whether `token` is valid under `secret` at every second up to and
/// including the expiry of `claims`, where it yields exactly `claims`, and
/// is `Expired` at every second after.
pub open spec fn valid_through(secret: Seq<char>, token: Seq<char>, claims: ClaimsView) -> bool {
    forall|at: u64|
        #[trigger] validate_outcome(secret, token, at) == if at <= claims.exp {
            Ok::<ClaimsView, TokenError>(claims)
        } else {
            Err::<ClaimsView, TokenError>(TokenError::Expired)
        }
}

/// Issues a token to `club` at the second `now`, valid for `ttl_secs`
/// seconds.
///
/// The token is the signature over the club's handle, its account number and
/// the expiry `now + ttl_secs`. It is refused as `ExpiryOutOfRange` exactly
/// where that second is out of range; under keys that were accepted the
/// signer refuses nothing, so there is no other failure. A token that comes
/// back is valid under the same keys at every second up to and including its
/// expiry, where it yields the claims it was issued with, and is `Expired`
/// at every second after.
pub fn issue_at(keys: &Keys, club: &Club, ttl_secs: u64, now: u64) -> (r: Result<
    String,
    IssueError,
>)
    ensures
        match issue_outcome(keys.secret(), club.username@, club.id, now, ttl_secs) {
            Ok(token) => r matches Ok(t) && t@ == token,
            Err(e) => r matches Err(f) && f == e,
        },
        r is Ok <==> now + ttl_secs <= u64::MAX,
        r matches Err(e) ==> e == IssueError::ExpiryOutOfRange,
        r matches Ok(t) ==> valid_through(
            keys.secret(),
            t@,
            ClaimsView {
                club_id: club.username@,
                club_db_id: club.id,
                exp: (now + ttl_secs) as u64,
            },
        ),
{
    proof {
        use_type_invariant(keys);
    }
    match Claims::issued_to(club, now, ttl_secs) {
        None => Err(IssueError::ExpiryOutOfRange),
        Some(claims) => match sign_claims(keys.secret.as_str(), &claims) {
            Ok(token) => Ok(token),
            Err(_) => Err(IssueError::Signing),
        },
    }
}

/// Issues a token to `club` as of the present, which it reads from the
/// clock, valid for `ttl_secs` seconds.
///
/// Whatever second the clock gives, the result is what `issue_at` gives at
/// that second: the token expires `ttl_secs` after it, is refused exactly
/// where that expiry is out of range, and where it comes back is valid
/// through its expiry.
pub fn generate_jwt(keys: &Keys, club: &Club, ttl_secs: u64) -> (r: Result<String, IssueError>)
    ensures
        exists|now: u64|
            {
                &&& match #[trigger] issue_outcome(
                    keys.secret(),
                    club.username@,
                    club.id,
                    now,
                    ttl_secs,
                ) {
                    Ok(token) => r matches Ok(t) && t@ == token,
                    Err(e) => r matches Err(f) && f == e,
                }
                &&& r is Ok <==> now + ttl_secs <= u64::MAX
                &&& r matches Ok(t) ==> valid_through(
                    keys.secret(),
                    t@,
                    ClaimsView {
                        club_id: club.username@,
                        club_db_id: club.id,
                        exp: (now + ttl_secs) as u64,
                    },
                )
            },
        r matches Err(e) ==> e == IssueError::ExpiryOutOfRange,
{
    let now = current_timestamp();
    let r = issue_at(keys, club, ttl_secs, now);
    proof {
        let _ = issue_outcome(keys.secret(), club.username@, club.id, now, ttl_secs);
    }
    r
}

/// A token that holds the three claims is valid at every second up to and
/// including its expiry, where it yields exactly those claims, and expired
/// at every second after.
pub proof fn law_valid_through_expiry(claims: ClaimsView, now: u64)
    ensures
        judge(Some(payload_of(claims)), now) == if now <= claims.exp {
            Ok::<ClaimsView, TokenError>(claims)
        } else {
            Err::<ClaimsView, TokenError>(TokenError::Expired)
        },
{
}

} // verus!
