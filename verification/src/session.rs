//! Logging in: a password for a bearer token.

use crate::account::Club;
use crate::credential::{verify_outcome, verify_password, CredentialError};
use crate::token::{generate_jwt, issue_at, issue_outcome, valid_through, ClaimsView, Keys};
use vstd::prelude::*;

verus! {

/// For how many seconds a session's token is valid: one day.
pub const SESSION_TIME: u64 = 86400;

/// Why a login failed.
#[derive(Clone, Copy, Debug, PartialEq, Eq, Structural)]
pub enum LoginError {
    /// No club has the handle, or the password is not the club's. Which of
    /// the two is not said.
    InvalidCredentials,
    /// The club's stored credential cannot be read.
    CredentialFault,
    /// The token could not be issued.
    TokenFault,
}

impl LoginError {
    /// The HTTP status that the failure is answered with.
    pub fn status(&self) -> (code: u16)
        ensures
            code == if *self == LoginError::InvalidCredentials {
                401u16
            } else {
                500u16
            },
    {
        match self {
            LoginError::InvalidCredentials => 401,
            _ => 500,
        }
    }

    /// The message that the failure is answered with. A fault inside the
    /// server is not described.
    pub fn message(&self) -> (text: &'static str)
        ensures
            text@ == if *self == LoginError::InvalidCredentials {
                "invalid username or password"@
            } else {
                "Internal Server Error"@
            },
    {
        match self {
            LoginError::InvalidCredentials => "invalid username or password",
            _ => "Internal Server Error",
        }
    }
}

/// What the check of a password means for a login: only an accepted
/// password lets it go on.
pub open spec fn password_verdict(verified: Result<bool, CredentialError>) -> Result<
    (),
    LoginError,
> {
    match verified {
        Ok(true) => Ok(()),
        Ok(false) => Err(LoginError::InvalidCredentials),
        Err(_) => Err(LoginError::CredentialFault),
    }
}

/// What a login with `password` at `now` gives, where `club` holds the
/// handle, account number and stored credential of the club that has the
/// handle given, if there is one.
pub open spec fn login_outcome(
    secret: Seq<char>,
    club: Option<(Seq<char>, i32, Seq<char>)>,
    password: Seq<u8>,
    now: u64,
) -> Result<Seq<char>, LoginError> {
    match club {
        None => Err(LoginError::InvalidCredentials),
        Some((username, id, password_hash)) => match password_verdict(
            verify_outcome(password, password_hash),
        ) {
            Err(e) => Err(e),
            Ok(_) => match issue_outcome(secret, username, id, now, SESSION_TIME) {
                Ok(token) => Ok(token),
                Err(_) => Err(LoginError::TokenFault),
            },
        },
    }
}

/// What a login reads of a club.
pub open spec fn login_view(club: Option<&Club>) -> Option<(Seq<char>, i32, Seq<char>)> {
    match club {
        Some(c) => Some((c.username@, c.id, c.password_hash@)),
        None => None,
    }
}

/// Says what the check of a password means for a login.
pub fn judge_password(verified: Result<bool, CredentialError>) -> (r: Result<(), LoginError>)
    ensures
        r == password_verdict(verified),
{
    match verified {
        Ok(true) => Ok(()),
        Ok(false) => Err(LoginError::InvalidCredentials),
        Err(_) => Err(LoginError::CredentialFault),
    }
}

/// The claims of the token that a login at `now` issues to a club.
pub open spec fn session_claims(club: Option<&Club>, now: u64) -> ClaimsView {
    match club {
        Some(c) => ClaimsView {
            club_id: c.username@,
            club_db_id: c.id,
            exp: (now + SESSION_TIME) as u64,
        },
        None => ClaimsView { club_id: Seq::empty(), club_db_id: 0, exp: 0 },
    }
}

/// Logs a club in as of the second `now`: `club` is the account that has
/// the handle given, if there is one.
///
/// Without an account, or with a password that the stored credential does
/// not accept, the login fails as `InvalidCredentials`. A stored credential
/// that cannot be read fails it as `CredentialFault`. Otherwise a token is
/// issued to the club for one day; `TokenFault` where its expiry is out of
/// range. A token that comes back is valid through that day and yields the
/// club's handle and account number.
pub fn login_at(keys: &Keys, club: Option<&Club>, password: &[u8], now: u64) -> (r: Result<
    String,
    LoginError,
>)
    ensures
        match login_outcome(keys.secret(), login_view(club), password@, now) {
            Ok(token) => r matches Ok(t) && t@ == token,
            Err(e) => r matches Err(f) && f == e,
        },
        r matches Ok(t) ==> club is Some && valid_through(
            keys.secret(),
            t@,
            session_claims(club, now),
        ),
{
    match club {
        None => Err(LoginError::InvalidCredentials),
        Some(c) => match judge_password(verify_password(password, c.password_hash.as_str())) {
            Err(e) => Err(e),
            Ok(_) => match issue_at(keys, c, SESSION_TIME, now) {
                Ok(token) => Ok(token),
                Err(_) => Err(LoginError::TokenFault),
            },
        },
    }
}

/// Logs a club in as of the present, which is read from the clock where a
/// token is to be issued. Whatever second the clock gives, the result is
/// what `login_at` gives at that second, and a token that comes back is
/// valid for one day from it.
pub fn login(keys: &Keys, club: Option<&Club>, password: &[u8]) -> (r: Result<String, LoginError>)
    ensures
        exists|now: u64|
            {
                &&& match #[trigger] login_outcome(
                    keys.secret(),
                    login_view(club),
                    password@,
                    now,
                ) {
                    Ok(token) => r matches Ok(t) && t@ == token,
                    Err(e) => r matches Err(f) && f == e,
                }
                &&& r matches Ok(t) ==> club is Some && valid_through(
                    keys.secret(),
                    t@,
                    session_claims(club, now),
                )
            },
{
    match club {
        None => {
            proof {
                let _ = login_outcome(keys.secret(), login_view(club), password@, 0);
            }
            Err(LoginError::InvalidCredentials)
        },
        Some(c) => match judge_password(verify_password(password, c.password_hash.as_str())) {
            Err(e) => {
                proof {
                    let _ = login_outcome(keys.secret(), login_view(club), password@, 0);
                }
                Err(e)
            },
            Ok(_) => {
                let issued = generate_jwt(keys, c, SESSION_TIME);
                proof {
                    let now = choose|now: u64|
                        {
                            &&& match #[trigger] issue_outcome(
                                keys.secret(),
                                c.username@,
                                c.id,
                                now,
                                SESSION_TIME,
                            ) {
                                Ok(token) => issued matches Ok(t) && t@ == token,
                                Err(e) => issued matches Err(f) && f == e,
                            }
                            &&& issued is Ok <==> now + SESSION_TIME <= u64::MAX
                            &&& issued matches Ok(t) ==> valid_through(
                                keys.secret(),
                                t@,
                                ClaimsView {
                                    club_id: c.username@,
                                    club_db_id: c.id,
                                    exp: (now + SESSION_TIME) as u64,
                                },
                            )
                        };
                    let _ = login_outcome(keys.secret(), login_view(club), password@, now);
                }
                match issued {
                    Ok(token) => Ok(token),
                    Err(_) => Err(LoginError::TokenFault),
                }
            },
        },
    }
}

} // verus!
