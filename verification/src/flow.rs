//! The password-reset flow, step by step.
//!
//! Looking an account up, delivering a message and writing a credential are
//! done by whoever runs the flow. Between those, this module decides: each
//! function takes what the last outside step gave and says what is to be done
//! next, and what becomes of the registry of reset tokens.
//!
//! A reset is requested with `begin_reset`, which prepares a token and the
//! message that carries it. The token enters the registry in `finish_reset`,
//! and only once the message is known to be delivered, so that no token is
//! ever live that nobody was told of. A token is redeemed with
//! `begin_password_reset`, which takes it out of the registry and derives
//! the new credential. Should the write of that credential fail,
//! `finish_password_reset` puts the token back for another try.

use crate::account::Club;
use crate::credential::{
    argon2_encoding, hash_password, verify_outcome, CredentialError, MAX_PASSWORD_LEN,
};
use crate::mail::{
    decimal_of, link_text, reset_link, reset_mail, reset_text, welcome_mail, welcome_text, Mail,
    RESET_SUBJECT, WELCOME_SUBJECT,
};
use crate::registry::{
    fresh_identifier, is_identifier, redeem_outcome, ResetEntry, ResetError, ResetMap, Resets,
};
use std::str::FromStr;
use vstd::prelude::*;

verus! {

/// For how many seconds the link of a reset request is good: one hour.
pub const RESET_ALLOWED_TIME: u64 = 3600;

/// For how many seconds the link in a welcome message is good: seven days.
pub const WELCOME_ALLOWED_TIME: u64 = 604800;

/// Why a step of the flow failed.
#[derive(Clone, Copy, Debug, PartialEq, Eq, Structural)]
pub enum FlowError {
    /// No account has the address that the reset was requested for.
    NotFound,
    /// The club to be welcomed was not created: its handle is taken.
    Conflict,
    /// The account's address is no mail address.
    InvalidEmail,
    /// The message could not be delivered.
    DeliveryFailed,
    /// No reset token is registered under the identifier.
    ResetNotFound,
    /// The reset token had expired.
    ResetExpired,
    /// The new credential could not be derived.
    CredentialFault,
    /// The new credential could not be written.
    StorageFailed,
}

impl FlowError {
    /// Whether the failure is of the reset token: not found, or expired.
    pub open spec fn is_token_failure(self) -> bool {
        self == FlowError::ResetNotFound || self == FlowError::ResetExpired
    }

    /// The HTTP status that the failure is answered with.
    pub open spec fn status_of(self) -> u16 {
        match self {
            FlowError::NotFound => 404,
            FlowError::Conflict => 409,
            FlowError::InvalidEmail => 400,
            FlowError::ResetNotFound => 401,
            FlowError::ResetExpired => 401,
            FlowError::DeliveryFailed => 500,
            FlowError::CredentialFault => 500,
            FlowError::StorageFailed => 500,
        }
    }

    /// The HTTP status that the failure is answered with. A token that was
    /// not found and one that had expired are answered alike.
    pub fn status(&self) -> (code: u16)
        ensures
            code == self.status_of(),
    {
        match self {
            FlowError::NotFound => 404,
            FlowError::Conflict => 409,
            FlowError::InvalidEmail => 400,
            FlowError::ResetNotFound => 401,
            FlowError::ResetExpired => 401,
            FlowError::DeliveryFailed => 500,
            FlowError::CredentialFault => 500,
            FlowError::StorageFailed => 500,
        }
    }

    /// The message that the failure is answered with.
    pub open spec fn message_of(self) -> Seq<char> {
        match self {
            FlowError::NotFound => "could not find matching club"@,
            FlowError::Conflict => "club already exists!"@,
            FlowError::InvalidEmail => "invalid email"@,
            FlowError::ResetNotFound => "invalid or expired reset url"@,
            FlowError::ResetExpired => "invalid or expired reset url"@,
            FlowError::DeliveryFailed => "failed to send email"@,
            FlowError::CredentialFault => "Internal Server Error"@,
            FlowError::StorageFailed => "Internal Server Error"@,
        }
    }

    /// The message that the failure is answered with. A token that was not
    /// found and one that had expired read the same, and a fault inside the
    /// server is not described.
    pub fn message(&self) -> (text: &'static str)
        ensures
            text@ == self.message_of(),
    {
        match self {
            FlowError::NotFound => "could not find matching club",
            FlowError::Conflict => "club already exists!",
            FlowError::InvalidEmail => "invalid email",
            FlowError::ResetNotFound => "invalid or expired reset url",
            FlowError::ResetExpired => "invalid or expired reset url",
            FlowError::DeliveryFailed => "failed to send email",
            FlowError::CredentialFault => "Internal Server Error",
            FlowError::StorageFailed => "Internal Server Error",
        }
    }
}

/// A client cannot tell a token that was not found from one that had
/// expired: the two failures are answered with the same status and the same
/// message.
pub proof fn law_token_failures_alike(a: FlowError, b: FlowError)
    requires
        a.is_token_failure(),
        b.is_token_failure(),
    ensures
        a.status_of() == b.status_of(),
        a.message_of() == b.message_of(),
{
}

/// Whether `lettre::Address` accepts `address`.
pub uninterp spec fn is_mail_address(address: Seq<char>) -> bool;

/// Parses `address` with the `FromStr` of `lettre::Address` and tells
/// whether it was accepted.
#[verifier::external_body]
fn address_parses(address: &str) -> (accepted: bool)
    ensures
        accepted == is_mail_address(address@),
{
    lettre::Address::from_str(address).is_ok()
}

/// A reset that is prepared and not yet registered: the token, and the
/// message that is to carry it.
#[derive(Debug)]
pub struct PendingReset {
    /// The token's identifier.
    pub identifier: String,
    /// The account that the token is for.
    pub account: i32,
    /// For how many seconds the token will be good once it is registered.
    pub ttl: u64,
    /// The message to deliver.
    pub mail: Mail,
}

/// A credential that is derived and not yet written: what to write, and the
/// token that paid for it.
#[derive(Debug)]
pub struct CredentialUpdate {
    /// The account whose credential is to be replaced.
    pub account: i32,
    /// The credential to write.
    pub password_hash: String,
    /// The identifier of the token that was redeemed.
    pub identifier: String,
    /// The token as it stood in the registry.
    pub entry: ResetEntry,
}

/// A token that was taken out of the registry, valid.
#[derive(Debug)]
pub struct Claimed {
    /// The identifier of the token.
    pub identifier: String,
    /// The token as it stood in the registry.
    pub entry: ResetEntry,
}

/// Prepares the reset of `club` under a given token identifier: the message
/// goes to the club's address, and its link holds the identifier. Refused
/// as `InvalidEmail` exactly where the address is no mail address.
pub fn prepare_reset(club: &Club, frontend_host: &str, identifier: String) -> (r: Result<
    PendingReset,
    FlowError,
>)
    ensures
        match r {
            Ok(pending) => {
                &&& is_mail_address(club.email@)
                &&& pending.identifier@ == identifier@
                &&& pending.account == club.id
                &&& pending.ttl == RESET_ALLOWED_TIME
                &&& pending.mail.to_name@ == club.username@
                &&& pending.mail.to_address@ == club.email@
                &&& pending.mail.subject@ == RESET_SUBJECT@
                &&& pending.mail.body@ == reset_text(
                    club.username@,
                    decimal_of((RESET_ALLOWED_TIME / 60) as nat),
                    link_text(frontend_host@, identifier@),
                )
            },
            Err(e) => !is_mail_address(club.email@) && e == FlowError::InvalidEmail,
        },
{
    if !address_parses(club.email.as_str()) {
        return Err(FlowError::InvalidEmail);
    }
    let link = reset_link(frontend_host, identifier.as_str());
    let mail = reset_mail(
        club.username.as_str(),
        club.email.as_str(),
        link.as_str(),
        RESET_ALLOWED_TIME / 60,
    );
    Ok(PendingReset { identifier, account: club.id, ttl: RESET_ALLOWED_TIME, mail })
}

/// Prepares the welcome of `club` under a given token identifier: the
/// message goes to the club's address, and its link holds the identifier.
/// Refused as `InvalidEmail` exactly where the address is no mail address.
pub fn prepare_welcome(club: &Club, frontend_host: &str, identifier: String) -> (r: Result<
    PendingReset,
    FlowError,
>)
    ensures
        match r {
            Ok(pending) => {
                &&& is_mail_address(club.email@)
                &&& pending.identifier@ == identifier@
                &&& pending.account == club.id
                &&& pending.ttl == WELCOME_ALLOWED_TIME
                &&& pending.mail.to_name@ == club.username@
                &&& pending.mail.to_address@ == club.email@
                &&& pending.mail.subject@ == WELCOME_SUBJECT@
                &&& pending.mail.body@ == welcome_text(
                    club.username@,
                    link_text(frontend_host@, identifier@),
                )
            },
            Err(e) => !is_mail_address(club.email@) && e == FlowError::InvalidEmail,
        },
{
    if !address_parses(club.email.as_str()) {
        return Err(FlowError::InvalidEmail);
    }
    let link = reset_link(frontend_host, identifier.as_str());
    let mail = welcome_mail(club.username.as_str(), club.email.as_str(), link.as_str());
    Ok(PendingReset { identifier, account: club.id, ttl: WELCOME_ALLOWED_TIME, mail })
}

/// Answers a reset request: `club` is the account that has the address the
/// request named, if there is one.
///
/// Without an account the request fails as `NotFound`, and with an account
/// whose address is no mail address as `InvalidEmail`. Otherwise a fresh
/// identifier is drawn, and what comes back is the reset prepared under it;
/// nothing is registered yet.
pub fn begin_reset(club: Option<&Club>, frontend_host: &str) -> (r: Result<
    PendingReset,
    FlowError,
>)
    ensures
        match r {
            Ok(pending) => {
                &&& club matches Some(c)
                &&& is_mail_address(c.email@)
                &&& is_identifier(pending.identifier@)
                &&& pending.account == c.id
                &&& pending.ttl == RESET_ALLOWED_TIME
                &&& pending.mail.to_name@ == c.username@
                &&& pending.mail.to_address@ == c.email@
                &&& pending.mail.subject@ == RESET_SUBJECT@
                &&& pending.mail.body@ == reset_text(
                    c.username@,
                    decimal_of((RESET_ALLOWED_TIME / 60) as nat),
                    link_text(frontend_host@, pending.identifier@),
                )
            },
            Err(e) => match club {
                None => e == FlowError::NotFound,
                Some(c) => !is_mail_address(c.email@) && e == FlowError::InvalidEmail,
            },
        },
{
    match club {
        None => Err(FlowError::NotFound),
        Some(c) => prepare_reset(c, frontend_host, fresh_identifier()),
    }
}

/// Welcomes a club that was just created: `club` is the new account, or
/// `None` where none was created because the handle is taken.
///
/// Without an account the step fails as `Conflict`, and with an account
/// whose address is no mail address as `InvalidEmail`. Otherwise a fresh
/// identifier is drawn, and what comes back is the welcome prepared under
/// it; nothing is registered yet.
pub fn begin_welcome(club: Option<&Club>, frontend_host: &str) -> (r: Result<
    PendingReset,
    FlowError,
>)
    ensures
        match r {
            Ok(pending) => {
                &&& club matches Some(c)
                &&& is_mail_address(c.email@)
                &&& is_identifier(pending.identifier@)
                &&& pending.account == c.id
                &&& pending.ttl == WELCOME_ALLOWED_TIME
                &&& pending.mail.to_name@ == c.username@
                &&& pending.mail.to_address@ == c.email@
                &&& pending.mail.subject@ == WELCOME_SUBJECT@
                &&& pending.mail.body@ == welcome_text(
                    c.username@,
                    link_text(frontend_host@, pending.identifier@),
                )
            },
            Err(e) => match club {
                None => e == FlowError::Conflict,
                Some(c) => !is_mail_address(c.email@) && e == FlowError::InvalidEmail,
            },
        },
{
    match club {
        None => Err(FlowError::Conflict),
        Some(c) => prepare_welcome(c, frontend_host, fresh_identifier()),
    }
}

/// Closes a reset request once the delivery of its message has been tried.
///
/// Where the message was delivered, the token enters the registry as issued
/// at `now`. Where it was not, the request fails as `DeliveryFailed` and the
/// registry stays as it was: no token is live that nobody was told of.
pub fn finish_reset(resets: &mut Resets, pending: PendingReset, delivered: bool, now: u64) -> (r:
    Result<(), FlowError>)
    ensures
        delivered ==> r is Ok && final(resets)@ == old(resets)@.insert(
            pending.identifier@,
            ResetEntry { issued_at: now, ttl: pending.ttl, account: pending.account },
        ),
        !delivered ==> r == Err::<(), FlowError>(FlowError::DeliveryFailed) && final(resets)@
            == old(resets)@,
{
    if delivered {
        resets.insert(
            pending.identifier,
            ResetEntry { issued_at: now, ttl: pending.ttl, account: pending.account },
        );
        Ok(())
    } else {
        Err(FlowError::DeliveryFailed)
    }
}

/// Takes the token under `identifier` out of the registry, as of `now`.
///
/// With no such token the step fails as `ResetNotFound`, and with one whose
/// time to live has elapsed as `ResetExpired`. Either way, and on success
/// too, no token is registered under the identifier afterwards.
pub fn claim_reset(resets: &mut Resets, identifier: &str, now: u64) -> (r: Result<
    Claimed,
    FlowError,
>)
    ensures
        final(resets)@ == old(resets)@.remove(identifier@),
        match redeem_outcome(old(resets)@, identifier@, now) {
            Ok(account) => r matches Ok(claimed) && claimed.identifier@ == identifier@
                && claimed.entry == old(resets)@[identifier@] && claimed.entry.account == account,
            Err(ResetError::NotFound) => r matches Err(e) && e == FlowError::ResetNotFound,
            Err(ResetError::Expired) => r matches Err(e) && e == FlowError::ResetExpired,
        },
{
    match resets.take(identifier) {
        None => Err(FlowError::ResetNotFound),
        Some(entry) => {
            if entry.is_expired(now) {
                Err(FlowError::ResetExpired)
            } else {
                Ok(Claimed { identifier: identifier.to_owned(), entry })
            }
        },
    }
}

/// Pairs a claimed token with the credential that was derived for it.
///
/// With a credential the result says what to write and for which account,
/// and the registry stays as it is. Where deriving failed, the token goes
/// back into the registry as it stood, and the step fails as
/// `CredentialFault`.
pub fn settle_claim(resets: &mut Resets, claimed: Claimed, hashed: Result<String, CredentialError>)
    -> (r: Result<CredentialUpdate, FlowError>)
    ensures
        match hashed {
            Ok(credential) => {
                &&& r matches Ok(update)
                &&& update.account == claimed.entry.account
                &&& update.password_hash@ == credential@
                &&& update.identifier@ == claimed.identifier@
                &&& update.entry == claimed.entry
                &&& final(resets)@ == old(resets)@
            },
            Err(_) => {
                &&& r matches Err(e)
                &&& e == FlowError::CredentialFault
                &&& final(resets)@ == old(resets)@.insert(claimed.identifier@, claimed.entry)
            },
        },
{
    match hashed {
        Ok(password_hash) => Ok(
            CredentialUpdate {
                account: claimed.entry.account,
                password_hash,
                identifier: claimed.identifier,
                entry: claimed.entry,
            },
        ),
        Err(_) => {
            resets.insert(claimed.identifier, claimed.entry);
            Err(FlowError::CredentialFault)
        },
    }
}

/// Redeems the token under `identifier` for a new password, as of `now`.
///
/// With no such token the step fails as `ResetNotFound`; with an expired
/// one it fails as `ResetExpired` and the token is gone. With a valid one
/// the token leaves the registry and the credential of `new_password` is
/// derived under a fresh salt: what comes back names the token's account
/// and a credential that verifies against `new_password`. Deriving fails
/// only where Argon2 refuses the password under the salt drawn, which it
/// does to none of at most `MAX_PASSWORD_LEN` bytes; the step then fails as
/// `CredentialFault` and the registry is as it was.
pub fn begin_password_reset(
    resets: &mut Resets,
    identifier: &str,
    new_password: &[u8],
    now: u64,
) -> (r: Result<CredentialUpdate, FlowError>)
    ensures
        match redeem_outcome(old(resets)@, identifier@, now) {
            Ok(account) => match r {
                Ok(update) => {
                    &&& update.account == account
                    &&& update.identifier@ == identifier@
                    &&& update.entry == old(resets)@[identifier@]
                    &&& exists|salt: Seq<char>|
                        argon2_encoding(new_password@, salt) == Some(update.password_hash@)
                    &&& verify_outcome(new_password@, update.password_hash@) == Ok::<
                        bool,
                        CredentialError,
                    >(true)
                    &&& final(resets)@ == old(resets)@.remove(identifier@)
                },
                Err(e) => {
                    &&& e == FlowError::CredentialFault
                    &&& new_password@.len() > MAX_PASSWORD_LEN
                    &&& exists|salt: Seq<char>|
                        (#[trigger] argon2_encoding(new_password@, salt)) is None
                    &&& final(resets)@ == old(resets)@
                },
            },
            Err(ResetError::NotFound) => {
                &&& r matches Err(e)
                &&& e == FlowError::ResetNotFound
                &&& final(resets)@ == old(resets)@
            },
            Err(ResetError::Expired) => {
                &&& r matches Err(e)
                &&& e == FlowError::ResetExpired
                &&& final(resets)@ == old(resets)@.remove(identifier@)
            },
        },
{
    match claim_reset(resets, identifier, now) {
        Err(e) => {
            proof {
                if !old(resets)@.contains_key(identifier@) {
                    assert(old(resets)@.remove(identifier@) =~= old(resets)@);
                }
            }
            Err(e)
        },
        Ok(claimed) => {
            proof {
                law_restored(old(resets)@, identifier@);
            }
            let hashed = hash_password(new_password);
            proof {
                let salt = choose|salt: Seq<char>|
                    match #[trigger] argon2_encoding(new_password@, salt) {
                        Some(encoded) => hashed matches Ok(credential) && credential@ == encoded,
                        None => hashed == Err::<String, CredentialError>(
                            CredentialError::Hashing,
                        ),
                    };
                if hashed is Ok {
                    assert(argon2_encoding(new_password@, salt) == Some(hashed.unwrap()@));
                } else {
                    assert(argon2_encoding(new_password@, salt) is None);
                }
            }
            settle_claim(resets, claimed, hashed)
        },
    }
}

/// Closes a redemption once the write of the new credential has been tried.
///
/// Where the credential was written, the token stays consumed. Where it was
/// not, the token goes back into the registry as it stood, so that the
/// redemption can be tried again, and the step fails as `StorageFailed`.
pub fn finish_password_reset(resets: &mut Resets, update: CredentialUpdate, stored: bool) -> (r:
    Result<(), FlowError>)
    ensures
        stored ==> r is Ok && final(resets)@ == old(resets)@,
        !stored ==> r == Err::<(), FlowError>(FlowError::StorageFailed) && final(resets)@ == old(
            resets,
        )@.insert(update.identifier@, update.entry),
{
    if stored {
        Ok(())
    } else {
        resets.insert(update.identifier, update.entry);
        Err(FlowError::StorageFailed)
    }
}

/// Putting a token back as it stood undoes its redemption: the registry
/// holds what it held before.
pub proof fn law_restored(m: ResetMap, id: Seq<char>)
    requires
        m.contains_key(id),
    ensures
        m.remove(id).insert(id, m[id]) == m,
{
    assert(m.remove(id).insert(id, m[id]) =~= m);
}

} // verus!
