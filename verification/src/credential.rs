//! Credentials: what is stored in place of a password.
//!
//! A credential is the PHC string that Argon2id derives from a password and
//! a salt. Hashing and checking are the work of the `argon2` and
//! `password-hash` crates; this module states what the library relies on and
//! decides what a failure means.

use argon2::Argon2;
use password_hash::rand_core::OsRng;
use password_hash::{PasswordHash, PasswordHasher, PasswordVerifier, SaltString};
use vstd::prelude::*;

verus! {

/// Why a credential could not be made or read.
#[derive(Clone, Copy, Debug, PartialEq, Eq, Structural)]
pub enum CredentialError {
    /// The hash function refused its parameters.
    Hashing,
    /// The stored string is no credential encoding: a fault in the data, not
    /// a wrong password.
    Unparsable,
}

/// The error of `password-hash`. It is carried from a call to where the
/// library names the failure in its own terms, and never looked into.
#[verifier::external_type_specification]
#[verifier::external_body]
pub struct ExPasswordHashError(password_hash::Error);

/// The encoding that Argon2 with its default parameters derives from
/// `password` under `salt`, or `None` where it refuses the two.
pub uninterp spec fn argon2_encoding(password: Seq<u8>, salt: Seq<char>) -> Option<Seq<char>>;

/// Whether `encoded` parses as a PHC string.
pub uninterp spec fn parses_as_credential(encoded: Seq<char>) -> bool;

/// Whether Argon2, run on `password` with the algorithm, parameters and salt
/// that `encoded` names, arrives at the digest that `encoded` holds.
pub uninterp spec fn argon2_accepts(password: Seq<u8>, encoded: Seq<char>) -> bool;

/// What checking `password` against the stored string `encoded` yields.
pub open spec fn verify_outcome(password: Seq<u8>, encoded: Seq<char>) -> Result<
    bool,
    CredentialError,
> {
    if parses_as_credential(encoded) {
        Ok(argon2_accepts(password, encoded))
    } else {
        Err(CredentialError::Unparsable)
    }
}

/// The longest password, in bytes, that Argon2 takes.
pub const MAX_PASSWORD_LEN: usize = 0xFFFF_FFFF;

/// Draws a salt with `SaltString::generate` from the operating system's
/// random generator. Which salt comes back is left open. Whichever it is, it
/// is the B64 text of 16 bytes, and the sources show that Argon2 with its
/// default parameters refuses nothing under such a salt but a password of
/// more than `MAX_PASSWORD_LEN` bytes: that is what the contract claims.
#[verifier::external_body]
fn fresh_salt() -> (salt: String)
    ensures
        forall|password: Seq<u8>|
            password.len() <= MAX_PASSWORD_LEN ==> (#[trigger] argon2_encoding(
                password,
                salt@,
            )) is Some,
{
    SaltString::generate(&mut OsRng).as_str().to_string()
}

/// Draws 32 random bytes with `rand::random`. Nothing is claimed of them but
/// their number.
#[verifier::external_body]
fn random_bytes() -> (bytes: Vec<u8>)
    ensures
        bytes@.len() == 32,
{
    rand::random::<[u8; 32]>().to_vec()
}

/// Hashes with `Argon2::default().hash_password` and renders the result as a
/// PHC string. The call is a function of its two arguments, so its result is
/// `argon2_encoding` of them. Of an encoding that comes back the contract
/// claims two more things, which the crates' sources show: it parses as a PHC
/// string, and verification recomputes the same digest from the same
/// password, parameters and salt, so it accepts that password.
#[verifier::external_body]
fn argon2_hash(password: &[u8], salt: &str) -> (r: Result<String, password_hash::Error>)
    ensures
        r is Ok <==> argon2_encoding(password@, salt@) is Some,
        r matches Ok(encoded) ==> {
            &&& argon2_encoding(password@, salt@) == Some(encoded@)
            &&& parses_as_credential(encoded@)
            &&& argon2_accepts(password@, encoded@)
        },
{
    Argon2::default().hash_password(password, salt).map(|hash| hash.to_string())
}

/// Parses with `PasswordHash::new`, which accepts exactly the PHC strings.
#[verifier::external_body]
fn parse_credential(encoded: &str) -> (r: Result<(), password_hash::Error>)
    ensures
        r is Ok <==> parses_as_credential(encoded@),
{
    PasswordHash::new(encoded).map(|_| ())
}

/// Checks with `Argon2::default().verify_password` against the parsed
/// `encoded`; a string that does not parse accepts no password.
#[verifier::external_body]
fn argon2_verify(password: &[u8], encoded: &str) -> (accepted: bool)
    ensures
        accepted == (parses_as_credential(encoded@) && argon2_accepts(password@, encoded@)),
{
    match PasswordHash::new(encoded) {
        Ok(parsed) => Argon2::default().verify_password(password, &parsed).is_ok(),
        Err(_) => false,
    }
}

/// Derives the credential of `password` under the given salt.
///
/// The result is the Argon2 encoding of the two, and `Hashing` exactly where
/// Argon2 refuses them. A credential that comes back verifies against
/// `password`.
pub fn hash_password_with_salt(password: &[u8], salt: &str) -> (r: Result<String, CredentialError>)
    ensures
        match argon2_encoding(password@, salt@) {
            Some(encoded) => r matches Ok(credential) && credential@ == encoded,
            None => r == Err::<String, CredentialError>(CredentialError::Hashing),
        },
        r matches Ok(credential) ==> verify_outcome(password@, credential@) == Ok::<
            bool,
            CredentialError,
        >(true),
{
    match argon2_hash(password, salt) {
        Ok(encoded) => Ok(encoded),
        Err(_) => Err(CredentialError::Hashing),
    }
}

/// Derives a credential of `password` under a fresh random salt.
///
/// Which credential comes back depends on the salt drawn. Whichever salt it
/// is, the result is what Argon2 makes of `password` under it: the encoding,
/// which then verifies against `password`, or `Hashing` where Argon2
/// refuses. A password of at most `MAX_PASSWORD_LEN` bytes is never refused.
pub fn hash_password(password: &[u8]) -> (r: Result<String, CredentialError>)
    ensures
        exists|salt: Seq<char>|
            match #[trigger] argon2_encoding(password@, salt) {
                Some(encoded) => r matches Ok(credential) && credential@ == encoded,
                None => r == Err::<String, CredentialError>(CredentialError::Hashing),
            },
        password@.len() <= MAX_PASSWORD_LEN ==> r is Ok,
        r matches Ok(credential) ==> verify_outcome(password@, credential@) == Ok::<
            bool,
            CredentialError,
        >(true),
{
    let salt = fresh_salt();
    let r = hash_password_with_salt(password, salt.as_str());
    proof {
        let _ = argon2_encoding(password@, salt@);
    }
    r
}

/// Whether `credential` is what Argon2 makes of `password` under `salt`, and
/// so verifies against `password`.
pub open spec fn derived_from(credential: Seq<char>, password: Seq<u8>, salt: Seq<char>) -> bool {
    &&& argon2_encoding(password, salt) == Some(credential)
    &&& verify_outcome(password, credential) == Ok::<bool, CredentialError>(true)
}

/// Derives a credential of a password that nobody knows: 32 random bytes
/// under a fresh random salt.
///
/// The result is always a credential: the Argon2 encoding of some password
/// of 32 bytes under some salt, which verifies against that password.
pub fn unguessable_credential() -> (r: Result<String, CredentialError>)
    ensures
        r matches Ok(credential) && exists|password: Seq<u8>, salt: Seq<char>|
            password.len() == 32 && #[trigger] derived_from(credential@, password, salt),
{
    let password = random_bytes();
    let salt = fresh_salt();
    let r = hash_password_with_salt(password.as_slice(), salt.as_str());
    proof {
        assert(argon2_encoding(password@, salt@) is Some);
        assert(derived_from(r.unwrap()@, password@, salt@));
    }
    r
}

/// Checks `password` against the stored credential `password_hash`.
///
/// A wrong password is `Ok(false)`, never an error. The error `Unparsable`
/// comes exactly where the stored string is no credential encoding, whatever
/// the password.
pub fn verify_password(password: &[u8], password_hash: &str) -> (r: Result<bool, CredentialError>)
    ensures
        r == verify_outcome(password@, password_hash@),
{
    match parse_credential(password_hash) {
        Ok(_) => Ok(argon2_verify(password, password_hash)),
        Err(_) => Err(CredentialError::Unparsable),
    }
}

} // verus!
