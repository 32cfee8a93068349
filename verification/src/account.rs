//! The account record, as far as this library reads it.

use vstd::prelude::*;

verus! {

/// A club's account. The record is owned by whoever stores it: the library
/// reads the identifier and the credential, and hands back a new credential
/// for the store to write.
#[derive(Clone, Debug)]
pub struct Club {
    /// The store's number for the account.
    pub id: i32,
    /// The unique handle that the club logs in with.
    pub username: String,
    /// Where messages to the club are sent.
    pub email: String,
    /// The stored credential.
    pub password_hash: String,
}

} // verus!
