//! Credential, session-token and password-reset core of the club hub.
//!
//! The library decides; it does not talk to anything. A server around it
//! looks accounts up, delivers mail and writes to its store, and asks the
//! library at each step what the step comes to:
//!
//! - `credential` turns a password into a stored credential and checks a
//!   password against one;
//! - `token` issues and validates the signed bearer tokens that say who a
//!   request comes from;
//! - `guard` takes a token out of a request and holds the identity against
//!   the owner of what is asked for;
//! - `session` logs a club in;
//! - `registry` keeps the single-use, time-limited tokens of password
//!   resets;
//! - `flow` leads a reset from the request to the new credential, with
//!   `mail` writing the messages;
//! - `catalog` and `picture` settle what a club may file itself under and
//!   upload.
//!
//! Time is always a count of seconds handed in by the caller, or read from
//! the clock by the few functions that say so.

pub mod account;
pub mod catalog;
pub mod credential;
pub mod flow;
pub mod guard;
pub mod mail;
pub mod picture;
pub mod registry;
pub mod session;
pub mod token;
