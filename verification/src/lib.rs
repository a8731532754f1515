//! Session authentication and watch-progress persistence for a self-hosted
//! media-browsing service.
//!
//! The crate issues tamper-evident session tokens, validates and revokes them
//! against a ledger of active sessions, and keeps a per-user watch-history
//! table with idempotent progress merges.  Password hashing, message
//! authentication, hex encoding, random session identifiers and the wall
//! clock come from outside crates through a small set of trusted wrappers;
//! everything that decides or computes is verified.

use vstd::prelude::*;

pub mod auth;
pub mod config;
pub mod credentials;
pub mod digits;
pub mod facade;
pub mod history;
pub mod onboarding;
pub mod session;
pub mod signing;
pub mod vidking;

verus! {

/// Failures of the authentication layer that are real errors, as opposed to
/// a missing or invalid session, which is an absence of identity and never
/// an error.
#[derive(Debug, Clone, Copy, PartialEq, Eq, Structural)]
pub enum AuthError {
    /// The password-hashing backend failed.
    HashingFailed,
    /// The local account was expected to exist but does not.
    LocalUserMissing,
    /// A freshly generated session identifier collided with a stored one.
    SessionIdCollision,
    /// The clock value would overflow the expiry computation.
    ClockOutOfRange,
    /// A table's id space is exhausted and no row can be added.
    StoreFull,
}

} // verus!
