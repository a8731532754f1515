//! Password hashing and verification.
//!
//! Hashing is one-way, salted and adaptive; verification recomputes with the
//! salt and cost stored in the digest and compares in constant time.  What
//! relates a password to a digest is named, never spelled out: the adaptive
//! hash is not this crate's logic to restate.

use vstd::prelude::*;

use crate::AuthError;

verus! {

/// Whether a password verifies against a digest.  The relation is a pure
/// function of the two strings: verification is deterministic, in every
/// process and on every machine.
pub uninterp spec fn bcrypt_matches(password: Seq<char>, digest: Seq<char>) -> bool;

/// Relies on `bcrypt::hash` at the crate's default cost: on success the
/// digest verifies against the hashed password (`bcrypt::verify` recomputes
/// with the salt and cost carried inside the digest).  Any backend failure
/// surfaces as one generic error.
#[verifier::external_body]
pub fn hash_password(password: &str) -> (r: Result<String, AuthError>)
    ensures
        r is Ok ==> bcrypt_matches(password@, r->Ok_0@),
        r is Err ==> r->Err_0 == AuthError::HashingFailed,
{
    match bcrypt::hash(password, bcrypt::DEFAULT_COST) {
        Ok(digest) => Ok(digest),
        Err(_) => Err(AuthError::HashingFailed),
    }
}

/// Relies on `bcrypt::verify`: deterministic in the password and the
/// digest; a malformed digest is reported as a non-match, never raised as
/// an error.
#[verifier::external_body]
pub fn verify_password(password: &str, digest: &str) -> (r: bool)
    ensures
        r == bcrypt_matches(password@, digest@),
{
    bcrypt::verify(password, digest).unwrap_or(false)
}

} // verus!
