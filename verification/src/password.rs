//! Password hashing, through the `password_auth` crate.
//!
//! Hashing salts from the thread's random generator, so nothing relates
//! two hashes of one password; what the library relies on is only the
//! documented round trip between generating and verifying, named by
//! [`verify_ok`].

use vstd::prelude::*;

verus! {

/// Whether `password_auth::verify_password` accepts `password` against
/// the hash string `hash`.  Verification recomputes the digest from the
/// salt inside the hash string, so the outcome depends on the two
/// arguments alone.
pub uninterp spec fn verify_ok(password: Seq<char>, hash: Seq<char>) -> bool;

/// Longest password the hasher is asked to digest, in characters.  The
/// underlying algorithm takes passwords of up to 2^32 - 1 bytes and
/// `password_auth::generate_hash` panics beyond that; a character takes
/// at most four bytes, and this bound keeps every caller clear of it.
pub const HASH_MAX_PASSWORD_CHARS: usize = 0x3FFF_FFFF;

/// Relies on `password_auth::generate_hash`: the returned string is a
/// self-describing salted hash that `password_auth::verify_password`
/// accepts for the password it was generated from.
#[verifier::external_body]
pub(crate) fn hash_password(password: &str) -> (r: String)
    requires
        password@.len() <= HASH_MAX_PASSWORD_CHARS,
    ensures
        verify_ok(password@, r@),
{
    password_auth::generate_hash(password)
}

/// Relies on `password_auth::verify_password`: recomputes and compares
/// in constant time; a failure is an outcome, not a fault.
#[verifier::external_body]
pub(crate) fn verify_password(password: &str, hash: &str) -> (r: bool)
    ensures
        r == verify_ok(password@, hash@),
{
    password_auth::verify_password(password, hash).is_ok()
}

} // verus!
