//! Secret hashing and verification.
//!
//! A plaintext secret is turned into a salted, self-describing hash string,
//! and later checked against it, by argon2. The salt is fresh and random on
//! every hashing call, so the hash string itself is not a function of the
//! plaintext and gets no name; what is deterministic — whether a plaintext
//! matches a given stored hash string — is named `hash_matches`, and every
//! contract in the authentication pipeline speaks through that name.

use argon2::{Argon2, PasswordHasher, PasswordVerifier};
use vstd::prelude::*;

verus! {

use vstd::utf8::encode_utf8;

/// Whether a plaintext (as UTF-8 bytes) matches a stored hash string, as
/// argon2 verification decides it. Deterministic in both arguments.
pub uninterp spec fn hash_matches(plaintext: Seq<u8>, hash: Seq<char>) -> bool;

/// Whether argon2 verification classifies a failure against this stored
/// string as a plain mismatch rather than as a malformed hash. Deterministic
/// in the stored string alone.
pub uninterp spec fn hash_wellformed(hash: Seq<char>) -> bool;

/// Failure of a secret check against a stored hash string.
#[derive(PartialEq, Eq, Structural, Clone, Copy, Debug)]
pub enum PasswordError {
    /// The hash string parsed, but the plaintext does not match it. Nothing
    /// more is revealed about why.
    Mismatch,
    /// The stored string could not be interpreted as a hash: data corruption,
    /// not a client error.
    MalformedHash,
}

/// Relies on argon2's `PasswordHasher::hash_password` (with a fresh random
/// salt) and `PasswordVerifier::verify_password`: a freshly produced hash
/// string verifies against the hashed plaintext and against no other, the
/// digest binding the plaintext.
#[verifier::external_body]
fn argon2_hash(password: &str) -> (r: Option<String>)
    ensures
        r matches Some(h) ==> {
            &&& hash_matches(encode_utf8(password@), h@)
            &&& hash_wellformed(h@)
            &&& forall|other: Seq<u8>|
                other != encode_utf8(password@) ==> !hash_matches(other, h@)
        },
{
    match Argon2::default().hash_password(password.as_bytes()) {
        Ok(h) => Some(h.to_string()),
        Err(_) => None,
    }
}

/// Relies on argon2's `PasswordVerifier::verify_password` over a stored PHC
/// hash string: it succeeds exactly when the plaintext matches, reports a
/// mismatch as `PasswordInvalid` (an over-long candidate included: the crate
/// maps its length error to `PasswordInvalid`), and reports every other
/// failure class — a string that does not parse or names unusable parameters
/// — differently; the failure class depends on the stored string alone.
#[verifier::external_body]
fn argon2_verify(password: &str, hash: &str) -> (r: Result<(), PasswordError>)
    ensures
        r is Ok <==> hash_matches(encode_utf8(password@), hash@),
        r matches Err(e) ==> (e == PasswordError::Mismatch <==> hash_wellformed(hash@)),
        r matches Err(e) ==> (e == PasswordError::MalformedHash <==> !hash_wellformed(hash@)),
{
    match PasswordVerifier::<str>::verify_password(
        &Argon2::default(),
        password.as_bytes(),
        hash,
    ) {
        Ok(()) => Ok(()),
        Err(argon2::password_hash::Error::PasswordInvalid) => Err(PasswordError::Mismatch),
        Err(_) => Err(PasswordError::MalformedHash),
    }
}

/// The hash round-trip law: a hash string produced for a plaintext — which
/// `hash_password` ensures matches that plaintext and no other — verifies a
/// candidate exactly when the candidate is that plaintext. `verify_password`
/// then answers `Ok` on the original and an error on everything else.
pub proof fn lemma_hash_verification_exact(p: Seq<u8>, q: Seq<u8>, h: Seq<char>)
    requires
        hash_matches(p, h),
        forall|other: Seq<u8>| other != p ==> !hash_matches(other, h),
    ensures
        hash_matches(q, h) <==> q == p,
{
}

/// Turns a plaintext secret into a salted, self-describing hash string. The
/// salt is fresh per call, so two calls on one plaintext differ; every
/// returned string verifies against the plaintext that produced it and
/// against nothing else. Fails only if the hashing backend does.
pub fn hash_password(password: &str) -> (r: Result<String, PasswordError>)
    ensures
        r matches Ok(h) ==> {
            &&& hash_matches(encode_utf8(password@), h@)
            &&& hash_wellformed(h@)
            &&& forall|other: Seq<u8>|
                other != encode_utf8(password@) ==> !hash_matches(other, h@)
        },
        r matches Err(e) ==> e == PasswordError::MalformedHash,
{
    match argon2_hash(password) {
        Some(h) => Ok(h),
        None => Err(PasswordError::MalformedHash),
    }
}

/// Checks a plaintext secret against a stored hash string: success exactly
/// when the plaintext matches; a mismatch and a malformed stored string are
/// told apart, but the mismatch reveals nothing about why.
pub fn verify_password(password: &str, hash: &str) -> (r: Result<(), PasswordError>)
    ensures
        r is Ok <==> hash_matches(encode_utf8(password@), hash@),
        r matches Err(e) ==> (e == PasswordError::Mismatch <==> hash_wellformed(hash@)),
        r matches Err(e) ==> (e == PasswordError::MalformedHash <==> !hash_wellformed(hash@)),
{
    argon2_verify(password, hash)
}

} // verus!
