//! A user-account service core: credential verification and request
//! authorization.
//!
//! The library covers the pipeline that stands between an inbound request and
//! any mutation of stored account data: extracting credentials from request
//! metadata, checking a plaintext secret against a stored salted hash, issuing
//! and verifying signed bearer tokens, validating untrusted input fields,
//! deciding whether an authenticated principal may touch a target record, and
//! mapping every failure into a stable outward error shape.

pub mod actions;
pub mod ascii;
pub mod b64;
pub mod claims;
pub mod config;
pub mod decimal;
pub mod errors;
pub mod extract;
pub mod hashing;
pub mod store;
pub mod token;
pub mod validate;

use vstd::prelude::*;

verus! {

/// The authenticated identity attached to a request after credential
/// verification. It lives for one request and is never persisted.
#[derive(Debug)]
pub struct Principal {
    /// Opaque user identifier the credentials resolved to.
    pub id: String,
}

impl Principal {
    /// Wraps the identifier the credentials resolved to.
    pub fn new(id: String) -> (p: Principal)
        ensures
            p.id@ == id@,
    {
        Principal { id }
    }
}

} // verus!
