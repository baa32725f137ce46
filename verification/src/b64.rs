//! Base64 forms, named and wrapped.
//!
//! Two alphabets are in play: tokens carry their segments in unpadded
//! base64url, and basic-scheme credentials arrive in padded standard base64.
//! The encodings themselves come from the `base64` crate; this module names
//! their results and states the round-trip each engine documents.

use base64::Engine;
use base64::engine::general_purpose::{STANDARD, URL_SAFE_NO_PAD};
use vstd::prelude::*;

verus! {

use crate::ascii::ascii_bytes;

/// The unpadded base64url form of a byte string, as the `base64` crate's
/// `URL_SAFE_NO_PAD` engine produces it.
pub uninterp spec fn b64url_of(b: Seq<u8>) -> Seq<u8>;

/// The padded standard-alphabet base64 form of a byte string, as the
/// `base64` crate's `STANDARD` engine produces it.
pub uninterp spec fn b64std_of(b: Seq<u8>) -> Seq<u8>;

/// Bytes of the base64url alphabet: letters, digits, `-` and `_`.
pub open spec fn is_b64url_byte(b: u8) -> bool {
    ||| 0x41 <= b <= 0x5a
    ||| 0x61 <= b <= 0x7a
    ||| 0x30 <= b <= 0x39
    ||| b == 0x2d
    ||| b == 0x5f
}

/// Byte strings drawn wholly from the base64url alphabet; such strings are
/// ASCII and hold no `.`.
pub open spec fn b64url_alphabet(s: Seq<u8>) -> bool {
    forall|i: int| 0 <= i < s.len() ==> is_b64url_byte(#[trigger] s[i])
}

pub proof fn lemma_b64url_alphabet_ascii(s: Seq<u8>)
    requires
        b64url_alphabet(s),
    ensures
        ascii_bytes(s),
        forall|i: int| 0 <= i < s.len() ==> #[trigger] s[i] != 0x2e,
{
}

/// Relies on the `URL_SAFE_NO_PAD` engine's `encode`: deterministic in the
/// input, and the output is drawn from the url-safe alphabet without padding.
#[verifier::external_body]
pub(crate) fn b64url_encode(b: &[u8]) -> (r: Vec<u8>)
    ensures
        r@ == b64url_of(b@),
        b64url_alphabet(r@),
{
    URL_SAFE_NO_PAD.encode(b).into_bytes()
}

/// Relies on the `URL_SAFE_NO_PAD` engine's `decode`: it inverts `encode`,
/// and — since the engine requires absent padding and canonical trailing
/// bits — it accepts exactly the strings `encode` produces.
#[verifier::external_body]
pub(crate) fn b64url_decode(s: &[u8]) -> (r: Option<Vec<u8>>)
    ensures
        r matches Some(v) ==> s@ == b64url_of(v@),
        r is Some <== exists|v: Seq<u8>| s@ == b64url_of(v),
        r matches Some(u) ==> forall|v: Seq<u8>| s@ == b64url_of(v) ==> u@ == v,
{
    match URL_SAFE_NO_PAD.decode(s) {
        Ok(v) => Some(v),
        Err(_) => None,
    }
}

/// Relies on the `STANDARD` engine's `decode`: it inverts the standard
/// padded `encode`, and — since the engine requires canonical padding and
/// trailing bits — it accepts exactly the strings that encoding produces.
#[verifier::external_body]
pub(crate) fn b64std_decode(s: &[u8]) -> (r: Option<Vec<u8>>)
    ensures
        r matches Some(v) ==> s@ == b64std_of(v@),
        r is Some <== exists|v: Seq<u8>| s@ == b64std_of(v),
        r matches Some(u) ==> forall|v: Seq<u8>| s@ == b64std_of(v) ==> u@ == v,
{
    match STANDARD.decode(s) {
        Ok(v) => Some(v),
        Err(_) => None,
    }
}

} // verus!
