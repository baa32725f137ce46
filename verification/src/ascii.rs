//! Bridging between byte strings and character strings.
//!
//! Tokens and credentials move through the library as bytes; the public API
//! speaks `String`. vstd models a string's bytes as the UTF-8 encoding of its
//! characters, so this module proves the one fact the rest of the crate needs
//! — ASCII bytes are their own UTF-8 encoding — and wraps the fallible
//! byte-to-string conversion.

use vstd::prelude::*;

verus! {

use vstd::utf8::{decode_utf8, encode_utf8, encode_scalar, valid_utf8};

/// Bytes entirely below `0x80`.
pub open spec fn ascii_bytes(s: Seq<u8>) -> bool {
    forall|i: int| 0 <= i < s.len() ==> #[trigger] s[i] < 0x80
}

/// The characters an ASCII byte string stands for, one per byte.
pub open spec fn bytes_as_chars(s: Seq<u8>) -> Seq<char> {
    Seq::new(s.len(), |i: int| s[i] as char)
}

/// ASCII bytes are exactly the UTF-8 encoding of their own characters, and
/// in particular are valid UTF-8.
pub proof fn lemma_ascii_encode(s: Seq<u8>)
    requires
        ascii_bytes(s),
    ensures
        encode_utf8(bytes_as_chars(s)) == s,
        valid_utf8(s),
    decreases s.len(),
{
    broadcast use vstd::utf8::encode_utf8_valid_utf8;

    let cs = bytes_as_chars(s);
    if s.len() == 0 {
        assert(encode_utf8(cs) =~= s);
    } else {
        let rest = s.drop_first();
        assert(ascii_bytes(rest));
        lemma_ascii_encode(rest);
        assert(bytes_as_chars(rest) =~= cs.drop_first());
        assert(s[0] < 0x80);
        assert(cs[0] == s[0] as char);
        let v = cs[0] as u32;
        assert(v == s[0] as u32);
        assert((v & 0x7F) as u8 == v as u8) by (bit_vector)
            requires
                v < 0x80,
        ;
        assert(encode_scalar(v) =~= seq![s[0]]);
        assert(encode_utf8(cs) =~= encode_scalar(cs[0] as u32) + encode_utf8(cs.drop_first()));
        assert(encode_utf8(cs) =~= s);
    }
}

/// Whether two byte slices hold the same bytes.
pub fn bytes_eq(a: &[u8], b: &[u8]) -> (r: bool)
    ensures
        r == (a@ == b@),
{
    let n = a.len();
    if n != b.len() {
        proof {
            assert(a@ != b@);
        }
        return false;
    }
    let mut i: usize = 0;
    while i < n
        invariant
            0 <= i <= n,
            n == a@.len(),
            n == b@.len(),
            forall|k: int| 0 <= k < i ==> a@[k] == b@[k],
        decreases n - i,
    {
        if a[i] != b[i] {
            return false;
        }
        i += 1;
    }
    proof {
        assert(a@ =~= b@);
    }
    true
}


/// Whether two strings hold the same characters: byte equality lifted
/// through the injectivity of UTF-8.
pub fn str_eq(a: &str, b: &str) -> (r: bool)
    ensures
        r == (a@ == b@),
{
    let r = bytes_eq(a.as_bytes(), b.as_bytes());
    proof {
        broadcast use vstd::utf8::encode_utf8_decode_utf8;

        if encode_utf8(a@) == encode_utf8(b@) {
            assert(decode_utf8(encode_utf8(a@)) == a@);
            assert(decode_utf8(encode_utf8(b@)) == b@);
        }
    }
    r
}

/// Relies on `String::from_utf8`: it succeeds exactly on valid UTF-8 input
/// and the returned string's bytes are the input bytes.
#[verifier::external_body]
pub fn bytes_to_string(v: Vec<u8>) -> (r: Option<String>)
    ensures
        r matches Some(s) ==> encode_utf8(s@) == v@,
        valid_utf8(v@) ==> r is Some,
{
    match String::from_utf8(v) {
        Ok(s) => Some(s),
        Err(_) => None,
    }
}

} // verus!
