//! Credential extraction: pure parsing of an `Authorization` header value.
//!
//! Two schemes are recognised. Bearer extraction peels `Bearer ` off and
//! hands back the opaque token text. Basic extraction peels `Basic ` off,
//! base64-decodes the remainder and splits it at the first colon into
//! `(identifier, secret)`. Neither touches any I/O: the header value arrives
//! as a plain optional string.

use vstd::prelude::*;

verus! {

use vstd::string::StrSliceExecFns;
use vstd::utf8::encode_utf8;
use crate::ascii::bytes_to_string;
use crate::b64::{b64std_decode, b64std_of};
use crate::token::find_byte;

/// How extraction failed.
#[derive(PartialEq, Eq, Structural, Clone, Copy, Debug)]
pub enum ExtractError {
    /// No credential of the expected scheme is present at all.
    MissingCredential,
    /// A credential of the right scheme is present but cannot be read.
    MalformedCredential,
    /// A basic credential names an identifier but carries no secret.
    MissingSecret,
}

/// The characters `Bearer `.
pub open spec fn bearer_prefix_chars() -> Seq<char> {
    seq!['B', 'e', 'a', 'r', 'e', 'r', ' ']
}

/// The characters `Basic `.
pub open spec fn basic_prefix_chars() -> Seq<char> {
    seq!['B', 'a', 's', 'i', 'c', ' ']
}

/// `s` opens with the characters `p`.
pub open spec fn has_prefix(s: Seq<char>, p: Seq<char>) -> bool {
    s.len() >= p.len() && s.subrange(0, p.len() as int) == p
}

/// `payload` splits at its first colon into `idb` and `pwb`.
pub open spec fn splits_at_first_colon(payload: Seq<u8>, idb: Seq<u8>, pwb: Seq<u8>) -> bool {
    &&& payload == idb + seq![0x3au8] + pwb
    &&& forall|i: int| 0 <= i < idb.len() ==> idb[i] != 0x3a
}

/// The bytes the basic scheme's base64 text stands for: the header after
/// `Basic `, as UTF-8.
pub open spec fn basic_rest(h: Seq<char>) -> Seq<u8> {
    encode_utf8(h.subrange(6, h.len() as int))
}

/// Pulls the opaque token out of a bearer credential: exactly the text after
/// `Bearer `, and `MissingCredential` when the scheme is absent.
pub fn extract_bearer(header: Option<&str>) -> (r: Result<String, ExtractError>)
    ensures
        r matches Ok(tok) ==> (header matches Some(h) && h@ == bearer_prefix_chars() + tok@),
        header matches Some(h) ==> (has_prefix(h@, bearer_prefix_chars()) ==> (r matches Ok(tok)
            && tok@ == h@.subrange(7, h@.len() as int))),
        r matches Err(e) ==> e == ExtractError::MissingCredential,
        r is Err <==> (header is None || (header matches Some(h) && !has_prefix(
            h@,
            bearer_prefix_chars(),
        ))),
{
    let h = match header {
        Some(h) => h,
        None => {
            return Err(ExtractError::MissingCredential);
        },
    };
    let n = h.unicode_len();
    if n < 7 {
        return Err(ExtractError::MissingCredential);
    }
    if h.get_char(0) != 'B' || h.get_char(1) != 'e' || h.get_char(2) != 'a' || h.get_char(3) != 'r'
        || h.get_char(4) != 'e' || h.get_char(5) != 'r' || h.get_char(6) != ' ' {
        proof {
            if has_prefix(h@, bearer_prefix_chars()) {
                assert(h@.subrange(0, 7)[0] == h@[0]);
                assert(h@.subrange(0, 7)[1] == h@[1]);
                assert(h@.subrange(0, 7)[2] == h@[2]);
                assert(h@.subrange(0, 7)[3] == h@[3]);
                assert(h@.subrange(0, 7)[4] == h@[4]);
                assert(h@.subrange(0, 7)[5] == h@[5]);
                assert(h@.subrange(0, 7)[6] == h@[6]);
            }
        }
        return Err(ExtractError::MissingCredential);
    }
    let rest = h.substring_char(7, n);
    proof {
        assert(h@.subrange(0, 7) =~= bearer_prefix_chars());
        assert(h@ =~= bearer_prefix_chars() + rest@);
    }
    Ok(rest.to_owned())
}

/// Pulls `(identifier, secret)` out of a basic credential: the text after
/// `Basic ` is base64-decoded and split at its first colon. `Basic ` absent
/// means `MissingCredential`; an empty secret half means `MissingSecret`;
/// text that does not decode, holds no colon, or holds halves that are not
/// UTF-8 means `MalformedCredential`.
pub fn extract_basic(header: Option<&str>) -> (r: Result<(String, String), ExtractError>)
    ensures
        r matches Ok(p) ==> (header matches Some(h) && has_prefix(h@, basic_prefix_chars())
            && exists|payload: Seq<u8>|
            #[trigger] b64std_of(payload) == basic_rest(h@) && splits_at_first_colon(
                payload,
                encode_utf8(p.0@),
                encode_utf8(p.1@),
            ) && encode_utf8(p.1@).len() > 0),
        r == Err::<(String, String), ExtractError>(ExtractError::MissingCredential) <==> (header
            is None || (header matches Some(h) && !has_prefix(h@, basic_prefix_chars()))),
        r == Err::<(String, String), ExtractError>(ExtractError::MissingSecret) ==> (header
            matches Some(h) && exists|idb: Seq<u8>|
            #[trigger] b64std_of(idb + seq![0x3au8]) == basic_rest(h@)),
        header matches Some(h) ==> forall|payload: Seq<u8>, idb: Seq<u8>|
            ({
                &&& has_prefix(h@, basic_prefix_chars())
                &&& #[trigger] b64std_of(payload) == basic_rest(h@)
                &&& #[trigger] splits_at_first_colon(payload, idb, Seq::<u8>::empty())
            }) ==> r == Err::<(String, String), ExtractError>(ExtractError::MissingSecret),
        header matches Some(h) ==> forall|payload: Seq<u8>, idb: Seq<u8>, pwb: Seq<u8>|
            {
                &&& has_prefix(h@, basic_prefix_chars())
                &&& #[trigger] b64std_of(payload) == basic_rest(h@)
                &&& #[trigger] splits_at_first_colon(payload, idb, pwb)
                &&& pwb.len() > 0
                &&& vstd::utf8::valid_utf8(idb)
                &&& vstd::utf8::valid_utf8(pwb)
            } ==> (r matches Ok(p) && encode_utf8(p.0@) == idb && encode_utf8(p.1@) == pwb),
{
    let h = match header {
        Some(h) => h,
        None => {
            return Err(ExtractError::MissingCredential);
        },
    };
    let n = h.unicode_len();
    if n < 6 {
        return Err(ExtractError::MissingCredential);
    }
    if h.get_char(0) != 'B' || h.get_char(1) != 'a' || h.get_char(2) != 's' || h.get_char(3) != 'i'
        || h.get_char(4) != 'c' || h.get_char(5) != ' ' {
        proof {
            if has_prefix(h@, basic_prefix_chars()) {
                assert(h@.subrange(0, 6)[0] == h@[0]);
                assert(h@.subrange(0, 6)[1] == h@[1]);
                assert(h@.subrange(0, 6)[2] == h@[2]);
                assert(h@.subrange(0, 6)[3] == h@[3]);
                assert(h@.subrange(0, 6)[4] == h@[4]);
                assert(h@.subrange(0, 6)[5] == h@[5]);
            }
        }
        return Err(ExtractError::MissingCredential);
    }
    proof {
        assert(h@.subrange(0, 6) =~= basic_prefix_chars());
    }
    let rest = h.substring_char(6, n);
    let restb = rest.as_bytes();
    proof {
        assert(restb@ == basic_rest(h@));
    }
    let payload = match b64std_decode(restb) {
        Some(v) => v,
        None => {
            return Err(ExtractError::MalformedCredential);
        },
    };
    let c = match find_byte(payload.as_slice(), 0, 0x3a) {
        Some(c) => c,
        None => {
            proof {
                assert forall|p2: Seq<u8>, idb: Seq<u8>, pwb: Seq<u8>|
                    !(b64std_of(p2) == basic_rest(h@) && splits_at_first_colon(
                        p2,
                        idb,
                        pwb,
                    )) by {
                    if b64std_of(p2) == basic_rest(h@) && splits_at_first_colon(p2, idb, pwb) {
                        assert(payload@ == p2);
                        assert(p2[idb.len() as int] == 0x3a);
                    }
                }
            }
            return Err(ExtractError::MalformedCredential);
        },
    };
    let m = payload.len();
    let idb = vstd::slice::slice_to_vec(&payload.as_slice()[0..c]);
    let pwb = vstd::slice::slice_to_vec(&payload.as_slice()[(c + 1)..m]);
    proof {
        assert(splits_at_first_colon(payload@, idb@, pwb@)) by {
            assert(payload@ =~= idb@ + seq![0x3au8] + pwb@);
        }
    }
    if pwb.len() == 0 {
        proof {
            assert(payload@ =~= idb@ + seq![0x3au8]);
            assert(b64std_of(idb@ + seq![0x3au8]) == basic_rest(h@));
            lemma_split_unique(payload@, idb@, pwb@);
        }
        return Err(ExtractError::MissingSecret);
    }
    let ghost idv = idb@;
    let ghost pwv = pwb@;
    let id = match bytes_to_string(idb) {
        Some(s) => s,
        None => {
            proof {
                lemma_split_unique(payload@, idv, pwv);
            }
            return Err(ExtractError::MalformedCredential);
        },
    };
    let pw = match bytes_to_string(pwb) {
        Some(s) => s,
        None => {
            proof {
                lemma_split_unique(payload@, idv, pwv);
            }
            return Err(ExtractError::MalformedCredential);
        },
    };
    proof {
        lemma_split_unique(payload@, idv, pwv);
    }
    Ok((id, pw))
}

/// A byte string splits at its first colon in one way only.
proof fn lemma_split_unique(payload: Seq<u8>, idb: Seq<u8>, pwb: Seq<u8>)
    requires
        splits_at_first_colon(payload, idb, pwb),
    ensures
        forall|idb2: Seq<u8>, pwb2: Seq<u8>|
            #[trigger] splits_at_first_colon(payload, idb2, pwb2) ==> idb2 == idb && pwb2 == pwb,
{
    assert forall|idb2: Seq<u8>, pwb2: Seq<u8>| #[trigger] splits_at_first_colon(
        payload,
        idb2,
        pwb2,
    ) implies idb2 == idb && pwb2 == pwb by {
        assert(payload[idb.len() as int] == 0x3a);
        assert(payload[idb2.len() as int] == 0x3a);
        if idb2.len() < idb.len() {
            assert(payload[idb2.len() as int] == idb[idb2.len() as int]);
            assert(idb[idb2.len() as int] != 0x3a);
        }
        if idb.len() < idb2.len() {
            assert(payload[idb.len() as int] == idb2[idb.len() as int]);
            assert(idb2[idb.len() as int] != 0x3a);
        }
        assert(idb.len() == idb2.len());
        assert(idb =~= payload.subrange(0, idb.len() as int));
        assert(idb2 =~= payload.subrange(0, idb2.len() as int));
        assert(pwb =~= payload.subrange(idb.len() as int + 1, payload.len() as int));
        assert(pwb2 =~= payload.subrange(idb2.len() as int + 1, payload.len() as int));
    }
}

} // verus!
