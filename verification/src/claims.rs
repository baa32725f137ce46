//! The claims document carried inside a token.
//!
//! A token asserts `{subject, issuedAt, expiresAt}`. On the wire that
//! assertion is one JSON object with the fixed shape
//! `{"sub":"…","iat":N,"exp":N}`; `claims_bytes` is the byte string of that
//! object, `render_claims` produces it and `parse_claims` accepts exactly the
//! strings `claims_bytes` produces, recovering the unique claims they encode.
//! Subjects are restricted to printable ASCII without `"` or `\`
//! (`token_safe`), which keeps the shape unambiguous without an escape
//! grammar.

use vstd::prelude::*;

verus! {

use vstd::slice::slice_to_vec;
use crate::decimal::{
    DEC_LIMIT, dec_digits, dec_value, is_digit, lemma_dec_digits_canonical, parse_dec, u64_to_dec,
};

/// `{"sub":"` — the eight bytes a claims document opens with.
pub open spec fn claims_prefix() -> Seq<u8> {
    seq![0x7bu8, 0x22u8, 0x73u8, 0x75u8, 0x62u8, 0x22u8, 0x3au8, 0x22u8]
}

/// `","iat":` — the eight bytes closing the subject and naming `iat`.
pub open spec fn claims_mid1() -> Seq<u8> {
    seq![0x22u8, 0x2cu8, 0x22u8, 0x69u8, 0x61u8, 0x74u8, 0x22u8, 0x3au8]
}

/// `,"exp":` — the seven bytes between the two timestamps.
pub open spec fn claims_mid2() -> Seq<u8> {
    seq![0x2cu8, 0x22u8, 0x65u8, 0x78u8, 0x70u8, 0x22u8, 0x3au8]
}

/// A byte a subject may hold: printable ASCII that needs no JSON escape.
pub open spec fn is_token_safe_byte(b: u8) -> bool {
    0x20 <= b < 0x7f && b != 0x22 && b != 0x5c
}

/// Subjects the token layer carries: printable ASCII, no `"`, no `\`.
pub open spec fn token_safe(s: Seq<u8>) -> bool {
    forall|i: int| 0 <= i < s.len() ==> is_token_safe_byte(#[trigger] s[i])
}

/// A token-safe byte string is ASCII.
pub proof fn lemma_token_safe_ascii(s: Seq<u8>)
    requires
        token_safe(s),
    ensures
        crate::ascii::ascii_bytes(s),
{
}

/// The claims document for `(sub, iat, exp)`:
/// `{"sub":"` sub `","iat":` iat `,"exp":` exp `}`.
pub open spec fn claims_bytes(sub: Seq<u8>, iat: nat, exp: nat) -> Seq<u8> {
    claims_prefix() + sub + claims_mid1() + dec_digits(iat) + claims_mid2() + dec_digits(exp)
        + seq![0x7du8]
}

/// `b` is the claims document for `(sub, iat, exp)`, within the bounds the
/// library renders and parses.
pub open spec fn wf_claims(b: Seq<u8>, sub: Seq<u8>, iat: u64, exp: u64) -> bool {
    &&& b == claims_bytes(sub, iat as nat, exp as nat)
    &&& token_safe(sub)
    &&& iat < DEC_LIMIT
    &&& exp < DEC_LIMIT
}

/// Where each piece of a claims document sits, as subranges of the whole.
pub proof fn lemma_claims_layout(sub: Seq<u8>, iat: u64, exp: u64)
    requires
        iat < DEC_LIMIT,
        exp < DEC_LIMIT,
    ensures
        ({
            let b = claims_bytes(sub, iat as nat, exp as nat);
            let di = dec_digits(iat as nat);
            let de = dec_digits(exp as nat);
            let q = 8 + sub.len() as int;
            let c = q + 8 + di.len() as int;
            let z = c + 7 + de.len() as int;
            &&& b.len() == z + 1
            &&& b.subrange(0, 8) == claims_prefix()
            &&& b.subrange(8, q) == sub
            &&& b.subrange(q, q + 8) == claims_mid1()
            &&& b.subrange(q + 8, c) == di
            &&& b.subrange(c, c + 7) == claims_mid2()
            &&& b.subrange(c + 7, z) == de
            &&& b[z] == 0x7d
        }),
{
    let b = claims_bytes(sub, iat as nat, exp as nat);
    let di = dec_digits(iat as nat);
    let de = dec_digits(exp as nat);
    let q = 8 + sub.len() as int;
    let c = q + 8 + di.len() as int;
    let z = c + 7 + de.len() as int;
    assert(b.len() == z + 1);
    assert(b.subrange(0, 8) =~= claims_prefix());
    assert(b.subrange(8, q) =~= sub);
    assert(b.subrange(q, q + 8) =~= claims_mid1());
    assert(b.subrange(q + 8, c) =~= di);
    assert(b.subrange(c, c + 7) =~= claims_mid2());
    assert(b.subrange(c + 7, z) =~= de);
}

/// A claims document asserts one claims triple: two well-formed readings of
/// the same bytes agree. The subject is bounded by the first quote after the
/// opening — token-safe subjects hold none — and each timestamp by the first
/// non-digit after its field name, so every piece is pinned by position.
#[verifier::rlimit(100)]
#[verifier::spinoff_prover]
pub proof fn lemma_claims_document_unique(
    b: Seq<u8>,
    sub1: Seq<u8>,
    iat1: u64,
    exp1: u64,
    sub2: Seq<u8>,
    iat2: u64,
    exp2: u64,
)
    requires
        wf_claims(b, sub1, iat1, exp1),
        wf_claims(b, sub2, iat2, exp2),
    ensures
        sub1 == sub2,
        iat1 == iat2,
        exp1 == exp2,
{
    lemma_claims_layout(sub1, iat1, exp1);
    lemma_claims_layout(sub2, iat2, exp2);
    let q1 = 8 + sub1.len() as int;
    let q2 = 8 + sub2.len() as int;
    assert(b[q1] == claims_mid1()[0]);
    assert(b[q2] == claims_mid1()[0]);
    assert(q1 == q2) by {
        if q1 < q2 {
            assert(b[q1] == b.subrange(8, q2)[q1 - 8]);
            assert(b[q1] == sub2[q1 - 8]);
            assert(is_token_safe_byte(sub2[q1 - 8]));
        }
        if q2 < q1 {
            assert(b[q2] == b.subrange(8, q1)[q2 - 8]);
            assert(b[q2] == sub1[q2 - 8]);
            assert(is_token_safe_byte(sub1[q2 - 8]));
        }
    }
    assert(sub1 == b.subrange(8, q1) && sub2 == b.subrange(8, q2));
    let di1 = dec_digits(iat1 as nat);
    let di2 = dec_digits(iat2 as nat);
    lemma_dec_digits_canonical(iat1 as nat);
    lemma_dec_digits_canonical(iat2 as nat);
    let c1 = q1 + 8 + di1.len() as int;
    let c2 = q2 + 8 + di2.len() as int;
    assert(b[c1] == claims_mid2()[0]);
    assert(b[c2] == claims_mid2()[0]);
    assert(c1 == c2) by {
        if c1 < c2 {
            assert(b[c1] == b.subrange(q2 + 8, c2)[c1 - (q2 + 8)]);
            assert(b[c1] == di2[c1 - (q2 + 8)]);
            assert(is_digit(di2[c1 - (q2 + 8)]));
        }
        if c2 < c1 {
            assert(b[c2] == b.subrange(q1 + 8, c1)[c2 - (q1 + 8)]);
            assert(b[c2] == di1[c2 - (q1 + 8)]);
            assert(is_digit(di1[c2 - (q1 + 8)]));
        }
    }
    assert(di1 == b.subrange(q1 + 8, c1) && di2 == b.subrange(q2 + 8, c2));
    assert(iat1 == iat2) by {
        assert(dec_value(di1) == iat1 as nat && dec_value(di2) == iat2 as nat);
    }
    let de1 = dec_digits(exp1 as nat);
    let de2 = dec_digits(exp2 as nat);
    lemma_dec_digits_canonical(exp1 as nat);
    lemma_dec_digits_canonical(exp2 as nat);
    assert(de1.len() == de2.len()) by {
        assert(b.len() == c1 + 7 + de1.len() + 1);
        assert(b.len() == c2 + 7 + de2.len() + 1);
    }
    assert(de1 == b.subrange(c1 + 7, c1 + 7 + de1.len() as int));
    assert(de2 == b.subrange(c2 + 7, c2 + 7 + de2.len() as int));
    assert(exp1 == exp2) by {
        assert(dec_value(de1) == exp1 as nat && dec_value(de2) == exp2 as nat);
    }
}

/// Renders the claims document for `(sub, iat, exp)`.
pub fn render_claims(sub: &[u8], iat: u64, exp: u64) -> (r: Vec<u8>)
    ensures
        r@ == claims_bytes(sub@, iat as nat, exp as nat),
{
    let mut r: Vec<u8> = Vec::new();
    r.push(0x7b);
    r.push(0x22);
    r.push(0x73);
    r.push(0x75);
    r.push(0x62);
    r.push(0x22);
    r.push(0x3a);
    r.push(0x22);
    proof {
        assert(r@ =~= claims_prefix());
    }
    let mut sub_part = slice_to_vec(sub);
    r.append(&mut sub_part);
    r.push(0x22);
    r.push(0x2c);
    r.push(0x22);
    r.push(0x69);
    r.push(0x61);
    r.push(0x74);
    r.push(0x22);
    r.push(0x3a);
    proof {
        assert(r@ =~= claims_prefix() + sub@ + claims_mid1());
    }
    let mut di = u64_to_dec(iat);
    r.append(&mut di);
    r.push(0x2c);
    r.push(0x22);
    r.push(0x65);
    r.push(0x78);
    r.push(0x70);
    r.push(0x22);
    r.push(0x3a);
    proof {
        assert(r@ =~= claims_prefix() + sub@ + claims_mid1() + dec_digits(iat as nat)
            + claims_mid2());
    }
    let mut de = u64_to_dec(exp);
    r.append(&mut de);
    r.push(0x7d);
    proof {
        assert(r@ =~= claims_bytes(sub@, iat as nat, exp as nat));
    }
    r
}

/// Whether every byte of `s` may appear in a subject.
fn check_token_safe(s: &[u8]) -> (r: bool)
    ensures
        r == token_safe(s@),
{
    let mut i: usize = 0;
    while i < s.len()
        invariant
            0 <= i <= s@.len(),
            forall|k: int| 0 <= k < i ==> is_token_safe_byte(#[trigger] s@[k]),
        decreases s@.len() - i,
    {
        let b = s[i];
        if b < 0x20 || b >= 0x7f || b == 0x22 || b == 0x5c {
            return false;
        }
        i += 1;
    }
    true
}

/// The first `"` at or after position 8, if any: scanning is deterministic,
/// so this position is a fact about `b` alone.
fn find_quote(b: &[u8]) -> (r: Option<usize>)
    ensures
        r matches Some(j) ==> {
            &&& 8 <= j < b@.len()
            &&& b@[j as int] == 0x22
            &&& forall|k: int| 8 <= k < j ==> b@[k] != 0x22
        },
        r is None ==> forall|k: int| 8 <= k < b@.len() ==> b@[k] != 0x22,
{
    let n = b.len();
    if n < 8 {
        return None;
    }
    let mut j: usize = 8;
    while j < n
        invariant
            8 <= j <= n,
            n == b@.len(),
            forall|k: int| 8 <= k < j ==> b@[k] != 0x22,
        decreases n - j,
    {
        if b[j] == 0x22 {
            return Some(j);
        }
        j += 1;
    }
    None
}

/// The first non-digit at or after `from`, if any.
fn find_non_digit(b: &[u8], from: usize) -> (r: Option<usize>)
    requires
        from <= b@.len(),
    ensures
        r matches Some(k) ==> {
            &&& from <= k < b@.len()
            &&& !is_digit(b@[k as int])
            &&& forall|t: int| from <= t < k ==> is_digit(#[trigger] b@[t])
        },
        r is None ==> forall|t: int| from <= t < b@.len() ==> is_digit(#[trigger] b@[t]),
{
    let n = b.len();
    let mut k: usize = from;
    while k < n
        invariant
            from <= k <= n,
            n == b@.len(),
            forall|t: int| from <= t < k ==> is_digit(#[trigger] b@[t]),
        decreases n - k,
    {
        let x = b[k];
        if x < 0x30 || x > 0x39 {
            return Some(k);
        }
        k += 1;
    }
    None
}

/// Whether `pat` occurs in `b` starting at `at`.
fn matches_at(b: &[u8], at: usize, pat: &[u8]) -> (r: bool)
    requires
        at + pat@.len() <= b@.len(),
    ensures
        r == (b@.subrange(at as int, at + pat@.len()) == pat@),
{
    let n = b.len();
    let m = pat.len();
    let mut i: usize = 0;
    while i < m
        invariant
            0 <= i <= m,
            m == pat@.len(),
            n == b@.len(),
            at + m <= n,
            forall|k: int| 0 <= k < i ==> b@[at + k] == pat@[k],
        decreases m - i,
    {
        if b[at + i] != pat[i] {
            proof {
                assert(b@.subrange(at as int, at + pat@.len())[i as int] == b@[at + i]);
            }
            return false;
        }
        i += 1;
    }
    proof {
        assert(b@.subrange(at as int, at + pat@.len()) =~= pat@);
    }
    true
}

/// The byte string `{"sub":"`.
fn claims_prefix_vec() -> (r: Vec<u8>)
    ensures
        r@ == claims_prefix(),
{
    let mut r: Vec<u8> = Vec::new();
    r.push(0x7b);
    r.push(0x22);
    r.push(0x73);
    r.push(0x75);
    r.push(0x62);
    r.push(0x22);
    r.push(0x3a);
    r.push(0x22);
    proof {
        assert(r@ =~= claims_prefix());
    }
    r
}

/// The byte string `","iat":`.
fn claims_mid1_vec() -> (r: Vec<u8>)
    ensures
        r@ == claims_mid1(),
{
    let mut r: Vec<u8> = Vec::new();
    r.push(0x22);
    r.push(0x2c);
    r.push(0x22);
    r.push(0x69);
    r.push(0x61);
    r.push(0x74);
    r.push(0x22);
    r.push(0x3a);
    proof {
        assert(r@ =~= claims_mid1());
    }
    r
}

/// The byte string `,"exp":`.
fn claims_mid2_vec() -> (r: Vec<u8>)
    ensures
        r@ == claims_mid2(),
{
    let mut r: Vec<u8> = Vec::new();
    r.push(0x2c);
    r.push(0x22);
    r.push(0x65);
    r.push(0x78);
    r.push(0x70);
    r.push(0x22);
    r.push(0x3a);
    proof {
        assert(r@ =~= claims_mid2());
    }
    r
}

/// Under `wf_claims(b, sub, iat, exp)`, a quote scan of `b` stops exactly at
/// the end of the subject.
#[verifier::rlimit(100)]
proof fn lemma_quote_position(b: Seq<u8>, sub: Seq<u8>, iat: u64, exp: u64, j: int)
    requires
        wf_claims(b, sub, iat, exp),
        8 <= j < b.len(),
        b[j] == 0x22,
        forall|k: int| 8 <= k < j ==> b[k] != 0x22,
    ensures
        j == 8 + sub.len(),
        b.subrange(8, j) == sub,
{
    lemma_claims_layout(sub, iat, exp);
    let q = 8 + sub.len() as int;
    assert(b[q] == claims_mid1()[0]);
    if j < q {
        assert(b[j] == b.subrange(8, q)[j - 8]);
        assert(b[j] == sub[j - 8]);
        assert(is_token_safe_byte(sub[j - 8]));
    }
    if j > q {
        assert(b[q] != 0x22);
    }
    assert(j == q);
    assert(b.subrange(8, j) == sub);
}

/// Under `wf_claims`, a digit scan from the start of a timestamp field stops
/// exactly at the delimiter that follows it.
proof fn lemma_digit_run(b: Seq<u8>, start: int, digits: Seq<u8>, k: int)
    requires
        0 <= start,
        start + digits.len() < b.len(),
        b.subrange(start, start + digits.len()) == digits,
        forall|i: int| 0 <= i < digits.len() ==> is_digit(#[trigger] digits[i]),
        !is_digit(b[start + digits.len()]),
        start <= k < b.len(),
        !is_digit(b[k]),
        forall|t: int| start <= t < k ==> is_digit(#[trigger] b[t]),
    ensures
        k == start + digits.len(),
        b.subrange(start, k) == digits,
{
    let stop = start + digits.len() as int;
    if k < stop {
        assert(b[k] == b.subrange(start, stop)[k - start]);
        assert(b[k] == digits[k - start]);
        assert(is_digit(digits[k - start]));
    }
    if k > stop {
        assert(is_digit(b[stop]));
    }
    assert(k == stop);
}

/// Parses a claims document. Succeeds exactly on the strings `claims_bytes`
/// produces for a token-safe subject and bounded timestamps — and then the
/// claims returned are the only ones the document encodes.
#[verifier::rlimit(100)]
pub fn parse_claims(b: &[u8]) -> (r: Option<(Vec<u8>, u64, u64)>)
    ensures
        r matches Some(p) ==> wf_claims(b@, p.0@, p.1, p.2),
        r is Some <== exists|sub: Seq<u8>, iat: u64, exp: u64| wf_claims(b@, sub, iat, exp),
        r matches Some(p) ==> forall|sub: Seq<u8>, iat: u64, exp: u64|
            wf_claims(b@, sub, iat, exp) ==> sub == p.0@ && iat == p.1 && exp == p.2,
{
    let n = b.len();

    // The opening `{"sub":"`.
    let prefix = claims_prefix_vec();
    if n < 8 || !matches_at(b, 0, prefix.as_slice()) {
        proof {
            assert forall|sub: Seq<u8>, iat: u64, exp: u64| !wf_claims(b@, sub, iat, exp) by {
                if wf_claims(b@, sub, iat, exp) {
                    lemma_claims_layout(sub, iat, exp);
                }
            }
        }
        return None;
    }

    // The subject runs to the first quote after the prefix.
    let j = match find_quote(b) {
        Some(j) => j,
        None => {
            proof {
                assert forall|sub: Seq<u8>, iat: u64, exp: u64| !wf_claims(b@, sub, iat, exp) by {
                    if wf_claims(b@, sub, iat, exp) {
                        lemma_claims_layout(sub, iat, exp);
                        let q = 8 + sub.len() as int;
                        assert(b@[q] == claims_mid1()[0]);
                    }
                }
            }
            return None;
        },
    };
    proof {
        assert forall|sub: Seq<u8>, iat: u64, exp: u64|
            wf_claims(b@, sub, iat, exp) implies j == 8 + sub.len() && b@.subrange(8, j as int)
            == sub by {
            lemma_quote_position(b@, sub, iat, exp, j as int);
        }
    }

    // `","iat":` follows the subject.
    let mid1 = claims_mid1_vec();
    if n - j < 8 || !matches_at(b, j, mid1.as_slice()) {
        proof {
            assert forall|sub: Seq<u8>, iat: u64, exp: u64| !wf_claims(b@, sub, iat, exp) by {
                if wf_claims(b@, sub, iat, exp) {
                    lemma_claims_layout(sub, iat, exp);
                }
            }
        }
        return None;
    }

    // The `iat` digits run to the first non-digit.
    let k = match find_non_digit(b, j + 8) {
        Some(k) => k,
        None => {
            proof {
                assert forall|sub: Seq<u8>, iat: u64, exp: u64| !wf_claims(b@, sub, iat, exp) by {
                    if wf_claims(b@, sub, iat, exp) {
                        lemma_claims_layout(sub, iat, exp);
                        lemma_dec_digits_canonical(iat as nat);
                        let c = 8 + sub.len() as int + 8 + dec_digits(iat as nat).len() as int;
                        assert(b@[c] == claims_mid2()[0]);
                    }
                }
            }
            return None;
        },
    };
    proof {
        assert forall|sub: Seq<u8>, iat: u64, exp: u64|
            wf_claims(b@, sub, iat, exp) implies k == j as int + 8 + dec_digits(iat as nat).len()
            && b@.subrange(j as int + 8, k as int) == dec_digits(iat as nat) by {
            lemma_claims_layout(sub, iat, exp);
            lemma_dec_digits_canonical(iat as nat);
            let c = 8 + sub.len() as int + 8 + dec_digits(iat as nat).len() as int;
            assert(b@[c] == claims_mid2()[0]);
            lemma_digit_run(b@, j as int + 8, dec_digits(iat as nat), k as int);
        }
    }

    // `,"exp":` follows the `iat` digits.
    let mid2 = claims_mid2_vec();
    if n - k < 7 || !matches_at(b, k, mid2.as_slice()) {
        proof {
            assert forall|sub: Seq<u8>, iat: u64, exp: u64| !wf_claims(b@, sub, iat, exp) by {
                if wf_claims(b@, sub, iat, exp) {
                    lemma_claims_layout(sub, iat, exp);
                    lemma_dec_digits_canonical(iat as nat);
                }
            }
        }
        return None;
    }

    // The `exp` digits run to the first non-digit, which must be the final
    // `}`.
    let m = match find_non_digit(b, k + 7) {
        Some(m) => m,
        None => {
            proof {
                assert forall|sub: Seq<u8>, iat: u64, exp: u64| !wf_claims(b@, sub, iat, exp) by {
                    if wf_claims(b@, sub, iat, exp) {
                        lemma_claims_layout(sub, iat, exp);
                        lemma_dec_digits_canonical(iat as nat);
                        lemma_dec_digits_canonical(exp as nat);
                        let z = 8 + sub.len() as int + 8 + dec_digits(iat as nat).len() as int + 7
                            + dec_digits(exp as nat).len() as int;
                        assert(b@[z] == 0x7d);
                        assert(!is_digit(b@[z]));
                    }
                }
            }
            return None;
        },
    };
    proof {
        assert forall|sub: Seq<u8>, iat: u64, exp: u64|
            wf_claims(b@, sub, iat, exp) implies m == k as int + 7 + dec_digits(exp as nat).len()
            && b@.subrange(k as int + 7, m as int) == dec_digits(exp as nat) by {
            lemma_claims_layout(sub, iat, exp);
            lemma_dec_digits_canonical(iat as nat);
            lemma_dec_digits_canonical(exp as nat);
            let z = 8 + sub.len() as int + 8 + dec_digits(iat as nat).len() as int + 7
                + dec_digits(exp as nat).len() as int;
            assert(b@[z] == 0x7d);
            assert(!is_digit(b@[z]));
            lemma_digit_run(b@, k as int + 7, dec_digits(exp as nat), m as int);
        }
    }
    if b[m] != 0x7d || m + 1 != n {
        proof {
            assert forall|sub: Seq<u8>, iat: u64, exp: u64| !wf_claims(b@, sub, iat, exp) by {
                if wf_claims(b@, sub, iat, exp) {
                    lemma_claims_layout(sub, iat, exp);
                    lemma_dec_digits_canonical(iat as nat);
                    lemma_dec_digits_canonical(exp as nat);
                }
            }
        }
        return None;
    }

    // Decode the pieces; each check that fails rules out every decomposition.
    let sub_slice = &b[8..j];
    if !check_token_safe(sub_slice) {
        proof {
            assert forall|sub: Seq<u8>, iat: u64, exp: u64| !wf_claims(b@, sub, iat, exp) by {
                if wf_claims(b@, sub, iat, exp) {
                    assert(sub == b@.subrange(8, j as int));
                }
            }
        }
        return None;
    }
    let iat = match parse_dec(&b[(j + 8)..k]) {
        Some(v) => v,
        None => {
            proof {
                assert forall|sub: Seq<u8>, iat: u64, exp: u64| !wf_claims(b@, sub, iat, exp) by {
                    if wf_claims(b@, sub, iat, exp) {
                        assert(b@.subrange(j as int + 8, k as int) == dec_digits(iat as nat));
                    }
                }
            }
            return None;
        },
    };
    let exp = match parse_dec(&b[(k + 7)..m]) {
        Some(v) => v,
        None => {
            proof {
                assert forall|sub: Seq<u8>, iat: u64, exp: u64| !wf_claims(b@, sub, iat, exp) by {
                    if wf_claims(b@, sub, iat, exp) {
                        assert(b@.subrange(k as int + 7, m as int) == dec_digits(exp as nat));
                    }
                }
            }
            return None;
        },
    };
    let sub = slice_to_vec(sub_slice);

    proof {
        // The checks reconstruct the document byte for byte.
        let bs = b@;
        let ji = j as int;
        let ki = k as int;
        let mi = m as int;
        let ni = n as int;
        assert(bs =~= bs.subrange(0, 8) + bs.subrange(8, ji) + bs.subrange(ji, ji + 8)
            + bs.subrange(ji + 8, ki) + bs.subrange(ki, ki + 7) + bs.subrange(ki + 7, mi)
            + bs.subrange(mi, ni));
        assert(bs.subrange(mi, ni) =~= seq![0x7du8]);
        assert(b@ =~= claims_bytes(sub@, iat as nat, exp as nat));
        assert(wf_claims(b@, sub@, iat, exp));
        assert forall|sub2: Seq<u8>, iat2: u64, exp2: u64|
            wf_claims(b@, sub2, iat2, exp2) implies sub2 == sub@ && iat2 == iat && exp2
            == exp by {
            assert(sub2 == b@.subrange(8, j as int));
            assert(b@.subrange(j as int + 8, k as int) == dec_digits(iat2 as nat));
            lemma_dec_digits_canonical(iat2 as nat);
            lemma_dec_digits_canonical(iat as nat);
            assert(dec_value(dec_digits(iat2 as nat)) == iat2 as nat);
            assert(b@.subrange(k as int + 7, m as int) == dec_digits(exp2 as nat));
            lemma_dec_digits_canonical(exp2 as nat);
            lemma_dec_digits_canonical(exp as nat);
        }
    }
    Some((sub, iat, exp))
}

} // verus!
