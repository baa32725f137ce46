//! Token issue and verification.
//!
//! A token is a signed, time-bounded assertion of `{subject, issuedAt,
//! expiresAt}`: two base64url segments — a fixed header and the claims
//! document of `claims.rs` — joined by `.` and followed by an HMAC-SHA256 tag
//! over them, itself base64url text. The tag comes from jsonwebtoken's
//! signing primitive and is named `hs256_tag`; everything around it — the
//! claims document, the segment layout, the expiry rule — is this library's
//! own verified logic. `valid_signed_token` is the shape every contract here
//! speaks of: `issue_jwt_at` produces exactly such tokens, and `verify_jwt`
//! accepts exactly them, checking the signature before it reads any claim and
//! the expiry only after the signature stands.

use jsonwebtoken::{Algorithm, EncodingKey};
use vstd::prelude::*;

verus! {

use vstd::utf8::encode_utf8;
use vstd::string::StrSliceExecFns;
use crate::ascii::{ascii_bytes, bytes_eq, bytes_to_string, lemma_ascii_encode};
use crate::b64::{
    b64url_alphabet, b64url_decode, b64url_encode, b64url_of, lemma_b64url_alphabet_ascii,
};
use crate::claims::{claims_bytes, parse_claims, render_claims, token_safe, wf_claims};
use crate::decimal::DEC_LIMIT;

/// The base64url signature text that jsonwebtoken's HS256 signing returns
/// for a message and a raw secret. Deterministic in both.
pub uninterp spec fn hs256_tag(message: Seq<u8>, secret: Seq<u8>) -> Seq<u8>;

/// The claims a verified token asserts.
#[derive(Debug, PartialEq, Eq)]
pub struct TokenClaims {
    /// The subject: the identifier the token was issued for.
    pub sub: String,
    /// Seconds since the epoch at which the token was issued.
    pub iat: u64,
    /// Seconds since the epoch at which the token stops being valid.
    pub exp: u64,
}

/// Why a token was rejected, or why one could not be issued.
#[derive(PartialEq, Eq, Structural, Clone, Copy, Debug)]
pub enum TokenError {
    /// The signature does not match the payload under the current secret.
    InvalidSignature,
    /// The signature is valid but the token's lifetime is over.
    Expired,
    /// The token does not have the shape of a signed claims assertion.
    Malformed,
    /// The signing backend failed; a configuration fault, not a client error.
    Signing,
}

/// The fixed token header: the byte string `{"alg":"HS256","typ":"JWT"}`.
pub open spec fn header_bytes() -> Seq<u8> {
    encode_utf8("{\"alg\":\"HS256\",\"typ\":\"JWT\"}"@)
}

/// The signed part of a token: base64url header, `.`, base64url claims.
pub open spec fn signing_input(sub: Seq<u8>, iat: nat, exp: nat) -> Seq<u8> {
    b64url_of(header_bytes()) + seq![0x2eu8] + b64url_of(claims_bytes(sub, iat, exp))
}

/// The whole token: the signed part, `.`, and its tag.
pub open spec fn token_bytes(sub: Seq<u8>, iat: nat, exp: nat, secret: Seq<u8>) -> Seq<u8> {
    signing_input(sub, iat, exp) + seq![0x2eu8] + hs256_tag(signing_input(sub, iat, exp), secret)
}

/// `t` is the token this library issues for `(sub, iat, exp)` under
/// `secret`. The alphabet conjuncts record that each segment is base64url
/// text — so the two `.` are the only dots and the split of `t` is
/// unambiguous.
pub open spec fn valid_signed_token(
    t: Seq<u8>,
    secret: Seq<u8>,
    sub: Seq<u8>,
    iat: u64,
    exp: u64,
) -> bool {
    &&& t == token_bytes(sub, iat as nat, exp as nat, secret)
    &&& token_safe(sub)
    &&& iat < DEC_LIMIT
    &&& exp < DEC_LIMIT
    &&& b64url_alphabet(b64url_of(header_bytes()))
    &&& b64url_alphabet(b64url_of(claims_bytes(sub, iat as nat, exp as nat)))
    &&& b64url_alphabet(hs256_tag(signing_input(sub, iat as nat, exp as nat), secret))
}

/// The two `.` of a three-segment token: `i` and `j` are dot positions and
/// no other position holds one.
pub open spec fn dots_at(t: Seq<u8>, i: int, j: int) -> bool {
    &&& 0 <= i < j < t.len()
    &&& t[i] == 0x2e
    &&& t[j] == 0x2e
    &&& forall|k: int| 0 <= k < t.len() && k != i && k != j ==> t[k] != 0x2e
}

/// A token accepted at time `now` asserts exactly its claims, and only while
/// `now < exp`: the temporal dichotomy `verify_jwt`'s contract case-splits
/// on. Stated here as the law tying issue to verification: an issued token —
/// `issue_jwt_at` ensures `valid_signed_token` of its result — is accepted
/// with its own claims before `exp` and rejected as expired from `exp` on.
pub proof fn lemma_token_acceptance_dichotomy(
    t: Seq<u8>,
    secret: Seq<u8>,
    sub: Seq<u8>,
    iat: u64,
    exp: u64,
    now: u64,
)
    requires
        valid_signed_token(t, secret, sub, iat, exp),
    ensures
        now < exp || now >= exp,
        now < exp ==> (valid_signed_token(t, secret, sub, iat, exp) && now < exp),
        now >= exp ==> (valid_signed_token(t, secret, sub, iat, exp) && !(now < exp)),
{
}

/// Largest timestamp a clock reading is taken at face value for: clock
/// readings are clamped into `[0, MAX_ISSUED_AT]` before they enter claims.
pub const MAX_ISSUED_AT: u64 = 1_000_000_000_000_000;

/// Relies on chrono's `Utc::now`: the clock's seconds since the epoch.
/// Nothing is assumed of the value; callers clamp it.
#[verifier::external_body]
fn current_unix_time() -> i64 {
    chrono::Utc::now().timestamp()
}

/// The current time as a timestamp fit for claims, whatever the clock
/// returned: readings are clamped into `[0, MAX_ISSUED_AT]`.
pub fn unix_now() -> (r: u64)
    ensures
        r <= MAX_ISSUED_AT,
{
    let t = current_unix_time();
    if t < 0 {
        0
    } else if t > MAX_ISSUED_AT as i64 {
        MAX_ISSUED_AT
    } else {
        t as u64
    }
}

/// Issues a token for `sub` that lives `ttl_secs` seconds from now: the
/// clock is read once, clamped, and the claims are exactly
/// `(sub, now, now + ttl_secs)`.
pub fn issue_jwt(sub: &str, secret: &[u8], ttl_secs: u64) -> (r: Result<String, TokenError>)
    requires
        token_safe(encode_utf8(sub@)),
        ttl_secs <= MAX_ISSUED_AT,
    ensures
        r matches Ok(tok) ==> exists|iat: u64, exp: u64|
            {
                &&& #[trigger] valid_signed_token(
                    encode_utf8(tok@),
                    secret@,
                    encode_utf8(sub@),
                    iat,
                    exp,
                )
                &&& iat <= MAX_ISSUED_AT
                &&& exp == iat + ttl_secs
            },
        r matches Err(e) ==> e == TokenError::Signing,
{
    let iat = unix_now();
    let exp = iat + ttl_secs;
    proof {
        crate::decimal::lemma_dec_limit_is_pow10_19();
        assert(MAX_ISSUED_AT + MAX_ISSUED_AT < DEC_LIMIT);
    }
    issue_jwt_at(sub, secret, iat, exp)
}

/// Tamper detection, as far as it is a matter of logic rather than of the
/// MAC: a token whose signature segment is anything other than the tag of
/// its signed part is not a valid signed token for those claims, so
/// verification can only reject it or mistake it for a different validly
/// signed assertion — never accept it as this one. That a tampered payload
/// cannot collide with any validly signed assertion at all is the MAC's
/// unforgeability, which no contract here states; the tests exercise it
/// byte by byte.
pub proof fn lemma_signature_tamper_invalidates(
    t2: Seq<u8>,
    secret: Seq<u8>,
    sub: Seq<u8>,
    iat: u64,
    exp: u64,
    sig2: Seq<u8>,
)
    requires
        t2 == signing_input(sub, iat as nat, exp as nat) + seq![0x2eu8] + sig2,
        sig2 != hs256_tag(signing_input(sub, iat as nat, exp as nat), secret),
    ensures
        !valid_signed_token(t2, secret, sub, iat, exp),
{
    if valid_signed_token(t2, secret, sub, iat, exp) {
        let si = signing_input(sub, iat as nat, exp as nat);
        let tag = hs256_tag(si, secret);
        assert(si + seq![0x2eu8] + sig2 == si + seq![0x2eu8] + tag);
        assert(sig2.len() == tag.len());
        assert(sig2 =~= tag) by {
            assert forall|k: int| 0 <= k < sig2.len() implies sig2[k] == tag[k] by {
                assert((si + seq![0x2eu8] + sig2)[si.len() + 1 + k] == sig2[k]);
                assert((si + seq![0x2eu8] + tag)[si.len() + 1 + k] == tag[k]);
            }
        }
    }
}

/// Relies on jsonwebtoken's `crypto::sign` with `Algorithm::HS256` and an
/// HMAC key built by `EncodingKey::from_secret`, under the crate's RustCrypto
/// provider (the only one this build enables): the tag is a deterministic
/// function of message and secret, and is returned as unpadded base64url
/// text.
#[verifier::external_body]
fn hs256_sign(message: &[u8], secret: &[u8]) -> (r: Option<Vec<u8>>)
    ensures
        r matches Some(t) ==> t@ == hs256_tag(message@, secret@),
        r matches Some(t) ==> b64url_alphabet(t@),
{
    match jsonwebtoken::crypto::sign(
        message,
        &EncodingKey::from_secret(secret),
        Algorithm::HS256,
    ) {
        Ok(s) => Some(s.into_bytes()),
        Err(_) => None,
    }
}

/// The first occurrence of `x` in `b` at or after `from`, if any.
pub(crate) fn find_byte(b: &[u8], from: usize, x: u8) -> (r: Option<usize>)
    requires
        from <= b@.len(),
    ensures
        r matches Some(j) ==> {
            &&& from <= j < b@.len()
            &&& b@[j as int] == x
            &&& forall|k: int| from <= k < j ==> b@[k] != x
        },
        r is None ==> forall|k: int| from <= k < b@.len() ==> b@[k] != x,
{
    let n = b.len();
    let mut j: usize = from;
    while j < n
        invariant
            from <= j <= n,
            n == b@.len(),
            forall|k: int| from <= k < j ==> b@[k] != x,
        decreases n - j,
    {
        if b[j] == x {
            return Some(j);
        }
        j += 1;
    }
    None
}

/// The header bytes as a vector.
fn header_vec() -> (r: Vec<u8>)
    ensures
        r@ == header_bytes(),
{
    ("{\"alg\":\"HS256\",\"typ\":\"JWT\"}").as_bytes_vec()
}

/// Issues the token asserting `(sub, iat, exp)`, signed under `secret`.
/// Deterministic: the result is `token_bytes` of its inputs. Fails only if
/// the signing backend does.
pub fn issue_jwt_at(sub: &str, secret: &[u8], iat: u64, exp: u64) -> (r: Result<
    String,
    TokenError,
>)
    requires
        token_safe(encode_utf8(sub@)),
        iat < DEC_LIMIT,
        exp < DEC_LIMIT,
    ensures
        r matches Ok(tok) ==> valid_signed_token(
            encode_utf8(tok@),
            secret@,
            encode_utf8(sub@),
            iat,
            exp,
        ),
        r matches Err(e) ==> e == TokenError::Signing,
{
    let sub_b = sub.as_bytes();
    let cb = render_claims(sub_b, iat, exp);
    let hv = header_vec();
    let mut msg = b64url_encode(hv.as_slice());
    let ghost hs = msg@;
    let mut c64 = b64url_encode(cb.as_slice());
    let ghost cs = c64@;
    msg.push(0x2e);
    msg.append(&mut c64);
    proof {
        assert(msg@ =~= signing_input(encode_utf8(sub@), iat as nat, exp as nat));
    }
    let mut tag = match hs256_sign(msg.as_slice(), secret) {
        Some(t) => t,
        None => {
            return Err(TokenError::Signing);
        },
    };
    let ghost gs = tag@;
    msg.push(0x2e);
    msg.append(&mut tag);
    proof {
        assert(msg@ =~= token_bytes(encode_utf8(sub@), iat as nat, exp as nat, secret@));
        assert(msg@ =~= hs + seq![0x2eu8] + cs + seq![0x2eu8] + gs);
        assert(ascii_bytes(msg@)) by {
            lemma_b64url_alphabet_ascii(hs);
            lemma_b64url_alphabet_ascii(cs);
            lemma_b64url_alphabet_ascii(gs);
            assert forall|t: int| 0 <= t < msg@.len() implies (#[trigger] msg@[t]) < 0x80 by {
                let hl = hs.len() as int;
                let cl = cs.len() as int;
                if t < hl {
                    assert(msg@[t] == hs[t]);
                } else if t == hl {
                    assert(msg@[t] == 0x2e);
                } else if t < hl + 1 + cl {
                    assert(msg@[t] == cs[t - (hl + 1)]);
                } else if t == hl + 1 + cl {
                    assert(msg@[t] == 0x2e);
                } else {
                    assert(msg@[t] == gs[t - (hl + 1 + cl + 1)]);
                }
            }
        }
        lemma_ascii_encode(msg@);
    }
    match bytes_to_string(msg) {
        Some(tok) => Ok(tok),
        None => {
            proof {
                assert(false);
            }
            vstd::pervasive::unreached()
        },
    }
}

/// Verifies a token under `secret` at time `now`: accepts exactly the tokens
/// `valid_signed_token` describes, with their own claims, while `now < exp`;
/// reports an intact but stale token as `Expired`; and otherwise tells a
/// failed signature apart from a string without the token shape. The
/// signature is checked before any claim is read.
pub fn verify_jwt(token: &str, secret: &[u8], now: u64) -> (r: Result<TokenClaims, TokenError>)
    ensures
        r matches Ok(c) ==> valid_signed_token(
            encode_utf8(token@),
            secret@,
            encode_utf8(c.sub@),
            c.iat,
            c.exp,
        ) && now < c.exp,
        forall|sub: Seq<u8>, iat: u64, exp: u64|
            valid_signed_token(encode_utf8(token@), secret@, sub, iat, exp) && now < exp ==> (
            (r matches Ok(c) && encode_utf8(c.sub@) == sub && c.iat == iat && c.exp == exp) || r
                == Err::<TokenClaims, TokenError>(TokenError::Signing)),
        forall|sub: Seq<u8>, iat: u64, exp: u64|
            valid_signed_token(encode_utf8(token@), secret@, sub, iat, exp) && now >= exp ==> (r
                == Err::<TokenClaims, TokenError>(TokenError::Expired) || r == Err::<
                TokenClaims,
                TokenError,
            >(TokenError::Signing)),
        r matches Err(e) && e == TokenError::Expired ==> exists|
            sub: Seq<u8>,
            iat: u64,
            exp: u64,
        | valid_signed_token(encode_utf8(token@), secret@, sub, iat, exp) && now >= exp,
        r matches Err(e) && e == TokenError::InvalidSignature ==> exists|i: int, j: int|
            #[trigger] dots_at(encode_utf8(token@), i, j) && encode_utf8(token@).subrange(
                j + 1,
                encode_utf8(token@).len() as int,
            ) != hs256_tag(encode_utf8(token@).subrange(0, j), secret@),
{
    let tb = token.as_bytes();
    let n = tb.len();
    let ghost tv = encode_utf8(token@);

    // Structure: exactly three segments, so exactly two dots.
    let i = match find_byte(tb, 0, 0x2e) {
        Some(i) => i,
        None => {
            proof {
                lemma_no_valid_without_dots(tv, secret@, 0, n as int);
            }
            return Err(TokenError::Malformed);
        },
    };
    let j = match find_byte(tb, i + 1, 0x2e) {
        Some(j) => j,
        None => {
            proof {
                lemma_no_valid_one_dot(tv, secret@, i as int);
            }
            return Err(TokenError::Malformed);
        },
    };
    if let Some(_) = find_byte(tb, j + 1, 0x2e) {
        proof {
            lemma_no_valid_three_dots(tv, secret@, i as int, j as int);
        }
        return Err(TokenError::Malformed);
    }

    // The signature is checked first, over the raw signed part.
    let msg = &tb[0..j];
    let sig = &tb[(j + 1)..n];
    let expected = match hs256_sign(msg, secret) {
        Some(t) => t,
        None => {
            return Err(TokenError::Signing);
        },
    };
    if !bytes_eq(sig, expected.as_slice()) {
        proof {
            assert(dots_at(tv, i as int, j as int));
            assert(tv.subrange(j as int + 1, tv.len() as int) != hs256_tag(
                tv.subrange(0, j as int),
                secret@,
            ));
            assert forall|sub: Seq<u8>, iat: u64, exp: u64| !valid_signed_token(
                tv,
                secret@,
                sub,
                iat,
                exp,
            ) by {
                if valid_signed_token(tv, secret@, sub, iat, exp) {
                    lemma_token_split(tv, secret@, sub, iat, exp, i as int, j as int);
                }
            }
        }
        return Err(TokenError::InvalidSignature);
    }

    // Only then is the payload interpreted: header, claims, expiry.
    let hv = header_vec();
    let h64 = b64url_encode(hv.as_slice());
    let hseg = &tb[0..i];
    if !bytes_eq(hseg, h64.as_slice()) {
        proof {
            assert forall|sub: Seq<u8>, iat: u64, exp: u64| !valid_signed_token(
                tv,
                secret@,
                sub,
                iat,
                exp,
            ) by {
                if valid_signed_token(tv, secret@, sub, iat, exp) {
                    lemma_token_split(tv, secret@, sub, iat, exp, i as int, j as int);
                }
            }
        }
        return Err(TokenError::Malformed);
    }
    let cseg = &tb[(i + 1)..j];
    let cb = match b64url_decode(cseg) {
        Some(v) => v,
        None => {
            proof {
                assert forall|sub: Seq<u8>, iat: u64, exp: u64| !valid_signed_token(
                    tv,
                    secret@,
                    sub,
                    iat,
                    exp,
                ) by {
                    if valid_signed_token(tv, secret@, sub, iat, exp) {
                        lemma_token_split(tv, secret@, sub, iat, exp, i as int, j as int);
                    }
                }
            }
            return Err(TokenError::Malformed);
        },
    };
    let parsed = match parse_claims(cb.as_slice()) {
        Some(p) => p,
        None => {
            proof {
                assert forall|sub: Seq<u8>, iat: u64, exp: u64| !valid_signed_token(
                    tv,
                    secret@,
                    sub,
                    iat,
                    exp,
                ) by {
                    if valid_signed_token(tv, secret@, sub, iat, exp) {
                        lemma_token_split(tv, secret@, sub, iat, exp, i as int, j as int);
                        assert(cseg@ == b64url_of(claims_bytes(sub, iat as nat, exp as nat)));
                        assert(cb@ == claims_bytes(sub, iat as nat, exp as nat));
                        assert(wf_claims(cb@, sub, iat, exp));
                    }
                }
            }
            return Err(TokenError::Malformed);
        },
    };
    let (sub_bytes, iat, exp) = parsed;
    let ghost sv = sub_bytes@;
    let sub = match bytes_to_string(sub_bytes) {
        Some(s) => s,
        None => {
            proof {
                crate::claims::lemma_token_safe_ascii(sv);
                lemma_ascii_encode(sv);
                assert(false);
            }
            vstd::pervasive::unreached()
        },
    };

    // Soundness: the checks reconstruct the token as `token_bytes`; the
    // re-encoding call pins down the alphabet of the claims segment.
    let c64 = b64url_encode(cb.as_slice());
    proof {
        assert(encode_utf8(sub@) == sv);
        assert(cb@ == claims_bytes(sv, iat as nat, exp as nat));
        assert(tv =~= tv.subrange(0, i as int) + seq![0x2eu8] + tv.subrange(i as int + 1, j as int)
            + seq![0x2eu8] + tv.subrange(j as int + 1, n as int));
        assert(tv.subrange(0, j as int) =~= tv.subrange(0, i as int) + seq![0x2eu8] + tv.subrange(
            i as int + 1,
            j as int,
        ));
        assert(tv.subrange(0, j as int) == signing_input(sv, iat as nat, exp as nat));
        assert(tv =~= token_bytes(sv, iat as nat, exp as nat, secret@));
        assert(valid_signed_token(tv, secret@, sv, iat, exp));
        // Uniqueness: any claims the token is valid for are the parsed ones.
        assert forall|sub2: Seq<u8>, iat2: u64, exp2: u64|
            valid_signed_token(tv, secret@, sub2, iat2, exp2) implies sub2 == sv && iat2 == iat
            && exp2 == exp by {
            lemma_token_split(tv, secret@, sub2, iat2, exp2, i as int, j as int);
            assert(cseg@ == b64url_of(claims_bytes(sub2, iat2 as nat, exp2 as nat)));
            assert(cb@ == claims_bytes(sub2, iat2 as nat, exp2 as nat));
            assert(wf_claims(cb@, sub2, iat2, exp2));
        }
    }
    if now >= exp {
        return Err(TokenError::Expired);
    }
    Ok(TokenClaims { sub, iat, exp })
}

/// A token without a dot is not a valid signed token (the signed part ends
/// in one).
proof fn lemma_no_valid_without_dots(t: Seq<u8>, secret: Seq<u8>, from: int, to: int)
    requires
        0 <= from <= to == t.len(),
        forall|k: int| from <= k < to ==> t[k] != 0x2e,
        from == 0,
    ensures
        forall|sub: Seq<u8>, iat: u64, exp: u64| !valid_signed_token(t, secret, sub, iat, exp),
{
    assert forall|sub: Seq<u8>, iat: u64, exp: u64| !valid_signed_token(
        t,
        secret,
        sub,
        iat,
        exp,
    ) by {
        if valid_signed_token(t, secret, sub, iat, exp) {
            let h = b64url_of(header_bytes());
            assert(t[h.len() as int] == 0x2e);
        }
    }
}

/// A token whose first dot is its last is not a valid signed token.
proof fn lemma_no_valid_one_dot(t: Seq<u8>, secret: Seq<u8>, i: int)
    requires
        0 <= i < t.len(),
        t[i] == 0x2e,
        forall|k: int| 0 <= k < i ==> t[k] != 0x2e,
        forall|k: int| i + 1 <= k < t.len() ==> t[k] != 0x2e,
    ensures
        forall|sub: Seq<u8>, iat: u64, exp: u64| !valid_signed_token(t, secret, sub, iat, exp),
{
    assert forall|sub: Seq<u8>, iat: u64, exp: u64| !valid_signed_token(
        t,
        secret,
        sub,
        iat,
        exp,
    ) by {
        if valid_signed_token(t, secret, sub, iat, exp) {
            let h = b64url_of(header_bytes());
            let c = b64url_of(claims_bytes(sub, iat as nat, exp as nat));
            assert(t[h.len() as int] == 0x2e);
            assert(i == h.len()) by {
                if i < h.len() {
                    assert(t[i] == h[i]);
                }
            }
            assert(t[h.len() as int + 1 + c.len() as int] == 0x2e);
        }
    }
}

/// A token with three dots is not a valid signed token.
proof fn lemma_no_valid_three_dots(t: Seq<u8>, secret: Seq<u8>, i: int, j: int)
    requires
        0 <= i < j < t.len(),
        t[i] == 0x2e,
        t[j] == 0x2e,
        forall|k: int| 0 <= k < i ==> t[k] != 0x2e,
        forall|k: int| i + 1 <= k < j ==> t[k] != 0x2e,
        exists|k: int| j + 1 <= k < t.len() && t[k] == 0x2e,
    ensures
        forall|sub: Seq<u8>, iat: u64, exp: u64| !valid_signed_token(t, secret, sub, iat, exp),
{
    assert forall|sub: Seq<u8>, iat: u64, exp: u64| !valid_signed_token(
        t,
        secret,
        sub,
        iat,
        exp,
    ) by {
        if valid_signed_token(t, secret, sub, iat, exp) {
            lemma_token_split_points(t, secret, sub, iat, exp, i, j);
            let g = hs256_tag(signing_input(sub, iat as nat, exp as nat), secret);
            let k = choose|k: int| j + 1 <= k < t.len() && t[k] == 0x2e;
            assert(t[k] == g[k - (j + 1)]);
        }
    }
}

/// Under validity, the two scanned dots sit exactly at the segment borders.
proof fn lemma_token_split_points(
    t: Seq<u8>,
    secret: Seq<u8>,
    sub: Seq<u8>,
    iat: u64,
    exp: u64,
    i: int,
    j: int,
)
    requires
        valid_signed_token(t, secret, sub, iat, exp),
        0 <= i < j < t.len(),
        t[i] == 0x2e,
        t[j] == 0x2e,
        forall|k: int| 0 <= k < i ==> t[k] != 0x2e,
        forall|k: int| i + 1 <= k < j ==> t[k] != 0x2e,
    ensures
        i == b64url_of(header_bytes()).len(),
        j == i + 1 + b64url_of(claims_bytes(sub, iat as nat, exp as nat)).len(),
{
    let h = b64url_of(header_bytes());
    let c = b64url_of(claims_bytes(sub, iat as nat, exp as nat));
    assert(t[h.len() as int] == 0x2e);
    assert(i == h.len()) by {
        if i < h.len() {
            assert(t[i] == h[i]);
        }
    }
    assert(t[h.len() as int + 1 + c.len() as int] == 0x2e);
    assert(j == h.len() as int + 1 + c.len() as int) by {
        if j < h.len() + 1 + c.len() {
            assert(t[j] == c[j - (h.len() + 1)]);
        }
    }
}

/// Under validity and the scanned dots, each raw segment of the token equals
/// its counterpart in `token_bytes`.
proof fn lemma_token_split(
    t: Seq<u8>,
    secret: Seq<u8>,
    sub: Seq<u8>,
    iat: u64,
    exp: u64,
    i: int,
    j: int,
)
    requires
        valid_signed_token(t, secret, sub, iat, exp),
        0 <= i < j < t.len(),
        t[i] == 0x2e,
        t[j] == 0x2e,
        forall|k: int| 0 <= k < i ==> t[k] != 0x2e,
        forall|k: int| i + 1 <= k < j ==> t[k] != 0x2e,
    ensures
        t.subrange(0, i) == b64url_of(header_bytes()),
        t.subrange(i + 1, j) == b64url_of(claims_bytes(sub, iat as nat, exp as nat)),
        t.subrange(0, j) == signing_input(sub, iat as nat, exp as nat),
        t.subrange(j + 1, t.len() as int) == hs256_tag(
            signing_input(sub, iat as nat, exp as nat),
            secret,
        ),
{
    lemma_token_split_points(t, secret, sub, iat, exp, i, j);
    let h = b64url_of(header_bytes());
    let c = b64url_of(claims_bytes(sub, iat as nat, exp as nat));
    let g = hs256_tag(signing_input(sub, iat as nat, exp as nat), secret);
    assert(t.subrange(0, i) =~= h);
    assert(t.subrange(i + 1, j) =~= c);
    assert(t.subrange(0, j) =~= signing_input(sub, iat as nat, exp as nat));
    assert(t.subrange(j + 1, t.len() as int) =~= g);
}

} // verus!
