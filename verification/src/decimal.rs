//! Decimal rendering and parsing for unsigned integers, over ASCII digit
//! bytes.
//!
//! Token claims carry their timestamps as decimal numerals inside a byte
//! string, so the library needs an exact, invertible notion of "the decimal
//! form of `n`". `dec_digits` is that form; `u64_to_dec` and `parse_dec` are
//! the executable renderer and parser, each pinned to it.

use vstd::prelude::*;

verus! {

/// Code of the digit `0`.
pub const DIGIT_ZERO: u8 = 0x30;

/// Largest value (exclusive) whose decimal form this library renders and
/// parses: ten quintillion, i.e. the 19-digit numerals. Every `u64` below
/// this bound round-trips.
pub const DEC_LIMIT: u64 = 10_000_000_000_000_000_000;

pub open spec fn is_digit(b: u8) -> bool {
    0x30 <= b <= 0x39
}

/// The decimal form of `n`: most significant digit first, no leading zeros
/// (the form of `0` is the single digit `0`).
pub open spec fn dec_digits(n: nat) -> Seq<u8>
    decreases n,
{
    if n < 10 {
        seq![(0x30 + n) as u8]
    } else {
        dec_digits(n / 10) + seq![(0x30 + n % 10) as u8]
    }
}

/// The value of a digit string (most significant digit first).
pub open spec fn dec_value(s: Seq<u8>) -> nat
    decreases s.len(),
{
    if s.len() == 0 {
        0
    } else {
        (dec_value(s.drop_last()) * 10 + (s.last() - 0x30)) as nat
    }
}

/// A digit string that is the decimal form of some value: nonempty, digits
/// only, and no leading zero except for `0` itself.
pub open spec fn is_canonical_dec(s: Seq<u8>) -> bool {
    &&& s.len() > 0
    &&& forall|i: int| 0 <= i < s.len() ==> is_digit(#[trigger] s[i])
    &&& (s.len() > 1 ==> s[0] != DIGIT_ZERO)
}

pub open spec fn pow10(k: nat) -> nat
    decreases k,
{
    if k == 0 {
        1
    } else {
        10 * pow10((k - 1) as nat)
    }
}

pub proof fn lemma_dec_digits_len(n: nat)
    ensures
        dec_digits(n).len() >= 1,
        n < pow10(dec_digits(n).len()),
        pow10((dec_digits(n).len() - 1) as nat) <= if n == 0 { 1 } else { n },
    decreases n,
{
    if n < 10 {
    } else {
        lemma_dec_digits_len(n / 10);
        let k = dec_digits(n / 10).len();
        assert(dec_digits(n).len() == k + 1);
        assert(n / 10 < pow10(k));
        assert(n < 10 * pow10(k)) by {
            assert(n == (n / 10) * 10 + n % 10) by (nonlinear_arith);
            assert((n / 10) * 10 <= (pow10(k) - 1) * 10) by (nonlinear_arith)
                requires
                    n / 10 <= pow10(k) - 1,
            ;
        }
        assert(pow10(k) <= n) by {
            assert(pow10((k - 1) as nat) <= n / 10);
            assert((n / 10) * 10 <= n) by (nonlinear_arith);
            assert(pow10(k) == 10 * pow10((k - 1) as nat));
            assert(10 * pow10((k - 1) as nat) <= 10 * (n / 10)) by (nonlinear_arith)
                requires
                    pow10((k - 1) as nat) <= n / 10,
            ;
        }
    }
}

proof fn lemma_dec_value_singleton(b: u8)
    requires
        is_digit(b),
    ensures
        dec_value(seq![b]) == b - 0x30,
{
    let s = seq![b];
    assert(s.drop_last() =~= Seq::<u8>::empty());
    assert(s.last() == b);
    assert(dec_value(s.drop_last()) == 0);
}

pub proof fn lemma_dec_digits_canonical(n: nat)
    ensures
        is_canonical_dec(dec_digits(n)),
        dec_value(dec_digits(n)) == n,
    decreases n,
{
    if n < 10 {
        assert(dec_digits(n) =~= seq![(0x30 + n) as u8]);
        lemma_dec_value_singleton((0x30 + n) as u8);
    } else {
        lemma_dec_digits_canonical(n / 10);
        let s = dec_digits(n);
        let p = dec_digits(n / 10);
        assert(s =~= p + seq![(0x30 + n % 10) as u8]);
        assert(s.drop_last() =~= p);
        assert(s.last() == (0x30 + n % 10) as u8);
        assert(dec_value(s) == (n / 10) * 10 + n % 10);
        assert((n / 10) * 10 + n % 10 == n) by (nonlinear_arith);
        assert forall|i: int| 0 <= i < s.len() implies is_digit(#[trigger] s[i]) by {
            if i < p.len() {
                assert(s[i] == p[i]);
            } else {
                assert(s[i] == s.last());
            }
        }
        assert(s[0] == p[0]);
        assert(s[0] != DIGIT_ZERO) by {
            if p.len() == 1 {
                assert(p =~= seq![p[0]]);
                lemma_dec_value_singleton(p[0]);
                assert(dec_value(p) == n / 10 >= 1);
            }
        }
    }
}

/// The decimal form is injective: a canonical digit string is the form of
/// its own value, so equal forms mean equal values.
pub proof fn lemma_canonical_dec_inverse(s: Seq<u8>)
    requires
        is_canonical_dec(s),
    ensures
        dec_digits(dec_value(s)) == s,
    decreases s.len(),
{
    if s.len() == 1 {
        assert(s =~= seq![s[0]]);
        lemma_dec_value_singleton(s[0]);
        assert(dec_digits(dec_value(s)) =~= s);
    } else {
        let p = s.drop_last();
        assert(forall|i: int| 0 <= i < p.len() ==> is_digit(#[trigger] p[i]));
        assert(p[0] == s[0]);
        assert(is_canonical_dec(p));
        lemma_canonical_dec_inverse(p);
        let n = dec_value(s);
        assert(n == dec_value(p) * 10 + (s.last() - 0x30));
        assert(dec_value(p) >= 1) by {
            if dec_value(p) == 0 {
                lemma_dec_value_zero(p);
            }
        }
        assert(n >= 10) by (nonlinear_arith)
            requires
                n == dec_value(p) * 10 + (s.last() - 0x30),
                dec_value(p) >= 1,
                s.last() >= 0x30,
        ;
        assert(n / 10 == dec_value(p) && n % 10 == s.last() - 0x30) by (nonlinear_arith)
            requires
                n == dec_value(p) * 10 + (s.last() - 0x30),
                0 <= s.last() - 0x30 < 10,
        ;
        assert(dec_digits(n) =~= dec_digits(dec_value(p)) + seq![(0x30 + n % 10) as u8]);
        assert(dec_digits(n) =~= s);
    }
}

/// A canonical digit string of value zero is the single digit `0`.
proof fn lemma_dec_value_zero(s: Seq<u8>)
    requires
        is_canonical_dec(s),
        dec_value(s) == 0,
    ensures
        s =~= seq![DIGIT_ZERO],
    decreases s.len(),
{
    if s.len() == 1 {
        assert(s =~= seq![s[0]]);
        lemma_dec_value_singleton(s[0]);
        assert(s[0] == DIGIT_ZERO);
    } else {
        let p = s.drop_last();
        assert(dec_value(p) * 10 + (s.last() - 0x30) == 0);
        assert(dec_value(p) == 0) by (nonlinear_arith)
            requires
                dec_value(p) * 10 + (s.last() - 0x30) == 0,
                s.last() >= 0x30,
        ;
        assert(p[0] == s[0]);
        assert(forall|i: int| 0 <= i < p.len() ==> is_digit(#[trigger] p[i]));
        assert(is_canonical_dec(p));
        lemma_dec_value_zero(p);
        assert(p.len() == 1 && s.len() > 1 && p.len() == s.len() - 1);
        assert(s.len() == 2);
        assert(s[0] == DIGIT_ZERO);
        assert(s[0] != DIGIT_ZERO);
    }
}

/// A digit string bounds its value: `k` digits name values below `10^k`.
pub proof fn lemma_dec_value_bound(s: Seq<u8>)
    requires
        forall|i: int| 0 <= i < s.len() ==> is_digit(#[trigger] s[i]),
    ensures
        dec_value(s) < pow10(s.len() as nat),
    decreases s.len(),
{
    if s.len() == 0 {
    } else {
        let p = s.drop_last();
        assert(forall|i: int| 0 <= i < p.len() ==> is_digit(#[trigger] p[i]));
        lemma_dec_value_bound(p);
        assert(dec_value(s) == dec_value(p) * 10 + (s.last() - 0x30));
        assert(dec_value(p) * 10 + (s.last() - 0x30) < pow10(p.len() as nat) * 10)
            by (nonlinear_arith)
            requires
                dec_value(p) < pow10(p.len() as nat),
                s.last() - 0x30 < 10,
        ;
        assert(pow10(s.len() as nat) == 10 * pow10(p.len() as nat));
    }
}

/// `DEC_LIMIT` is ten to the nineteenth, so the values it admits are exactly
/// those whose decimal form has at most nineteen digits.
pub proof fn lemma_dec_limit_is_pow10_19()
    ensures
        DEC_LIMIT as nat == pow10(19),
{
    reveal_with_fuel(pow10, 20);
    assert(DEC_LIMIT as nat == pow10(19));
}

pub proof fn lemma_dec_digits_len_le_19(n: nat)
    requires
        n < DEC_LIMIT as nat,
    ensures
        dec_digits(n).len() <= 19,
{
    lemma_dec_digits_len(n);
    lemma_dec_limit_is_pow10_19();
    let l = dec_digits(n).len();
    if l > 19 {
        assert(pow10((l - 1) as nat) >= pow10(19)) by {
            lemma_pow10_increases(19, (l - 1) as nat);
        }
        assert(pow10((l - 1) as nat) <= if n == 0 { 1nat } else { n });
    }
}

pub proof fn lemma_pow10_increases(a: nat, b: nat)
    requires
        a <= b,
    ensures
        pow10(a) <= pow10(b),
    decreases b,
{
    if a < b {
        lemma_pow10_increases(a, (b - 1) as nat);
        assert(pow10(b) == 10 * pow10((b - 1) as nat));
    }
}

/// Renders `n` in decimal, most significant digit first.
pub fn u64_to_dec(n: u64) -> (r: Vec<u8>)
    ensures
        r@ == dec_digits(n as nat),
    decreases n,
{
    if n < 10 {
        let mut r: Vec<u8> = Vec::new();
        r.push(DIGIT_ZERO + (n as u8));
        proof {
            assert(r@ =~= dec_digits(n as nat));
        }
        r
    } else {
        let mut r = u64_to_dec(n / 10);
        r.push(DIGIT_ZERO + ((n % 10) as u8));
        proof {
            assert(r@ =~= dec_digits(n as nat));
        }
        r
    }
}

/// Parses a byte slice as the decimal form of a value below `DEC_LIMIT`.
/// Succeeds exactly on canonical forms of at most nineteen digits, and then
/// returns their value.
pub fn parse_dec(s: &[u8]) -> (r: Option<u64>)
    ensures
        match r {
            Some(n) => {
                &&& s@ == dec_digits(n as nat)
                &&& n < DEC_LIMIT
            },
            None => forall|n: u64| n < DEC_LIMIT ==> s@ != dec_digits(n as nat),
        },
{
    let len = s.len();
    if len == 0 || len > 19 {
        proof {
            lemma_none_case(s@);
        }
        return None;
    }
    if len > 1 && s[0] == DIGIT_ZERO {
        proof {
            lemma_none_case(s@);
        }
        return None;
    }
    let mut val: u64 = 0;
    let mut i: usize = 0;
    proof {
        assert(s@.subrange(0, 0) =~= Seq::<u8>::empty());
        lemma_pow10_increases(0, 19);
    }
    while i < len
        invariant
            0 <= i <= len,
            len == s@.len(),
            1 <= len <= 19,
            forall|k: int| 0 <= k < i ==> is_digit(#[trigger] s@[k]),
            val == dec_value(s@.subrange(0, i as int)),
            val < pow10(i as nat),
            pow10(i as nat) <= pow10(19),
        decreases len - i,
    {
        let b = s[i];
        if b < 0x30 || b > 0x39 {
            proof {
                lemma_none_case(s@);
            }
            return None;
        }
        proof {
            let pre = s@.subrange(0, i as int);
            let cur = s@.subrange(0, i + 1);
            assert(cur.drop_last() =~= pre);
            assert(cur.last() == s@[i as int]);
            lemma_dec_value_bound(cur);
            lemma_pow10_increases((i + 1) as nat, 19);
            lemma_dec_limit_is_pow10_19();
            assert(dec_value(cur) < pow10((i + 1) as nat));
        }
        val = val * 10 + ((b - 0x30) as u64);
        i += 1;
    }
    proof {
        assert(s@.subrange(0, len as int) =~= s@);
        assert(is_canonical_dec(s@));
        lemma_canonical_dec_inverse(s@);
        lemma_dec_value_bound(s@);
        lemma_pow10_increases(len as nat, 19);
        lemma_dec_limit_is_pow10_19();
    }
    Some(val)
}

/// A slice rejected by the structural checks is the decimal form of nothing.
proof fn lemma_none_case(s: Seq<u8>)
    requires
        !is_canonical_dec(s) || s.len() > 19,
    ensures
        forall|n: u64| n < DEC_LIMIT ==> s != dec_digits(n as nat),
{
    assert forall|n: u64| n < DEC_LIMIT implies s != dec_digits(n as nat) by {
        lemma_dec_digits_canonical(n as nat);
        lemma_dec_digits_len_le_19(n as nat);
    }
}

} // verus!
