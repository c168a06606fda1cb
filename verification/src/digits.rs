//! Decimal digit strings: their mathematical value, bounds, and a verified
//! parser for 64-bit unsigned decimal numerals.

use vstd::prelude::*;

verus! {

/// `c` is an ASCII decimal digit.
pub open spec fn is_dec_digit(c: char) -> bool {
    48 <= c as u32 && c as u32 <= 57
}

/// Numeric value of a decimal digit character.
pub open spec fn digit_val(c: char) -> nat {
    ((c as u32) - 48) as nat
}

/// Every character of `s` is a decimal digit.
pub open spec fn all_dec_digits(s: Seq<char>) -> bool {
    forall|i: int| 0 <= i < s.len() ==> is_dec_digit(#[trigger] s[i])
}

/// Value of a digit string read most significant first; empty reads as zero.
pub open spec fn dec_val(s: Seq<char>) -> nat
    decreases s.len(),
{
    if s.len() == 0 {
        0
    } else {
        dec_val(s.drop_last()) * 10 + digit_val(s.last())
    }
}

/// Ten to the power `n`.
pub open spec fn pow10(n: nat) -> nat
    decreases n,
{
    if n == 0 {
        1
    } else {
        pow10((n - 1) as nat) * 10
    }
}

pub proof fn lemma_pow10_adds(a: nat, b: nat)
    ensures
        pow10(a + b) == pow10(a) * pow10(b),
    decreases b,
{
    if b == 0 {
        assert(pow10(a + 0) == pow10(a));
        assert(pow10(0) == 1);
    } else {
        lemma_pow10_adds(a, (b - 1) as nat);
        let p = pow10(a);
        let q = pow10((b - 1) as nat);
        assert(pow10(a + b) == pow10((a + b - 1) as nat) * 10);
        assert(pow10((a + b - 1) as nat) == p * q);
        assert(pow10(b) == q * 10);
        vstd::arithmetic::mul::lemma_mul_is_associative(p as int, q as int, 10);
    }
}

pub proof fn lemma_pow10_le(a: nat, b: nat)
    requires
        a <= b,
    ensures
        pow10(a) <= pow10(b),
    decreases b,
{
    if a < b {
        lemma_pow10_le(a, (b - 1) as nat);
    }
}

/// A digit string's value is below ten to its length.
pub proof fn lemma_dec_val_bound(s: Seq<char>)
    requires
        all_dec_digits(s),
    ensures
        dec_val(s) < pow10(s.len()),
    decreases s.len(),
{
    if s.len() == 0 {
    } else {
        assert(all_dec_digits(s.drop_last())) by {
            assert(forall|i: int|
                0 <= i < s.len() - 1 ==> #[trigger] s.drop_last()[i] == s[i]);
        }
        lemma_dec_val_bound(s.drop_last());
        assert(digit_val(s.last()) <= 9);
        assert(dec_val(s.drop_last()) * 10 + 9 < pow10((s.len() - 1) as nat) * 10) by (
        nonlinear_arith)
            requires
                dec_val(s.drop_last()) < pow10((s.len() - 1) as nat),
        ;
    }
}

/// A prefix of a digit string never exceeds the whole string's value.
pub proof fn lemma_dec_val_prefix_le(s: Seq<char>, k: int)
    requires
        0 <= k <= s.len(),
    ensures
        dec_val(s.take(k)) <= dec_val(s),
    decreases s.len(),
{
    if k == s.len() {
        assert(s.take(k) =~= s);
    } else {
        assert(s.drop_last().take(k) =~= s.take(k));
        lemma_dec_val_prefix_le(s.drop_last(), k);
        assert(dec_val(s.drop_last()) <= dec_val(s.drop_last()) * 10 + digit_val(s.last()));
    }
}

/// Parses a decimal numeral into a `u64`.  Returns `Some` exactly when the
/// string is nonempty, all digits, and its value fits in 64 bits.
pub fn parse_u64_dec(s: &str) -> (r: Option<u64>)
    ensures
        match r {
            Some(v) => s@.len() > 0 && all_dec_digits(s@) && v as nat == dec_val(s@) && dec_val(s@)
                < 0x10000000000000000,
            None => !(s@.len() > 0 && all_dec_digits(s@) && dec_val(s@) < 0x10000000000000000),
        },
{
    let n = s.unicode_len();
    if n == 0 {
        return None;
    }
    let mut acc: u64 = 0;
    let mut i: usize = 0;
    while i < n
        invariant
            0 <= i <= n,
            n == s@.len(),
            all_dec_digits(s@.take(i as int)),
            acc as nat == dec_val(s@.take(i as int)),
        decreases n - i,
    {
        let c = s.get_char(i);
        let u = c as u32;
        if u < 48 || u > 57 {
            return None;
        }
        let d: u64 = ((u - 48) as u64);
        let t: u128 = (acc as u128) * 10 + (d as u128);
        proof {
            assert(s@.take(i + 1).drop_last() =~= s@.take(i as int));
            assert(s@.take(i + 1).last() == s@[i as int]);
            assert(dec_val(s@.take(i + 1)) == (acc as nat) * 10 + d);
        }
        if t > 0xffffffffffffffff {
            proof {
                lemma_dec_val_prefix_le(s@, i + 1);
            }
            return None;
        }
        acc = t as u64;
        i = i + 1;
    }
    proof {
        assert(s@.take(n as int) =~= s@);
    }
    Some(acc)
}

} // verus!
