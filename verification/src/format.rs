//! Rendering amounts as decimal text with 18 decimal places, for progress
//! output: the integer part, a dot, then exactly 18 fraction digits.

use vstd::prelude::*;
use crate::amount::Uint256;
use crate::digits::{all_dec_digits, dec_val, digit_val, is_dec_digit, lemma_pow10_le, pow10};
use crate::units::{lemma_pow10_18, pow10_u64, UNITS_PER_TOKEN};

verus! {

/// The character for one decimal digit.
pub open spec fn digit_char(d: nat) -> char {
    if d == 0 {
        '0'
    } else if d == 1 {
        '1'
    } else if d == 2 {
        '2'
    } else if d == 3 {
        '3'
    } else if d == 4 {
        '4'
    } else if d == 5 {
        '5'
    } else if d == 6 {
        '6'
    } else if d == 7 {
        '7'
    } else if d == 8 {
        '8'
    } else {
        '9'
    }
}

/// Decimal digits of `n`, most significant first, without leading zeros
/// except for `n` zero itself.
pub open spec fn dec_str_of(n: nat) -> Seq<char>
    decreases n,
{
    if n < 10 {
        seq![digit_char(n)]
    } else {
        dec_str_of(n / 10).push(digit_char(n % 10))
    }
}

/// The 18 fraction digits of `f`, zero padded on the left.
pub open spec fn frac18_str(f: nat) -> Seq<char> {
    Seq::new(18, |i: int| digit_char(f / pow10((17 - i) as nat) % 10))
}

/// `n` units rendered as tokens: integer part, dot, 18 fraction digits.
pub open spec fn format18(n: nat) -> Seq<char> {
    dec_str_of(n / pow10(18)) + seq!['.'] + frac18_str(n % pow10(18))
}

fn digit_char_exec(d: u64) -> (c: char)
    requires
        d < 10,
    ensures
        c == digit_char(d as nat),
{
    match d {
        0 => '0',
        1 => '1',
        2 => '2',
        3 => '3',
        4 => '4',
        5 => '5',
        6 => '6',
        7 => '7',
        8 => '8',
        _ => '9',
    }
}

/// Renders an amount of integer units as a token count with 18 decimal
/// places, as characters.
pub fn format_units18(v: &Uint256) -> (r: Vec<char>)
    ensures
        r@ == format18(v.as_nat()),
{
    proof {
        lemma_pow10_18();
    }
    let (q, rem) = v.div_rem_u64(UNITS_PER_TOKEN);
    let ghost n0 = q.as_nat();
    // Integer part, least significant digit first.
    let mut revd: Vec<char> = Vec::new();
    let mut cur = q;
    if cur.is_zero() {
        revd.push('0');
        proof {
            assert(revd@.reverse() =~= seq![digit_char(0)]);
        }
    } else {
        while !cur.is_zero()
            invariant
                cur.as_nat() > 0 ==> dec_str_of(n0) =~= dec_str_of(cur.as_nat())
                    + revd@.reverse(),
                cur.as_nat() == 0 ==> dec_str_of(n0) =~= revd@.reverse(),
            decreases cur.as_nat(),
        {
            let (nq, d) = cur.div_rem_u64(10);
            let c = digit_char_exec(d);
            proof {
                assert(revd@.push(c).reverse() =~= seq![c] + revd@.reverse());
                if cur.as_nat() < 10 {
                    assert(dec_str_of(cur.as_nat()) == seq![digit_char(cur.as_nat())]);
                    assert(d as nat == cur.as_nat());
                } else {
                    assert(dec_str_of(cur.as_nat()) == dec_str_of(nq.as_nat()).push(
                        digit_char(d as nat),
                    ));
                    assert(dec_str_of(nq.as_nat()).push(c) =~= dec_str_of(nq.as_nat())
                        + seq![c]);
                    assert((dec_str_of(nq.as_nat()) + seq![c]) + revd@.reverse()
                        =~= dec_str_of(nq.as_nat()) + (seq![c] + revd@.reverse()));
                }
            }
            revd.push(c);
            cur = nq;
        }
    }
    // Most significant digit first.
    let k = revd.len();
    let mut out: Vec<char> = Vec::new();
    let mut i: usize = 0;
    while i < k
        invariant
            0 <= i <= k,
            k == revd@.len(),
            out@.len() == i,
            forall|j: int| 0 <= j < i ==> out@[j] == revd@[k - 1 - j],
        decreases k - i,
    {
        out.push(revd[k - 1 - i]);
        i = i + 1;
    }
    proof {
        assert(out@ =~= revd@.reverse());
    }
    out.push('.');
    let ghost head = dec_str_of(n0) + seq!['.'];
    proof {
        assert(out@ =~= head);
    }
    // Exactly 18 fraction digits, zero padded.
    let mut i2: usize = 0;
    while i2 < 18
        invariant
            0 <= i2 <= 18,
            rem < 1000000000000000000,
            head == dec_str_of(n0) + seq!['.'],
            out@ =~= head + frac18_str(rem as nat).take(i2 as int),
        decreases 18 - i2,
    {
        let p = pow10_u64(17 - i2);
        proof {
            lemma_pow10_le(0, (17 - i2) as nat);
        }
        let d = (rem / p) % 10;
        let c = digit_char_exec(d);
        proof {
            assert(frac18_str(rem as nat)[i2 as int] == digit_char(
                (rem as nat) / pow10((17 - i2) as nat) % 10,
            ));
            assert(out@.push(c) =~= head + frac18_str(rem as nat).take(i2 + 1));
        }
        out.push(c);
        i2 = i2 + 1;
    }
    proof {
        assert(frac18_str(rem as nat).take(18) =~= frac18_str(rem as nat));
        assert(out@ =~= format18(v.as_nat()));
    }
    out
}


/// Every digit character the renderer emits is a decimal digit and reads
/// back to the digit it was made from.
pub proof fn lemma_digit_char_val(d: nat)
    requires
        d < 10,
    ensures
        is_dec_digit(digit_char(d)),
        digit_val(digit_char(d)) == d,
{
}

/// Rendering an integer and reading the digits back is the identity: the
/// decimal text of `n` is all digits and its value is `n`.
pub proof fn lemma_dec_str_of_val(n: nat)
    ensures
        all_dec_digits(dec_str_of(n)),
        dec_val(dec_str_of(n)) == n,
    decreases n,
{
    if n < 10 {
        lemma_digit_char_val(n);
        assert(seq![digit_char(n)].drop_last() =~= Seq::<char>::empty());
        assert(seq![digit_char(n)].last() == digit_char(n));
        assert(dec_val(Seq::<char>::empty()) == 0);
        assert(dec_val(seq![digit_char(n)]) == digit_val(digit_char(n)));
        assert(forall|i: int|
            0 <= i < 1 ==> is_dec_digit(#[trigger] seq![digit_char(n)][i]));
    } else {
        lemma_dec_str_of_val(n / 10);
        lemma_digit_char_val(n % 10);
        let s = dec_str_of(n / 10);
        let c = digit_char(n % 10);
        assert(dec_str_of(n) == s.push(c));
        assert(s.push(c).drop_last() =~= s);
        assert(s.push(c).last() == c);
        assert(dec_val(dec_str_of(n)) == dec_val(s) * 10 + digit_val(c));
        assert(forall|i: int| 0 <= i < s.len() ==> #[trigger] s.push(c)[i] == s[i]);
        assert(forall|i: int|
            0 <= i < s.push(c).len() ==> is_dec_digit(#[trigger] s.push(c)[i]));
    }
}

} // verus!
