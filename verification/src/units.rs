//! Fixed-point token amounts with 18 decimal places, parsed from decimal
//! text such as `0.1` or `1_000.25`.  Underscores are ignored, the fraction
//! is truncated after 18 digits, and the result scales into integer units.

use vstd::prelude::*;
use crate::amount::{u256_bound, Uint256};
use crate::digits::{
    all_dec_digits, dec_val, digit_val, is_dec_digit, lemma_dec_val_bound,
    lemma_dec_val_prefix_le, lemma_pow10_adds, lemma_pow10_le, pow10,
};

verus! {

/// One whole token in integer units: ten to the eighteenth power.
pub const UNITS_PER_TOKEN: u64 = 1000000000000000000;

pub proof fn lemma_pow10_18()
    ensures
        pow10(18) == 1000000000000000000,
{
    reveal_with_fuel(pow10, 19);
}

/// The text with every underscore removed.
pub open spec fn strip_underscores(s: Seq<char>) -> Seq<char> {
    s.filter(|c: char| c != '_')
}

/// The characters before the first dot.
pub open spec fn int_digits(t: Seq<char>) -> Seq<char>
    decreases t.len(),
{
    if t.len() == 0 {
        Seq::empty()
    } else if t[0] == '.' {
        Seq::empty()
    } else {
        seq![t[0]] + int_digits(t.skip(1))
    }
}

/// The characters after the first dot; empty when there is no dot.
pub open spec fn frac_digits(t: Seq<char>) -> Seq<char>
    decreases t.len(),
{
    if t.len() == 0 {
        Seq::empty()
    } else if t[0] == '.' {
        t.skip(1)
    } else {
        frac_digits(t.skip(1))
    }
}

/// The fraction kept: at most its first 18 characters.
pub open spec fn frac18(t: Seq<char>) -> Seq<char> {
    let f = frac_digits(t);
    if f.len() <= 18 {
        f
    } else {
        f.take(18)
    }
}

/// The text denotes an 18-decimal amount: after stripping underscores, the
/// part before the first dot and the kept fraction are all decimal digits,
/// and together they are nonempty.
pub open spec fn units18_valid(s: Seq<char>) -> bool {
    let t = strip_underscores(s);
    all_dec_digits(int_digits(t)) && all_dec_digits(frac18(t)) && int_digits(t).len() + frac18(
        t,
    ).len() > 0
}

/// The amount the text denotes, in integer units of 10^-18 tokens.
pub open spec fn units18_val(s: Seq<char>) -> nat {
    let t = strip_underscores(s);
    dec_val(int_digits(t)) * pow10(18) + dec_val(frac18(t)) * pow10((18 - frac18(t).len()) as nat)
}

/// Splitting at the first dot: if no character before `i` is a dot and `t[i]`
/// is one, the integer part is `t.take(i)` and the fraction is `t.skip(i+1)`;
/// if `t` has no dot at all, the whole of `t` is the integer part.
proof fn lemma_split_at_dot(t: Seq<char>, i: int)
    requires
        0 <= i <= t.len(),
        forall|j: int| 0 <= j < i ==> t[j] != '.',
        i < t.len() ==> t[i] == '.',
        i == t.len() ==> forall|j: int| 0 <= j < t.len() ==> t[j] != '.',
    ensures
        i < t.len() ==> int_digits(t) =~= t.take(i) && frac_digits(t) =~= t.skip(i + 1),
        i == t.len() ==> int_digits(t) =~= t && frac_digits(t) =~= Seq::<char>::empty(),
    decreases t.len(),
{
    if t.len() == 0 {
    } else if i == 0 {
        if i < t.len() {
            assert(t[0] == '.');
            assert(int_digits(t) =~= t.take(0));
            assert(frac_digits(t) =~= t.skip(1));
        }
    } else {
        assert(t[0] != '.');
        lemma_split_at_dot(t.skip(1), i - 1);
        if i < t.len() {
            assert(seq![t[0]] + t.skip(1).take(i - 1) =~= t.take(i));
            assert(t.skip(1).skip(i) =~= t.skip(i + 1));
        } else {
            assert(seq![t[0]] + t.skip(1) =~= t);
        }
    }
}

/// Index of the first dot in `v`, or its length when it has none.
fn find_dot(v: &Vec<char>) -> (r: usize)
    ensures
        0 <= r <= v@.len(),
        forall|j: int| 0 <= j < r ==> v@[j] != '.',
        r < v@.len() ==> v@[r as int] == '.',
{
    let mut j: usize = 0;
    while j < v.len()
        invariant
            0 <= j <= v@.len(),
            forall|k: int| 0 <= k < j ==> v@[k] != '.',
        decreases v@.len() - j,
    {
        if v[j] == '.' {
            return j;
        }
        j = j + 1;
    }
    j
}

/// Ten to the power `k`, for `k` at most 18.
pub(crate) fn pow10_u64(k: usize) -> (r: u64)
    requires
        k <= 18,
    ensures
        r as nat == pow10(k as nat),
{
    let mut r: u64 = 1;
    let mut j: usize = 0;
    while j < k
        invariant
            0 <= j <= k <= 18,
            r as nat == pow10(j as nat),
        decreases k - j,
    {
        proof {
            lemma_pow10_le(j as nat, 17);
            reveal_with_fuel(pow10, 19);
        }
        r = r * 10;
        j = j + 1;
    }
    r
}

/// Parses an amount of tokens written with up to 18 decimal places into
/// integer units.  Returns `Some` exactly when the text is a valid amount
/// whose value in units fits in 256 bits.
#[verifier::rlimit(100)]
pub fn parse_units18(s: &str) -> (r: Option<Uint256>)
    ensures
        match r {
            Some(v) => units18_valid(s@) && units18_val(s@) < u256_bound() && v.as_nat()
                == units18_val(s@),
            None => !(units18_valid(s@) && units18_val(s@) < u256_bound()),
        },
{
    let n = s.unicode_len();
    // Strip underscores.
    let mut v: Vec<char> = Vec::new();
    let mut i: usize = 0;
    while i < n
        invariant
            0 <= i <= n,
            n == s@.len(),
            v@ == strip_underscores(s@.take(i as int)),
        decreases n - i,
    {
        let c = s.get_char(i);
        proof {
            reveal_with_fuel(Seq::<char>::filter, 2);
            assert(s@.take(i + 1).drop_last() =~= s@.take(i as int));
            assert(s@.take(i + 1).last() == s@[i as int]);
            if s@[i as int] != '_' {
                assert(strip_underscores(s@.take(i + 1)) =~= strip_underscores(
                    s@.take(i as int),
                ).push(s@[i as int]));
            } else {
                assert(strip_underscores(s@.take(i + 1)) =~= strip_underscores(s@.take(i as int)));
            }
        }
        if c != '_' {
            v.push(c);
        }
        i = i + 1;
    }
    proof {
        assert(s@.take(n as int) =~= s@);
    }
    let ghost t = strip_underscores(s@);
    let m = v.len();
    // Split at the first dot.
    let di = find_dot(&v);
    proof {
        lemma_split_at_dot(t, di as int);
    }
    let ghost ip = int_digits(t);
    let ghost fd = frac_digits(t);
    let flen_all: usize = if di < m {
        m - di - 1
    } else {
        0
    };
    let flen: usize = if flen_all <= 18 {
        flen_all
    } else {
        18
    };
    let fstart: usize = if di < m {
        di + 1
    } else {
        m
    };
    let ghost f18 = frac18(t);
    proof {
        assert(ip =~= v@.take(di as int));
        if di < m {
            assert(fd =~= v@.skip(di + 1));
        } else {
            assert(fd =~= Seq::<char>::empty());
        }
        if fd.len() <= 18 {
            assert(f18 =~= fd);
        } else {
            assert(f18 =~= fd.take(18));
        }
        assert(f18.len() == flen);
    }
    if di == 0 && flen == 0 {
        // Neither an integer part nor a kept fraction: not a numeral.
        return None;
    }
    // Integer part.
    let mut acc = Uint256::zero();
    let mut k: usize = 0;
    while k < di
        invariant
            0 <= k <= di <= m,
            m == v@.len(),
            t == v@,
            t == strip_underscores(s@),
            ip == int_digits(t),
            ip =~= v@.take(di as int),
            all_dec_digits(ip.take(k as int)),
            acc.as_nat() == dec_val(ip.take(k as int)),
        decreases di - k,
    {
        let c = v[k];
        proof {
            assert(ip[k as int] == v@[k as int]);
        }
        let u = c as u32;
        if u < 48 || u > 57 {
            proof {
                assert(int_digits(strip_underscores(s@))[k as int] == ip[k as int]);
                assert(!is_dec_digit(ip[k as int]));
                assert(!all_dec_digits(int_digits(strip_underscores(s@))));
            }
            return None;
        }
        let d: u64 = (u - 48) as u64;
        proof {
            assert(ip.take(k + 1).drop_last() =~= ip.take(k as int));
            assert(ip.take(k + 1).last() == ip[k as int]);
            assert(dec_val(ip.take(k + 1)) == acc.as_nat() * 10 + d);
            assert(ip.len() == di as int);
        }
        let acc10 = match acc.checked_mul_u64(10) {
            Some(x) => x,
            None => {
                proof {
                    assert(dec_val(ip.take(k + 1)) >= u256_bound());
                    lemma_overflowing_int_part(s@, k + 1);
                }
                return None;
            },
        };
        let acc2 = match acc10.checked_add_u64(d) {
            Some(x) => x,
            None => {
                proof {
                    assert(dec_val(ip.take(k + 1)) >= u256_bound());
                    lemma_overflowing_int_part(s@, k + 1);
                }
                return None;
            },
        };
        acc = acc2;
        k = k + 1;
    }
    proof {
        assert(ip.take(di as int) =~= ip);
    }
    // Kept fraction.
    let mut facc: u64 = 0;
    let mut k2: usize = 0;
    while k2 < flen
        invariant
            0 <= k2 <= flen <= 18,
            flen == f18.len(),
            m == v@.len(),
            t == v@,
            t == strip_underscores(s@),
            f18 == frac18(t),
            fstart + flen <= m,
            forall|j: int| 0 <= j < f18.len() ==> f18[j] == v@[fstart + j],
            all_dec_digits(f18.take(k2 as int)),
            facc as nat == dec_val(f18.take(k2 as int)),
        decreases flen - k2,
    {
        let c = v[fstart + k2];
        proof {
            assert(f18[k2 as int] == v@[fstart + k2]);
        }
        let u = c as u32;
        if u < 48 || u > 57 {
            proof {
                assert(frac18(strip_underscores(s@))[k2 as int] == f18[k2 as int]);
                assert(!is_dec_digit(f18[k2 as int]));
                assert(!all_dec_digits(frac18(strip_underscores(s@))));
            }
            return None;
        }
        let d: u64 = (u - 48) as u64;
        proof {
            assert(f18.take(k2 + 1).drop_last() =~= f18.take(k2 as int));
            assert(f18.take(k2 + 1).last() == f18[k2 as int]);
            assert(dec_val(f18.take(k2 + 1)) == (facc as nat) * 10 + d);
            lemma_dec_val_bound(f18.take(k2 + 1));
            lemma_pow10_le((k2 + 1) as nat, 18);
            lemma_pow10_18();
        }
        facc = facc * 10 + d;
        k2 = k2 + 1;
    }
    proof {
        assert(f18.take(flen as int) =~= f18);
    }
    // Scale and combine.
    let scale = pow10_u64(18 - flen);
    proof {
        lemma_dec_val_bound(f18);
        lemma_pow10_adds(flen as nat, (18 - flen) as nat);
        lemma_pow10_18();
        assert((facc as nat) * (scale as nat) + (scale as nat) <= pow10(18)) by (nonlinear_arith)
            requires
                (facc as nat) < pow10(flen as nat),
                scale as nat == pow10((18 - flen) as nat),
                pow10(flen as nat) * pow10((18 - flen) as nat) == pow10(18),
        ;
    }
    let fscaled: u64 = facc * scale;
    let int_scaled = match acc.checked_mul_u64(UNITS_PER_TOKEN) {
        Some(x) => x,
        None => {
            return None;
        },
    };
    match int_scaled.checked_add_u64(fscaled) {
        Some(total) => Some(total),
        None => None,
    }
}

/// If a prefix of the integer digits already exceeds the 256-bit range, so
/// does the whole amount.
proof fn lemma_overflowing_int_part(s: Seq<char>, k: int)
    requires
        0 <= k <= int_digits(strip_underscores(s)).len(),
        dec_val(int_digits(strip_underscores(s)).take(k)) >= u256_bound(),
    ensures
        units18_val(s) >= u256_bound(),
{
    let ip = int_digits(strip_underscores(s));
    lemma_dec_val_prefix_le(ip, k);
    lemma_pow10_18();
    assert(dec_val(ip) * pow10(18) >= dec_val(ip)) by (nonlinear_arith)
        requires
            pow10(18) >= 1,
    ;
}

} // verus!
