//! Unsigned 256-bit token amounts, stored as four 64-bit limbs, and the
//! slippage arithmetic applied to quoted swap outputs.

use vstd::prelude::*;

verus! {

/// One basis point is 0.01%; a whole is 10000 basis points.
pub const BASIS_POINTS: u64 = 10000;

/// First integer that does not fit in 256 bits (2^256).
pub open spec fn u256_bound() -> nat {
    0x10000000000000000000000000000000000000000000000000000000000000000nat
}

/// An unsigned 256-bit integer: `l0` is the least significant limb.
#[derive(Clone, Copy, PartialEq, Eq, Structural, Debug)]
pub struct Uint256 {
    pub l0: u64,
    pub l1: u64,
    pub l2: u64,
    pub l3: u64,
}

impl Uint256 {
    /// The mathematical value of this amount.
    pub open spec fn as_nat(&self) -> nat {
        (self.l0 as nat) + (self.l1 as nat) * 0x10000000000000000
            + (self.l2 as nat) * 0x100000000000000000000000000000000nat
            + (self.l3 as nat) * 0x1000000000000000000000000000000000000000000000000nat
    }

    pub proof fn lemma_as_nat_bound(&self)
        ensures
            self.as_nat() < u256_bound(),
    {
    }

    pub fn zero() -> (r: Uint256)
        ensures
            r.as_nat() == 0,
    {
        Uint256 { l0: 0, l1: 0, l2: 0, l3: 0 }
    }

    pub fn from_u64(x: u64) -> (r: Uint256)
        ensures
            r.as_nat() == x,
    {
        Uint256 { l0: x, l1: 0, l2: 0, l3: 0 }
    }

    pub fn from_u128(x: u128) -> (r: Uint256)
        ensures
            r.as_nat() == x,
    {
        let lo: u64 = (x % 0x10000000000000000) as u64;
        let hi: u64 = (x / 0x10000000000000000) as u64;
        Uint256 { l0: lo, l1: hi, l2: 0, l3: 0 }
    }

    pub fn from_limbs(l0: u64, l1: u64, l2: u64, l3: u64) -> (r: Uint256)
        ensures
            r == (Uint256 { l0, l1, l2, l3 }),
    {
        Uint256 { l0, l1, l2, l3 }
    }

    pub fn is_zero(&self) -> (r: bool)
        ensures
            r <==> self.as_nat() == 0,
    {
        self.l0 == 0 && self.l1 == 0 && self.l2 == 0 && self.l3 == 0
    }

    /// Sum with a 64-bit value; `None` exactly when the sum does not fit.
    pub fn checked_add_u64(&self, a: u64) -> (r: Option<Uint256>)
        ensures
            match r {
                Some(v) => v.as_nat() == self.as_nat() + a && self.as_nat() + a < u256_bound(),
                None => self.as_nat() + a >= u256_bound(),
            },
    {
        let s0: u128 = (self.l0 as u128) + (a as u128);
        let r0: u64 = (s0 % 0x10000000000000000) as u64;
        let c0: u64 = (s0 / 0x10000000000000000) as u64;
        let s1: u128 = (self.l1 as u128) + (c0 as u128);
        let r1: u64 = (s1 % 0x10000000000000000) as u64;
        let c1: u64 = (s1 / 0x10000000000000000) as u64;
        let s2: u128 = (self.l2 as u128) + (c1 as u128);
        let r2: u64 = (s2 % 0x10000000000000000) as u64;
        let c2: u64 = (s2 / 0x10000000000000000) as u64;
        let s3: u128 = (self.l3 as u128) + (c2 as u128);
        let r3: u64 = (s3 % 0x10000000000000000) as u64;
        let c3: u64 = (s3 / 0x10000000000000000) as u64;
        let v = Uint256 { l0: r0, l1: r1, l2: r2, l3: r3 };
        proof {
            assert(s0 as nat == (c0 as nat) * 0x10000000000000000 + r0 as nat);
            assert(s1 as nat == (c1 as nat) * 0x10000000000000000 + r1 as nat);
            assert(s2 as nat == (c2 as nat) * 0x10000000000000000 + r2 as nat);
            assert(s3 as nat == (c3 as nat) * 0x10000000000000000 + r3 as nat);
            assert(v.as_nat() + (c3 as nat)
                * 0x10000000000000000000000000000000000000000000000000000000000000000nat == self.as_nat()
                + a as nat);
        }
        if c3 == 0 {
            Some(v)
        } else {
            None
        }
    }

    /// Product with a 64-bit value; `None` exactly when the product does not fit.
    pub fn checked_mul_u64(&self, m: u64) -> (r: Option<Uint256>)
        ensures
            match r {
                Some(v) => v.as_nat() == self.as_nat() * m && self.as_nat() * m < u256_bound(),
                None => self.as_nat() * m >= u256_bound(),
            },
    {
        let mw: u128 = m as u128;
        proof {
            lemma_mul_u64_fits(self.l0, m);
            lemma_mul_u64_fits(self.l1, m);
            lemma_mul_u64_fits(self.l2, m);
            lemma_mul_u64_fits(self.l3, m);
        }
        let p0: u128 = (self.l0 as u128) * mw;
        let r0: u64 = (p0 % 0x10000000000000000) as u64;
        let c0: u64 = (p0 / 0x10000000000000000) as u64;
        let p1: u128 = (self.l1 as u128) * mw + (c0 as u128);
        let r1: u64 = (p1 % 0x10000000000000000) as u64;
        let c1: u64 = (p1 / 0x10000000000000000) as u64;
        let p2: u128 = (self.l2 as u128) * mw + (c1 as u128);
        let r2: u64 = (p2 % 0x10000000000000000) as u64;
        let c2: u64 = (p2 / 0x10000000000000000) as u64;
        let p3: u128 = (self.l3 as u128) * mw + (c2 as u128);
        let r3: u64 = (p3 % 0x10000000000000000) as u64;
        let c3: u64 = (p3 / 0x10000000000000000) as u64;
        let v = Uint256 { l0: r0, l1: r1, l2: r2, l3: r3 };
        proof {
            assert(p0 as nat == (c0 as nat) * 0x10000000000000000 + r0 as nat);
            assert(p1 as nat == (c1 as nat) * 0x10000000000000000 + r1 as nat);
            assert(p2 as nat == (c2 as nat) * 0x10000000000000000 + r2 as nat);
            assert(p3 as nat == (c3 as nat) * 0x10000000000000000 + r3 as nat);
            assert(v.as_nat() + (c3 as nat)
                * 0x10000000000000000000000000000000000000000000000000000000000000000nat == self.as_nat()
                * (m as nat)) by (nonlinear_arith)
                requires
                    p0 as nat == (self.l0 as nat) * (m as nat),
                    p1 as nat == (self.l1 as nat) * (m as nat) + c0 as nat,
                    p2 as nat == (self.l2 as nat) * (m as nat) + c1 as nat,
                    p3 as nat == (self.l3 as nat) * (m as nat) + c2 as nat,
                    p0 as nat == (c0 as nat) * 0x10000000000000000 + r0 as nat,
                    p1 as nat == (c1 as nat) * 0x10000000000000000 + r1 as nat,
                    p2 as nat == (c2 as nat) * 0x10000000000000000 + r2 as nat,
                    p3 as nat == (c3 as nat) * 0x10000000000000000 + r3 as nat,
                    v.as_nat() == (r0 as nat) + (r1 as nat) * 0x10000000000000000 + (r2 as nat)
                        * 0x100000000000000000000000000000000nat + (r3 as nat)
                        * 0x1000000000000000000000000000000000000000000000000nat,
                    self.as_nat() == (self.l0 as nat) + (self.l1 as nat) * 0x10000000000000000 + (
                    self.l2 as nat) * 0x100000000000000000000000000000000nat + (self.l3 as nat)
                        * 0x1000000000000000000000000000000000000000000000000nat,
            ;
        }
        if c3 == 0 {
            proof {
                v.lemma_as_nat_bound();
            }
            Some(v)
        } else {
            None
        }
    }

    /// Quotient and remainder by a nonzero 64-bit divisor.
    pub fn div_rem_u64(&self, d: u64) -> (r: (Uint256, u64))
        requires
            d >= 1,
        ensures
            r.0.as_nat() == self.as_nat() / d as nat,
            r.1 as nat == self.as_nat() % d as nat,
    {
        let dw: u128 = d as u128;
        let cur3: u128 = self.l3 as u128;
        let q3: u64 = (cur3 / dw) as u64;
        let m3: u64 = (cur3 % dw) as u64;
        proof {
            lemma_partial_div_fits(m3, self.l2, d);
        }
        let cur2: u128 = (m3 as u128) * 0x10000000000000000 + (self.l2 as u128);
        let q2: u64 = (cur2 / dw) as u64;
        let m2: u64 = (cur2 % dw) as u64;
        proof {
            lemma_partial_div_fits(m2, self.l1, d);
        }
        let cur1: u128 = (m2 as u128) * 0x10000000000000000 + (self.l1 as u128);
        let q1: u64 = (cur1 / dw) as u64;
        let m1: u64 = (cur1 % dw) as u64;
        proof {
            lemma_partial_div_fits(m1, self.l0, d);
        }
        let cur0: u128 = (m1 as u128) * 0x10000000000000000 + (self.l0 as u128);
        let q0: u64 = (cur0 / dw) as u64;
        let m0: u64 = (cur0 % dw) as u64;
        let q = Uint256 { l0: q0, l1: q1, l2: q2, l3: q3 };
        proof {
            assert(cur3 as nat == (q3 as nat) * (d as nat) + m3 as nat) by (nonlinear_arith)
                requires
                    d >= 1,
                    q3 as nat == (cur3 as nat) / (d as nat),
                    m3 as nat == (cur3 as nat) % (d as nat),
            ;
            assert(cur2 as nat == (q2 as nat) * (d as nat) + m2 as nat) by (nonlinear_arith)
                requires
                    d >= 1,
                    q2 as nat == (cur2 as nat) / (d as nat),
                    m2 as nat == (cur2 as nat) % (d as nat),
            ;
            assert(cur1 as nat == (q1 as nat) * (d as nat) + m1 as nat) by (nonlinear_arith)
                requires
                    d >= 1,
                    q1 as nat == (cur1 as nat) / (d as nat),
                    m1 as nat == (cur1 as nat) % (d as nat),
            ;
            assert(cur0 as nat == (q0 as nat) * (d as nat) + m0 as nat) by (nonlinear_arith)
                requires
                    d >= 1,
                    q0 as nat == (cur0 as nat) / (d as nat),
                    m0 as nat == (cur0 as nat) % (d as nat),
            ;
            assert(self.as_nat() == q.as_nat() * (d as nat) + m0 as nat) by (nonlinear_arith)
                requires
                    cur3 as nat == (q3 as nat) * (d as nat) + m3 as nat,
                    cur2 as nat == (q2 as nat) * (d as nat) + m2 as nat,
                    cur1 as nat == (q1 as nat) * (d as nat) + m1 as nat,
                    cur0 as nat == (q0 as nat) * (d as nat) + m0 as nat,
                    cur3 as nat == self.l3 as nat,
                    cur2 as nat == (m3 as nat) * 0x10000000000000000 + self.l2 as nat,
                    cur1 as nat == (m2 as nat) * 0x10000000000000000 + self.l1 as nat,
                    cur0 as nat == (m1 as nat) * 0x10000000000000000 + self.l0 as nat,
                    q.as_nat() == (q0 as nat) + (q1 as nat) * 0x10000000000000000 + (q2 as nat)
                        * 0x100000000000000000000000000000000nat + (q3 as nat)
                        * 0x1000000000000000000000000000000000000000000000000nat,
                    self.as_nat() == (self.l0 as nat) + (self.l1 as nat) * 0x10000000000000000 + (
                    self.l2 as nat) * 0x100000000000000000000000000000000nat + (self.l3 as nat)
                        * 0x1000000000000000000000000000000000000000000000000nat,
            ;
            vstd::arithmetic::div_mod::lemma_fundamental_div_mod_converse(
                self.as_nat() as int,
                d as int,
                q.as_nat() as int,
                m0 as int,
            );
        }
        (q, m0)
    }
}

/// The product of two 64-bit values fits in 128 bits.
proof fn lemma_mul_u64_fits(a: u64, b: u64)
    ensures
        (a as nat) * (b as nat) <= 0xfffffffffffffffe0000000000000001nat,
{
    assert((a as nat) * (b as nat) <= 0xffffffffffffffff * 0xffffffffffffffff)
        by (nonlinear_arith)
        requires
            (a as nat) <= 0xffffffffffffffff,
            (b as nat) <= 0xffffffffffffffff,
    ;
}

/// A long-division step `rem * 2^64 + limb` stays under `d * 2^64`,
/// so its quotient by `d` fits in 64 bits.
proof fn lemma_partial_div_fits(rem: u64, limb: u64, d: u64)
    requires
        d >= 1,
        rem < d,
    ensures
        ((rem as nat) * 0x10000000000000000 + limb as nat) < (d as nat) * 0x10000000000000000,
        ((rem as nat) * 0x10000000000000000 + limb as nat) / (d as nat) < 0x10000000000000000,
{
    let c: nat = ((rem as nat) * 0x10000000000000000 + limb as nat);
    assert(c < (d as nat) * 0x10000000000000000) by (nonlinear_arith)
        requires
            rem < d,
            (limb as nat) < 0x10000000000000000,
            c == (rem as nat) * 0x10000000000000000 + limb as nat,
    ;
    assert(c / (d as nat) < 0x10000000000000000) by (nonlinear_arith)
        requires
            d >= 1,
            c < (d as nat) * 0x10000000000000000,
    ;
}

/// Floor of `q` reduced by `bps` basis points: `q * (10000 - bps) / 10000`.
pub open spec fn min_out_spec(q: nat, bps: nat) -> nat
    recommends
        bps <= 10000,
{
    q * ((10000 - bps) as nat) / 10000
}

/// Minimum acceptable output for a quoted output `amount` under a slippage
/// tolerance of `slippage_bps` basis points, by floor division.
pub fn apply_slippage(amount: &Uint256, slippage_bps: u64) -> (r: Uint256)
    requires
        slippage_bps <= BASIS_POINTS,
        amount.as_nat() * ((10000 - slippage_bps) as nat) < u256_bound(),
    ensures
        r.as_nat() == min_out_spec(amount.as_nat(), slippage_bps as nat),
{
    let factor: u64 = BASIS_POINTS - slippage_bps;
    let prod = match amount.checked_mul_u64(factor) {
        Some(p) => p,
        None => {
            proof {
                assert(false);
            }
            Uint256 { l0: 0, l1: 0, l2: 0, l3: 0 }
        },
    };
    let (q, _rem) = prod.div_rem_u64(BASIS_POINTS);
    q
}

/// With no slippage tolerance the minimum output is the quote itself.
pub proof fn lemma_slippage_zero_keeps_quote(q: nat)
    ensures
        min_out_spec(q, 0) == q,
{
    assert(q * 10000 / 10000 == q) by (nonlinear_arith);
}

/// With the full tolerance of 10000 basis points the minimum output is zero.
pub proof fn lemma_slippage_full_gives_zero(q: nat)
    ensures
        min_out_spec(q, 10000) == 0,
{
    assert(q * 0 == 0) by (nonlinear_arith);
}

} // verus!
