use crate::bignum::{big_le, big_power, lemma_pow_next, limb};
use vstd::arithmetic::power::{lemma_pow0, lemma_pow1, lemma_pow_adds, lemma_pow_positive, pow};
use vstd::prelude::*;

verus! {

/// Two bounds on a number too large to hold: it lies between `low` and
/// `high`, each times `limb()` to the power of `limbs`.
#[derive(Debug, Clone, Copy, PartialEq, Eq)]
pub struct Range {
    pub low: u64,
    pub high: u64,
    pub limbs: u64,
}

impl Range {
    /// Whether `x` lies within the range.
    pub open spec fn holds(&self, x: int) -> bool {
        &&& self.low * pow(limb(), self.limbs as nat) <= x
        &&& x <= self.high * pow(limb(), self.limbs as nat)
    }
}

/// Bounds that held at one scale hold at the next, the lower one cut down
/// and the upper one cut up.
proof fn lemma_coarser(low: int, high: int, limbs: nat, x: int)
    requires
        0 <= low,
        0 <= high,
        low * pow(limb(), limbs) <= x <= high * pow(limb(), limbs),
    ensures
        (low / limb()) * pow(limb(), limbs + 1) <= x,
        x <= ((high + limb() - 1) / limb()) * pow(limb(), limbs + 1),
{
    let b = limb();
    let p = pow(b, limbs);
    let l = low / b;
    let h = (high + b - 1) / b;
    lemma_pow_positive(b, limbs);
    lemma_pow_next(b, limbs);
    assert(l * b <= low && high <= h * b);
    assert(l * (p * b) <= low * p) by (nonlinear_arith)
        requires
            l * b <= low,
            p > 0,
    ;
    assert(high * p <= h * (p * b)) by (nonlinear_arith)
        requires
            high <= h * b,
            p > 0,
    ;
}

/// Brings two bounds down to 63 bits, counting what was cut off.
fn trim(low: u128, high: u128, limbs: u64, Ghost(x): Ghost<int>) -> (r: Range)
    requires
        low <= high < 0x4000_0000_0000_0000_0000_0000_0000_0000,
        limbs <= u64::MAX - 2,
        low * pow(limb(), limbs as nat) <= x <= high * pow(limb(), limbs as nat),
    ensures
        r.holds(x),
        r.low <= r.high < 0x8000_0000_0000_0000,
        limbs <= r.limbs <= limbs + 2,
{
    let mut low: u128 = low;
    let mut high: u128 = high;
    let mut limbs: u64 = limbs;
    if high >= 0x8000_0000_0000_0000 {
        proof {
            lemma_coarser(low as int, high as int, limbs as nat, x);
        }
        low = low / 0x1_0000_0000;
        high = (high + 0xffff_ffff) / 0x1_0000_0000;
        limbs = limbs + 1;
    }
    if high >= 0x8000_0000_0000_0000 {
        proof {
            lemma_coarser(low as int, high as int, limbs as nat, x);
        }
        low = low / 0x1_0000_0000;
        high = (high + 0xffff_ffff) / 0x1_0000_0000;
        limbs = limbs + 1;
    }
    Range { low: low as u64, high: high as u64, limbs }
}

/// The bounds of a square are the squares of the bounds, at twice the scale.
proof fn lemma_square(low: int, high: int, limbs: nat, x: int)
    requires
        0 <= low,
        low * pow(limb(), limbs) <= x <= high * pow(limb(), limbs),
    ensures
        (low * low) * pow(limb(), 2 * limbs) <= x * x <= (high * high) * pow(limb(), 2 * limbs),
{
    let p = pow(limb(), limbs);
    lemma_pow_positive(limb(), limbs);
    lemma_pow_adds(limb(), limbs, limbs);
    assert((low * low) * (p * p) <= x * x <= (high * high) * (p * p)) by (nonlinear_arith)
        requires
            0 <= low,
            p > 0,
            low * p <= x <= high * p,
    ;
}

/// The bounds of a product with `b` are the bounds times `b`.
proof fn lemma_times(low: int, high: int, limbs: nat, x: int, b: int)
    requires
        0 <= b,
        low * pow(limb(), limbs) <= x <= high * pow(limb(), limbs),
    ensures
        (low * b) * pow(limb(), limbs) <= x * b <= (high * b) * pow(limb(), limbs),
{
    let p = pow(limb(), limbs);
    assert((low * b) * p <= x * b <= (high * b) * p) by (nonlinear_arith)
        requires
            0 <= b,
            low * p <= x <= high * p,
    ;
}

/// Bounds on `base` to the power of `exponent`, by squaring and
/// multiplying in 128 bits.
pub fn power_range(base: u32, exponent: u32) -> (r: Range)
    ensures
        r.holds(pow(base as int, exponent as nat)),
        r.low <= r.high < 0x8000_0000_0000_0000,
        exponent == 0 ==> r.limbs == 0,
        exponent > 0 ==> r.limbs + 2 <= 4 * exponent,
    decreases exponent,
{
    if exponent == 0 {
        proof {
            lemma_pow0(base as int);
            lemma_pow0(limb());
        }
        Range { low: 1, high: 1, limbs: 0 }
    } else if exponent % 2 == 1 {
        let less = power_range(base, exponent - 1);
        proof {
            lemma_pow_next(base as int, (exponent - 1) as nat);
            lemma_times(
                less.low as int,
                less.high as int,
                less.limbs as nat,
                pow(base as int, (exponent - 1) as nat),
                base as int,
            );
            assert(less.low * base <= less.high * base < 0x4000_0000_0000_0000_0000_0000_0000_0000)
                by (nonlinear_arith)
                requires
                    0 <= less.low <= less.high < 0x8000_0000_0000_0000,
                    0 <= base < 0x1_0000_0000,
            ;
        }
        trim(
            less.low as u128 * base as u128,
            less.high as u128 * base as u128,
            less.limbs,
            Ghost(pow(base as int, exponent as nat)),
        )
    } else {
        let half = power_range(base, exponent / 2);
        proof {
            lemma_pow_adds(base as int, (exponent / 2) as nat, (exponent / 2) as nat);
            lemma_square(
                half.low as int,
                half.high as int,
                half.limbs as nat,
                pow(base as int, (exponent / 2) as nat),
            );
            assert(half.low * half.low <= half.high * half.high
                < 0x4000_0000_0000_0000_0000_0000_0000_0000) by (nonlinear_arith)
                requires
                    0 <= half.low <= half.high < 0x8000_0000_0000_0000,
            ;
        }
        trim(
            half.low as u128 * half.low as u128,
            half.high as u128 * half.high as u128,
            2 * half.limbs,
            Ghost(pow(base as int, exponent as nat)),
        )
    }
}

/// Whether `m1` at the scale `j1` is no greater than `m2` at the scale
/// `j2`: scales two or more apart settle it, and 128 bits hold the rest.
fn surely_le(m1: u64, j1: u64, m2: u64, j2: u64) -> (yes: bool)
    ensures
        yes == (m1 * pow(limb(), j1 as nat) <= m2 * pow(limb(), j2 as nat)),
{
    if j1 == j2 {
        proof {
            lemma_pow_positive(limb(), j1 as nat);
            lemma_same_scale(m1 as int, m2 as int, pow(limb(), j1 as nat));
        }
        m1 <= m2
    } else if j1 < j2 {
        let yes = if m2 == 0 {
            m1 == 0
        } else {
            j2 - j1 >= 2 || m1 as u128 <= m2 as u128 * 0x1_0000_0000
        };
        proof {
            let b = limb();
            let p = pow(b, j1 as nat);
            let d = (j2 - j1) as nat;
            let q = pow(b, d);
            lemma_pow_positive(b, j1 as nat);
            lemma_pow_adds(b, j1 as nat, d);
            lemma_limb_power(d);
            assert(yes == (m1 <= m2 * q)) by (nonlinear_arith)
                requires
                    b == 0x1_0000_0000,
                    0 <= m1 < 0x1_0000_0000_0000_0000,
                    0 <= m2,
                    d == 1 ==> q == b,
                    d >= 2 ==> q >= b * b,
                    d >= 1,
                    yes == (if m2 == 0 {
                        m1 == 0
                    } else {
                        d >= 2 || m1 <= m2 * b
                    }),
            ;
            assert(m2 * (p * q) == (m2 * q) * p) by (nonlinear_arith);
            lemma_same_scale(m1 as int, m2 * q, p);
        }
        yes
    } else {
        let yes = m1 == 0 || (j1 - j2 == 1 && m1 as u128 * 0x1_0000_0000 <= m2 as u128);
        proof {
            let b = limb();
            let p = pow(b, j2 as nat);
            let d = (j1 - j2) as nat;
            let q = pow(b, d);
            lemma_pow_positive(b, j2 as nat);
            lemma_pow_adds(b, j2 as nat, d);
            lemma_limb_power(d);
            assert(yes == (m1 * q <= m2)) by (nonlinear_arith)
                requires
                    b == 0x1_0000_0000,
                    0 <= m1,
                    0 <= m2 < 0x1_0000_0000_0000_0000,
                    d == 1 ==> q == b,
                    d >= 2 ==> q >= b * b,
                    d >= 1,
                    yes == (m1 == 0 || (d == 1 && m1 * b <= m2)),
            ;
            assert(m1 * (p * q) == (m1 * q) * p) by (nonlinear_arith);
            lemma_same_scale(m1 * q, m2 as int, p);
        }
        yes
    }
}

/// Whether `m1` at the scale `j1` is less than `m2` at the scale `j2`: it
/// is unless `m2` at its scale is no greater than `m1` at its own.
fn surely_lt(m1: u64, j1: u64, m2: u64, j2: u64) -> (yes: bool)
    ensures
        yes == (m1 * pow(limb(), j1 as nat) < m2 * pow(limb(), j2 as nat)),
{
    !surely_le(m2, j2, m1, j1)
}

/// A positive factor on both sides leaves an order as it is.
proof fn lemma_same_scale(a: int, b: int, p: int)
    requires
        p > 0,
    ensures
        (a * p <= b * p) == (a <= b),
{
    if a <= b {
        assert(a * p <= b * p) by (nonlinear_arith)
            requires
                a <= b,
                p > 0,
        ;
    } else {
        assert(a * p > b * p) by (nonlinear_arith)
            requires
                a > b,
                p > 0,
        ;
    }
}

/// `limb()` to the power of `d` is `limb()` itself for `d == 1` and at
/// least its square above.
proof fn lemma_limb_power(d: nat)
    requires
        d >= 1,
    ensures
        d == 1 ==> pow(limb(), d) == limb(),
        d >= 2 ==> pow(limb(), d) >= limb() * limb(),
{
    let b = limb();
    lemma_pow1(b);
    if d >= 2 {
        lemma_pow_adds(b, 2, (d - 2) as nat);
        lemma_pow_adds(b, 1, 1);
        lemma_pow_positive(b, (d - 2) as nat);
        let rest = pow(b, (d - 2) as nat);
        assert((b * b) * rest >= b * b) by (nonlinear_arith)
            requires
                rest >= 1,
                b > 0,
        ;
    }
}

/// Whether `a` to the power of `m` is no greater than `b` to the power of
/// `n`. Bounds in 128 bits settle it wherever the two powers are not
/// close; the powers in full settle the rest.
pub fn power_le(a: u32, m: u32, b: u32, n: u32) -> (yes: bool)
    ensures
        yes == (pow(a as int, m as nat) <= pow(b as int, n as nat)),
{
    let x = power_range(a, m);
    let y = power_range(b, n);
    if surely_le(x.high, x.limbs, y.low, y.limbs) {
        return true;
    }
    if surely_lt(y.high, y.limbs, x.low, x.limbs) {
        return false;
    }
    big_le(&big_power(a, m), &big_power(b, n))
}

} // verus!
