use vstd::arithmetic::power::{lemma_pow0, lemma_pow1, lemma_pow_adds, lemma_pow_positive, pow};
use vstd::prelude::*;

verus! {

/// The base in which a large number is spelled: 2 to the power of 32.
pub open spec fn limb() -> int {
    0x1_0000_0000
}

/// One more factor: `b` to the power of `e + 1`.
pub proof fn lemma_pow_next(b: int, e: nat)
    ensures
        pow(b, e + 1) == pow(b, e) * b,
{
    lemma_pow_adds(b, e, 1);
    lemma_pow1(b);
}

/// The number that limbs spell in base 2 to the power of 32, the lowest
/// limb first.
pub open spec fn limbs_value(limbs: Seq<u32>) -> int
    decreases limbs.len(),
{
    if limbs.len() == 0 {
        0
    } else {
        limbs_value(limbs.drop_last()) + limbs.last() * pow(limb(), (limbs.len() - 1) as nat)
    }
}

/// The limb at place `i`, and zero above the highest limb.
pub open spec fn limb_at(limbs: Seq<u32>, i: int) -> int {
    if 0 <= i < limbs.len() {
        limbs[i] as int
    } else {
        0
    }
}

/// The number that the lowest `n` places spell.
pub open spec fn low_value(limbs: Seq<u32>, n: nat) -> int
    decreases n,
{
    if n == 0 {
        0
    } else {
        low_value(limbs, (n - 1) as nat) + limb_at(limbs, n - 1) * pow(limb(), (n - 1) as nat)
    }
}

/// One more limb adds its value at its place.
proof fn lemma_value_push(limbs: Seq<u32>, top: u32)
    ensures
        limbs_value(limbs.push(top)) == limbs_value(limbs) + top * pow(limb(), limbs.len()),
{
    assert(limbs.push(top).drop_last() == limbs);
}

/// The lowest places of a number spell what its first limbs spell.
proof fn lemma_low_value_take(limbs: Seq<u32>, n: nat)
    requires
        n <= limbs.len(),
    ensures
        low_value(limbs, n) == limbs_value(limbs.take(n as int)),
    decreases n,
{
    if n > 0 {
        lemma_low_value_take(limbs, (n - 1) as nat);
        assert(limbs.take(n as int).drop_last() == limbs.take(n - 1));
    }
}

/// Places above the highest limb add nothing.
proof fn lemma_low_value_all(limbs: Seq<u32>, n: nat)
    requires
        limbs.len() <= n,
    ensures
        low_value(limbs, n) == limbs_value(limbs),
    decreases n,
{
    if n == limbs.len() {
        lemma_low_value_take(limbs, n);
        assert(limbs.take(n as int) == limbs);
    } else {
        lemma_low_value_all(limbs, (n - 1) as nat);
        assert(limb_at(limbs, n - 1) * pow(limb(), (n - 1) as nat) == 0) by (nonlinear_arith)
            requires
                limb_at(limbs, n - 1) == 0,
        ;
    }
}

/// The lowest `n` places spell less than `limb()` to the power of `n`.
proof fn lemma_low_value_bound(limbs: Seq<u32>, n: nat)
    ensures
        0 <= low_value(limbs, n) < pow(limb(), n),
    decreases n,
{
    if n == 0 {
        lemma_pow0(limb());
    } else {
        lemma_low_value_bound(limbs, (n - 1) as nat);
        lemma_pow_next(limb(), (n - 1) as nat);
        let p = pow(limb(), (n - 1) as nat);
        let top = limb_at(limbs, n - 1);
        let b = limb();
        assert(0 <= top * p && low_value(limbs, (n - 1) as nat) + top * p < p * b)
            by (nonlinear_arith)
            requires
                0 <= top <= b - 1,
                0 <= low_value(limbs, (n - 1) as nat) < p,
        ;
    }
}

/// Numbers that agree in every place from `from` up to `to` differ by what
/// their places below `from` spell.
proof fn lemma_same_places(a: Seq<u32>, b: Seq<u32>, from: nat, to: nat)
    requires
        from <= to,
        forall|i: int| from <= i < to ==> limb_at(a, i) == limb_at(b, i),
    ensures
        low_value(a, to) - low_value(a, from) == low_value(b, to) - low_value(b, from),
    decreases to,
{
    if from < to {
        lemma_same_places(a, b, from, (to - 1) as nat);
    }
}

/// Where two numbers differ in one place and agree in all above it, the one
/// with the smaller limb there is the smaller number.
proof fn lemma_first_difference(a: Seq<u32>, b: Seq<u32>, at: nat, to: nat)
    requires
        at < to,
        forall|i: int| at < i < to ==> limb_at(a, i) == limb_at(b, i),
        limb_at(a, at as int) < limb_at(b, at as int),
    ensures
        low_value(a, to) < low_value(b, to),
{
    lemma_same_places(a, b, at + 1, to);
    lemma_low_value_bound(a, at);
    lemma_low_value_bound(b, at);
    let p = pow(limb(), at);
    let x = limb_at(a, at as int);
    let y = limb_at(b, at as int);
    assert(low_value(a, at) + x * p < low_value(b, at) + y * p) by (nonlinear_arith)
        requires
            0 <= low_value(a, at) < p,
            0 <= low_value(b, at),
            x < y,
    ;
}

/// Multiplies a number by one limb.
pub fn big_times(a: &Vec<u32>, b: u32) -> (product: Vec<u32>)
    ensures
        limbs_value(product@) == limbs_value(a@) * b,
{
    let mut product: Vec<u32> = Vec::new();
    let mut carry: u64 = 0;
    let mut i: usize = 0;
    assert(limbs_value(a@.take(0)) * b == 0) by (nonlinear_arith)
        requires
            limbs_value(a@.take(0)) == 0,
    ;
    proof {
        lemma_pow0(limb());
    }
    while i < a.len()
        invariant
            i <= a.len(),
            product.len() == i,
            carry < 0x1_0000_0000,
            limbs_value(product@) + carry * pow(limb(), i as nat) == limbs_value(a@.take(i as int))
                * b,
        decreases a.len() - i,
    {
        assert(a[i as int] * b + carry < 0x1_0000_0000_0000_0000) by (nonlinear_arith)
            requires
                0 <= a[i as int] < 0x1_0000_0000,
                0 <= b < 0x1_0000_0000,
                0 <= carry < 0x1_0000_0000,
        ;
        let total: u64 = a[i] as u64 * b as u64 + carry;
        let low: u32 = (total % 0x1_0000_0000) as u32;
        let high: u64 = total / 0x1_0000_0000;
        proof {
            let p = pow(limb(), i as nat);
            let before = limbs_value(a@.take(i as int));
            lemma_value_push(product@, low);
            lemma_value_push(a@.take(i as int), a[i as int]);
            assert(a@.take(i + 1) == a@.take(i as int).push(a[i as int]));
            lemma_pow_next(limb(), i as nat);
            assert(limbs_value(product@) + low * p + high * (p * limb()) == (before + a[i as int]
                * p) * b) by (nonlinear_arith)
                requires
                    limbs_value(product@) + carry * p == before * b,
                    total == a[i as int] * b + carry,
                    total == high * limb() + low,
            ;
        }
        product.push(low);
        carry = high;
        i += 1;
    }
    assert(a@.take(a.len() as int) == a@);
    if carry > 0 {
        proof {
            lemma_value_push(product@, carry as u32);
        }
        product.push(carry as u32);
    } else {
        assert(carry * pow(limb(), i as nat) == 0) by (nonlinear_arith)
            requires
                carry == 0,
        ;
    }
    product
}

/// Raises a limb to a power, in full.
pub fn big_power(base: u32, exponent: u32) -> (power: Vec<u32>)
    ensures
        limbs_value(power@) == pow(base as int, exponent as nat),
{
    let mut power: Vec<u32> = Vec::new();
    power.push(1);
    proof {
        lemma_value_push(Seq::<u32>::empty(), 1);
        assert(power@ == Seq::<u32>::empty().push(1));
        lemma_pow0(limb());
        lemma_pow0(base as int);
    }
    let mut i: u32 = 0;
    while i < exponent
        invariant
            i <= exponent,
            limbs_value(power@) == pow(base as int, i as nat),
        decreases exponent - i,
    {
        proof {
            lemma_pow_next(base as int, i as nat);
        }
        power = big_times(&power, base);
        i += 1;
    }
    power
}

/// The limb of `limbs` at place `i`, and zero above the highest limb.
fn place(limbs: &Vec<u32>, i: usize) -> (limb: u32)
    ensures
        limb == limb_at(limbs@, i as int),
{
    if i < limbs.len() {
        limbs[i]
    } else {
        0
    }
}

/// Whether the first number is no greater than the second.
pub fn big_le(a: &Vec<u32>, b: &Vec<u32>) -> (yes: bool)
    ensures
        yes == (limbs_value(a@) <= limbs_value(b@)),
{
    let places: usize = if a.len() > b.len() {
        a.len()
    } else {
        b.len()
    };
    proof {
        lemma_low_value_all(a@, places as nat);
        lemma_low_value_all(b@, places as nat);
    }
    let mut i: usize = places;
    while i > 0
        invariant
            i <= places,
            low_value(a@, places as nat) == limbs_value(a@),
            low_value(b@, places as nat) == limbs_value(b@),
            forall|j: int| i <= j < places ==> limb_at(a@, j) == limb_at(b@, j),
        decreases i,
    {
        i -= 1;
        let x: u32 = place(a, i);
        let y: u32 = place(b, i);
        if x < y {
            proof {
                lemma_first_difference(a@, b@, i as nat, places as nat);
            }
            return true;
        }
        if x > y {
            proof {
                lemma_first_difference(b@, a@, i as nat, places as nat);
            }
            return false;
        }
    }
    proof {
        lemma_same_places(a@, b@, 0, places as nat);
    }
    true
}

} // verus!
