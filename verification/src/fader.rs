use crate::bignum::lemma_pow_next;
use crate::power::power_le;
use vstd::arithmetic::power::{
    lemma_pow0, lemma_pow1, lemma_pow_adds, lemma_pow_distributes, lemma_pow_increases,
    lemma_pow_multiplies, lemma_pow_positive, lemma_pow_strictly_increases, pow,
};
use vstd::prelude::*;

verus! {

/// Raw values at or below this one are shown at display position 0.
pub const VALUE_THRESHOLD: i64 = -10000;

/// The raw value of display positions 0 and 1: the bottom of the console's
/// scale.
pub const VALUE_MIN: i64 = -32768;

/// How many raw steps make a factor of ten on the display scale.
pub const SCALE: u32 = 5500;

/// The raw value that would be shown at display position 1 exactly.
pub const OFFSET: i64 = -10000;

/// Whether the raw value `v` reaches the display position `k`: whether 10
/// to the power of `(v - OFFSET) / SCALE` is at least `k - 1/2`, so that it
/// rounds to `k` or more. Both sides are raised to the power of `SCALE` and
/// multiplied by 10 to the power of `SCALE`, which leaves whole numbers.
pub open spec fn reaches(v: int, k: int) -> bool {
    v - OFFSET + SCALE >= 0 && pow(10 * k - 5, SCALE as nat) <= pow(
        10,
        (v - OFFSET + SCALE) as nat,
    )
}

/// The greatest position in `1..=k` that `v` reaches.
pub open spec fn highest_reached(v: int, k: int) -> int
    decreases k,
{
    if k <= 1 {
        1
    } else if reaches(v, k) {
        k
    } else {
        highest_reached(v, k - 1)
    }
}

/// The display position (0 to 255) of a raw fader value: 0 up to the
/// threshold, and above it 10 to the power of `(v - OFFSET) / SCALE`,
/// rounded to the nearest whole number and held at 255.
pub open spec fn value_to_position(v: int) -> int {
    if v <= VALUE_THRESHOLD {
        0
    } else {
        highest_reached(v, 255)
    }
}

/// Whether `w` is the whole number nearest to `SCALE * log10(p) + OFFSET`:
/// whether `w - 1/2 <= SCALE * log10(p) + OFFSET < w + 1/2`, doubled and
/// written with powers of 10.
pub open spec fn nearest_value(p: int, w: int) -> bool {
    &&& 2 * (w - OFFSET) - 1 >= 0
    &&& pow(10, (2 * (w - OFFSET) - 1) as nat) <= pow(p, (2 * SCALE) as nat)
    &&& pow(p, (2 * SCALE) as nat) < pow(10, (2 * (w - OFFSET) + 1) as nat)
}

/// The raw fader value of a display position: the bottom of the scale for
/// positions 0 and 1, and above them `SCALE * log10(p) + OFFSET`, rounded
/// to the nearest whole number.
pub open spec fn position_to_value(p: int) -> int {
    if p <= 1 {
        VALUE_MIN as int
    } else {
        choose|w: int| nearest_value(p, w)
    }
}

/// A greater base gives no smaller power.
pub proof fn lemma_pow_base_increases(a: int, b: int, e: nat)
    requires
        0 <= a <= b,
    ensures
        0 <= pow(a, e) <= pow(b, e),
    decreases e,
{
    if e == 0 {
        lemma_pow0(a);
        lemma_pow0(b);
    } else {
        lemma_pow_base_increases(a, b, (e - 1) as nat);
        lemma_pow_adds(a, (e - 1) as nat, 1);
        lemma_pow_adds(b, (e - 1) as nat, 1);
        lemma_pow1(a);
        lemma_pow1(b);
        let x = pow(a, (e - 1) as nat);
        let y = pow(b, (e - 1) as nat);
        assert(0 <= x * a <= y * b) by (nonlinear_arith)
            requires
                0 <= x <= y,
                0 <= a <= b,
        ;
    }
}

/// A value that reaches a position reaches every position below it.
pub proof fn lemma_reaches_below(v: int, j: int, k: int)
    requires
        1 <= j <= k,
        reaches(v, k),
    ensures
        reaches(v, j),
{
    lemma_pow_base_increases(10 * j - 5, 10 * k - 5, 5500);
}

/// A position that a value reaches is reached by every greater value.
pub proof fn lemma_reaches_above(v: int, w: int, k: int)
    requires
        v <= w,
        reaches(v, k),
    ensures
        reaches(w, k),
{
    lemma_pow_increases(10, (v + 15500) as nat, (w + 15500) as nat);
}

/// Every value above the threshold reaches position 1.
pub proof fn lemma_reaches_one(v: int)
    requires
        v > VALUE_THRESHOLD,
    ensures
        reaches(v, 1),
{
    lemma_pow_base_increases(5, 10, 5500);
    lemma_pow_increases(10, 5500, (v + 15500) as nat);
}

/// Every value from 3750 on reaches position 255: the square of 2545 is
/// below 10 to the power of 7.
pub proof fn lemma_reaches_top(v: int)
    requires
        v >= 3750,
    ensures
        reaches(v, 255),
{
    assert(pow(2545, 2) == 6477025) by {
        lemma_pow1(2545);
        lemma_pow_next(2545, 1);
    }
    assert(pow(10, 7) == 10000000) by {
        lemma_pow1(10);
        lemma_pow_next(10, 1);
        lemma_pow_next(10, 2);
        lemma_pow_next(10, 3);
        lemma_pow_next(10, 4);
        lemma_pow_next(10, 5);
        lemma_pow_next(10, 6);
    }
    lemma_pow_multiplies(2545, 2, 2750);
    lemma_pow_multiplies(10, 7, 2750);
    lemma_pow_base_increases(6477025, 10000000, 2750);
    lemma_pow_increases(10, 19250, (v + 15500) as nat);
}

/// `p` is the highest position reached within `1..=k` when it is reached
/// itself and the next one is not.
proof fn lemma_highest_reached(v: int, k: int, p: int)
    requires
        1 <= p <= k,
        p > 1 ==> reaches(v, p),
        p < k ==> !reaches(v, p + 1),
    ensures
        highest_reached(v, k) == p,
    decreases k,
{
    if k > p {
        if reaches(v, k) {
            lemma_reaches_below(v, p + 1, k);
        }
        lemma_highest_reached(v, k - 1, p);
    }
}

/// The position of a value above the threshold is the one that the value
/// reaches while it does not reach the next.
pub proof fn lemma_position_range(v: int)
    ensures
        0 <= value_to_position(v) <= 255,
        v <= VALUE_THRESHOLD <==> value_to_position(v) == 0,
        v > VALUE_THRESHOLD ==> reaches(v, value_to_position(v)),
        1 <= value_to_position(v) < 255 ==> !reaches(v, value_to_position(v) + 1),
{
    if v > VALUE_THRESHOLD {
        lemma_reaches_one(v);
        lemma_highest_range(v, 255);
    }
}

proof fn lemma_highest_range(v: int, k: int)
    requires
        1 <= k,
        reaches(v, 1),
    ensures
        1 <= highest_reached(v, k) <= k,
        reaches(v, highest_reached(v, k)),
        highest_reached(v, k) < k ==> !reaches(v, highest_reached(v, k) + 1),
    decreases k,
{
    if k > 1 && !reaches(v, k) {
        lemma_highest_range(v, k - 1);
    }
}

/// A value never falls to a lower position when it rises.
pub proof fn lemma_position_monotonic(v: int, w: int)
    requires
        v <= w,
    ensures
        value_to_position(v) <= value_to_position(w),
{
    lemma_position_range(v);
    lemma_position_range(w);
    if v > VALUE_THRESHOLD {
        let p = value_to_position(v);
        let q = value_to_position(w);
        if q < p {
            lemma_reaches_above(v, w, p);
            lemma_reaches_below(w, q + 1, p);
        }
    }
}

/// No two whole numbers are nearest to the same logarithm.
pub proof fn lemma_nearest_value_unique(p: int, w1: int, w2: int)
    requires
        nearest_value(p, w1),
        nearest_value(p, w2),
    ensures
        w1 == w2,
{
    if w1 < w2 {
        lemma_pow_increases(10, (2 * w1 + 20001) as nat, (2 * w2 + 19999) as nat);
    }
    if w2 < w1 {
        lemma_pow_increases(10, (2 * w2 + 20001) as nat, (2 * w1 + 19999) as nat);
    }
}

/// The value of a position from 2 to 255 lies above the threshold and no
/// higher than 6500: the position's power lies between 10 and 10 to the power
/// of 33000.
proof fn lemma_value_bracket(p: int)
    requires
        2 <= p <= 255,
    ensures
        pow(10, 1) <= pow(p, 11000),
        pow(p, 11000) < pow(10, 33001),
{
    assert(pow(2, 4) == 16) by {
        lemma_pow1(2);
        lemma_pow_next(2, 1);
        lemma_pow_next(2, 2);
        lemma_pow_next(2, 3);
    }
    lemma_pow1(10);
    lemma_pow_increases(2, 4, 11000);
    lemma_pow_base_increases(2, p, 11000);
    assert(pow(10, 3) == 1000) by {
        lemma_pow_next(10, 1);
        lemma_pow_next(10, 2);
    }
    lemma_pow_base_increases(p, 1000, 11000);
    lemma_pow_multiplies(10, 3, 11000);
    lemma_pow_strictly_increases(10, 33000, 33001);
}

/// Bernoulli's inequality in whole numbers: `(1 + 1/a)` to the power of
/// `n` is at least `1 + n/a`.
pub proof fn lemma_bernoulli(a: int, n: nat)
    requires
        1 <= a,
    ensures
        pow(a + 1, n) * a >= pow(a, n) * (a + n),
        pow(a, n) > 0,
    decreases n,
{
    lemma_pow_positive(a, n);
    if n == 0 {
        lemma_pow0(a);
        lemma_pow0(a + 1);
    } else {
        lemma_bernoulli(a, (n - 1) as nat);
        lemma_pow_next(a, (n - 1) as nat);
        lemma_pow_next(a + 1, (n - 1) as nat);
        let x = pow(a + 1, (n - 1) as nat);
        let y = pow(a, (n - 1) as nat);
        assert((x * (a + 1)) * a >= (y * a) * (a + n)) by (nonlinear_arith)
            requires
                x * a >= y * (a + n - 1),
                y > 0,
                a >= 1,
                n >= 1,
        ;
    }
}

/// One more in the base makes a power more than ten times as large, where
/// the exponent is more than nine times the base.
proof fn lemma_tenfold(a: int, n: nat)
    requires
        1 <= a,
        n > 9 * a,
    ensures
        pow(a + 1, n) > 10 * pow(a, n),
        pow(a, n) > 0,
{
    lemma_bernoulli(a, n);
    let x = pow(a + 1, n);
    let y = pow(a, n);
    assert(x > 10 * y) by (nonlinear_arith)
        requires
            x * a >= y * (a + n),
            y > 0,
            a >= 1,
            n > 9 * a,
    ;
}

/// A power of 11000 is the square of the power of 5500.
proof fn lemma_pow_doubles(b: int)
    ensures
        pow(b, 11000) == pow(b, 5500) * pow(b, 5500),
{
    lemma_pow_adds(b, 5500, 5500);
}

/// Every position from 2 to 255 has a value: between what is too low and
/// what is high enough, one whole number is the first that is high enough.
proof fn lemma_value_between(p: int, low: int, high: int)
    requires
        -10000 <= low < high,
        pow(10, (2 * low + 20001) as nat) <= pow(p, 11000),
        pow(p, 11000) < pow(10, (2 * high + 20001) as nat),
    ensures
        exists|w: int| nearest_value(p, w),
    decreases high - low,
{
    if high == low + 1 {
        assert(nearest_value(p, high));
    } else {
        let mid = low + 1;
        if pow(10, (2 * mid + 20001) as nat) <= pow(p, 11000) {
            lemma_value_between(p, mid, high);
        } else {
            assert(nearest_value(p, mid));
        }
    }
}

/// The value of a position from 2 to 255 is the whole number nearest to the
/// position's logarithm on the console's scale.
pub proof fn lemma_value_is_nearest(p: int)
    requires
        2 <= p <= 255,
    ensures
        nearest_value(p, position_to_value(p)),
        position_to_value(p) > VALUE_THRESHOLD,
{
    lemma_value_bracket(p);
    lemma_value_between(p, -10000, 6500);
}

/// Converting a position to its raw value and back gives the position
/// again, for every position from 2 to 255.
pub proof fn lemma_position_of_value(p: int)
    requires
        2 <= p <= 255,
    ensures
        value_to_position(position_to_value(p)) == p,
{
    let w = position_to_value(p);
    lemma_value_is_nearest(p);
    let e = (w + 15500) as nat;
    let ten = pow(10, e);
    assert(pow(10, (2 * w + 31000) as nat) == ten * ten) by {
        lemma_pow_adds(10, e, e);
    }
    lemma_pow_positive(10, e);
    lemma_pow_positive(10, 11000);
    lemma_pow_positive(5, 11000);
    let scale = pow(10, 11000);
    let five = pow(5, 11000);
    let whole = pow(p, 11000);
    // 10p to the power of 11000 lies within a factor of ten of the square of `ten`
    assert(pow(10 * p, 11000) == scale * whole) by {
        lemma_pow_distributes(10, p, 11000);
    }
    assert(scale * pow(10, (2 * w + 19999) as nat) * 10 == ten * ten) by {
        lemma_pow_adds(10, 11000, (2 * w + 19999) as nat);
        lemma_pow_next(10, (2 * w + 30999) as nat);
    }
    assert(scale * pow(10, (2 * w + 20001) as nat) == ten * ten * 10) by {
        lemma_pow_adds(10, 11000, (2 * w + 20001) as nat);
        lemma_pow_next(10, (2 * w + 31000) as nat);
    }
    let low = pow(10, (2 * w + 19999) as nat);
    let high = pow(10, (2 * w + 20001) as nat);
    assert(scale * whole * 10 >= ten * ten && scale * whole < ten * ten * 10) by (nonlinear_arith)
        requires
            low <= whole < high,
            scale > 0,
            scale * low * 10 == ten * ten,
            scale * high == ten * ten * 10,
    ;
    // the position is reached
    let below = pow(10 * p - 5, 5500);
    lemma_tenfold(2 * p - 1, 11000);
    assert(pow(10 * p - 5, 11000) == five * pow(2 * p - 1, 11000)) by {
        lemma_pow_distributes(5, 2 * p - 1, 11000);
    }
    assert(pow(10 * p, 11000) == five * pow(2 * p, 11000)) by {
        lemma_pow_distributes(5, 2 * p, 11000);
    }
    lemma_pow_doubles(10 * p - 5);
    lemma_pow_positive(10 * p - 5, 5500);
    assert(below <= ten) by (nonlinear_arith)
        requires
            below * below == five * pow(2 * p - 1, 11000),
            scale * whole == five * pow(2 * p, 11000),
            pow(2 * p, 11000) > 10 * pow(2 * p - 1, 11000),
            five > 0,
            scale * whole < ten * ten * 10,
            below > 0,
            ten > 0,
    ;
    assert(reaches(w, p));
    // the next position is not
    if p < 255 {
        let above = pow(10 * p + 5, 5500);
        lemma_tenfold(2 * p, 11000);
        assert(pow(10 * p + 5, 11000) == five * pow(2 * p + 1, 11000)) by {
            lemma_pow_distributes(5, 2 * p + 1, 11000);
        }
        lemma_pow_doubles(10 * p + 5);
        lemma_pow_positive(10 * p + 5, 5500);
        assert(above > ten) by (nonlinear_arith)
            requires
                above * above == five * pow(2 * p + 1, 11000),
                scale * whole == five * pow(2 * p, 11000),
                pow(2 * p + 1, 11000) > 10 * pow(2 * p, 11000),
                five > 0,
                scale * whole * 10 >= ten * ten,
                above > 0,
                ten > 0,
        ;
        assert(!reaches(w, p + 1));
    }
    lemma_highest_reached(w, 255, p);
}

/// The display position of a raw fader value.
pub fn to_position(value: i64) -> (position: u8)
    ensures
        position == value_to_position(value as int),
        value <= VALUE_THRESHOLD ==> position == 0,
        value > VALUE_THRESHOLD ==> position >= 1,
{
    if value <= VALUE_THRESHOLD {
        return 0;
    }
    if value >= 3750 {
        proof {
            lemma_reaches_top(value as int);
            lemma_highest_reached(value as int, 255, 255);
        }
        return 255;
    }
    let exponent: u32 = (value + 15500) as u32;
    let mut low: u32 = 1;
    let mut high: u32 = 256;
    while high - low > 1
        invariant
            1 <= low < high <= 256,
            VALUE_THRESHOLD < value < 3750,
            exponent == value + 15500,
            low > 1 ==> reaches(value as int, low as int),
            high <= 255 ==> !reaches(value as int, high as int),
        decreases high - low,
    {
        let mid: u32 = low + (high - low) / 2;
        if power_le(10 * mid - 5, 5500, 10, exponent) {
            low = mid;
        } else {
            high = mid;
        }
    }
    proof {
        lemma_highest_reached(value as int, 255, low as int);
    }
    low as u8
}

/// The raw fader value of a display position.
pub fn to_value(position: u8) -> (value: i64)
    ensures
        value == position_to_value(position as int),
        position <= 1 ==> value == VALUE_MIN,
        position >= 2 ==> VALUE_THRESHOLD < value <= 6500 && nearest_value(
            position as int,
            value as int,
        ),
{
    if position <= 1 {
        return VALUE_MIN;
    }
    let mut low: i64 = -10000;
    let mut high: i64 = 6500;
    proof {
        lemma_value_bracket(position as int);
    }
    while high - low > 1
        invariant
            -10000 <= low < high <= 6500,
            2 <= position,
            pow(10, (2 * low + 20001) as nat) <= pow(position as int, 11000),
            pow(position as int, 11000) < pow(10, (2 * high + 20001) as nat),
        decreases high - low,
    {
        let mid: i64 = low + (high - low) / 2;
        if power_le(10, (2 * mid + 20001) as u32, position as u32, 11000) {
            low = mid;
        } else {
            high = mid;
        }
    }
    proof {
        assert(nearest_value(position as int, high as int));
        let chosen = choose|w: int| nearest_value(position as int, w);
        lemma_nearest_value_unique(position as int, high as int, chosen);
    }
    high
}

} // verus!
