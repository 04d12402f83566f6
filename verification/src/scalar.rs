//! Fixed-point scalars.
//!
//! Every continuous quantity of the simulation (lengths, speeds, durations,
//! fuel) is an `i64` that counts thousandths: `UNIT` stands for 1.0. Sums and
//! products are computed exactly and then saturated to the `i64` range, so
//! every operation is total and is described by a formula over `int`.

use vstd::prelude::*;

verus! {

/// A length or coordinate, in thousandths of a world unit.
pub type Coord = i64;

/// A duration, in thousandths of a time unit.
pub type Time = i64;

/// An amount of fuel, in thousandths; one unit of fuel burns in one time unit.
pub type Fuel = i64;

/// An amount of money, in whole coins.
pub type Money = i64;

/// A number of mined resource pieces.
pub type ResourceCount = i64;

/// The fixed-point representation of 1.0.
pub const UNIT: i64 = 1000;

/// `x` limited to the closed interval from `lo` to `hi`.
pub open spec fn clamp(x: int, lo: int, hi: int) -> int {
    if x < lo {
        lo
    } else if x > hi {
        hi
    } else {
        x
    }
}

/// `x` limited to the range of `i64`.
pub open spec fn sat(x: int) -> int {
    clamp(x, i64::MIN as int, i64::MAX as int)
}

/// The quotient of `x` by a positive `d`, rounded toward zero.
pub open spec fn trunc_div(x: int, d: int) -> int
    recommends
        d > 0,
{
    if x >= 0 {
        x / d
    } else {
        -((-x) / d)
    }
}

/// The product of two fixed-point numbers, as a fixed-point number rounded
/// toward zero.
pub open spec fn scaled(a: int, b: int) -> int {
    trunc_div(a * b, UNIT as int)
}

/// `current` moved toward `target` by at most `max_step`; a negative
/// `max_step` counts as its absolute value.
pub open spec fn approach(current: int, target: int, max_step: int) -> int {
    let step = if max_step < 0 {
        -max_step
    } else {
        max_step
    };
    current + clamp(target - current, -step, step)
}

/// The product of two `i64` values fits in an `i128`.
pub proof fn lemma_product_fits(a: int, b: int)
    requires
        i64::MIN <= a <= i64::MAX,
        i64::MIN <= b <= i64::MAX,
    ensures
        -0x4000_0000_0000_0000_0000_0000_0000_0000 <= a * b
            <= 0x4000_0000_0000_0000_0000_0000_0000_0000,
{
    let m: int = 0x8000_0000_0000_0000;
    assert(-m <= a <= m && -m <= b <= m);
    assert(-(m * m) <= a * b <= m * m) by (nonlinear_arith)
        requires
            -m <= a <= m,
            -m <= b <= m,
            m >= 0,
    ;
    assert(m * m == 0x4000_0000_0000_0000_0000_0000_0000_0000) by (nonlinear_arith)
        requires
            m == 0x8000_0000_0000_0000,
    ;
}

/// Saturates a wide intermediate result to `i64`.
pub fn saturate(x: i128) -> (r: i64)
    ensures
        r == sat(x as int),
{
    if x < i64::MIN as i128 {
        i64::MIN
    } else if x > i64::MAX as i128 {
        i64::MAX
    } else {
        x as i64
    }
}

/// Saturating sum.
pub fn sat_add(a: i64, b: i64) -> (r: i64)
    ensures
        r == sat(a + b),
{
    saturate(a as i128 + b as i128)
}

/// Saturating difference.
pub fn sat_sub(a: i64, b: i64) -> (r: i64)
    ensures
        r == sat(a - b),
{
    saturate(a as i128 - b as i128)
}

/// Saturating negation.
pub fn sat_neg(a: i64) -> (r: i64)
    ensures
        r == sat(-a),
{
    saturate(-(a as i128))
}

/// Saturating product of two plain integers.
pub fn sat_mul(a: i64, b: i64) -> (r: i64)
    ensures
        r == sat(a * b),
{
    proof {
        lemma_product_fits(a as int, b as int);
    }
    saturate(a as i128 * b as i128)
}

/// Saturating product of two fixed-point numbers.
pub fn mul_scaled(a: i64, b: i64) -> (r: i64)
    ensures
        r == sat(scaled(a as int, b as int)),
{
    proof {
        lemma_product_fits(a as int, b as int);
    }
    let wide: i128 = a as i128 * b as i128;
    let quotient: i128 = wide / (UNIT as i128);
    saturate(quotient)
}

/// `current` moved toward `target` by at most `max_step`.
pub fn move_toward(current: i64, target: i64, max_step: i64) -> (r: i64)
    ensures
        r == approach(current as int, target as int, max_step as int),
{
    let step: i128 = if max_step < 0 {
        -(max_step as i128)
    } else {
        max_step as i128
    };
    let gap: i128 = target as i128 - current as i128;
    let moved: i128 = if gap < -step {
        -step
    } else if gap > step {
        step
    } else {
        gap
    };
    (current as i128 + moved) as i64
}

} // verus!
