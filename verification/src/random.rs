//! Random choices.
//!
//! The draws themselves come from the `rand` crate and are believed to lie
//! within the limits that its documentation gives. Everything that is computed
//! from a draw is verified for every value that the draw may take.

use crate::geometry::Vec2;
use crate::scalar::Coord;
use rand::Rng;
use vstd::prelude::*;

verus! {

/// A random integer from `lo` to `hi`, both included.
///
/// Calls `rand::Rng::gen_range` on an inclusive range. Believed: the result
/// lies in the range. The call panics on an empty range, which `requires`
/// leaves out.
#[verifier::external_body]
pub(crate) fn random_between(lo: i64, hi: i64) -> (r: i64)
    requires
        lo <= hi,
    ensures
        lo <= r <= hi,
{
    rand::thread_rng().gen_range(lo..=hi)
}

/// A random yes or no that is yes with probability `numerator / denominator`.
///
/// Calls `rand::Rng::gen_ratio`. Believed: the answer is no where the
/// numerator is zero and yes where it equals the denominator. The call panics
/// on a zero denominator and on a ratio above one, which `requires` leaves out.
#[verifier::external_body]
pub(crate) fn random_chance(numerator: u32, denominator: u32) -> (r: bool)
    requires
        denominator != 0,
        numerator <= denominator,
    ensures
        numerator == 0 ==> !r,
        numerator == denominator ==> r,
{
    rand::thread_rng().gen_ratio(numerator, denominator)
}

/// `amount` random positions of a list of `length` entries.
///
/// Calls `rand::seq::index::sample`. Believed: it returns exactly `amount`
/// indices below `length`, no two of them equal. The call panics where
/// `amount` exceeds `length`, which `requires` leaves out.
#[verifier::external_body]
pub(crate) fn random_indices(length: usize, amount: usize) -> (r: Vec<usize>)
    requires
        amount <= length,
    ensures
        r@.len() == amount,
        forall|i: int| 0 <= i < r@.len() ==> r@[i] < length,
        r@.no_duplicates(),
{
    rand::seq::index::sample(&mut rand::thread_rng(), length, amount).into_vec()
}

/// `s` is the integer square root of `n`.
pub open spec fn is_sqrt(n: int, s: int) -> bool {
    0 <= s && s * s <= n < (s + 1) * (s + 1)
}

/// The integer square root: the largest `s` with `s * s <= n`.
pub fn isqrt(n: u128) -> (s: u64)
    ensures
        is_sqrt(n as int, s as int),
{
    let mut lo: u128 = 0;
    let mut hi: u128 = 0x1_0000_0000_0000_0000;
    assert(0x1_0000_0000_0000_0000 * 0x1_0000_0000_0000_0000 > u128::MAX) by (nonlinear_arith);
    while hi - lo > 1
        invariant
            0 <= lo < hi <= 0x1_0000_0000_0000_0000,
            lo * lo <= n < hi * hi,
        decreases hi - lo,
    {
        let mid: u128 = lo + (hi - lo) / 2;
        assert(mid * mid <= 0xffff_ffff_ffff_ffff * 0xffff_ffff_ffff_ffff) by (nonlinear_arith)
            requires
                0 <= mid <= 0xffff_ffff_ffff_ffff,
        ;
        if mid * mid <= n {
            lo = mid;
        } else {
            hi = mid;
        }
    }
    lo as u64
}

/// Half the length of the chord that the vertical line at the offset `x`
/// cuts from a circle of radius `radius` around the origin, rounded down.
pub fn chord(radius: Coord, x: Coord) -> (s: Coord)
    requires
        0 <= radius,
        -radius <= x <= radius,
    ensures
        is_sqrt(radius * radius - x * x, s as int),
        0 <= s <= radius,
{
    let r: u128 = radius as u128;
    let a: u128 = if x < 0 {
        (-(x as i128)) as u128
    } else {
        x as u128
    };
    proof {
        assert(a * a == x * x) by (nonlinear_arith)
            requires
                a == x || a == -x,
        ;
        assert(a * a <= r * r) by (nonlinear_arith)
            requires
                0 <= a <= r,
        ;
        assert(r * r <= 0x7fff_ffff_ffff_ffff * 0x7fff_ffff_ffff_ffff) by (nonlinear_arith)
            requires
                0 <= r <= 0x7fff_ffff_ffff_ffff,
        ;
    }
    let s: u64 = isqrt(r * r - a * a);
    proof {
        let si = s as int;
        let ri = r as int;
        if si > ri {
            assert(si * si > ri * ri) by (nonlinear_arith)
                requires
                    si > ri,
                    ri >= 0,
            ;
            assert(a * a >= 0) by (nonlinear_arith);
        }
    }
    s as i64
}

/// A random point at most `radius` away from `center`; the sum is saturating.
pub fn random_in_disc(center: Vec2, radius: Coord) -> (r: Vec2)
    requires
        0 <= radius,
    ensures
        exists|offset: Vec2| offset.norm_sq() <= radius * radius && r == center.plus(offset),
{
    let x: i64 = random_between(-radius, radius);
    let s: i64 = chord(radius, x);
    let y: i64 = random_between(-s, s);
    let offset = Vec2 { x, y };
    proof {
        let si = s as int;
        let yi = y as int;
        assert(yi * yi <= si * si) by (nonlinear_arith)
            requires
                -si <= yi <= si,
        ;
        assert(offset.norm_sq() <= radius * radius);
    }
    center.add(offset)
}

/// `v` points upward, at most 30 degrees off the vertical, and is as long as
/// `speed` up to rounding.
pub open spec fn rises(v: Vec2, speed: Coord) -> bool {
    &&& -(speed / 2) <= v.x <= speed / 2
    &&& is_sqrt(speed * speed - v.x * v.x, v.y as int)
}

/// A random velocity of the given speed that points upward, at most 30
/// degrees off the vertical.
pub fn random_upward(speed: Coord) -> (v: Vec2)
    requires
        0 <= speed,
    ensures
        rises(v, speed),
{
    let side: i64 = speed / 2;
    let x: i64 = random_between(-side, side);
    let y: i64 = chord(speed, x);
    Vec2 { x, y }
}

} // verus!
