//! Points and axis-aligned rectangles over fixed-point coordinates.

use crate::scalar::{mul_scaled, sat, sat_add, sat_sub, saturate, scaled, Coord};
use vstd::prelude::*;

verus! {

/// A point or a displacement in the plane.
#[derive(Clone, Copy, Debug, PartialEq, Eq, Structural)]
pub struct Vec2 {
    pub x: Coord,
    pub y: Coord,
}

impl Vec2 {
    /// The vector with the given components.
    pub fn new(x: Coord, y: Coord) -> (r: Vec2)
        ensures
            r == (Vec2 { x, y }),
    {
        Vec2 { x, y }
    }

    /// The origin.
    pub fn zero() -> (r: Vec2)
        ensures
            r == (Vec2 { x: 0, y: 0 }),
    {
        Vec2 { x: 0, y: 0 }
    }

    /// The componentwise saturating sum.
    pub open spec fn plus(self, other: Vec2) -> Vec2 {
        Vec2 { x: sat(self.x + other.x) as i64, y: sat(self.y + other.y) as i64 }
    }

    /// The componentwise saturating difference.
    pub open spec fn minus(self, other: Vec2) -> Vec2 {
        Vec2 { x: sat(self.x - other.x) as i64, y: sat(self.y - other.y) as i64 }
    }

    /// Both components multiplied by the fixed-point factor `k`.
    pub open spec fn times(self, k: Coord) -> Vec2 {
        Vec2 {
            x: sat(scaled(self.x as int, k as int)) as i64,
            y: sat(scaled(self.y as int, k as int)) as i64,
        }
    }

    /// The squared Euclidean length, exact.
    pub open spec fn norm_sq(self) -> int {
        self.x * self.x + self.y * self.y
    }

    /// `self + other`, saturating in each component.
    pub fn add(self, other: Vec2) -> (r: Vec2)
        ensures
            r == self.plus(other),
    {
        Vec2 { x: sat_add(self.x, other.x), y: sat_add(self.y, other.y) }
    }

    /// `self - other`, saturating in each component.
    pub fn sub(self, other: Vec2) -> (r: Vec2)
        ensures
            r == self.minus(other),
    {
        Vec2 { x: sat_sub(self.x, other.x), y: sat_sub(self.y, other.y) }
    }

    /// `self` scaled by the fixed-point factor `k`.
    pub fn scale(self, k: Coord) -> (r: Vec2)
        ensures
            r == self.times(k),
    {
        Vec2 { x: mul_scaled(self.x, k), y: mul_scaled(self.y, k) }
    }
}

/// An axis-aligned rectangle, given by its lower-left and upper-right corners.
#[derive(Clone, Copy, Debug, PartialEq, Eq, Structural)]
pub struct Aabb2 {
    pub min: Vec2,
    pub max: Vec2,
}

/// The midpoint of `a` and `b`, rounded toward negative infinity.
pub open spec fn midpoint(a: int, b: int) -> int {
    (a + b) / 2
}

/// The position of `r` after it was pushed into `bounds` along one axis: first
/// up to the lower bound, then down to the upper bound.
pub open spec fn pushed_into(r_min: int, r_max: int, b_min: int, b_max: int) -> (int, int) {
    let up = if b_min > r_min {
        b_min - r_min
    } else {
        0
    };
    let down = if b_max < r_max + up {
        b_max - (r_max + up)
    } else {
        0
    };
    (r_min + up + down, r_max + up + down)
}

impl Aabb2 {
    /// The corners are ordered in both axes.
    pub open spec fn wf(self) -> bool {
        self.min.x <= self.max.x && self.min.y <= self.max.y
    }

    /// Extent along x, exact.
    pub open spec fn width(self) -> int {
        self.max.x - self.min.x
    }

    /// Extent along y, exact.
    pub open spec fn height(self) -> int {
        self.max.y - self.min.y
    }

    /// `self` lies inside `outer`, borders included.
    pub open spec fn within(self, outer: Aabb2) -> bool {
        &&& outer.min.x <= self.min.x
        &&& outer.min.y <= self.min.y
        &&& self.max.x <= outer.max.x
        &&& self.max.y <= outer.max.y
    }

    /// `self` is no wider and no taller than `outer`.
    pub open spec fn fits(self, outer: Aabb2) -> bool {
        self.width() <= outer.width() && self.height() <= outer.height()
    }

    /// The point `p` lies in `self`, borders included.
    pub open spec fn holds(self, p: Vec2) -> bool {
        self.min.x <= p.x <= self.max.x && self.min.y <= p.y <= self.max.y
    }

    /// `self` moved by `offset`, each corner saturating.
    pub open spec fn moved(self, offset: Vec2) -> Aabb2 {
        Aabb2 { min: self.min.plus(offset), max: self.max.plus(offset) }
    }

    /// The center of `self`.
    pub open spec fn middle(self) -> Vec2 {
        Vec2 {
            x: midpoint(self.min.x as int, self.max.x as int) as i64,
            y: midpoint(self.min.y as int, self.max.y as int) as i64,
        }
    }

    /// `self` pushed into `bounds`: toward the lower-left corner first, then
    /// toward the upper-right one, each coordinate saturating.
    pub open spec fn clamped_into(self, bounds: Aabb2) -> Aabb2 {
        let x = pushed_into(
            self.min.x as int,
            self.max.x as int,
            bounds.min.x as int,
            bounds.max.x as int,
        );
        let y = pushed_into(
            self.min.y as int,
            self.max.y as int,
            bounds.min.y as int,
            bounds.max.y as int,
        );
        Aabb2 {
            min: Vec2 { x: sat(x.0) as i64, y: sat(y.0) as i64 },
            max: Vec2 { x: sat(x.1) as i64, y: sat(y.1) as i64 },
        }
    }

    /// `self` moved so that its center comes to lie at `center`, and then
    /// pushed into `bounds`. The move is exact, so the size stays; only the
    /// result saturates, which it does not where `self` fits into `bounds`.
    pub open spec fn centered_into(self, center: Vec2, bounds: Aabb2) -> Aabb2 {
        let dx = center.x - self.middle().x;
        let dy = center.y - self.middle().y;
        let x = pushed_into(
            self.min.x + dx,
            self.max.x + dx,
            bounds.min.x as int,
            bounds.max.x as int,
        );
        let y = pushed_into(
            self.min.y + dy,
            self.max.y + dy,
            bounds.min.y as int,
            bounds.max.y as int,
        );
        Aabb2 {
            min: Vec2 { x: sat(x.0) as i64, y: sat(y.0) as i64 },
            max: Vec2 { x: sat(x.1) as i64, y: sat(y.1) as i64 },
        }
    }

    /// The rectangle of the given size around the center of `self`, pushed
    /// into `bounds`; `self` where the size is negative or does not fit into
    /// `bounds`.
    pub open spec fn resized_into(self, size: Vec2, bounds: Aabb2) -> Aabb2 {
        if 0 <= size.x <= bounds.width() && 0 <= size.y <= bounds.height() {
            let x0 = self.middle().x - size.x / 2;
            let y0 = self.middle().y - size.y / 2;
            let x = pushed_into(x0, x0 + size.x, bounds.min.x as int, bounds.max.x as int);
            let y = pushed_into(y0, y0 + size.y, bounds.min.y as int, bounds.max.y as int);
            Aabb2 {
                min: Vec2 { x: sat(x.0) as i64, y: sat(y.0) as i64 },
                max: Vec2 { x: sat(x.1) as i64, y: sat(y.1) as i64 },
            }
        } else {
            self
        }
    }

    /// The point of `self` at the relative position `ratio`: (0, 0) is the
    /// lower-left corner, (`UNIT`, `UNIT`) the upper-right one.
    pub open spec fn anchor(self, ratio: Vec2) -> Vec2 {
        Vec2 {
            x: sat(self.min.x + scaled(self.width(), ratio.x as int)) as i64,
            y: sat(self.min.y + scaled(self.height(), ratio.y as int)) as i64,
        }
    }

    /// The rectangle that consists of the point `p` alone.
    pub fn point(p: Vec2) -> (r: Aabb2)
        ensures
            r == (Aabb2 { min: p, max: p }),
            r.wf(),
    {
        Aabb2 { min: p, max: p }
    }

    /// The smallest rectangle that holds both `a` and `b`.
    pub fn from_corners(a: Vec2, b: Vec2) -> (r: Aabb2)
        ensures
            r.wf(),
            r.min.x == vstd::math::min(a.x as int, b.x as int),
            r.min.y == vstd::math::min(a.y as int, b.y as int),
            r.max.x == vstd::math::max(a.x as int, b.x as int),
            r.max.y == vstd::math::max(a.y as int, b.y as int),
    {
        let (x0, x1) = if a.x <= b.x {
            (a.x, b.x)
        } else {
            (b.x, a.x)
        };
        let (y0, y1) = if a.y <= b.y {
            (a.y, b.y)
        } else {
            (b.y, a.y)
        };
        Aabb2 { min: Vec2 { x: x0, y: y0 }, max: Vec2 { x: x1, y: y1 } }
    }

    /// `self` grown by `half.x` to the left and to the right and by `half.y`
    /// downward and upward, each coordinate saturating.
    pub fn extend_symmetric(self, half: Vec2) -> (r: Aabb2)
        ensures
            r == (Aabb2 { min: self.min.minus(half), max: self.max.plus(half) }),
    {
        Aabb2 { min: self.min.sub(half), max: self.max.add(half) }
    }

    /// `self` moved by `offset`.
    pub fn translate(self, offset: Vec2) -> (r: Aabb2)
        ensures
            r == self.moved(offset),
    {
        Aabb2 { min: self.min.add(offset), max: self.max.add(offset) }
    }

    /// The center of `self`.
    pub fn center(self) -> (r: Vec2)
        ensures
            r == self.middle(),
            self.wf() ==> self.holds(r),
    {
        Vec2 { x: mid(self.min.x, self.max.x), y: mid(self.min.y, self.max.y) }
    }

    /// Whether `p` lies in `self`, borders included.
    pub fn contains(self, p: Vec2) -> (r: bool)
        ensures
            r == self.holds(p),
    {
        self.min.x <= p.x && p.x <= self.max.x && self.min.y <= p.y && p.y <= self.max.y
    }

    /// The point of `self` at the relative position `ratio`.
    pub fn align_pos(self, ratio: Vec2) -> (r: Vec2)
        ensures
            r == self.anchor(ratio),
    {
        Vec2 {
            x: along(self.min.x, self.max.x, ratio.x),
            y: along(self.min.y, self.max.y, ratio.y),
        }
    }

    /// The rectangle of the given size around the center of `self`, as far as
    /// `bounds` allow; `self` where the size is negative or does not fit into
    /// `bounds`.
    pub fn resize_into(self, size: Vec2, bounds: Aabb2) -> (r: Aabb2)
        ensures
            r == self.resized_into(size, bounds),
            self.wf() && bounds.wf() && self.fits(bounds) ==> r.wf() && r.fits(bounds),
            self.wf() && bounds.wf() && self.within(bounds) ==> r.within(bounds),
    {
        let bw: i128 = bounds.max.x as i128 - bounds.min.x as i128;
        let bh: i128 = bounds.max.y as i128 - bounds.min.y as i128;
        if size.x < 0 || size.y < 0 || size.x as i128 > bw || size.y as i128 > bh {
            return self;
        }
        let middle = self.center();
        let (x0, x1) = stretch_axis(middle.x, size.x, bounds.min.x, bounds.max.x);
        let (y0, y1) = stretch_axis(middle.y, size.y, bounds.min.y, bounds.max.y);
        Aabb2 { min: Vec2 { x: x0, y: y0 }, max: Vec2 { x: x1, y: y1 } }
    }

    /// `self` moved so that its center comes to lie at `center`, as far as
    /// `bounds` allow. Where `self` fits into `bounds` the result has the size
    /// of `self` and lies within `bounds`.
    pub fn center_into(self, center: Vec2, bounds: Aabb2) -> (r: Aabb2)
        ensures
            r == self.centered_into(center, bounds),
            self.wf() && bounds.wf() && self.fits(bounds) ==> r.within(bounds) && r.wf()
                && r.width() == self.width() && r.height() == self.height(),
    {
        let middle = self.center();
        let (x0, x1) = recenter_axis(
            self.min.x,
            self.max.x,
            middle.x,
            center.x,
            bounds.min.x,
            bounds.max.x,
        );
        let (y0, y1) = recenter_axis(
            self.min.y,
            self.max.y,
            middle.y,
            center.y,
            bounds.min.y,
            bounds.max.y,
        );
        Aabb2 { min: Vec2 { x: x0, y: y0 }, max: Vec2 { x: x1, y: y1 } }
    }

    /// `self` pushed into `bounds`. Where `self` fits into `bounds` the result
    /// has the size of `self` and lies within `bounds`.
    pub fn clamp_into(self, bounds: Aabb2) -> (r: Aabb2)
        ensures
            r == self.clamped_into(bounds),
            self.wf() && bounds.wf() && self.fits(bounds) ==> r.within(bounds) && r.wf()
                && r.width() == self.width() && r.height() == self.height(),
            self.wf() && self.within(bounds) ==> r == self,
    {
        let (x0, x1) = push_axis(self.min.x, self.max.x, bounds.min.x, bounds.max.x);
        let (y0, y1) = push_axis(self.min.y, self.max.y, bounds.min.y, bounds.max.y);
        Aabb2 { min: Vec2 { x: x0, y: y0 }, max: Vec2 { x: x1, y: y1 } }
    }
}

/// A rectangle that fits into the bounds keeps its size when it is pushed
/// into them, and lies within them afterward; one that lies within them
/// stays where it is.
pub proof fn lemma_clamped_into(r: Aabb2, bounds: Aabb2)
    requires
        r.wf(),
        bounds.wf(),
        r.fits(bounds),
    ensures
        r.clamped_into(bounds).wf(),
        r.clamped_into(bounds).within(bounds),
        r.clamped_into(bounds).width() == r.width(),
        r.clamped_into(bounds).height() == r.height(),
        r.within(bounds) ==> r.clamped_into(bounds) == r,
{
}

/// The midpoint of two coordinates.
fn mid(a: Coord, b: Coord) -> (r: Coord)
    ensures
        r == midpoint(a as int, b as int),
{
    let sum: i128 = a as i128 + b as i128;
    let half: i128 = if sum >= 0 {
        sum / 2
    } else {
        -((1 - sum) / 2)
    };
    half as i64
}

/// The coordinate at the fixed-point share `ratio` of the way from `lo` to `hi`.
fn along(lo: Coord, hi: Coord, ratio: Coord) -> (r: Coord)
    ensures
        r == sat(lo + scaled(hi - lo, ratio as int)),
{
    let extent: i128 = hi as i128 - lo as i128;
    proof {
        assert(-0xffff_ffff_ffff_ffff * 0x8000_0000_0000_0000 <= extent * ratio
            <= 0xffff_ffff_ffff_ffff * 0x8000_0000_0000_0000) by (nonlinear_arith)
            requires
                -0xffff_ffff_ffff_ffff <= extent <= 0xffff_ffff_ffff_ffff,
                -0x8000_0000_0000_0000 <= ratio <= 0x8000_0000_0000_0000,
        ;
    }
    let wide: i128 = extent * (ratio as i128);
    let part: i128 = wide / 1000;
    saturate(lo as i128 + part)
}

/// The interval of the length `size` around `middle`, pushed into the
/// interval from `b_min` to `b_max`.
fn stretch_axis(middle: Coord, size: Coord, b_min: Coord, b_max: Coord) -> (r: (Coord, Coord))
    requires
        0 <= size,
    ensures
        r.0 == sat(
            pushed_into(middle - size / 2, middle - size / 2 + size, b_min as int, b_max as int).0,
        ),
        r.1 == sat(
            pushed_into(middle - size / 2, middle - size / 2 + size, b_min as int, b_max as int).1,
        ),
{
    let lo: i128 = middle as i128 - (size / 2) as i128;
    let hi: i128 = lo + size as i128;
    let up: i128 = if b_min as i128 > lo {
        b_min as i128 - lo
    } else {
        0
    };
    let down: i128 = if (b_max as i128) < hi + up {
        b_max as i128 - (hi + up)
    } else {
        0
    };
    (saturate(lo + up + down), saturate(hi + up + down))
}

/// Moves the interval from `r_min` to `r_max` by what takes `from` to `to`,
/// and pushes it into the interval from `b_min` to `b_max`.
fn recenter_axis(
    r_min: Coord,
    r_max: Coord,
    from: Coord,
    to: Coord,
    b_min: Coord,
    b_max: Coord,
) -> (r: (Coord, Coord))
    ensures
        r.0 == sat(
            pushed_into(r_min + (to - from), r_max + (to - from), b_min as int, b_max as int).0,
        ),
        r.1 == sat(
            pushed_into(r_min + (to - from), r_max + (to - from), b_min as int, b_max as int).1,
        ),
{
    let delta: i128 = to as i128 - from as i128;
    let lo: i128 = r_min as i128 + delta;
    let hi: i128 = r_max as i128 + delta;
    let up: i128 = if b_min as i128 > lo {
        b_min as i128 - lo
    } else {
        0
    };
    let down: i128 = if (b_max as i128) < hi + up {
        b_max as i128 - (hi + up)
    } else {
        0
    };
    (saturate(lo + up + down), saturate(hi + up + down))
}

/// Pushes the interval from `r_min` to `r_max` into the one from `b_min` to
/// `b_max`.
fn push_axis(r_min: Coord, r_max: Coord, b_min: Coord, b_max: Coord) -> (r: (Coord, Coord))
    ensures
        r.0 == sat(pushed_into(r_min as int, r_max as int, b_min as int, b_max as int).0),
        r.1 == sat(pushed_into(r_min as int, r_max as int, b_min as int, b_max as int).1),
{
    let up: i128 = if b_min > r_min {
        b_min as i128 - r_min as i128
    } else {
        0
    };
    let down: i128 = if (b_max as i128) < r_max as i128 + up {
        b_max as i128 - (r_max as i128 + up)
    } else {
        0
    };
    (saturate(r_min as i128 + up + down), saturate(r_max as i128 + up + down))
}

} // verus!
