//! Colliders: a shape at a position, and the overlap test between two of them.
//!
//! Circles are tested exactly. A rectangle is tested by its axis-aligned box:
//! the rotation of a collider turns what is drawn, not what is hit.

use crate::geometry::{Aabb2, Vec2};
use crate::scalar::{clamp, sat, saturate, Coord};
use vstd::prelude::*;

verus! {

/// An angle, in thousandths of a degree, counted counterclockwise from the
/// positive x axis.
pub type Angle = i64;

/// The form of a collider.
#[derive(Clone, Copy, Debug, PartialEq, Eq, Structural)]
pub enum Shape {
    Circle { radius: Coord },
    Rectangle { width: Coord, height: Coord },
}

/// A shape placed in the plane.
#[derive(Clone, Copy, Debug, PartialEq, Eq, Structural)]
pub struct Collider {
    pub position: Vec2,
    pub rotation: Angle,
    pub shape: Shape,
}

/// Half of `a`, rounded toward zero.
pub open spec fn half(a: int) -> int {
    if a >= 0 {
        a / 2
    } else {
        -((-a) / 2)
    }
}

/// The squared distance from the point (`px`, `py`) to the nearest point of
/// the box from (`x0`, `y0`) to (`x1`, `y1`).
pub open spec fn box_distance_sq(px: int, py: int, x0: int, y0: int, x1: int, y1: int) -> int {
    let dx = px - clamp(px, x0, x1);
    let dy = py - clamp(py, y0, y1);
    dx * dx + dy * dy
}

impl Collider {
    /// The half extents of the collider's box along x and y, exact.
    pub open spec fn reach(self) -> (int, int) {
        match self.shape {
            Shape::Circle { radius } => (radius as int, radius as int),
            Shape::Rectangle { width, height } => (half(width as int), half(height as int)),
        }
    }

    /// The axis-aligned box around the collider, each coordinate saturating.
    pub open spec fn aabb(self) -> Aabb2 {
        let (rx, ry) = self.reach();
        Aabb2 {
            min: Vec2 { x: sat(self.position.x - rx) as i64, y: sat(self.position.y - ry) as i64 },
            max: Vec2 { x: sat(self.position.x + rx) as i64, y: sat(self.position.y + ry) as i64 },
        }
    }

    /// The two colliders touch or overlap.
    pub open spec fn overlaps(self, other: Collider) -> bool {
        match (self.shape, other.shape) {
            (Shape::Circle { radius: a }, Shape::Circle { radius: b }) => {
                let dx = self.position.x - other.position.x;
                let dy = self.position.y - other.position.y;
                a + b >= 0 && dx * dx + dy * dy <= (a + b) * (a + b)
            },
            (Shape::Circle { radius }, Shape::Rectangle { .. }) => circle_meets_box(
                self.position,
                radius,
                other.aabb(),
            ),
            (Shape::Rectangle { .. }, Shape::Circle { radius }) => circle_meets_box(
                other.position,
                radius,
                self.aabb(),
            ),
            (Shape::Rectangle { .. }, Shape::Rectangle { .. }) => boxes_meet(
                self.aabb(),
                other.aabb(),
            ),
        }
    }

    /// A circle of the given radius around `position`.
    pub fn circle(position: Vec2, radius: Coord) -> (r: Collider)
        ensures
            r == (Collider { position, rotation: 0, shape: Shape::Circle { radius } }),
    {
        Collider { position, rotation: 0, shape: Shape::Circle { radius } }
    }

    /// A rectangle of the given size centered at `position`.
    pub fn rectangle(position: Vec2, width: Coord, height: Coord) -> (r: Collider)
        ensures
            r == (Collider { position, rotation: 0, shape: Shape::Rectangle { width, height } }),
    {
        Collider { position, rotation: 0, shape: Shape::Rectangle { width, height } }
    }

    /// The axis-aligned box around the collider.
    pub fn compute_aabb(&self) -> (r: Aabb2)
        ensures
            r == self.aabb(),
    {
        let (rx, ry): (i64, i64) = match self.shape {
            Shape::Circle { radius } => (radius, radius),
            Shape::Rectangle { width, height } => (width / 2, height / 2),
        };
        let px: i128 = self.position.x as i128;
        let py: i128 = self.position.y as i128;
        Aabb2 {
            min: Vec2 { x: saturate(px - rx as i128), y: saturate(py - ry as i128) },
            max: Vec2 { x: saturate(px + rx as i128), y: saturate(py + ry as i128) },
        }
    }

    /// Whether the two colliders touch or overlap.
    pub fn check(&self, other: &Collider) -> (r: bool)
        ensures
            r == self.overlaps(*other),
    {
        match self.shape {
            Shape::Circle { radius: a } => match other.shape {
                Shape::Circle { radius: b } => {
                    let reach: i128 = a as i128 + b as i128;
                    if reach < 0 {
                        false
                    } else {
                        let dx: i128 = self.position.x as i128 - other.position.x as i128;
                        let dy: i128 = self.position.y as i128 - other.position.y as i128;
                        within_distance(dx, dy, reach)
                    }
                },
                Shape::Rectangle { .. } => circle_hits_box(self.position, a, other.compute_aabb()),
            },
            Shape::Rectangle { .. } => match other.shape {
                Shape::Circle { radius: b } => circle_hits_box(
                    other.position,
                    b,
                    self.compute_aabb(),
                ),
                Shape::Rectangle { .. } => {
                    let p = self.compute_aabb();
                    let q = other.compute_aabb();
                    p.min.x <= q.max.x && q.min.x <= p.max.x && p.min.y <= q.max.y && q.min.y
                        <= p.max.y
                },
            },
        }
    }
}

/// The circle of radius `radius` around `center` touches the box `b`.
pub open spec fn circle_meets_box(center: Vec2, radius: Coord, b: Aabb2) -> bool {
    radius >= 0 && box_distance_sq(
        center.x as int,
        center.y as int,
        b.min.x as int,
        b.min.y as int,
        b.max.x as int,
        b.max.y as int,
    ) <= radius * radius
}

/// The two boxes touch or overlap.
pub open spec fn boxes_meet(p: Aabb2, q: Aabb2) -> bool {
    p.min.x <= q.max.x && q.min.x <= p.max.x && p.min.y <= q.max.y && q.min.y <= p.max.y
}

/// Whether the vector (`dx`, `dy`) is no longer than `reach`.
fn within_distance(dx: i128, dy: i128, reach: i128) -> (r: bool)
    requires
        -0xffff_ffff_ffff_ffff <= dx <= 0xffff_ffff_ffff_ffff,
        -0xffff_ffff_ffff_ffff <= dy <= 0xffff_ffff_ffff_ffff,
        0 <= reach <= 0xffff_ffff_ffff_ffff,
    ensures
        r == (dx * dx + dy * dy <= reach * reach),
{
    let ax: u128 = if dx < 0 {
        (-dx) as u128
    } else {
        dx as u128
    };
    let ay: u128 = if dy < 0 {
        (-dy) as u128
    } else {
        dy as u128
    };
    let far: u128 = reach as u128;
    proof {
        assert(ax * ax == dx * dx) by (nonlinear_arith)
            requires
                ax == dx || ax == -dx,
        ;
        assert(ay * ay == dy * dy) by (nonlinear_arith)
            requires
                ay == dy || ay == -dy,
        ;
        if ax > far {
            assert(ax * ax > far * far) by (nonlinear_arith)
                requires
                    ax > far,
                    far >= 0,
            ;
            assert(ay * ay >= 0) by (nonlinear_arith);
        }
        if ay > far {
            assert(ay * ay > far * far) by (nonlinear_arith)
                requires
                    ay > far,
                    far >= 0,
            ;
            assert(ax * ax >= 0) by (nonlinear_arith);
        }
    }
    if ax > far || ay > far {
        return false;
    }
    proof {
        assert(ax * ax <= far * far) by (nonlinear_arith)
            requires
                0 <= ax <= far,
        ;
        assert(ay * ay <= far * far) by (nonlinear_arith)
            requires
                0 <= ay <= far,
        ;
        assert(far * far <= 0xffff_ffff_ffff_ffff * 0xffff_ffff_ffff_ffff) by (nonlinear_arith)
            requires
                0 <= far <= 0xffff_ffff_ffff_ffff,
        ;
    }
    let limit: u128 = far * far;
    let xx: u128 = ax * ax;
    let yy: u128 = ay * ay;
    xx <= limit - yy
}

/// Whether the circle of radius `radius` around `center` touches the box `b`.
fn circle_hits_box(center: Vec2, radius: Coord, b: Aabb2) -> (r: bool)
    ensures
        r == circle_meets_box(center, radius, b),
{
    if radius < 0 {
        return false;
    }
    let nx: i64 = if center.x < b.min.x {
        b.min.x
    } else if center.x > b.max.x {
        b.max.x
    } else {
        center.x
    };
    let ny: i64 = if center.y < b.min.y {
        b.min.y
    } else if center.y > b.max.y {
        b.max.y
    } else {
        center.y
    };
    let dx: i128 = center.x as i128 - nx as i128;
    let dy: i128 = center.y as i128 - ny as i128;
    within_distance(dx, dy, radius as i128)
}

} // verus!
