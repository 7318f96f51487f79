//! The plane types: integer vertices, rational derived points, and the
//! spec-level quantities (distances, orientation, dot products) that the
//! solver contracts are stated over.

use vstd::prelude::*;

verus! {

/// A vertex of the triangle, with exact integer coordinates.
#[derive(Clone, Copy, PartialEq, Eq, Structural, Debug)]
pub struct Point {
    pub x: i64,
    pub y: i64,
}

/// A point with rational coordinates `(nx / den, ny / den)`.
///
/// Derived points are kept in this homogeneous form so that nothing in the
/// solver divides: a singular construction (for example the circumcenter of
/// collinear vertices) is reported as `den == 0` rather than by a crash.
#[derive(Clone, Copy, PartialEq, Eq, Structural, Debug)]
pub struct RatPoint {
    pub nx: i128,
    pub ny: i128,
    pub den: i128,
}

/// A rational scalar `num / den`, used for radii; `den == 0` marks a
/// singular (degenerate-input) result.
#[derive(Clone, Copy, PartialEq, Eq, Structural, Debug)]
pub struct Rat {
    pub num: i128,
    pub den: i128,
}

/// Largest coordinate magnitude the solver accepts; keeps every
/// intermediate product comfortably inside `i128`.
pub const MAX_COORD: i64 = 65536;

pub open spec fn coord_ok(p: Point) -> bool {
    &&& -MAX_COORD <= p.x <= MAX_COORD
    &&& -MAX_COORD <= p.y <= MAX_COORD
}

pub open spec fn sq(n: int) -> int {
    n * n
}

/// Squared Euclidean distance between two vertices.
pub open spec fn dist_sq_val(a: Point, b: Point) -> int {
    sq(a.x - b.x) + sq(a.y - b.y)
}

/// Twice the signed area of the triangle `a b c`; zero exactly on
/// collinear input.
pub open spec fn orient_val(a: Point, b: Point, c: Point) -> int {
    a.x * (b.y - c.y) + b.x * (c.y - a.y) + c.x * (a.y - b.y)
}

/// Dot product of the edge vectors `b - a` and `c - a`; zero exactly when
/// the angle at `a` is right.
pub open spec fn dot_at_val(a: Point, b: Point, c: Point) -> int {
    (b.x - a.x) * (c.x - a.x) + (b.y - a.y) * (c.y - a.y)
}

/// Squared magnitude of the position vector of `p`.
pub open spec fn mag_sq(p: Point) -> int {
    p.x * p.x + p.y * p.y
}

/// Projective equality of two rational points (meaningful when both
/// denominators are nonzero).
pub open spec fn rat_pt_eq(p: RatPoint, q: RatPoint) -> bool {
    &&& p.nx * q.den == q.nx * p.den
    &&& p.ny * q.den == q.ny * p.den
}

/// Equality of two rational scalars by cross-multiplication.
pub open spec fn rat_eq(p: Rat, q: Rat) -> bool {
    p.num * q.den == q.num * p.den
}

/// A rational point with a nonzero denominator denotes an ordinary,
/// finite point of the plane.
pub open spec fn is_finite_pt(p: RatPoint) -> bool {
    p.den != 0
}

} // verus!
