//! The geometric solver: closed-form constructions on a triangle with
//! integer vertices. Every result is exact rational data in homogeneous
//! form; the only rounding happens inside the integer square roots that
//! stand for side lengths and the Heron area, and the contracts state that
//! rounding precisely through `sqrt_floor`.

use vstd::prelude::*;

use crate::isqrt::{is_sqrt_floor, isqrt, lemma_sqrt_floor_le, sqrt_floor};
use crate::point::{
    coord_ok, dist_sq_val, is_finite_pt, mag_sq, orient_val, sq, Point, Rat, RatPoint,
};

verus! {

/// Scale at which side lengths are rounded to integers: a weight of
/// `SIDE_SCALE` stands for a length of one.
pub const SIDE_SCALE: i128 = 256;

/// A triangle side length, as the floor of the square root of the squared
/// distance at scale `SIDE_SCALE`.
pub open spec fn side_w(p: Point, q: Point) -> int {
    sqrt_floor(dist_sq_val(p, q) * (SIDE_SCALE * SIDE_SCALE))
}

/// Denominator of the incenter: the scaled perimeter.
pub open spec fn inc_den_val(a: Point, b: Point, c: Point) -> int {
    side_w(b, c) + side_w(a, c) + side_w(a, b)
}

pub open spec fn inc_nx_val(a: Point, b: Point, c: Point) -> int {
    side_w(b, c) * a.x + side_w(a, c) * b.x + side_w(a, b) * c.x
}

pub open spec fn inc_ny_val(a: Point, b: Point, c: Point) -> int {
    side_w(b, c) * a.y + side_w(a, c) * b.y + side_w(a, b) * c.y
}

/// Sixteen times the squared scaled area, by Heron's formula on the scaled
/// side lengths; negative only when rounding pushes a degenerate triangle
/// slightly past flat.
pub open spec fn heron_val(a: Point, b: Point, c: Point) -> int {
    inc_den_val(a, b, c) * (inc_den_val(a, b, c) - 2 * side_w(b, c)) * (inc_den_val(a, b, c)
        - 2 * side_w(a, c)) * (inc_den_val(a, b, c) - 2 * side_w(a, b))
}

/// The Heron product clamped at zero, so the square root below is defined;
/// the clamp only acts on inputs that are degenerate up to rounding.
pub open spec fn heron_clamped_val(a: Point, b: Point, c: Point) -> int {
    if heron_val(a, b, c) < 0 {
        0
    } else {
        heron_val(a, b, c)
    }
}

/// Numerator of the inradius: four times the scaled area.
pub open spec fn inradius_num_val(a: Point, b: Point, c: Point) -> int {
    sqrt_floor(heron_clamped_val(a, b, c))
}

/// Denominator of the inradius, chosen so that `num / den` is the area
/// divided by the semiperimeter.
pub open spec fn inradius_den_val(a: Point, b: Point, c: Point) -> int {
    2 * SIDE_SCALE * inc_den_val(a, b, c)
}

/// Denominator of the circumcenter; zero exactly on collinear input.
pub open spec fn circum_den_val(a: Point, b: Point, c: Point) -> int {
    2 * orient_val(a, b, c)
}

pub open spec fn circum_nx_val(a: Point, b: Point, c: Point) -> int {
    mag_sq(a) * (b.y - c.y) + mag_sq(b) * (c.y - a.y) + mag_sq(c) * (a.y - b.y)
}

pub open spec fn circum_ny_val(a: Point, b: Point, c: Point) -> int {
    mag_sq(a) * (c.x - b.x) + mag_sq(b) * (a.x - c.x) + mag_sq(c) * (b.x - a.x)
}

/// Numerator of the squared circumradius: the squared distance from the
/// homogeneous circumcenter to vertex `a`, over denominator `den²`.
pub open spec fn circum_rsq_num_val(a: Point, b: Point, c: Point) -> int {
    sq(circum_nx_val(a, b, c) - a.x * circum_den_val(a, b, c)) + sq(
        circum_ny_val(a, b, c) - a.y * circum_den_val(a, b, c),
    )
}

pub open spec fn circum_rsq_den_val(a: Point, b: Point, c: Point) -> int {
    sq(circum_den_val(a, b, c))
}

/// Determinant of the two-altitude system the orthocenter solves; it
/// coincides with `orient_val`, so it vanishes exactly on collinear input.
pub open spec fn ortho_denom_val(a: Point, b: Point, c: Point) -> int {
    (c.x - a.x) * (c.y - b.y) - (c.y - a.y) * (c.x - b.x)
}

/// Numerator of the intersection parameter along the altitude through `a`;
/// it is the dot product of the edges at `a`, so it vanishes exactly when
/// the angle at `a` is right.
pub open spec fn ortho_t1_val(a: Point, b: Point, c: Point) -> int {
    (c.y - a.y) * (b.y - a.y) + (c.x - a.x) * (b.x - a.x)
}

pub open spec fn ortho_nx_val(a: Point, b: Point, c: Point) -> int {
    if ortho_denom_val(a, b, c) == 0 {
        a.x + b.x + c.x
    } else {
        a.x * ortho_denom_val(a, b, c) + ortho_t1_val(a, b, c) * (c.y - b.y)
    }
}

pub open spec fn ortho_ny_val(a: Point, b: Point, c: Point) -> int {
    if ortho_denom_val(a, b, c) == 0 {
        a.y + b.y + c.y
    } else {
        a.y * ortho_denom_val(a, b, c) - ortho_t1_val(a, b, c) * (c.x - b.x)
    }
}

pub open spec fn ortho_den_val(a: Point, b: Point, c: Point) -> int {
    if ortho_denom_val(a, b, c) == 0 {
        3
    } else {
        ortho_denom_val(a, b, c)
    }
}

/// Nine-point center: the rational midpoint of circumcenter and
/// orthocenter, over the product of their denominators.
pub open spec fn ninept_nx_val(a: Point, b: Point, c: Point) -> int {
    circum_nx_val(a, b, c) * ortho_den_val(a, b, c) + ortho_nx_val(a, b, c) * circum_den_val(
        a,
        b,
        c,
    )
}

pub open spec fn ninept_ny_val(a: Point, b: Point, c: Point) -> int {
    circum_ny_val(a, b, c) * ortho_den_val(a, b, c) + ortho_ny_val(a, b, c) * circum_den_val(
        a,
        b,
        c,
    )
}

pub open spec fn ninept_den_val(a: Point, b: Point, c: Point) -> int {
    2 * circum_den_val(a, b, c) * ortho_den_val(a, b, c)
}

/// Squared nine-point radius: a quarter of the squared circumradius.
pub open spec fn ninept_rsq_num_val(a: Point, b: Point, c: Point) -> int {
    circum_rsq_num_val(a, b, c)
}

pub open spec fn ninept_rsq_den_val(a: Point, b: Point, c: Point) -> int {
    4 * sq(circum_den_val(a, b, c))
}

/// First endpoint of the extended segment: `a - factor * (b - a)`, over
/// denominator `fden`.
pub open spec fn ext_lo_nx_val(a: Point, b: Point, fnum: int, fden: int) -> int {
    a.x * fden - (b.x - a.x) * fnum
}

pub open spec fn ext_lo_ny_val(a: Point, b: Point, fnum: int, fden: int) -> int {
    a.y * fden - (b.y - a.y) * fnum
}

/// Second endpoint of the extended segment: `b + factor * (b - a)`, over
/// denominator `fden`.
pub open spec fn ext_hi_nx_val(a: Point, b: Point, fnum: int, fden: int) -> int {
    b.x * fden + (b.x - a.x) * fnum
}

pub open spec fn ext_hi_ny_val(a: Point, b: Point, fnum: int, fden: int) -> int {
    b.y * fden + (b.y - a.y) * fnum
}

/// Dot product of `p - a` with `b - a`, the numerator of the projection
/// parameter of `p` onto the line through `a` and `b`.
pub open spec fn foot_dot_val(p: Point, a: Point, b: Point) -> int {
    (p.x - a.x) * (b.x - a.x) + (p.y - a.y) * (b.y - a.y)
}

pub open spec fn foot_nx_val(p: Point, a: Point, b: Point) -> int {
    a.x * dist_sq_val(a, b) + foot_dot_val(p, a, b) * (b.x - a.x)
}

pub open spec fn foot_ny_val(p: Point, a: Point, b: Point) -> int {
    a.y * dist_sq_val(a, b) + foot_dot_val(p, a, b) * (b.y - a.y)
}

/// Bounds a product from bounds on its factors.
pub(crate) proof fn lemma_mul_bnd(x: int, y: int, bx: int, by: int)
    by (nonlinear_arith)
    requires
        -bx <= x <= bx,
        -by <= y <= by,
        0 <= bx,
        0 <= by,
    ensures
        -(bx * by) <= x * y <= bx * by,
{
}

/// Squared distance between two vertices.
pub fn dist_sq(a: Point, b: Point) -> (r: i128)
    requires
        coord_ok(a),
        coord_ok(b),
    ensures
        r == dist_sq_val(a, b),
        0 <= r <= 34359738368,
{
    let dx: i128 = (a.x as i128) - (b.x as i128);
    let dy: i128 = (a.y as i128) - (b.y as i128);
    proof {
        lemma_mul_bnd(dx as int, dx as int, 131072, 131072);
        lemma_mul_bnd(dy as int, dy as int, 131072, 131072);
        assert(dx * dx >= 0) by (nonlinear_arith);
        assert(dy * dy >= 0) by (nonlinear_arith);
    }
    dx * dx + dy * dy
}

/// Euclidean distance between two vertices, rounded down to an integer.
pub fn distance(a: Point, b: Point) -> (r: i64)
    requires
        coord_ok(a),
        coord_ok(b),
    ensures
        r == sqrt_floor(dist_sq_val(a, b)),
        is_sqrt_floor(dist_sq_val(a, b), r as int),
{
    let dsq: i128 = dist_sq(a, b);
    let root: i128 = isqrt(dsq);
    proof {
        lemma_sqrt_floor_le(dsq as int, 262144);
    }
    root as i64
}

/// Midpoint of two vertices.
pub fn midpoint(a: Point, b: Point) -> (m: RatPoint)
    ensures
        m.nx == a.x + b.x,
        m.ny == a.y + b.y,
        m.den == 2,
{
    RatPoint { nx: (a.x as i128) + (b.x as i128), ny: (a.y as i128) + (b.y as i128), den: 2 }
}

/// Largest numerator or denominator magnitude `midpoint_rat` accepts.
pub const RAT_BOUND: i128 = 0x1000_0000_0000_0000;

/// Midpoint of a vertex and a rational point (used for the midpoints of
/// the segments from each vertex to the orthocenter).
pub fn midpoint_rat(v: Point, p: RatPoint) -> (m: RatPoint)
    requires
        coord_ok(v),
        -RAT_BOUND <= p.nx <= RAT_BOUND,
        -RAT_BOUND <= p.ny <= RAT_BOUND,
        -RAT_BOUND <= p.den <= RAT_BOUND,
    ensures
        m.nx == v.x * p.den + p.nx,
        m.ny == v.y * p.den + p.ny,
        m.den == 2 * p.den,
{
    proof {
        lemma_mul_bnd(v.x as int, p.den as int, 65536, RAT_BOUND as int);
        lemma_mul_bnd(v.y as int, p.den as int, 65536, RAT_BOUND as int);
    }
    RatPoint {
        nx: (v.x as i128) * p.den + p.nx,
        ny: (v.y as i128) * p.den + p.ny,
        den: 2 * p.den,
    }
}

/// Largest factor numerator or denominator magnitude `extend_line` accepts.
pub const FACTOR_BOUND: i128 = 0x1_0000_0000;

/// Extends the segment `a b` beyond both endpoints by `factor` times its
/// length: the returned endpoints are `a - factor * (b - a)` and
/// `b + factor * (b - a)`, over denominator `factor.den`.
pub fn extend_line(a: Point, b: Point, factor: Rat) -> (e: (RatPoint, RatPoint))
    requires
        coord_ok(a),
        coord_ok(b),
        -FACTOR_BOUND <= factor.num <= FACTOR_BOUND,
        -FACTOR_BOUND <= factor.den <= FACTOR_BOUND,
    ensures
        e.0.nx == ext_lo_nx_val(a, b, factor.num as int, factor.den as int),
        e.0.ny == ext_lo_ny_val(a, b, factor.num as int, factor.den as int),
        e.0.den == factor.den,
        e.1.nx == ext_hi_nx_val(a, b, factor.num as int, factor.den as int),
        e.1.ny == ext_hi_ny_val(a, b, factor.num as int, factor.den as int),
        e.1.den == factor.den,
{
    let dx: i128 = (b.x as i128) - (a.x as i128);
    let dy: i128 = (b.y as i128) - (a.y as i128);
    proof {
        lemma_mul_bnd(a.x as int, factor.den as int, 65536, FACTOR_BOUND as int);
        lemma_mul_bnd(a.y as int, factor.den as int, 65536, FACTOR_BOUND as int);
        lemma_mul_bnd(b.x as int, factor.den as int, 65536, FACTOR_BOUND as int);
        lemma_mul_bnd(b.y as int, factor.den as int, 65536, FACTOR_BOUND as int);
        lemma_mul_bnd(dx as int, factor.num as int, 131072, FACTOR_BOUND as int);
        lemma_mul_bnd(dy as int, factor.num as int, 131072, FACTOR_BOUND as int);
    }
    let ext_a = RatPoint {
        nx: (a.x as i128) * factor.den - dx * factor.num,
        ny: (a.y as i128) * factor.den - dy * factor.num,
        den: factor.den,
    };
    let ext_b = RatPoint {
        nx: (b.x as i128) * factor.den + dx * factor.num,
        ny: (b.y as i128) * factor.den + dy * factor.num,
        den: factor.den,
    };
    (ext_a, ext_b)
}

/// Orthogonal projection of `p` onto the line through `a` and `b`.
/// The denominator is the squared length of `a b`, so it is zero exactly
/// when `a == b`, where the projection is undefined.
pub fn foot_of_perpendicular(p: Point, a: Point, b: Point) -> (r: RatPoint)
    requires
        coord_ok(p),
        coord_ok(a),
        coord_ok(b),
    ensures
        r.nx == foot_nx_val(p, a, b),
        r.ny == foot_ny_val(p, a, b),
        r.den == dist_sq_val(a, b),
{
    let apx: i128 = (p.x as i128) - (a.x as i128);
    let apy: i128 = (p.y as i128) - (a.y as i128);
    let abx: i128 = (b.x as i128) - (a.x as i128);
    let aby: i128 = (b.y as i128) - (a.y as i128);
    let len2: i128 = dist_sq(a, b);
    proof {
        lemma_mul_bnd(apx as int, abx as int, 131072, 131072);
        lemma_mul_bnd(apy as int, aby as int, 131072, 131072);
    }
    let dot: i128 = apx * abx + apy * aby;
    proof {
        lemma_mul_bnd(a.x as int, len2 as int, 65536, 34359738368);
        lemma_mul_bnd(a.y as int, len2 as int, 65536, 34359738368);
        lemma_mul_bnd(dot as int, abx as int, 34359738368, 131072);
        lemma_mul_bnd(dot as int, aby as int, 34359738368, 131072);
    }
    RatPoint {
        nx: (a.x as i128) * len2 + dot * abx,
        ny: (a.y as i128) * len2 + dot * aby,
        den: len2,
    }
}

/// Incenter and inradius: the incenter is the side-length-weighted average
/// of the vertices; the inradius is the Heron area over the semiperimeter,
/// both on side lengths rounded at scale `SIDE_SCALE`. When rounding makes
/// the Heron product negative (flat input), it is clamped to zero, so a
/// degenerate triangle reports a zero radius. If all three vertices
/// coincide, both denominators are zero.
pub fn incenter_and_inradius(a: Point, b: Point, c: Point) -> (r: (RatPoint, Rat))
    requires
        coord_ok(a),
        coord_ok(b),
        coord_ok(c),
    ensures
        r.0.nx == inc_nx_val(a, b, c),
        r.0.ny == inc_ny_val(a, b, c),
        r.0.den == inc_den_val(a, b, c),
        r.1.num == inradius_num_val(a, b, c),
        r.1.den == inradius_den_val(a, b, c),
{
    let dsq_a: i128 = dist_sq(b, c);
    let dsq_b: i128 = dist_sq(a, c);
    let dsq_c: i128 = dist_sq(a, b);
    let wa: i128 = isqrt(dsq_a * 65536);
    let wb: i128 = isqrt(dsq_b * 65536);
    let wc: i128 = isqrt(dsq_c * 65536);
    proof {
        lemma_sqrt_floor_le(dsq_a * 65536, 47453133);
        lemma_sqrt_floor_le(dsq_b * 65536, 47453133);
        lemma_sqrt_floor_le(dsq_c * 65536, 47453133);
        lemma_mul_bnd(wa as int, a.x as int, 47453133, 65536);
        lemma_mul_bnd(wb as int, b.x as int, 47453133, 65536);
        lemma_mul_bnd(wc as int, c.x as int, 47453133, 65536);
        lemma_mul_bnd(wa as int, a.y as int, 47453133, 65536);
        lemma_mul_bnd(wb as int, b.y as int, 47453133, 65536);
        lemma_mul_bnd(wc as int, c.y as int, 47453133, 65536);
    }
    let per: i128 = wa + wb + wc;
    let center = RatPoint {
        nx: wa * (a.x as i128) + wb * (b.x as i128) + wc * (c.x as i128),
        ny: wa * (a.y as i128) + wb * (b.y as i128) + wc * (c.y as i128),
        den: per,
    };
    let ta: i128 = per - 2 * wa;
    let tb: i128 = per - 2 * wb;
    let tc: i128 = per - 2 * wc;
    proof {
        lemma_mul_bnd(per as int, ta as int, 142359399, 284718798);
        lemma_mul_bnd(tb as int, tc as int, 284718798, 284718798);
    }
    let p1: i128 = per * ta;
    let p2: i128 = tb * tc;
    proof {
        lemma_mul_bnd(p1 as int, p2 as int, 50000000000000000, 90000000000000000);
        assert(p1 * p2 == per * ta * tb * tc) by (nonlinear_arith)
            requires
                p1 == per * ta,
                p2 == tb * tc;
    }
    let heron: i128 = p1 * p2;
    let heron_cl: i128 = if heron < 0 {
        0
    } else {
        heron
    };
    let area4: i128 = isqrt(heron_cl);
    (center, Rat { num: area4, den: 512 * per })
}

/// Circumcenter and squared circumradius, by the perpendicular-bisector
/// determinant formula. On collinear input the denominator is zero: the
/// construction is singular and is reported as such, not guarded.
pub fn circumcenter_and_radius_sq(a: Point, b: Point, c: Point) -> (r: (RatPoint, Rat))
    requires
        coord_ok(a),
        coord_ok(b),
        coord_ok(c),
    ensures
        r.0.nx == circum_nx_val(a, b, c),
        r.0.ny == circum_ny_val(a, b, c),
        r.0.den == circum_den_val(a, b, c),
        r.1.num == circum_rsq_num_val(a, b, c),
        r.1.den == circum_rsq_den_val(a, b, c),
        is_finite_pt(r.0) <==> orient_val(a, b, c) != 0,
        -3377699720527872 <= r.0.nx <= 3377699720527872,
        -3377699720527872 <= r.0.ny <= 3377699720527872,
        -51539607552 <= r.0.den <= 51539607552,
{
    let ax: i128 = a.x as i128;
    let ay: i128 = a.y as i128;
    let bx: i128 = b.x as i128;
    let by: i128 = b.y as i128;
    let cx: i128 = c.x as i128;
    let cy: i128 = c.y as i128;
    proof {
        lemma_mul_bnd(ax as int, ax as int, 65536, 65536);
        lemma_mul_bnd(ay as int, ay as int, 65536, 65536);
        lemma_mul_bnd(bx as int, bx as int, 65536, 65536);
        lemma_mul_bnd(by as int, by as int, 65536, 65536);
        lemma_mul_bnd(cx as int, cx as int, 65536, 65536);
        lemma_mul_bnd(cy as int, cy as int, 65536, 65536);
    }
    let ma: i128 = ax * ax + ay * ay;
    let mb: i128 = bx * bx + by * by;
    let mc: i128 = cx * cx + cy * cy;
    proof {
        lemma_mul_bnd(ax as int, (by - cy) as int, 65536, 131072);
        lemma_mul_bnd(bx as int, (cy - ay) as int, 65536, 131072);
        lemma_mul_bnd(cx as int, (ay - by) as int, 65536, 131072);
        lemma_mul_bnd(ma as int, (by - cy) as int, 8589934592, 131072);
        lemma_mul_bnd(mb as int, (cy - ay) as int, 8589934592, 131072);
        lemma_mul_bnd(mc as int, (ay - by) as int, 8589934592, 131072);
        lemma_mul_bnd(ma as int, (cx - bx) as int, 8589934592, 131072);
        lemma_mul_bnd(mb as int, (ax - cx) as int, 8589934592, 131072);
        lemma_mul_bnd(mc as int, (bx - ax) as int, 8589934592, 131072);
    }
    let den: i128 = 2 * (ax * (by - cy) + bx * (cy - ay) + cx * (ay - by));
    let nx: i128 = ma * (by - cy) + mb * (cy - ay) + mc * (ay - by);
    let ny: i128 = ma * (cx - bx) + mb * (ax - cx) + mc * (bx - ax);
    proof {
        lemma_mul_bnd(ax as int, den as int, 65536, 51539607552);
        lemma_mul_bnd(ay as int, den as int, 65536, 51539607552);
    }
    let ex: i128 = nx - ax * den;
    let ey: i128 = ny - ay * den;
    proof {
        lemma_mul_bnd(ex as int, ex as int, 6755399441055744, 6755399441055744);
        lemma_mul_bnd(ey as int, ey as int, 6755399441055744, 6755399441055744);
        lemma_mul_bnd(den as int, den as int, 51539607552, 51539607552);
        assert(ex * ex >= 0) by (nonlinear_arith);
        assert(ey * ey >= 0) by (nonlinear_arith);
    }
    let rsq_num: i128 = ex * ex + ey * ey;
    let rsq_den: i128 = den * den;
    (RatPoint { nx, ny, den }, Rat { num: rsq_num, den: rsq_den })
}

/// Orthocenter, as the intersection of the altitudes through `a` and `b`,
/// each written parametrically along a perpendicular of the opposite side.
/// When the determinant of that system vanishes — over integer coordinates
/// the exact counterpart of the reference near-zero tolerance, and exactly
/// the collinear case — the centroid is returned instead: the one guarded
/// singularity of the solver.
pub fn orthocenter(a: Point, b: Point, c: Point) -> (r: RatPoint)
    requires
        coord_ok(a),
        coord_ok(b),
        coord_ok(c),
    ensures
        r.nx == ortho_nx_val(a, b, c),
        r.ny == ortho_ny_val(a, b, c),
        r.den == ortho_den_val(a, b, c),
        is_finite_pt(r),
        -6755399441055744 <= r.nx <= 6755399441055744,
        -6755399441055744 <= r.ny <= 6755399441055744,
        0 < r.den <= 34359738368 || -34359738368 <= r.den < 0,
{
    let acx: i128 = (c.x as i128) - (a.x as i128);
    let acy: i128 = (c.y as i128) - (a.y as i128);
    let bcx: i128 = (c.x as i128) - (b.x as i128);
    let bcy: i128 = (c.y as i128) - (b.y as i128);
    proof {
        lemma_mul_bnd(acx as int, bcy as int, 131072, 131072);
        lemma_mul_bnd(acy as int, bcx as int, 131072, 131072);
    }
    let denom: i128 = acx * bcy - acy * bcx;
    if denom == 0 {
        return RatPoint {
            nx: (a.x as i128) + (b.x as i128) + (c.x as i128),
            ny: (a.y as i128) + (b.y as i128) + (c.y as i128),
            den: 3,
        };
    }
    let dx: i128 = (b.x as i128) - (a.x as i128);
    let dy: i128 = (b.y as i128) - (a.y as i128);
    proof {
        lemma_mul_bnd(acy as int, dy as int, 131072, 131072);
        lemma_mul_bnd(acx as int, dx as int, 131072, 131072);
    }
    let t1n: i128 = acy * dy + acx * dx;
    proof {
        lemma_mul_bnd(a.x as int, denom as int, 65536, 34359738368);
        lemma_mul_bnd(a.y as int, denom as int, 65536, 34359738368);
        lemma_mul_bnd(t1n as int, bcy as int, 34359738368, 131072);
        lemma_mul_bnd(t1n as int, bcx as int, 34359738368, 131072);
    }
    RatPoint {
        nx: (a.x as i128) * denom + t1n * bcy,
        ny: (a.y as i128) * denom - t1n * bcx,
        den: denom,
    }
}

/// Nine-point circle: its center is the midpoint of circumcenter and
/// orthocenter, its squared radius a quarter of the squared circumradius.
/// It inherits the circumcenter's singularity on collinear input.
pub fn nine_point_circle(a: Point, b: Point, c: Point) -> (r: (RatPoint, Rat))
    requires
        coord_ok(a),
        coord_ok(b),
        coord_ok(c),
    ensures
        r.0.nx == ninept_nx_val(a, b, c),
        r.0.ny == ninept_ny_val(a, b, c),
        r.0.den == ninept_den_val(a, b, c),
        r.1.num == ninept_rsq_num_val(a, b, c),
        r.1.den == ninept_rsq_den_val(a, b, c),
{
    let (circum, rsq) = circumcenter_and_radius_sq(a, b, c);
    let ortho = orthocenter(a, b, c);
    proof {
        lemma_mul_bnd(circum.nx as int, ortho.den as int, 3377699720527872, 34359738368);
        lemma_mul_bnd(circum.ny as int, ortho.den as int, 3377699720527872, 34359738368);
        lemma_mul_bnd(ortho.nx as int, circum.den as int, 6755399441055744, 51539607552);
        lemma_mul_bnd(ortho.ny as int, circum.den as int, 6755399441055744, 51539607552);
        lemma_mul_bnd(circum.den as int, ortho.den as int, 51539607552, 34359738368);
        lemma_mul_bnd(circum.den as int, circum.den as int, 51539607552, 51539607552);
    }
    let center = RatPoint {
        nx: circum.nx * ortho.den + ortho.nx * circum.den,
        ny: circum.ny * ortho.den + ortho.ny * circum.den,
        den: 2 * (circum.den * ortho.den),
    };
    proof {
        assert(2 * (circum.den * ortho.den) == ninept_den_val(a, b, c)) by (nonlinear_arith)
            requires
                circum.den == circum_den_val(a, b, c),
                ortho.den == ortho_den_val(a, b, c);
        assert(circum.den * circum.den == sq(circum_den_val(a, b, c)))
            by (nonlinear_arith)
            requires
                circum.den == circum_den_val(a, b, c);
    }
    let radius_sq = Rat { num: rsq.num, den: 4 * (circum.den * circum.den) };
    (center, radius_sq)
}

} // verus!
