//! The geometric laws of the solver, proved once and for all inputs:
//! the incenter of a non-degenerate triangle lies strictly inside it, the
//! circumcenter is equidistant from the three vertices, the nine-point
//! circle is the half-scale circle between circumcenter and orthocenter,
//! a right triangle has its orthocenter at the right-angle vertex and its
//! circumcenter at the midpoint of the hypotenuse, collinear input drives
//! the orthocenter to its centroid fallback and the circumcenter into its
//! singular case, and extending a segment by a unit factor doubles it
//! symmetrically.

use vstd::prelude::*;

use crate::isqrt::lemma_sqrt_floor_ge;
use crate::point::{dist_sq_val, dot_at_val, orient_val, sq, Point};
use crate::solver::{
    circum_den_val, circum_nx_val, circum_ny_val, circum_rsq_den_val, circum_rsq_num_val,
    ext_hi_nx_val, ext_hi_ny_val, ext_lo_nx_val, ext_lo_ny_val, inc_den_val, inc_nx_val,
    inc_ny_val, ninept_den_val, ninept_nx_val, ninept_ny_val, ninept_rsq_den_val,
    ninept_rsq_num_val, ortho_den_val, ortho_denom_val, ortho_nx_val, ortho_ny_val,
    ortho_t1_val, side_w,
};

verus! {

/// Signed side test for the homogeneous point `(nx / den, ny / den)`
/// against the directed line from `p` to `q`: the cross product of `q - p`
/// with the point minus `p`, scaled by `den`. For `den > 0` its sign is
/// the side of the line the point lies on.
pub open spec fn side_sign_val(p: Point, q: Point, nx: int, ny: int, den: int) -> int {
    (q.x - p.x) * (ny - p.y * den) - (q.y - p.y) * (nx - p.x * den)
}

/// The homogeneous point `(nx / den, ny / den)` lies strictly inside the
/// triangle `a b c`: for each directed side it lies strictly on the same
/// side as the remaining vertex, whose side is given by `orient_val`.
pub open spec fn strictly_inside_val(
    nx: int,
    ny: int,
    den: int,
    a: Point,
    b: Point,
    c: Point,
) -> bool {
    &&& den > 0
    &&& side_sign_val(a, b, nx, ny, den) * orient_val(a, b, c) > 0
    &&& side_sign_val(b, c, nx, ny, den) * orient_val(a, b, c) > 0
    &&& side_sign_val(c, a, nx, ny, den) * orient_val(a, b, c) > 0
}

proof fn lemma_mul_comm(x: int, y: int)
    by (nonlinear_arith)
    ensures
        x * y == y * x,
{
}

proof fn lemma_mul_shuffle(x: int, y: int, z: int)
    by (nonlinear_arith)
    ensures
        x * (y * z) == (x * y) * z,
        x * (y * z) == y * (x * z),
        x * (y * z) == (x * z) * y,
        (x * y) * z == (x * z) * y,
{
}

proof fn lemma_mul_distr(x: int, y: int, z: int)
    by (nonlinear_arith)
    ensures
        x * (y + z) == x * y + x * z,
        x * (y - z) == x * y - x * z,
        (y + z) * x == y * x + z * x,
        (y - z) * x == y * x - z * x,
{
}

proof fn lemma_sq_diff(x: int, y: int)
    by (nonlinear_arith)
    ensures
        x * x - y * y == (x - y) * (x + y),
        (x - y) * (y + x) == x * x - y * y,
        (y + x) * (x - y) == x * x - y * y,
{
}

/// The determinant of the two-altitude system solved by the orthocenter is
/// exactly twice the signed area: it vanishes if and only if the vertices
/// are collinear, so the centroid fallback triggers exactly there.
pub proof fn lemma_orthocenter_determinant(a: Point, b: Point, c: Point)
    ensures
        ortho_denom_val(a, b, c) == orient_val(a, b, c),
{
    assert((c.x - a.x) * (c.y - b.y) - (c.y - a.y) * (c.x - b.x) == a.x * (b.y - c.y) + b.x * (c.y
        - a.y) + c.x * (a.y - b.y)) by (nonlinear_arith);
}

proof fn lemma_orient_cyclic(a: Point, b: Point, c: Point)
    ensures
        orient_val(a, b, c) == orient_val(b, c, a),
        orient_val(a, b, c) == orient_val(c, a, b),
{
    assert(a.x * (b.y - c.y) + b.x * (c.y - a.y) + c.x * (a.y - b.y) == b.x * (c.y - a.y) + c.x * (
    a.y - b.y) + a.x * (b.y - c.y)) by (nonlinear_arith);
    assert(a.x * (b.y - c.y) + b.x * (c.y - a.y) + c.x * (a.y - b.y) == c.x * (a.y - b.y) + a.x * (
    b.y - c.y) + b.x * (c.y - a.y)) by (nonlinear_arith);
}

/// A triangle with nonzero signed area has three pairwise distinct
/// vertices, so each squared side length is at least one.
proof fn lemma_distinct_of_orient(a: Point, b: Point, c: Point)
    requires
        orient_val(a, b, c) != 0,
    ensures
        dist_sq_val(b, c) >= 1,
        dist_sq_val(a, c) >= 1,
        dist_sq_val(a, b) >= 1,
{
    if b.x == c.x && b.y == c.y {
        assert(a.x * (b.y - c.y) + b.x * (c.y - a.y) + c.x * (a.y - b.y) == 0) by (nonlinear_arith)
            requires
                b.x == c.x,
                b.y == c.y,
        ;
    }
    assert((b.x - c.x) * (b.x - c.x) + (b.y - c.y) * (b.y - c.y) >= 1) by (nonlinear_arith)
        requires
            b.x != c.x || b.y != c.y,
    ;
    if a.x == c.x && a.y == c.y {
        assert(a.x * (b.y - c.y) + b.x * (c.y - a.y) + c.x * (a.y - b.y) == 0) by (nonlinear_arith)
            requires
                a.x == c.x,
                a.y == c.y,
        ;
    }
    assert((a.x - c.x) * (a.x - c.x) + (a.y - c.y) * (a.y - c.y) >= 1) by (nonlinear_arith)
        requires
            a.x != c.x || a.y != c.y,
    ;
    if a.x == b.x && a.y == b.y {
        assert(a.x * (b.y - c.y) + b.x * (c.y - a.y) + c.x * (a.y - b.y) == 0) by (nonlinear_arith)
            requires
                a.x == b.x,
                a.y == b.y,
        ;
    }
    assert((a.x - b.x) * (a.x - b.x) + (a.y - b.y) * (a.y - b.y) >= 1) by (nonlinear_arith)
        requires
            a.x != b.x || a.y != b.y,
    ;
}

/// The side test of a weighted average of the three vertices against side
/// `p q` reduces to the third weight times the signed area.
proof fn lemma_convex_combination_side(p: Point, q: Point, r: Point, wp: int, wq: int, wr: int)
    ensures
        side_sign_val(
            p,
            q,
            wp * p.x + wq * q.x + wr * r.x,
            wp * p.y + wq * q.y + wr * r.y,
            wp + wq + wr,
        ) == wr * orient_val(p, q, r),
{
    let px = p.x as int;
    let py = p.y as int;
    let qx = q.x as int;
    let qy = q.y as int;
    let rx = r.x as int;
    let ry = r.y as int;
    let nxv = wp * px + wq * qx + wr * rx;
    let nyv = wp * py + wq * qy + wr * ry;
    let s = wp + wq + wr;
    let ux = qx - px;
    let uy = qy - py;
    lemma_mul_distr(py, wp + wq, wr);
    lemma_mul_distr(py, wp, wq);
    lemma_mul_distr(px, wp + wq, wr);
    lemma_mul_distr(px, wp, wq);
    lemma_mul_comm(py, wp);
    lemma_mul_comm(py, wq);
    lemma_mul_comm(py, wr);
    lemma_mul_comm(px, wp);
    lemma_mul_comm(px, wq);
    lemma_mul_comm(px, wr);
    lemma_mul_distr(wq, qy, py);
    lemma_mul_distr(wr, ry, py);
    lemma_mul_distr(wq, qx, px);
    lemma_mul_distr(wr, rx, px);
    assert(nyv - py * s == wq * (qy - py) + wr * (ry - py));
    assert(nxv - px * s == wq * (qx - px) + wr * (rx - px));
    lemma_mul_distr(ux, wq * (qy - py), wr * (ry - py));
    lemma_mul_distr(uy, wq * (qx - px), wr * (rx - px));
    lemma_mul_shuffle(ux, wq, qy - py);
    lemma_mul_shuffle(ux, wr, ry - py);
    lemma_mul_shuffle(uy, wq, qx - px);
    lemma_mul_shuffle(uy, wr, rx - px);
    lemma_mul_comm(ux, uy);
    assert(ux * (nyv - py * s) - uy * (nxv - px * s) == wr * (ux * (ry - py)) - wr * (uy * (rx
        - px)));
    lemma_mul_distr(wr, ux * (ry - py), uy * (rx - px));
    assert(ux * (ry - py) - uy * (rx - px) == px * (qy - ry) + qx * (ry - py) + rx * (py - qy))
        by (nonlinear_arith)
        requires
            ux == qx - px,
            uy == qy - py,
    ;
    assert(side_sign_val(p, q, nxv, nyv, s) == wr * orient_val(p, q, r));
}

/// For any non-degenerate triangle the incenter lies strictly inside it.
pub proof fn lemma_incenter_strictly_inside(a: Point, b: Point, c: Point)
    requires
        orient_val(a, b, c) != 0,
    ensures
        strictly_inside_val(inc_nx_val(a, b, c), inc_ny_val(a, b, c), inc_den_val(a, b, c), a, b, c),
{
    lemma_distinct_of_orient(a, b, c);
    let wa = side_w(b, c);
    let wb = side_w(a, c);
    let wc = side_w(a, b);
    lemma_sqrt_floor_ge(dist_sq_val(b, c) * 65536, 256);
    lemma_sqrt_floor_ge(dist_sq_val(a, c) * 65536, 256);
    lemma_sqrt_floor_ge(dist_sq_val(a, b) * 65536, 256);
    assert(wa >= 256);
    assert(wb >= 256);
    assert(wc >= 256);
    let o = orient_val(a, b, c);
    lemma_orient_cyclic(a, b, c);
    lemma_convex_combination_side(a, b, c, wa, wb, wc);
    lemma_convex_combination_side(b, c, a, wb, wc, wa);
    lemma_convex_combination_side(c, a, b, wc, wa, wb);
    assert(wc * o * o > 0) by (nonlinear_arith)
        requires
            wc >= 1,
            o != 0,
    ;
    assert(wa * o * o > 0) by (nonlinear_arith)
        requires
            wa >= 1,
            o != 0,
    ;
    assert(wb * o * o > 0) by (nonlinear_arith)
        requires
            wb >= 1,
            o != 0,
    ;
    assert(side_sign_val(a, b, inc_nx_val(a, b, c), inc_ny_val(a, b, c), inc_den_val(a, b, c)) * o
        == wc * o * o) by (nonlinear_arith)
        requires
            side_sign_val(a, b, inc_nx_val(a, b, c), inc_ny_val(a, b, c), inc_den_val(a, b, c))
                == wc * o,
    ;
    assert(side_sign_val(b, c, inc_nx_val(a, b, c), inc_ny_val(a, b, c), inc_den_val(a, b, c)) * o
        == wa * o * o) by (nonlinear_arith)
        requires
            side_sign_val(b, c, inc_nx_val(a, b, c), inc_ny_val(a, b, c), inc_den_val(a, b, c))
                == wa * o,
    ;
    assert(side_sign_val(c, a, inc_nx_val(a, b, c), inc_ny_val(a, b, c), inc_den_val(a, b, c)) * o
        == wb * o * o) by (nonlinear_arith)
        requires
            side_sign_val(c, a, inc_nx_val(a, b, c), inc_ny_val(a, b, c), inc_den_val(a, b, c))
                == wb * o,
    ;
}

/// The homogeneous circumcenter satisfies the perpendicular-bisector
/// equation of side `a b`, stated with the squared vertex magnitudes as
/// free values.
proof fn lemma_circum_system_row_b(
    ax: int,
    ay: int,
    bx: int,
    by: int,
    cx: int,
    cy: int,
    ma: int,
    mb: int,
    mc: int,
)
    ensures
        2 * (bx - ax) * (ma * (by - cy) + mb * (cy - ay) + mc * (ay - by)) + 2 * (by - ay) * (ma * (
        cx - bx) + mb * (ax - cx) + mc * (bx - ax)) == (2 * (ax * (by - cy) + bx * (cy - ay) + cx * (
        ay - by))) * (mb - ma),
{
    let nxr = ma * (by - cy) + mb * (cy - ay) + mc * (ay - by);
    let nyr = ma * (cx - bx) + mb * (ax - cx) + mc * (bx - ax);
    let o = ax * (by - cy) + bx * (cy - ay) + cx * (ay - by);
    let ex = bx - ax;
    let ey = by - ay;
    lemma_mul_distr(ex, ma * (by - cy) + mb * (cy - ay), mc * (ay - by));
    lemma_mul_distr(ex, ma * (by - cy), mb * (cy - ay));
    lemma_mul_shuffle(ex, ma, by - cy);
    lemma_mul_shuffle(ex, mb, cy - ay);
    lemma_mul_shuffle(ex, mc, ay - by);
    lemma_mul_distr(ey, ma * (cx - bx) + mb * (ax - cx), mc * (bx - ax));
    lemma_mul_distr(ey, ma * (cx - bx), mb * (ax - cx));
    lemma_mul_shuffle(ey, ma, cx - bx);
    lemma_mul_shuffle(ey, mb, ax - cx);
    lemma_mul_shuffle(ey, mc, bx - ax);
    assert(ex * nxr + ey * nyr == ma * (ex * (by - cy)) + mb * (ex * (cy - ay)) + mc * (ex * (ay
        - by)) + ma * (ey * (cx - bx)) + mb * (ey * (ax - cx)) + mc * (ey * (bx - ax)));
    assert(ex * (by - cy) + ey * (cx - bx) == 0 - o) by (nonlinear_arith)
        requires
            ex == bx - ax,
            ey == by - ay,
            o == ax * (by - cy) + bx * (cy - ay) + cx * (ay - by),
    ;
    assert(ex * (cy - ay) + ey * (ax - cx) == o) by (nonlinear_arith)
        requires
            ex == bx - ax,
            ey == by - ay,
            o == ax * (by - cy) + bx * (cy - ay) + cx * (ay - by),
    ;
    assert(ex * (ay - by) + ey * (bx - ax) == 0) by (nonlinear_arith)
        requires
            ex == bx - ax,
            ey == by - ay,
    ;
    lemma_mul_distr(ma, ex * (by - cy), ey * (cx - bx));
    lemma_mul_distr(mb, ex * (cy - ay), ey * (ax - cx));
    lemma_mul_distr(mc, ex * (ay - by), ey * (bx - ax));
    lemma_mul_distr(ma, 0, o);
    assert(ex * nxr + ey * nyr == mb * o - ma * o);
    lemma_mul_shuffle(2, ex, nxr);
    lemma_mul_shuffle(2, ey, nyr);
    lemma_mul_shuffle(2, o, mb - ma);
    lemma_mul_distr(o, mb, ma);
    lemma_mul_comm(o, mb);
    lemma_mul_comm(o, ma);
}

/// The homogeneous circumcenter satisfies the perpendicular-bisector
/// equation of side `a c`.
proof fn lemma_circum_system_row_c(
    ax: int,
    ay: int,
    bx: int,
    by: int,
    cx: int,
    cy: int,
    ma: int,
    mb: int,
    mc: int,
)
    ensures
        2 * (cx - ax) * (ma * (by - cy) + mb * (cy - ay) + mc * (ay - by)) + 2 * (cy - ay) * (ma * (
        cx - bx) + mb * (ax - cx) + mc * (bx - ax)) == (2 * (ax * (by - cy) + bx * (cy - ay) + cx * (
        ay - by))) * (mc - ma),
{
    let nxr = ma * (by - cy) + mb * (cy - ay) + mc * (ay - by);
    let nyr = ma * (cx - bx) + mb * (ax - cx) + mc * (bx - ax);
    let o = ax * (by - cy) + bx * (cy - ay) + cx * (ay - by);
    let ex = cx - ax;
    let ey = cy - ay;
    lemma_mul_distr(ex, ma * (by - cy) + mb * (cy - ay), mc * (ay - by));
    lemma_mul_distr(ex, ma * (by - cy), mb * (cy - ay));
    lemma_mul_shuffle(ex, ma, by - cy);
    lemma_mul_shuffle(ex, mb, cy - ay);
    lemma_mul_shuffle(ex, mc, ay - by);
    lemma_mul_distr(ey, ma * (cx - bx) + mb * (ax - cx), mc * (bx - ax));
    lemma_mul_distr(ey, ma * (cx - bx), mb * (ax - cx));
    lemma_mul_shuffle(ey, ma, cx - bx);
    lemma_mul_shuffle(ey, mb, ax - cx);
    lemma_mul_shuffle(ey, mc, bx - ax);
    assert(ex * nxr + ey * nyr == ma * (ex * (by - cy)) + mb * (ex * (cy - ay)) + mc * (ex * (ay
        - by)) + ma * (ey * (cx - bx)) + mb * (ey * (ax - cx)) + mc * (ey * (bx - ax)));
    assert(ex * (by - cy) + ey * (cx - bx) == 0 - o) by (nonlinear_arith)
        requires
            ex == cx - ax,
            ey == cy - ay,
            o == ax * (by - cy) + bx * (cy - ay) + cx * (ay - by),
    ;
    assert(ex * (cy - ay) + ey * (ax - cx) == 0) by (nonlinear_arith)
        requires
            ex == cx - ax,
            ey == cy - ay,
    ;
    assert(ex * (ay - by) + ey * (bx - ax) == o) by (nonlinear_arith)
        requires
            ex == cx - ax,
            ey == cy - ay,
            o == ax * (by - cy) + bx * (cy - ay) + cx * (ay - by),
    ;
    lemma_mul_distr(ma, ex * (by - cy), ey * (cx - bx));
    lemma_mul_distr(mb, ex * (cy - ay), ey * (ax - cx));
    lemma_mul_distr(mc, ex * (ay - by), ey * (bx - ax));
    lemma_mul_distr(ma, 0, o);
    assert(ex * nxr + ey * nyr == mc * o - ma * o);
    lemma_mul_shuffle(2, ex, nxr);
    lemma_mul_shuffle(2, ey, nyr);
    lemma_mul_shuffle(2, o, mc - ma);
    lemma_mul_distr(o, mc, ma);
    lemma_mul_comm(o, mc);
    lemma_mul_comm(o, ma);
}

/// A point on a perpendicular bisector is equidistant from its two
/// defining vertices, in homogeneous coordinates.
proof fn lemma_equidist_step_raw(nx: int, ny: int, d: int, px: int, py: int, qx: int, qy: int)
    requires
        2 * (qx - px) * nx + 2 * (qy - py) * ny == d * ((qx * qx + qy * qy) - (px * px + py * py)),
    ensures
        (nx - px * d) * (nx - px * d) + (ny - py * d) * (ny - py * d) == (nx - qx * d) * (nx - qx
            * d) + (ny - qy * d) * (ny - qy * d),
{
    let la = nx - px * d;
    let lb = nx - qx * d;
    let ja = ny - py * d;
    let jb = ny - qy * d;
    lemma_sq_diff(la, lb);
    lemma_sq_diff(ja, jb);
    lemma_mul_distr(d, qx, px);
    lemma_mul_distr(d, px, qx);
    lemma_mul_distr(d, qy, py);
    lemma_mul_distr(d, py, qy);
    let gx = (qx - px) * d;
    let hx = 2 * nx - (px + qx) * d;
    let gy = (qy - py) * d;
    let hy = 2 * ny - (py + qy) * d;
    assert(la - lb == gx);
    assert(la + lb == hx);
    assert(ja - jb == gy);
    assert(ja + jb == hy);
    assert(la * la - lb * lb == gx * hx);
    assert(ja * ja - jb * jb == gy * hy);
    // expand the x part
    lemma_mul_distr(gx, 2 * nx, (px + qx) * d);
    lemma_mul_shuffle(gx, 2, nx);
    lemma_mul_shuffle(qx - px, d, nx);
    lemma_mul_shuffle(2, (qx - px) * nx, d);
    lemma_mul_shuffle(2, qx - px, nx);
    assert(gx * (2 * nx) == (2 * (qx - px) * nx) * d);
    lemma_mul_shuffle(gx, px + qx, d);
    lemma_mul_shuffle(qx - px, d, d);
    lemma_mul_shuffle(px + qx, qx - px, d * d);
    lemma_sq_diff(qx, px);
    assert(gx * d == (qx - px) * (d * d));
    assert(gx * ((px + qx) * d) == (qx * qx - px * px) * (d * d));
    assert(gx * hx == (2 * (qx - px) * nx) * d - (qx * qx - px * px) * (d * d));
    // expand the y part
    lemma_mul_distr(gy, 2 * ny, (py + qy) * d);
    lemma_mul_shuffle(gy, 2, ny);
    lemma_mul_shuffle(qy - py, d, ny);
    lemma_mul_shuffle(2, (qy - py) * ny, d);
    lemma_mul_shuffle(2, qy - py, ny);
    assert(gy * (2 * ny) == (2 * (qy - py) * ny) * d);
    lemma_mul_shuffle(gy, py + qy, d);
    lemma_mul_shuffle(qy - py, d, d);
    lemma_mul_shuffle(py + qy, qy - py, d * d);
    lemma_sq_diff(qy, py);
    assert(gy * d == (qy - py) * (d * d));
    assert(gy * ((py + qy) * d) == (qy * qy - py * py) * (d * d));
    assert(gy * hy == (2 * (qy - py) * ny) * d - (qy * qy - py * py) * (d * d));
    // combine both parts against the bisector hypothesis
    let m = (qx * qx + qy * qy) - (px * px + py * py);
    lemma_mul_distr(d, 2 * (qx - px) * nx, 2 * (qy - py) * ny);
    lemma_mul_distr(d * d, qx * qx - px * px, qy * qy - py * py);
    assert(la * la - lb * lb + (ja * ja - jb * jb) == (d * m) * d - m * (d * d));
    lemma_mul_comm(d, m);
    lemma_mul_shuffle(d, m, d);
    assert((d * m) * d == m * (d * d));
    assert(la * la + ja * ja == lb * lb + jb * jb);
}

/// The circumcenter is equidistant from the three vertices: the squared
/// distance numerators over the common denominator `den²` agree, so the
/// circumradius is the distance to each vertex, not only to `a`.
pub proof fn lemma_circumcenter_equidistant(a: Point, b: Point, c: Point)
    ensures
        circum_rsq_num_val(a, b, c) == sq(
            circum_nx_val(a, b, c) - b.x * circum_den_val(a, b, c),
        ) + sq(circum_ny_val(a, b, c) - b.y * circum_den_val(a, b, c)),
        circum_rsq_num_val(a, b, c) == sq(
            circum_nx_val(a, b, c) - c.x * circum_den_val(a, b, c),
        ) + sq(circum_ny_val(a, b, c) - c.y * circum_den_val(a, b, c)),
{
    let nx = circum_nx_val(a, b, c);
    let ny = circum_ny_val(a, b, c);
    let d = circum_den_val(a, b, c);
    lemma_circum_system_row_b(
        a.x as int,
        a.y as int,
        b.x as int,
        b.y as int,
        c.x as int,
        c.y as int,
        a.x * a.x + a.y * a.y,
        b.x * b.x + b.y * b.y,
        c.x * c.x + c.y * c.y,
    );
    lemma_circum_system_row_c(
        a.x as int,
        a.y as int,
        b.x as int,
        b.y as int,
        c.x as int,
        c.y as int,
        a.x * a.x + a.y * a.y,
        b.x * b.x + b.y * b.y,
        c.x * c.x + c.y * c.y,
    );
    lemma_equidist_step_raw(nx, ny, d, a.x as int, a.y as int, b.x as int, b.y as int);
    lemma_equidist_step_raw(nx, ny, d, a.x as int, a.y as int, c.x as int, c.y as int);
}

/// The nine-point circle is centered at the rational midpoint of
/// circumcenter and orthocenter, and its squared radius is a quarter of
/// the squared circumradius.
pub proof fn lemma_nine_point_relations(a: Point, b: Point, c: Point)
    ensures
        ninept_nx_val(a, b, c) == circum_nx_val(a, b, c) * ortho_den_val(a, b, c) + ortho_nx_val(
            a,
            b,
            c,
        ) * circum_den_val(a, b, c),
        ninept_ny_val(a, b, c) == circum_ny_val(a, b, c) * ortho_den_val(a, b, c) + ortho_ny_val(
            a,
            b,
            c,
        ) * circum_den_val(a, b, c),
        ninept_den_val(a, b, c) == 2 * circum_den_val(a, b, c) * ortho_den_val(a, b, c),
        ninept_rsq_num_val(a, b, c) == circum_rsq_num_val(a, b, c),
        ninept_rsq_den_val(a, b, c) == 4 * circum_rsq_den_val(a, b, c),
{
}

/// In a right triangle the orthocenter is exactly the right-angle vertex:
/// the intersection parameter is the vanishing dot product of the edges at
/// `a`, so the solved point collapses onto `a`.
pub proof fn lemma_right_angle_orthocenter(a: Point, b: Point, c: Point)
    requires
        dot_at_val(a, b, c) == 0,
        orient_val(a, b, c) != 0,
    ensures
        ortho_den_val(a, b, c) == orient_val(a, b, c),
        ortho_nx_val(a, b, c) == a.x * ortho_den_val(a, b, c),
        ortho_ny_val(a, b, c) == a.y * ortho_den_val(a, b, c),
{
    lemma_orthocenter_determinant(a, b, c);
    assert((c.y - a.y) * (b.y - a.y) + (c.x - a.x) * (b.x - a.x) == (b.x - a.x) * (c.x - a.x) + (b.y
        - a.y) * (c.y - a.y)) by (nonlinear_arith);
    let t1 = ortho_t1_val(a, b, c);
    assert(t1 == 0);
    assert(t1 * (c.y - b.y) == 0) by (nonlinear_arith)
        requires
            t1 == 0,
    ;
    assert(t1 * (c.x - b.x) == 0) by (nonlinear_arith)
        requires
            t1 == 0,
    ;
}

/// Eliminates one unknown of a homogeneous two-by-two linear system: a
/// solution row dotted with the difference of two solutions vanishes.
proof fn lemma_elim_row(
    ex: int,
    ey: int,
    u: int,
    v: int,
    d: int,
    mx: int,
    my: int,
    nx: int,
    ny: int,
    sm: int,
)
    requires
        u == d * mx - 2 * nx,
        v == d * my - 2 * ny,
        2 * ex * nx + 2 * ey * ny == d * sm,
        ex * mx + ey * my == sm,
    ensures
        ex * u + ey * v == 0,
{
    lemma_mul_distr(ex, d * mx, 2 * nx);
    lemma_mul_distr(ey, d * my, 2 * ny);
    lemma_mul_shuffle(ex, d, mx);
    lemma_mul_shuffle(ey, d, my);
    lemma_mul_shuffle(ex, 2, nx);
    lemma_mul_shuffle(ey, 2, ny);
    assert(ex * u + ey * v == d * (ex * mx) + d * (ey * my) - (2 * (ex * nx) + 2 * (ey * ny)));
    lemma_mul_distr(d, ex * mx, ey * my);
    lemma_mul_shuffle(2, ex, nx);
    lemma_mul_shuffle(2, ey, ny);
    assert(ex * u + ey * v == d * sm - d * sm);
}

/// In a right triangle the circumcenter is exactly the midpoint of the
/// hypotenuse: the midpoint of `b c` satisfies both bisector equations
/// when the angle at `a` is right, and the nonzero determinant makes the
/// solution unique.
pub proof fn lemma_right_angle_circumcenter(a: Point, b: Point, c: Point)
    requires
        dot_at_val(a, b, c) == 0,
        orient_val(a, b, c) != 0,
    ensures
        2 * circum_nx_val(a, b, c) == circum_den_val(a, b, c) * (b.x + c.x),
        2 * circum_ny_val(a, b, c) == circum_den_val(a, b, c) * (b.y + c.y),
{
    let ax = a.x as int;
    let ay = a.y as int;
    let bx = b.x as int;
    let by = b.y as int;
    let cx = c.x as int;
    let cy = c.y as int;
    let nx = circum_nx_val(a, b, c);
    let ny = circum_ny_val(a, b, c);
    let d = circum_den_val(a, b, c);
    let o = orient_val(a, b, c);
    lemma_circum_system_row_b(
        ax,
        ay,
        bx,
        by,
        cx,
        cy,
        ax * ax + ay * ay,
        bx * bx + by * by,
        cx * cx + cy * cy,
    );
    lemma_circum_system_row_c(
        ax,
        ay,
        bx,
        by,
        cx,
        cy,
        ax * ax + ay * ay,
        bx * bx + by * by,
        cx * cx + cy * cy,
    );
    // the midpoint of b and c satisfies both bisector equations when the
    // angle at a is right
    assert((bx - ax) * (bx + cx) + (by - ay) * (by + cy) - ((bx * bx + by * by) - (ax * ax + ay
        * ay)) == (bx - ax) * (cx - ax) + (by - ay) * (cy - ay)) by (nonlinear_arith);
    assert((cx - ax) * (bx + cx) + (cy - ay) * (by + cy) - ((cx * cx + cy * cy) - (ax * ax + ay
        * ay)) == (bx - ax) * (cx - ax) + (by - ay) * (cy - ay)) by (nonlinear_arith);
    let mid_x = bx + cx;
    let mid_y = by + cy;
    let u = d * mid_x - 2 * nx;
    let v = d * mid_y - 2 * ny;
    lemma_elim_row(
        bx - ax,
        by - ay,
        u,
        v,
        d,
        mid_x,
        mid_y,
        nx,
        ny,
        (bx * bx + by * by) - (ax * ax + ay * ay),
    );
    lemma_elim_row(
        cx - ax,
        cy - ay,
        u,
        v,
        d,
        mid_x,
        mid_y,
        nx,
        ny,
        (cx * cx + cy * cy) - (ax * ax + ay * ay),
    );
    assert(o == (bx - ax) * (cy - ay) - (by - ay) * (cx - ax)) by (nonlinear_arith)
        requires
            o == ax * (by - cy) + bx * (cy - ay) + cx * (ay - by),
    ;
    assert(o * u == 0) by (nonlinear_arith)
        requires
            (bx - ax) * u + (by - ay) * v == 0,
            (cx - ax) * u + (cy - ay) * v == 0,
            o == (bx - ax) * (cy - ay) - (by - ay) * (cx - ax),
    ;
    assert(o * v == 0) by (nonlinear_arith)
        requires
            (bx - ax) * u + (by - ay) * v == 0,
            (cx - ax) * u + (cy - ay) * v == 0,
            o == (bx - ax) * (cy - ay) - (by - ay) * (cx - ax),
    ;
    assert(u == 0) by (nonlinear_arith)
        requires
            o * u == 0,
            o != 0,
    ;
    assert(v == 0) by (nonlinear_arith)
        requires
            o * v == 0,
            o != 0,
    ;
}

/// On collinear input the altitude system is singular, the orthocenter
/// falls back to the centroid, and the circumcenter and nine-point circle
/// are singular (zero denominator).
pub proof fn lemma_collinear_fallback(a: Point, b: Point, c: Point)
    requires
        orient_val(a, b, c) == 0,
    ensures
        ortho_denom_val(a, b, c) == 0,
        ortho_nx_val(a, b, c) == a.x + b.x + c.x,
        ortho_ny_val(a, b, c) == a.y + b.y + c.y,
        ortho_den_val(a, b, c) == 3,
        circum_den_val(a, b, c) == 0,
        ninept_den_val(a, b, c) == 0,
        ninept_rsq_den_val(a, b, c) == 0,
{
    lemma_orthocenter_determinant(a, b, c);
    assert(2 * circum_den_val(a, b, c) * ortho_den_val(a, b, c) == 0) by (nonlinear_arith)
        requires
            circum_den_val(a, b, c) == 0,
    ;
    assert(4 * sq(circum_den_val(a, b, c)) == 0) by (nonlinear_arith)
        requires
            circum_den_val(a, b, c) == 0,
    ;
}

/// Extending a segment by a unit factor yields the endpoints
/// `a - (b - a)` and `b + (b - a)`: each endpoint moves out by one segment
/// length, symmetrically about the original segment.
pub proof fn lemma_extend_line_unit(a: Point, b: Point)
    ensures
        ext_lo_nx_val(a, b, 1, 1) == a.x - (b.x - a.x),
        ext_lo_ny_val(a, b, 1, 1) == a.y - (b.y - a.y),
        ext_hi_nx_val(a, b, 1, 1) == b.x + (b.x - a.x),
        ext_hi_ny_val(a, b, 1, 1) == b.y + (b.y - a.y),
        ext_lo_nx_val(a, b, 1, 1) + ext_hi_nx_val(a, b, 1, 1) == a.x + b.x,
        ext_lo_ny_val(a, b, 1, 1) + ext_hi_ny_val(a, b, 1, 1) == a.y + b.y,
{
}

} // verus!
