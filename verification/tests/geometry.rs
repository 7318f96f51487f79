use triangle_geometry::point::Point;
use triangle_geometry::solver::{
    circumcenter_and_radius_sq, dist_sq, distance, extend_line, foot_of_perpendicular,
    incenter_and_inradius, midpoint, midpoint_rat, nine_point_circle, orthocenter,
};
use triangle_geometry::{Rat, RatPoint};

fn pt(x: i64, y: i64) -> Point {
    Point { x, y }
}

fn as_xy(p: &RatPoint) -> (f64, f64) {
    (p.nx as f64 / p.den as f64, p.ny as f64 / p.den as f64)
}

fn close(u: (f64, f64), v: (f64, f64), tol: f64) -> bool {
    ((u.0 - v.0).powi(2) + (u.1 - v.1).powi(2)).sqrt() < tol
}

#[test]
fn distance_and_squared_distance() {
    assert_eq!(dist_sq(pt(0, 0), pt(3, 4)), 25i128);
    assert_eq!(distance(pt(0, 0), pt(3, 4)), 5);
    // the floor is taken for irrational lengths
    assert_eq!(dist_sq(pt(0, 0), pt(1, 1)), 2i128);
    assert_eq!(distance(pt(0, 0), pt(1, 1)), 1);
    assert_eq!(distance(pt(7, -2), pt(7, -2)), 0);
}

#[test]
fn midpoint_of_two_vertices() {
    let m = midpoint(pt(2, 4), pt(4, 8));
    assert_eq!((m.nx, m.ny, m.den), (6, 12, 2));
}

#[test]
fn midpoint_with_rational_point() {
    let p = RatPoint { nx: 4, ny: 8, den: 2 };
    let m = midpoint_rat(pt(1, 1), p);
    // midpoint of (1, 1) and (2, 4) is (1.5, 2.5)
    assert_eq!((m.nx, m.ny, m.den), (6, 10, 4));
}

#[test]
fn incenter_of_right_triangle_is_exact() {
    // the 3-4-5 right triangle: incenter (1, 1), inradius 1
    let (center, radius) = incenter_and_inradius(pt(0, 0), pt(4, 0), pt(0, 3));
    assert_eq!(center.den, 3072);
    assert_eq!(center.nx, 3072);
    assert_eq!(center.ny, 3072);
    assert_eq!(radius.num, 1572864);
    assert_eq!(radius.den, 1572864);
}

#[test]
fn incenter_lies_inside() {
    // spot check of the strict-insideness law on one triangle
    let a = pt(-10, 3);
    let b = pt(50, -7);
    let c = pt(12, 60);
    let (center, _) = incenter_and_inradius(a, b, c);
    let (x, y) = as_xy(&center);
    // inside the bounding box is a cheap necessary condition
    assert!(x > -10.0 && x < 50.0);
    assert!(y > -7.0 && y < 60.0);
    // strictly on the inner side of each edge
    let orient = |p: Point, q: Point, rx: f64, ry: f64| -> f64 {
        (q.x - p.x) as f64 * (ry - p.y as f64) - (q.y - p.y) as f64 * (rx - p.x as f64)
    };
    let o = orient(a, b, c.x as f64, c.y as f64);
    assert!(orient(a, b, x, y) * o > 0.0);
    assert!(orient(b, c, x, y) * orient(b, c, a.x as f64, a.y as f64) > 0.0);
    assert!(orient(c, a, x, y) * orient(c, a, b.x as f64, b.y as f64) > 0.0);
}

#[test]
fn inradius_matches_area_over_semiperimeter() {
    // 6-8-10 right triangle: area 24, semiperimeter 12, inradius 2
    let (_, radius) = incenter_and_inradius(pt(0, 0), pt(6, 0), pt(0, 8));
    let r = radius.num as f64 / radius.den as f64;
    assert!((r - 2.0).abs() < 1e-3);
}

#[test]
fn circumcenter_of_right_triangle_is_hypotenuse_midpoint() {
    let (center, radius_sq) = circumcenter_and_radius_sq(pt(0, 0), pt(4, 0), pt(0, 3));
    assert_eq!((center.nx, center.ny, center.den), (48, 36, 24));
    // the center is (2, 1.5), the midpoint of (4,0) and (0,3)
    let m = midpoint(pt(4, 0), pt(0, 3));
    assert_eq!(center.nx * m.den, m.nx * center.den);
    assert_eq!(center.ny * m.den, m.ny * center.den);
    // squared circumradius is 6.25 = 2.5^2 (half the hypotenuse)
    assert_eq!((radius_sq.num, radius_sq.den), (3600, 576));
}

#[test]
fn circumradius_equidistant_from_all_vertices() {
    let a = pt(-3, 7);
    let b = pt(21, -2);
    let c = pt(5, 17);
    let (center, radius_sq) = circumcenter_and_radius_sq(a, b, c);
    let (x, y) = as_xy(&center);
    let r = (radius_sq.num as f64 / radius_sq.den as f64).sqrt();
    for v in [a, b, c] {
        let d = ((x - v.x as f64).powi(2) + (y - v.y as f64).powi(2)).sqrt();
        assert!((d - r).abs() < 1e-3);
    }
}

#[test]
fn orthocenter_of_right_triangle_is_right_angle_vertex() {
    let h = orthocenter(pt(0, 0), pt(4, 0), pt(0, 3));
    assert_eq!(h.nx, 0);
    assert_eq!(h.ny, 0);
    assert_eq!(h.den, 12);
}

#[test]
fn nine_point_circle_of_right_triangle() {
    let (center, radius_sq) = nine_point_circle(pt(0, 0), pt(4, 0), pt(0, 3));
    // midpoint of circumcenter (2, 1.5) and orthocenter (0, 0) is (1, 0.75)
    assert_eq!((center.nx, center.ny, center.den), (576, 432, 576));
    // squared radius is a quarter of the squared circumradius: 25/16
    assert_eq!(radius_sq.num * 16, 25 * radius_sq.den);
}

#[test]
fn nine_point_center_is_midpoint_for_any_triangle() {
    let a = pt(-3, 7);
    let b = pt(21, -2);
    let c = pt(5, 17);
    let (circum, circum_rsq) = circumcenter_and_radius_sq(a, b, c);
    let ortho = orthocenter(a, b, c);
    let (nine, nine_rsq) = nine_point_circle(a, b, c);
    let (cx, cy) = as_xy(&circum);
    let (hx, hy) = as_xy(&ortho);
    let (nx, ny) = as_xy(&nine);
    assert!(close((nx, ny), ((cx + hx) / 2.0, (cy + hy) / 2.0), 1e-9));
    let r_big = circum_rsq.num as f64 / circum_rsq.den as f64;
    let r_small = nine_rsq.num as f64 / nine_rsq.den as f64;
    assert!((r_small * 4.0 - r_big).abs() < 1e-9);
}

#[test]
fn equilateral_centers_coincide_at_centroid() {
    // an equilateral triangle at a scale of one pixel per hundredth
    let a = pt(0, 0);
    let b = pt(10000, 0);
    let c = pt(5000, 8660);
    let centroid = (5000.0, 8660.0 / 3.0);
    let (inc, _) = incenter_and_inradius(a, b, c);
    let (circ, _) = circumcenter_and_radius_sq(a, b, c);
    let orth = orthocenter(a, b, c);
    let (nine, _) = nine_point_circle(a, b, c);
    assert!(close(as_xy(&inc), centroid, 1.0));
    assert!(close(as_xy(&circ), centroid, 1.0));
    assert!(close(as_xy(&orth), centroid, 1.0));
    assert!(close(as_xy(&nine), centroid, 1.0));
}

#[test]
fn collinear_points_fall_back_and_go_singular() {
    let a = pt(0, 0);
    let b = pt(1, 0);
    let c = pt(2, 0);
    // the guarded construction: orthocenter falls back to the centroid (1, 0)
    let h = orthocenter(a, b, c);
    assert_eq!((h.nx, h.ny, h.den), (3, 0, 3));
    // the unguarded constructions are singular: zero denominator, which a
    // floating-point caller sees as a non-finite coordinate
    let (circ, circ_rsq) = circumcenter_and_radius_sq(a, b, c);
    assert_eq!(circ.den, 0);
    assert_eq!(circ_rsq.den, 0);
    let (cx, _) = as_xy(&circ);
    assert!(!cx.is_finite());
    let (nine, nine_rsq) = nine_point_circle(a, b, c);
    assert_eq!(nine.den, 0);
    assert_eq!(nine_rsq.den, 0);
}

#[test]
fn degenerate_side_makes_projection_singular() {
    let f = foot_of_perpendicular(pt(1, 2), pt(5, 5), pt(5, 5));
    assert_eq!(f.den, 0);
}

#[test]
fn foot_of_perpendicular_projects_onto_line() {
    // project (0, 5) onto the x axis segment from (0,0) to (10,0)
    let f = foot_of_perpendicular(pt(0, 5), pt(0, 0), pt(10, 0));
    assert_eq!(f.den, 100);
    assert_eq!((f.nx, f.ny), (0, 0));
    // an off-axis case: project (3, 3) onto the diagonal through (0,0)-(4,4)
    let g = foot_of_perpendicular(pt(3, 3), pt(0, 0), pt(4, 4));
    let (gx, gy) = as_xy(&g);
    assert!((gx - 3.0).abs() < 1e-9 && (gy - 3.0).abs() < 1e-9);
}

#[test]
fn extend_line_unit_factor_doubles_symmetrically() {
    let (e0, e1) = extend_line(pt(0, 0), pt(10, 5), Rat { num: 1, den: 1 });
    assert_eq!((e0.nx, e0.ny, e0.den), (-10, -5, 1));
    assert_eq!((e1.nx, e1.ny, e1.den), (20, 10, 1));
}

#[test]
fn extend_line_with_other_factors() {
    // the drawing factor of the visualization
    let (e0, e1) = extend_line(pt(1, 1), pt(3, 2), Rat { num: 2, den: 1 });
    assert_eq!((e0.nx, e0.ny, e0.den), (-3, -1, 1));
    assert_eq!((e1.nx, e1.ny, e1.den), (7, 4, 1));
    // a fractional factor keeps its denominator
    let (f0, f1) = extend_line(pt(0, 0), pt(4, 0), Rat { num: 1, den: 2 });
    assert_eq!((f0.nx, f0.ny, f0.den), (-4, 0, 2));
    assert_eq!((f1.nx, f1.ny, f1.den), (12, 0, 2));
}
