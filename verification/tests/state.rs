use triangle_geometry::solver::incenter_and_inradius;
use triangle_geometry::{Point, TriangleApp};

#[test]
fn default_layout_and_flags() {
    let app = TriangleApp::default();
    assert_eq!(app.a, Point { x: 200, y: 200 });
    assert_eq!(app.b, Point { x: 400, y: 200 });
    assert_eq!(app.c, Point { x: 300, y: 400 });
    assert!(!app.show_perpendiculars);
    assert!(!app.show_ortho_segments);
    assert!(!app.show_side_midpoints);
    assert!(!app.show_feet_of_altitudes);
    assert!(!app.show_ortho_vertex_midpoints);
    assert!(!app.show_extensions);
}

#[test]
fn dragging_moves_one_vertex_only() {
    let mut app = TriangleApp::default();
    app.drag_vertex(1, 7, -3);
    assert_eq!(app.a, Point { x: 200, y: 200 });
    assert_eq!(app.b, Point { x: 407, y: 197 });
    assert_eq!(app.c, Point { x: 300, y: 400 });
    app.drag_vertex(0, -1, 2);
    assert_eq!(app.a, Point { x: 199, y: 202 });
    app.drag_vertex(2, 0, 5);
    assert_eq!(app.c, Point { x: 300, y: 405 });
    assert!(!app.show_extensions);
}

#[test]
fn dragged_triangle_feeds_the_solver() {
    let mut app = TriangleApp::default();
    app.drag_vertex(2, -100, 0);
    let (center, _) = incenter_and_inradius(app.a, app.b, app.c);
    assert!(center.den > 0);
}
