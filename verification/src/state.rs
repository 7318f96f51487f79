//! The interactive state: the three draggable vertices and the toggles
//! that choose which overlay constructs are drawn. The drawing itself is
//! left to a caller; this module owns the state transitions.

use vstd::prelude::*;

use crate::point::Point;

verus! {

/// The state of the visualization: the current triangle and one flag per
/// optional overlay construct.
pub struct TriangleApp {
    pub a: Point,
    pub b: Point,
    pub c: Point,
    pub show_perpendiculars: bool,
    pub show_ortho_segments: bool,
    pub show_side_midpoints: bool,
    pub show_feet_of_altitudes: bool,
    pub show_ortho_vertex_midpoints: bool,
    pub show_extensions: bool,
}

impl Default for TriangleApp {
    /// The fixed startup layout: one triangle in view, every overlay off.
    fn default() -> (s: Self)
        ensures
            s.a == (Point { x: 200, y: 200 }),
            s.b == (Point { x: 400, y: 200 }),
            s.c == (Point { x: 300, y: 400 }),
            !s.show_perpendiculars,
            !s.show_ortho_segments,
            !s.show_side_midpoints,
            !s.show_feet_of_altitudes,
            !s.show_ortho_vertex_midpoints,
            !s.show_extensions,
    {
        TriangleApp {
            a: Point { x: 200, y: 200 },
            b: Point { x: 400, y: 200 },
            c: Point { x: 300, y: 400 },
            show_perpendiculars: false,
            show_ortho_segments: false,
            show_side_midpoints: false,
            show_feet_of_altitudes: false,
            show_ortho_vertex_midpoints: false,
            show_extensions: false,
        }
    }
}

impl TriangleApp {
    /// Moves vertex `idx` (0, 1 or 2 for `a`, `b`, `c`) by the drag delta;
    /// the other vertices and every flag stay as they were.
    pub fn drag_vertex(&mut self, idx: usize, dx: i64, dy: i64)
        requires
            idx < 3,
            i64::MIN <= old(self).a.x + dx <= i64::MAX,
            i64::MIN <= old(self).a.y + dy <= i64::MAX,
            i64::MIN <= old(self).b.x + dx <= i64::MAX,
            i64::MIN <= old(self).b.y + dy <= i64::MAX,
            i64::MIN <= old(self).c.x + dx <= i64::MAX,
            i64::MIN <= old(self).c.y + dy <= i64::MAX,
        ensures
            idx == 0 ==> final(self).a.x == old(self).a.x + dx && final(self).a.y == old(self).a.y
                + dy && final(self).b == old(self).b && final(self).c == old(self).c,
            idx == 1 ==> final(self).b.x == old(self).b.x + dx && final(self).b.y == old(self).b.y
                + dy && final(self).a == old(self).a && final(self).c == old(self).c,
            idx == 2 ==> final(self).c.x == old(self).c.x + dx && final(self).c.y == old(self).c.y
                + dy && final(self).a == old(self).a && final(self).b == old(self).b,
            final(self).show_perpendiculars == old(self).show_perpendiculars,
            final(self).show_ortho_segments == old(self).show_ortho_segments,
            final(self).show_side_midpoints == old(self).show_side_midpoints,
            final(self).show_feet_of_altitudes == old(self).show_feet_of_altitudes,
            final(self).show_ortho_vertex_midpoints == old(self).show_ortho_vertex_midpoints,
            final(self).show_extensions == old(self).show_extensions,
    {
        if idx == 0 {
            self.a = Point { x: self.a.x + dx, y: self.a.y + dy };
        } else if idx == 1 {
            self.b = Point { x: self.b.x + dx, y: self.b.y + dy };
        } else {
            self.c = Point { x: self.c.x + dx, y: self.c.y + dy };
        }
    }
}

} // verus!
