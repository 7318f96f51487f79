//! Exact triangle geometry: incircle, circumcircle, orthocenter and the
//! nine-point circle, computed in integer and rational arithmetic.
//!
//! Vertices carry integer coordinates; every derived point is returned in
//! homogeneous form (numerators and a shared denominator), so no function
//! here divides. A degenerate input (collinear vertices, a zero-length
//! side) surfaces as a zero denominator, which a caller that converts to
//! floating point sees as an infinite or undefined coordinate; the one
//! guarded case is the orthocenter, which falls back to the centroid when
//! the altitude system is singular.

pub mod isqrt;
pub mod laws;
pub mod point;
pub mod solver;
pub mod state;

pub use point::{Point, Rat, RatPoint};
pub use state::TriangleApp;
