//! A one-dimensional curve over the unit square, made of control points
//! joined by cubic segments with adjustable tangents.

pub mod curve;
pub mod laws;
pub mod point;

pub use curve::Curve;
pub use point::{Point, Pos, TangentMode, ONE};
