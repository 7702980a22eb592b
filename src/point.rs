//! Control points and their fixed-point coordinates.
//!
//! Coordinates and slopes are fixed-point integers: the value [`ONE`] stands
//! for 1.0, so the unit square of the curve's domain and range is
//! `[0, ONE] x [0, ONE]`.
use vstd::prelude::*;

verus! {

/// Fixed-point scale: `ONE` stands for 1.0 (six decimal digits).
pub const ONE: i64 = 1_000_000;

/// Clamps a fixed-point value into `[0, ONE]`.
pub open spec fn clamp_unit(v: int) -> int {
    if v < 0 {
        0
    } else if v > ONE {
        ONE as int
    } else {
        v
    }
}

/// Whether a fixed-point value lies in `[0, ONE]`.
pub open spec fn in_unit(v: int) -> bool {
    0 <= v <= ONE
}

/// Whether a position lies in the unit square.
pub open spec fn pos_in_unit(p: Pos) -> bool {
    in_unit(p.x as int) && in_unit(p.y as int)
}

/// How a tangent of a point is obtained.
#[derive(Clone, Copy, Debug, PartialEq, Eq, Structural)]
pub enum TangentMode {
    /// Set by hand; never recomputed.
    Free,
    /// Recomputed from the neighbouring point on that side.
    Linear,
}

impl Default for TangentMode {
    fn default() -> (r: TangentMode)
        ensures
            r == TangentMode::Linear,
    {
        TangentMode::Linear
    }
}

/// A position in fixed-point coordinates.
#[derive(Clone, Copy, Debug, PartialEq, Eq, Structural)]
pub struct Pos {
    pub x: i64,
    pub y: i64,
}

/// The position clamped into the unit square, component by component.
pub open spec fn clamp_pos(p: Pos) -> Pos {
    Pos { x: clamp_unit(p.x as int) as i64, y: clamp_unit(p.y as int) as i64 }
}

pub fn clamp_to_unit(v: i64) -> (r: i64)
    ensures
        r == clamp_unit(v as int),
{
    if v < 0 {
        0
    } else if v > ONE {
        ONE
    } else {
        v
    }
}

impl Pos {
    pub fn new(x: i64, y: i64) -> (r: Pos)
        ensures
            r == (Pos { x, y }),
    {
        Pos { x, y }
    }

    /// This position clamped into the unit square.
    pub fn clamped(self) -> (r: Pos)
        ensures
            r == clamp_pos(self),
            pos_in_unit(r),
    {
        Pos { x: clamp_to_unit(self.x), y: clamp_to_unit(self.y) }
    }
}

impl Default for Pos {
    fn default() -> (r: Pos)
        ensures
            r == (Pos { x: 0, y: 0 }),
    {
        Pos { x: 0, y: 0 }
    }
}

/// One control point: a position, a slope on each side and how each slope
/// is obtained.
#[derive(Clone, Copy, Debug, PartialEq, Eq, Structural)]
pub struct Point {
    pub pos: Pos,
    pub left_tan: i64,
    pub right_tan: i64,
    pub left_mode: TangentMode,
    pub right_mode: TangentMode,
}

/// A point at `pos` with flat tangents in `Linear` mode.
pub open spec fn point_at(pos: Pos) -> Point {
    Point {
        pos,
        left_tan: 0,
        right_tan: 0,
        left_mode: TangentMode::Linear,
        right_mode: TangentMode::Linear,
    }
}

impl Point {
    pub fn from_pos(pos: Pos) -> (r: Point)
        ensures
            r == point_at(pos),
    {
        Point {
            pos,
            left_tan: 0,
            right_tan: 0,
            left_mode: TangentMode::Linear,
            right_mode: TangentMode::Linear,
        }
    }
}

impl Default for Point {
    fn default() -> (r: Point)
        ensures
            r == point_at(Pos { x: 0, y: 0 }),
    {
        Point::from_pos(Pos { x: 0, y: 0 })
    }
}

} // verus!
