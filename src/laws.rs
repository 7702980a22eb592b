//! Properties that relate the curve's operations to each other.
use vstd::prelude::*;

use crate::curve::{
    chord_slope, curve_value, drag_target, lemma_located_unique, located, moved,
    position_accepted, valid_points, with_left_tangent, Curve,
};
use crate::point::{clamp_pos, clamp_unit, pos_in_unit, Point, Pos, TangentMode, ONE};

verus! {

/// Before the first point a curve is flat at the first point's `y`, and past
/// the last point it is flat at the last point's `y`.
pub proof fn lemma_flat_extrapolation(pts: Seq<Point>, x: int)
    requires
        valid_points(pts),
        pts.len() >= 1,
    ensures
        x < pts[0].pos.x ==> curve_value(pts, x) == pts[0].pos.y,
        x > pts[pts.len() - 1].pos.x ==> curve_value(pts, x) == pts[pts.len() - 1].pos.y,
{
    let n = pts.len();
    if n >= 2 {
        if x < pts[0].pos.x {
            assert(pts[0].pos.x <= pts[1].pos.x);
            assert(located(pts, x, 0));
            lemma_located_unique(pts, x, 0, choose|i: int| located(pts, x, i));
        }
        if x > pts[n - 1].pos.x {
            assert(located(pts, x, n - 1));
            lemma_located_unique(pts, x, n - 1, choose|i: int| located(pts, x, i));
        }
    }
}

/// Dragging the first or the last point never changes its `x`; its `y`
/// becomes the requested `y` clamped into `[0, ONE]`.
pub proof fn lemma_drag_keeps_endpoint_x(pts: Seq<Point>, index: int, pos: Pos)
    requires
        valid_points(pts),
        0 <= index < pts.len(),
        index == 0 || index == pts.len() - 1,
    ensures
        moved(pts, index, drag_target(pts, index, pos))[index].pos.x == pts[index].pos.x,
        moved(pts, index, drag_target(pts, index, pos))[index].pos.y == clamp_unit(pos.y as int),
{
    let target = drag_target(pts, index, pos);
    assert(pos_in_unit(pts[index].pos));
    if index > 0 {
        assert(pts[index - 1].pos.x <= pts[index].pos.x);
    }
    if index + 1 < pts.len() {
        assert(pts[index].pos.x <= pts[index + 1].pos.x);
    }
    let p = Point { pos: crate::point::clamp_pos(target), ..pts[index] };
    crate::curve::lemma_retangent_keeps_positions(pts.update(index, p), index);
}

/// The slope between two points of the unit square, the first not right of
/// the second, lies within `[-ONE * ONE, ONE * ONE]`.
pub proof fn lemma_chord_slope_bounded(a: Pos, b: Pos)
    requires
        pos_in_unit(a),
        pos_in_unit(b),
        a.x <= b.x,
    ensures
        -ONE * ONE <= chord_slope(a, b) <= ONE * ONE,
{
    let dx = b.x - a.x;
    if dx != 0 {
        let num = (b.y - a.y) * ONE;
        if num >= 0 {
            assert(num / dx <= num) by (nonlinear_arith)
                requires num >= 0, dx >= 1;
        } else {
            assert((-num) / dx <= -num) by (nonlinear_arith)
                requires -num >= 0, dx >= 1;
        }
    }
}

/// After an accepted move of an interior point whose neighbours' facing
/// sides and own sides are all `Linear`, each of those four tangents is the
/// slope of the straight line to the neighbour on that side.
pub proof fn lemma_linear_tangents_follow_move(pts: Seq<Point>, j: int, pos: Pos)
    requires
        valid_points(pts),
        0 < j < pts.len() - 1,
        position_accepted(pts, j, clamp_pos(pos)),
        pts[j].left_mode == TangentMode::Linear,
        pts[j].right_mode == TangentMode::Linear,
        pts[j - 1].right_mode == TangentMode::Linear,
        pts[j + 1].left_mode == TangentMode::Linear,
    ensures
        ({
            let s = moved(pts, j, pos);
            &&& s[j].pos == clamp_pos(pos)
            &&& s[j].left_tan == chord_slope(s[j - 1].pos, s[j].pos)
            &&& s[j].right_tan == chord_slope(s[j].pos, s[j + 1].pos)
            &&& s[j - 1].right_tan == chord_slope(s[j - 1].pos, s[j].pos)
            &&& s[j + 1].left_tan == chord_slope(s[j].pos, s[j + 1].pos)
        }),
{
    let p = clamp_pos(pos);
    assert(pos_in_unit(pts[j - 1].pos));
    assert(pos_in_unit(pts[j + 1].pos));
    lemma_chord_slope_bounded(pts[j - 1].pos, p);
    lemma_chord_slope_bounded(p, pts[j + 1].pos);
}

/// A tangent set by hand stays as it was set, and `Free`, through any later
/// move of any point.
pub proof fn lemma_free_tangent_survives_moves(
    pts: Seq<Point>,
    i: int,
    v: i64,
    j: int,
    pos: Pos,
)
    requires
        0 <= i < pts.len(),
    ensures
        moved(with_left_tangent(pts, i, v), j, pos)[i].left_mode == TangentMode::Free,
        moved(with_left_tangent(pts, i, v), j, pos)[i].left_tan == v,
{
}

/// Storing a curve's points and rebuilding a curve from them gives the
/// same curve: the points that `Curve::points` hands out are ones that
/// `Curve::from_points` accepts, it rebuilds a curve with exactly those
/// points, and a curve's samples depend on its points alone, so the rebuilt
/// curve samples as the first at every `x`.
pub proof fn lemma_points_round_trip(c: Curve, stored: Seq<Point>, rebuilt: Curve, x: int)
    requires
        c.wf(),
        stored == c@,
        rebuilt@ == stored,
    ensures
        valid_points(stored),
        rebuilt.wf(),
        rebuilt@ == c@,
        curve_value(rebuilt@, x) == curve_value(c@, x),
{
}

} // verus!
