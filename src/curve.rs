//! The curve: control points kept in ascending `x` order, sampled by binary
//! search and cubic interpolation, with tangents that follow their
//! neighbours unless set by hand.
use vstd::prelude::*;

use crate::point::{clamp_pos, clamp_unit, in_unit, point_at, pos_in_unit, Point, Pos, TangentMode, ONE};

verus! {

/// Width under which a segment is degenerate (1e-5 at the scale of `ONE`).
pub const EPSILON: i64 = 10;

/// Every position is in the unit square and the `x` values never decrease.
pub open spec fn valid_points(pts: Seq<Point>) -> bool {
    &&& forall|i: int| 0 <= i < pts.len() ==> #[trigger] pos_in_unit(pts[i].pos)
    &&& forall|i: int, j: int|
        0 <= i < j < pts.len() ==> #[trigger] pts[i].pos.x <= #[trigger] pts[j].pos.x
}

/// `a / b` rounded toward zero, for `b > 0`.
pub open spec fn div_trunc(a: int, b: int) -> int {
    if a >= 0 {
        a / b
    } else {
        -((-a) / b)
    }
}

/// The fixed-point slope of the straight line from `a` to `b`, where
/// `a.x <= b.x`; a vertical line gets slope 0.
pub open spec fn chord_slope(a: Pos, b: Pos) -> int {
    let dx = b.x - a.x;
    if dx == 0 {
        0
    } else {
        div_trunc((b.y - a.y) * ONE, dx)
    }
}

/// `p` with its left tangent recomputed toward `prev`, if that side is `Linear`.
pub open spec fn auto_left(p: Point, prev: Point) -> Point {
    if p.left_mode == TangentMode::Linear {
        Point { left_tan: chord_slope(prev.pos, p.pos) as i64, ..p }
    } else {
        p
    }
}

/// `p` with its right tangent recomputed toward `next`, if that side is `Linear`.
pub open spec fn auto_right(p: Point, next: Point) -> Point {
    if p.right_mode == TangentMode::Linear {
        Point { right_tan: chord_slope(p.pos, next.pos) as i64, ..p }
    } else {
        p
    }
}

/// The points after the `Linear` tangents around index `i` are recomputed:
/// both sides of point `i`, the right side of point `i - 1` and the left side
/// of point `i + 1`.
pub open spec fn retangent(pts: Seq<Point>, i: int) -> Seq<Point> {
    let n = pts.len();
    let p = pts[i];
    let p_left = if i > 0 { auto_left(p, pts[i - 1]) } else { p };
    let p_both = if i + 1 < n { auto_right(p_left, pts[i + 1]) } else { p_left };
    let s0 = if i > 0 { pts.update(i - 1, auto_right(pts[i - 1], p)) } else { pts };
    let s1 = if i + 1 < n { s0.update(i + 1, auto_left(pts[i + 1], p)) } else { s0 };
    s1.update(i, p_both)
}

/// `a / b` rounded to the nearest integer, halves away from zero, for `b > 0`.
pub open spec fn div_round(a: int, b: int) -> int {
    if a >= 0 {
        (a + b / 2) / b
    } else {
        -((-a + b / 2) / b)
    }
}

/// Whether `i` is the segment start that the search gives for `x` on a
/// curve of two or more points: the last index exactly when `x` lies past
/// the last point; otherwise the last segment whose start is at or before
/// `x`, or the first segment when `x` lies before every point. Equal `x`
/// values are thus settled in favour of the later segment.
pub open spec fn located(pts: Seq<Point>, x: int, i: int) -> bool {
    let n = pts.len();
    &&& 0 <= i < n
    &&& (i == n - 1 <==> x > pts[n - 1].pos.x)
    &&& (i < n - 1 ==> (i == 0 || pts[i].pos.x <= x))
    &&& (i < n - 1 ==> (i + 1 == n - 1 || x < pts[i + 1].pos.x))
}

/// Three times the distance of a control ordinate from its end point: the
/// segment's width `d` times the slope `tan`, rounded to nearest.
pub open spec fn control_term(d: int, tan: int) -> int {
    div_round(d * tan, ONE as int)
}

/// The numerator of the cubic Bezier blend with end ordinates `y0`, `y1`
/// and three times the control ordinates, `k1` and `k2`, at parameter
/// `l / (u + l)`; the blend is this value over `(u + l)^3`.
pub open spec fn bezier_numerator(y0: int, k1: int, k2: int, y1: int, u: int, l: int) -> int {
    y0 * (u * u * u) + k1 * (u * u * l) + k2 * (u * l * l) + y1 * (l * l * l)
}

/// The value of the segment from `a` to `b` at local offset `l` from `a.x`,
/// rounded to nearest and clamped to `[0, ONE]`; a segment narrower than
/// `EPSILON` gives `b`'s `y`.
pub open spec fn segment_value(a: Point, b: Point, l: int) -> int {
    let d = b.pos.x - a.pos.x;
    if d < EPSILON {
        b.pos.y as int
    } else {
        let k1 = 3 * a.pos.y + control_term(d, a.right_tan as int);
        let k2 = 3 * b.pos.y - control_term(d, b.left_tan as int);
        clamp_unit(
            div_round(bezier_numerator(a.pos.y as int, k1, k2, b.pos.y as int, d - l, l), d * d * d),
        )
    }
}

/// The value of a curve of two or more points at `x`, given the segment
/// start `i` that the search found: flat before the first point and after
/// the last, the segment's cubic in between.
pub open spec fn sample_at(pts: Seq<Point>, x: int, i: int) -> int {
    if i == pts.len() - 1 {
        pts[i].pos.y as int
    } else if i == 0 && x <= pts[0].pos.x {
        pts[0].pos.y as int
    } else {
        segment_value(pts[i], pts[i + 1], x - pts[i].pos.x)
    }
}

/// The value of the curve at `x`: 0 without points, the one point's `y`
/// for a single point, and otherwise the value on the segment that the
/// search gives for `x`.
pub open spec fn curve_value(pts: Seq<Point>, x: int) -> int {
    if pts.len() == 0 {
        0
    } else if pts.len() == 1 {
        pts[0].pos.y as int
    } else {
        sample_at(pts, x, choose|i: int| located(pts, x, i))
    }
}

/// At most one segment start is located for `x` on sorted points.
pub proof fn lemma_located_unique(pts: Seq<Point>, x: int, i: int, j: int)
    requires
        valid_points(pts),
        located(pts, x, i),
        located(pts, x, j),
    ensures
        i == j,
{
    if i < j {
        assert(pts[i + 1].pos.x <= pts[j].pos.x);
    } else if j < i {
        assert(pts[j + 1].pos.x <= pts[i].pos.x);
    }
}

/// The positions of the points, in order.
pub open spec fn positions(pts: Seq<Point>) -> Seq<Pos> {
    pts.map_values(|p: Point| p.pos)
}

/// Whether moving point `index` to the (already clamped) position `p`
/// keeps it between its neighbours' `x` values.
pub open spec fn position_accepted(pts: Seq<Point>, index: int, p: Pos) -> bool {
    &&& 0 <= index < pts.len()
    &&& (index == 0 || pts[index - 1].pos.x <= p.x)
    &&& (index + 1 == pts.len() || p.x <= pts[index + 1].pos.x)
}

/// The points after a request to move point `index` to `pos`: the position
/// is clamped into the unit square; a move that would cross a neighbour's
/// `x`, or an index out of range, changes nothing.
pub open spec fn moved(pts: Seq<Point>, index: int, pos: Pos) -> Seq<Point> {
    let p = clamp_pos(pos);
    if position_accepted(pts, index, p) {
        retangent(pts.update(index, Point { pos: p, ..pts[index] }), index)
    } else {
        pts
    }
}

/// Where a dragged handle is asked to go: the first and the last point keep
/// their `x` and follow only in `y`.
pub open spec fn drag_target(pts: Seq<Point>, index: int, pos: Pos) -> Pos {
    if 0 <= index < pts.len() && (index == 0 || index == pts.len() - 1) {
        Pos { x: pts[index].pos.x, y: pos.y }
    } else {
        pos
    }
}

/// The points after the left tangent of point `index` is set by hand.
pub open spec fn with_left_tangent(pts: Seq<Point>, index: int, v: i64) -> Seq<Point> {
    if 0 <= index < pts.len() {
        pts.update(index, Point { left_tan: v, left_mode: TangentMode::Free, ..pts[index] })
    } else {
        pts
    }
}

/// The points after the right tangent of point `index` is set by hand.
pub open spec fn with_right_tangent(pts: Seq<Point>, index: int, v: i64) -> Seq<Point> {
    if 0 <= index < pts.len() {
        pts.update(index, Point { right_tan: v, right_mode: TangentMode::Free, ..pts[index] })
    } else {
        pts
    }
}

/// Recomputing tangents keeps the length and every position.
pub proof fn lemma_retangent_keeps_positions(pts: Seq<Point>, i: int)
    requires
        0 <= i < pts.len(),
    ensures
        retangent(pts, i).len() == pts.len(),
        positions(retangent(pts, i)) == positions(pts),
        forall|k: int| 0 <= k < pts.len() ==> #[trigger] retangent(pts, i)[k].pos == pts[k].pos,
        valid_points(pts) ==> valid_points(retangent(pts, i)),
{
    let r = retangent(pts, i);
    assert forall|k: int| 0 <= k < pts.len() implies #[trigger] r[k].pos == pts[k].pos by {}
    assert(positions(r) =~= positions(pts));
}

/// A curve over the unit square.
pub struct Curve {
    points: Vec<Point>,
}

impl Default for Curve {
    fn default() -> (r: Curve)
        ensures
            r.wf(),
            r@ == Seq::<Point>::empty(),
    {
        Curve::new()
    }
}

impl View for Curve {
    type V = Seq<Point>;

    closed spec fn view(&self) -> Seq<Point> {
        self.points@
    }
}

impl Curve {
    /// The points are in the unit square and sorted by `x`.
    pub open spec fn wf(&self) -> bool {
        valid_points(self@)
    }

    /// An empty curve.
    pub fn new() -> (r: Curve)
        ensures
            r.wf(),
            r@ == Seq::<Point>::empty(),
    {
        Curve { points: Vec::new() }
    }

    /// The straight line from (0, 0) to (1, 1).
    pub fn linear() -> (r: Curve)
        ensures
            r.wf(),
            r@ == seq![point_at(Pos { x: 0, y: 0 }), point_at(Pos { x: ONE, y: ONE })],
    {
        let mut points: Vec<Point> = Vec::new();
        points.push(Point::from_pos(Pos::new(0, 0)));
        points.push(Point::from_pos(Pos::new(ONE, ONE)));
        let r = Curve { points };
        assert(r@ =~= seq![point_at(Pos { x: 0, y: 0 }), point_at(Pos { x: ONE, y: ONE })]);
        r
    }

    pub fn len(&self) -> (r: usize)
        ensures
            r == self@.len(),
    {
        self.points.len()
    }

    /// The start of the segment that holds `x`, found by binary search
    /// over a curve of two or more points.
    pub fn get_index(&self, x: i64) -> (r: usize)
        requires
            self.wf(),
            self@.len() >= 2,
        ensures
            located(self@, x as int, r as int),
    {
        let n = self.points.len();
        let mut min: usize = 0;
        let mut max: usize = n - 1;
        while max - min > 1
            invariant
                self.wf(),
                n == self@.len(),
                n >= 2,
                0 <= min < max <= n - 1,
                min == 0 || self@[min as int].pos.x <= x,
                max == n - 1 || x < self@[max as int].pos.x,
            decreases max - min,
        {
            let m = min + (max - min) / 2;
            let a = self.points[m].pos.x;
            let b = self.points[m + 1].pos.x;
            if a <= x && b <= x {
                min = m;
            } else if a > x {
                max = m;
            } else {
                assert(self@[m + 1].pos.x <= self@[n - 1].pos.x);
                return m;
            }
        }
        assert(self@[max as int].pos.x <= self@[n - 1].pos.x);
        if x > self.points[max].pos.x {
            return max;
        }
        min
    }


    /// Inserts `point`, clamped into the unit square, where it keeps the
    /// points sorted by `x`, then recomputes the `Linear` tangents around
    /// it. Returns the new point's index.
    pub fn add_point(&mut self, point: Point) -> (r: usize)
        requires
            old(self).wf(),
            old(self)@.len() < usize::MAX,
        ensures
            final(self).wf(),
            r <= old(self)@.len(),
            ({
                let old_pts = old(self)@;
                let n = old_pts.len();
                let x = clamp_pos(point.pos).x;
                &&& final(self)@ == retangent(
                    old_pts.insert(r as int, Point { pos: clamp_pos(point.pos), ..point }),
                    r as int,
                )
                &&& forall|j: int| 0 <= j < r ==> #[trigger] old_pts[j].pos.x <= x
                &&& forall|j: int| r <= j < n ==> x <= #[trigger] old_pts[j].pos.x
                &&& n > 0 ==> (r == n <==> x > old_pts[n - 1].pos.x)
                &&& n == 1 ==> (r == 0 <==> x <= old_pts[0].pos.x)
                &&& n >= 2 ==> (r == 0 <==> x < old_pts[0].pos.x)
                &&& n >= 2 && x >= old_pts[0].pos.x ==> located(old_pts, x as int, r - 1)
            }),
    {
        let ghost old_pts = self@;
        let mut point = point;
        point.pos = point.pos.clamped();
        let x = point.pos.x;
        let n = self.points.len();
        let index: usize = if n == 0 {
            self.points.push(point);
            0
        } else if n == 1 {
            if x > self.points[0].pos.x {
                self.points.push(point);
                1
            } else {
                self.points.insert(0, point);
                0
            }
        } else {
            let i = self.get_index(x);
            if i == 0 && x < self.points[0].pos.x {
                self.points.insert(0, point);
                0
            } else {
                proof {
                    if i > 0 {
                        assert(old_pts[0].pos.x <= old_pts[i as int].pos.x);
                    }
                    if i + 1 < n {
                        assert(old_pts[i + 1].pos.x <= old_pts[n - 1].pos.x);
                    }
                }
                self.points.insert(i + 1, point);
                i + 1
            }
        };
        proof {
            let s = self@;
            assert(s =~= old_pts.insert(index as int, point));
            assert forall|j: int| 0 <= j < index implies #[trigger] old_pts[j].pos.x <= x by {
                assert(old_pts[j].pos.x <= old_pts[index - 1].pos.x);
            }
            assert forall|j: int| index <= j < n implies x <= #[trigger] old_pts[j].pos.x by {
                assert(old_pts[index as int].pos.x <= old_pts[j].pos.x);
            }
            assert forall|a: int, b: int| 0 <= a < b < s.len() implies #[trigger] s[a].pos.x
                <= #[trigger] s[b].pos.x by {
                if b < index {
                } else if b == index {
                } else if a < index {
                } else if a == index {
                    assert(s[b] == old_pts[b - 1]);
                } else {
                    assert(s[a] == old_pts[a - 1]);
                    assert(s[b] == old_pts[b - 1]);
                }
            }
            assert forall|j: int| 0 <= j < s.len() implies #[trigger] pos_in_unit(s[j].pos) by {
                if j < index {
                } else if j > index {
                    assert(s[j] == old_pts[j - 1]);
                }
            }
            assert(valid_points(s));
        }
        self.update_auto_tangents(index);
        proof {
            lemma_retangent_keeps_positions(old_pts.insert(index as int, point), index as int);
        }
        index
    }


    /// Removes point `index`; an index out of range changes nothing. The
    /// tangents of the points that become neighbours are left as they were.
    pub fn remove_point(&mut self, index: usize)
        requires
            old(self).wf(),
        ensures
            final(self).wf(),
            index < old(self)@.len() ==> final(self)@ == old(self)@.remove(index as int),
            index >= old(self)@.len() ==> final(self)@ == old(self)@,
    {
        if index >= self.points.len() {
            return;
        }
        let ghost old_pts = self@;
        self.points.remove(index);
        proof {
            let s = self@;
            assert forall|a: int, b: int| 0 <= a < b < s.len() implies #[trigger] s[a].pos.x
                <= #[trigger] s[b].pos.x by {
                if a < index && b >= index {
                    assert(s[b] == old_pts[b + 1]);
                } else if a >= index {
                    assert(s[a] == old_pts[a + 1]);
                    assert(s[b] == old_pts[b + 1]);
                }
            }
            assert forall|j: int| 0 <= j < s.len() implies #[trigger] pos_in_unit(s[j].pos) by {
                if j >= index {
                    assert(s[j] == old_pts[j + 1]);
                }
            }
        }
    }

    /// Removes every point.
    pub fn clear_points(&mut self)
        ensures
            final(self).wf(),
            final(self)@ == Seq::<Point>::empty(),
    {
        self.points.clear();
    }

    /// The value of the curve at `x`, in `[0, ONE]`: 0 for no points, the
    /// one point's `y` for a single point, and otherwise flat before the
    /// first and after the last point and the cubic of the segment that
    /// holds `x` in between.
    pub fn sample(&self, x: i64) -> (r: i64)
        requires
            self.wf(),
        ensures
            r == curve_value(self@, x as int),
            in_unit(r as int),
    {
        let n = self.points.len();
        if n == 0 {
            return 0;
        }
        assert(pos_in_unit(self@[0].pos));
        if n == 1 {
            return self.points[0].pos.y;
        }
        let i = self.get_index(x);
        assert(pos_in_unit(self@[i as int].pos));
        proof {
            lemma_located_unique(self@, x as int, i as int, choose|j: int| located(self@, x as int, j));
        }
        if i == n - 1 {
            assert(sample_at(self@, x as int, i as int) == self@[i as int].pos.y);
            return self.points[i].pos.y;
        }
        if i == 0 && x <= self.points[0].pos.x {
            assert(sample_at(self@, x as int, i as int) == self@[0].pos.y);
            return self.points[0].pos.y;
        }
        let a = self.points[i];
        let b = self.points[i + 1];
        assert(pos_in_unit(self@[i + 1].pos));
        assert(a.pos.x <= b.pos.x);
        let r = segment_eval(a, b, x - a.pos.x);
        assert(r == sample_at(self@, x as int, i as int));
        proof {
            lemma_located_unique(self@, x as int, i as int, choose|j: int| located(self@, x as int, j));
        }
        r
    }

    /// The positions of the points, in order.
    pub fn point_positions(&self) -> (r: Vec<Pos>)
        ensures
            r@ == positions(self@),
    {
        let mut r: Vec<Pos> = Vec::new();
        let mut k: usize = 0;
        while k < self.points.len()
            invariant
                k <= self@.len(),
                r@ == positions(self@.subrange(0, k as int)),
            decreases self@.len() - k,
        {
            r.push(self.points[k].pos);
            k = k + 1;
            assert(positions(self@.subrange(0, k as int)) =~= r@);
        }
        assert(self@.subrange(0, k as int) =~= self@);
        r
    }

    /// A copy of the points, in order.
    pub fn points(&self) -> (r: Vec<Point>)
        ensures
            r@ == self@,
    {
        let mut r: Vec<Point> = Vec::new();
        let mut k: usize = 0;
        while k < self.points.len()
            invariant
                k <= self@.len(),
                r@ == self@.subrange(0, k as int),
            decreases self@.len() - k,
        {
            r.push(self.points[k]);
            k = k + 1;
            assert(r@ =~= self@.subrange(0, k as int));
        }
        assert(self@.subrange(0, k as int) =~= self@);
        r
    }

    /// A curve of the given points, if they lie in the unit square and are
    /// sorted by `x`; `None` otherwise.
    pub fn from_points(points: Vec<Point>) -> (r: Option<Curve>)
        ensures
            r is Some <==> valid_points(points@),
            r matches Some(c) ==> c@ == points@ && c.wf(),
    {
        let mut k: usize = 0;
        while k < points.len()
            invariant
                k <= points@.len(),
                forall|i: int| 0 <= i < k ==> #[trigger] pos_in_unit(points@[i].pos),
                forall|i: int, j: int|
                    0 <= i < j < k ==> #[trigger] points@[i].pos.x <= #[trigger] points@[j].pos.x,
            decreases points@.len() - k,
        {
            let p = points[k].pos;
            if p.x < 0 || p.x > ONE || p.y < 0 || p.y > ONE {
                assert(!pos_in_unit(points@[k as int].pos));
                return None;
            }
            if k > 0 && points[k - 1].pos.x > p.x {
                assert(!(points@[k - 1].pos.x <= points@[k as int].pos.x));
                return None;
            }
            k = k + 1;
        }
        Some(Curve { points })
    }

    /// The position of point `index`, if there is one.
    pub fn get_position(&self, index: usize) -> (r: Option<Pos>)
        ensures
            index < self@.len() ==> r == Some(self@[index as int].pos),
            index >= self@.len() ==> r is None,
    {
        if index >= self.points.len() {
            return None;
        }
        Some(self.points[index].pos)
    }

    /// Moves point `index` to `pos` clamped into the unit square, unless
    /// that would cross a neighbour's `x`, then recomputes the `Linear`
    /// tangents around it. An index out of range changes nothing.
    pub fn set_position(&mut self, index: usize, pos: Pos)
        requires
            old(self).wf(),
        ensures
            final(self).wf(),
            final(self)@ == moved(old(self)@, index as int, pos),
    {
        let p = pos.clamped();
        let n = self.points.len();
        if index >= n {
            return;
        }
        if index > 0 && self.points[index - 1].pos.x > p.x {
            return;
        }
        if index < n - 1 && self.points[index + 1].pos.x < p.x {
            return;
        }
        let ghost old_pts = self@;
        let mut q = self.points[index];
        q.pos = p;
        self.points.set(index, q);
        proof {
            let s = self@;
            assert(s == old_pts.update(index as int, Point { pos: p, ..old_pts[index as int] }));
            assert forall|a: int, b: int| 0 <= a < b < s.len() implies #[trigger] s[a].pos.x
                <= #[trigger] s[b].pos.x by {
                if a == index && b > index {
                    assert(old_pts[index + 1].pos.x <= old_pts[b].pos.x);
                } else if b == index && a < index {
                    assert(old_pts[a].pos.x <= old_pts[index - 1].pos.x);
                }
            }
            assert(valid_points(s));
        }
        self.update_auto_tangents(index);
        proof {
            lemma_retangent_keeps_positions(
                old_pts.update(index as int, Point { pos: p, ..old_pts[index as int] }),
                index as int,
            );
        }
    }

    /// Moves the handle of point `index` as a drag does: the first and the
    /// last point keep their `x` and move only in `y`; any other point moves
    /// as `set_position` allows.
    pub fn drag_point(&mut self, index: usize, pos: Pos)
        requires
            old(self).wf(),
        ensures
            final(self).wf(),
            final(self)@ == moved(old(self)@, index as int, drag_target(old(self)@, index as int, pos)),
    {
        if index < self.points.len() && self.index_is_first_or_last(index) {
            let x = self.points[index].pos.x;
            self.set_position(index, Pos { x, y: pos.y });
        } else {
            self.set_position(index, pos);
        }
    }

    /// The left tangent of point `index`, if there is one.
    pub fn get_left_tan(&self, index: usize) -> (r: Option<i64>)
        ensures
            index < self@.len() ==> r == Some(self@[index as int].left_tan),
            index >= self@.len() ==> r is None,
    {
        if index >= self.points.len() {
            return None;
        }
        Some(self.points[index].left_tan)
    }

    /// Sets the left tangent of point `index` by hand, which makes that side
    /// `Free`. An index out of range changes nothing.
    pub fn set_left_tan(&mut self, index: usize, tangent: i64)
        requires
            old(self).wf(),
        ensures
            final(self).wf(),
            final(self)@ == with_left_tangent(old(self)@, index as int, tangent),
    {
        if index >= self.points.len() {
            return;
        }
        let ghost old_pts = self@;
        let mut q = self.points[index];
        q.left_tan = tangent;
        q.left_mode = TangentMode::Free;
        self.points.set(index, q);
        assert(self@ == with_left_tangent(old_pts, index as int, tangent));
    }

    /// The right tangent of point `index`, if there is one.
    pub fn get_right_tan(&self, index: usize) -> (r: Option<i64>)
        ensures
            index < self@.len() ==> r == Some(self@[index as int].right_tan),
            index >= self@.len() ==> r is None,
    {
        if index >= self.points.len() {
            return None;
        }
        Some(self.points[index].right_tan)
    }

    /// Sets the right tangent of point `index` by hand, which makes that
    /// side `Free`. An index out of range changes nothing.
    pub fn set_right_tan(&mut self, index: usize, tangent: i64)
        requires
            old(self).wf(),
        ensures
            final(self).wf(),
            final(self)@ == with_right_tangent(old(self)@, index as int, tangent),
    {
        if index >= self.points.len() {
            return;
        }
        let ghost old_pts = self@;
        let mut q = self.points[index];
        q.right_tan = tangent;
        q.right_mode = TangentMode::Free;
        self.points.set(index, q);
        assert(self@ == with_right_tangent(old_pts, index as int, tangent));
    }

    /// Whether `index` is the first or the last index of a non-empty curve.
    pub fn index_is_first_or_last(&self, index: usize) -> (r: bool)
        ensures
            r == (index == 0 || (self@.len() > 0 && index == self@.len() - 1)),
    {
        index == 0 || (self.points.len() > 0 && index == self.points.len() - 1)
    }

    /// Whether `index` is the first index.
    pub fn index_is_first(&self, index: usize) -> (r: bool)
        ensures
            r == (index == 0),
    {
        index == 0
    }

    /// Whether `index` is the last index of a non-empty curve.
    pub fn index_is_last(&self, index: usize) -> (r: bool)
        ensures
            r == (self@.len() > 0 && index == self@.len() - 1),
    {
        self.points.len() > 0 && index == self.points.len() - 1
    }

    /// Recomputes the `Linear` tangents around `index` from the positions.
    fn update_auto_tangents(&mut self, index: usize)
        requires
            old(self).wf(),
            index < old(self)@.len(),
        ensures
            final(self)@ == retangent(old(self)@, index as int),
    {
        let ghost pts = self@;
        let n = self.points.len();
        let mut p = self.points[index];
        if index > 0 {
            let prev = self.points[index - 1];
            assert(prev.pos.x <= p.pos.x);
            if p.left_mode == TangentMode::Linear {
                p.left_tan = slope_between(prev.pos, p.pos);
            }
            if prev.right_mode == TangentMode::Linear {
                let mut q = prev;
                q.right_tan = slope_between(prev.pos, p.pos);
                self.points.set(index - 1, q);
            }
        }
        if index + 1 < n {
            let next = self.points[index + 1];
            assert(p.pos.x <= next.pos.x);
            if p.right_mode == TangentMode::Linear {
                p.right_tan = slope_between(p.pos, next.pos);
            }
            if next.left_mode == TangentMode::Linear {
                let mut q = next;
                q.left_tan = slope_between(p.pos, next.pos);
                self.points.set(index + 1, q);
            }
        }
        self.points.set(index, p);
        assert(self@ =~= retangent(pts, index as int));
    }
}


/// `control_term(d, tan)` for a segment width of at most `ONE`.
fn control_term_of(d: i64, tan: i64) -> (r: i128)
    requires
        0 <= d <= ONE,
    ensures
        r == control_term(d as int, tan as int),
        -10_000_000_000_000_000_000 <= r <= 10_000_000_000_000_000_000,
{
    let div: u128 = 1_000_000;
    assert(-10_000_000_000_000_000_000_000_000 <= d * tan <= 10_000_000_000_000_000_000_000_000)
        by (nonlinear_arith)
        requires
            0 <= d <= 1_000_000,
            -9_223_372_036_854_775_808 <= tan <= 9_223_372_036_854_775_807,
    ;
    let prod: i128 = d as i128 * tan as i128;
    if prod >= 0 {
        let q = (prod as u128 + 500_000) / div;
        assert(q <= 10_000_000_000_000_000_000) by (nonlinear_arith)
            requires
                q == (prod as int + 500_000) / 1_000_000,
                0 <= prod <= 10_000_000_000_000_000_000_000_000,
        ;
        q as i128
    } else {
        let q = ((-prod) as u128 + 500_000) / div;
        assert(q <= 10_000_000_000_000_000_000) by (nonlinear_arith)
            requires
                q == (-prod as int + 500_000) / 1_000_000,
                0 <= -prod <= 10_000_000_000_000_000_000_000_000,
        ;
        -(q as i128)
    }
}

/// The value of the segment from `a` to `b` at local offset `l`.
fn segment_eval(a: Point, b: Point, l: i64) -> (r: i64)
    requires
        pos_in_unit(a.pos),
        pos_in_unit(b.pos),
        a.pos.x <= b.pos.x,
        0 <= l <= b.pos.x - a.pos.x,
    ensures
        r == segment_value(a, b, l as int),
        in_unit(r as int) || b.pos.x - a.pos.x < EPSILON,
{
    let d = b.pos.x - a.pos.x;
    if d < EPSILON {
        return b.pos.y;
    }
    let k1: i128 = 3 * (a.pos.y as i128) + control_term_of(d, a.right_tan);
    let k2: i128 = 3 * (b.pos.y as i128) - control_term_of(d, b.left_tan);
    let y0 = a.pos.y as i128;
    let y1 = b.pos.y as i128;
    let u = (d - l) as i128;
    let t = l as i128;
    let dd = d as i128;
    assert(0 <= u <= 1_000_000 && 0 <= t <= 1_000_000 && 10 <= dd <= 1_000_000);
    assert(0 <= u * u <= 1_000_000_000_000 && 0 <= t * t <= 1_000_000_000_000
        && 0 <= u * t <= 1_000_000_000_000) by (nonlinear_arith)
        requires 0 <= u <= 1_000_000, 0 <= t <= 1_000_000;
    let uu = u * u;
    let tt = t * t;
    let ut = u * t;
    assert(0 <= uu * u <= 1_000_000_000_000_000_000 && 0 <= uu * t <= 1_000_000_000_000_000_000
        && 0 <= ut * t <= 1_000_000_000_000_000_000 && 0 <= tt * t <= 1_000_000_000_000_000_000)
        by (nonlinear_arith)
        requires
            0 <= u <= 1_000_000, 0 <= t <= 1_000_000,
            0 <= uu <= 1_000_000_000_000, 0 <= tt <= 1_000_000_000_000,
            0 <= ut <= 1_000_000_000_000,
    ;
    let uuu = uu * u;
    let uut = uu * t;
    let utt = ut * t;
    let ttt = tt * t;
    assert(-13_000_000_000_000_000_000_000_000_000_000_000_000 <= k1 * uut
        <= 13_000_000_000_000_000_000_000_000_000_000_000_000) by (nonlinear_arith)
        requires
            -13_000_000_000_000_000_000 <= k1 <= 13_000_000_000_000_000_000,
            0 <= uut <= 1_000_000_000_000_000_000,
    ;
    assert(-13_000_000_000_000_000_000_000_000_000_000_000_000 <= k2 * utt
        <= 13_000_000_000_000_000_000_000_000_000_000_000_000) by (nonlinear_arith)
        requires
            -13_000_000_000_000_000_000 <= k2 <= 13_000_000_000_000_000_000,
            0 <= utt <= 1_000_000_000_000_000_000,
    ;
    assert(0 <= y0 * uuu <= 1_000_000_000_000_000_000_000_000 && 0 <= y1 * ttt
        <= 1_000_000_000_000_000_000_000_000) by (nonlinear_arith)
        requires
            0 <= y0 <= 1_000_000, 0 <= y1 <= 1_000_000,
            0 <= uuu <= 1_000_000_000_000_000_000, 0 <= ttt <= 1_000_000_000_000_000_000,
    ;
    let e0 = y0 * uuu;
    let e1 = k1 * uut;
    let e2 = k2 * utt;
    let e3 = y1 * ttt;
    let num = e0 + e1 + e2 + e3;
    assert(100 <= dd * dd <= 1_000_000_000_000) by (nonlinear_arith)
        requires 10 <= dd <= 1_000_000;
    let dd2 = dd * dd;
    assert(1000 <= dd2 * dd <= 1_000_000_000_000_000_000) by (nonlinear_arith)
        requires 10 <= dd <= 1_000_000, 100 <= dd2 <= 1_000_000_000_000, dd2 == dd * dd;
    let den = dd2 * dd;
    assert(num == bezier_numerator(y0 as int, k1 as int, k2 as int, y1 as int, u as int, t as int));
    if num <= 0 {
        assert(div_round(num as int, den as int) <= 0) by (nonlinear_arith)
            requires num <= 0, den >= 1;
        0
    } else {
        let q = (num as u128 + den as u128 / 2) / (den as u128);
        if q > ONE as u128 {
            ONE
        } else {
            q as i64
        }
    }
}

/// The slope of the straight line from `a` to `b`.
fn slope_between(a: Pos, b: Pos) -> (r: i64)
    requires
        pos_in_unit(a),
        pos_in_unit(b),
        a.x <= b.x,
    ensures
        r == chord_slope(a, b),
{
    let dx = b.x - a.x;
    if dx == 0 {
        return 0;
    }
    let num: i64 = (b.y - a.y) * ONE;
    if num >= 0 {
        assert((num as int) / (dx as int) <= num) by (nonlinear_arith)
            requires num >= 0, dx >= 1;
        (num as u64 / dx as u64) as i64
    } else {
        let mag: u64 = (-num) as u64;
        assert((mag as int) / (dx as int) <= mag) by (nonlinear_arith)
            requires mag >= 0, dx >= 1;
        -((mag / dx as u64) as i64)
    }
}

} // verus!
