use egui_curve_editor::{Curve, Point, Pos, TangentMode, ONE};

fn curve_of(positions: &[(i64, i64)]) -> Curve {
    let mut c = Curve::new();
    for &(x, y) in positions {
        c.add_point(Point::from_pos(Pos::new(x, y)));
    }
    c
}

fn xs(c: &Curve) -> Vec<i64> {
    c.point_positions().iter().map(|p| p.x).collect()
}

#[test]
fn add_point_keeps_points_sorted() {
    let mut c = Curve::new();
    let inserts = [
        (700_000, 100_000),
        (200_000, 900_000),
        (900_000, 500_000),
        (200_000, 300_000),
        (-50, 0),
        (450_000, 450_000),
        (2 * ONE, 0),
        (700_000, 700_000),
    ];
    for &(x, y) in inserts.iter() {
        c.add_point(Point::from_pos(Pos::new(x, y)));
        let v = xs(&c);
        for w in v.windows(2) {
            assert!(w[0] <= w[1]);
        }
    }
    assert_eq!(c.len(), inserts.len());
}

#[test]
fn add_point_returns_the_sorted_index() {
    let mut c = Curve::new();
    assert_eq!(c.add_point(Point::from_pos(Pos::new(500_000, 0))), 0);
    assert_eq!(c.add_point(Point::from_pos(Pos::new(500_000, 1))), 0);
    assert_eq!(c.add_point(Point::from_pos(Pos::new(900_000, 0))), 2);
    assert_eq!(c.add_point(Point::from_pos(Pos::new(100_000, 0))), 0);
    assert_eq!(c.add_point(Point::from_pos(Pos::new(700_000, 0))), 3);
}

#[test]
fn linear_curve_samples_its_control_points() {
    let c = Curve::linear();
    assert_eq!(c.sample(0), 0);
    assert_eq!(c.sample(ONE), ONE);
}

#[test]
fn linear_curve_has_flat_tangents_and_eases() {
    let c = Curve::linear();
    assert_eq!(c.get_right_tan(0), Some(0));
    assert_eq!(c.sample(250_000), 156_250);
    assert_eq!(c.sample(500_000), 500_000);
    assert_eq!(c.sample(750_000), 843_750);
}

#[test]
fn added_points_get_straight_tangents() {
    let c = curve_of(&[(0, 0), (ONE, ONE)]);
    assert_eq!(c.get_right_tan(0), Some(ONE));
    assert_eq!(c.get_left_tan(1), Some(ONE));
    assert_eq!(c.sample(250_000), 250_000);
    assert_eq!(c.sample(500_000), 500_000);
    assert_eq!(c.sample(750_000), 750_000);
    assert_eq!(c.sample(123_457), 123_457);
}

#[test]
fn equal_x_settles_on_the_later_segment() {
    let pts = vec![
        Point::from_pos(Pos::new(0, 900_000)),
        Point::from_pos(Pos::new(0, 200_000)),
        Point::from_pos(Pos::new(ONE, ONE)),
    ];
    let c = Curve::from_points(pts).expect("valid points");
    assert_eq!(c.get_index(0), 1);
    assert_eq!(c.sample(0), 200_000);
    let d = Curve::from_points(vec![
        Point::from_pos(Pos::new(0, 0)),
        Point::from_pos(Pos::new(500_000, 300_000)),
        Point::from_pos(Pos::new(500_000, 700_000)),
        Point::from_pos(Pos::new(ONE, ONE)),
    ])
    .expect("valid points");
    assert_eq!(d.get_index(500_000), 2);
    assert_eq!(d.sample(500_000), 700_000);
}

#[test]
fn add_point_at_an_existing_x_goes_after_it() {
    let mut c = curve_of(&[(0, 0), (500_000, 300_000), (ONE, ONE)]);
    assert_eq!(c.add_point(Point::from_pos(Pos::new(500_000, 700_000))), 2);
    assert_eq!(c.get_position(2), Some(Pos::new(500_000, 700_000)));
}

#[test]
fn flat_before_first_and_after_last_point() {
    let c = curve_of(&[(200_000, 300_000), (500_000, 900_000), (800_000, 600_000)]);
    assert_eq!(c.sample(100_000), 300_000);
    assert_eq!(c.sample(-5), 300_000);
    assert_eq!(c.sample(900_000), 600_000);
    assert_eq!(c.sample(3 * ONE), 600_000);
}

#[test]
fn single_point_is_constant() {
    let c = curve_of(&[(500_000, 700_000)]);
    assert_eq!(c.sample(0), 700_000);
    assert_eq!(c.sample(500_000), 700_000);
    assert_eq!(c.sample(ONE), 700_000);
}

#[test]
fn empty_curve_samples_zero() {
    let c = Curve::new();
    assert_eq!(c.sample(0), 0);
    assert_eq!(c.sample(400_000), 0);
    assert_eq!(c.sample(-ONE), 0);
    let d = Curve::default();
    assert_eq!(d.sample(ONE), 0);
}

#[test]
fn add_point_clamps_into_unit_square() {
    let mut c = Curve::new();
    let i = c.add_point(Point::from_pos(Pos::new(-ONE, 2 * ONE)));
    assert_eq!(i, 0);
    assert_eq!(c.get_position(0), Some(Pos::new(0, ONE)));
}

#[test]
fn free_tangents_shape_a_segment() {
    let mut c = curve_of(&[(0, 0), (ONE, ONE)]);
    c.set_right_tan(0, 3 * ONE);
    c.set_left_tan(1, 0);
    assert_eq!(c.sample(200_000), 488_000);
    assert_eq!(c.sample(900_000), 999_000);
}

#[test]
fn sample_is_clamped_to_unit_range() {
    let mut c = curve_of(&[(0, 500_000), (ONE, 500_000)]);
    c.set_right_tan(0, -3 * ONE);
    c.set_left_tan(1, 0);
    assert_eq!(c.sample(200_000), 116_000);
    c.set_right_tan(0, -9 * ONE);
    assert_eq!(c.sample(200_000), 0);
}

#[test]
fn narrow_segment_gives_its_right_end() {
    let c = curve_of(&[(0, 0), (500_000, 200_000), (500_005, 900_000), (ONE, ONE)]);
    assert_eq!(c.sample(500_003), 900_000);
}

#[test]
fn get_index_finds_the_segment() {
    let c = curve_of(&[(0, 0), (250_000, 0), (500_000, 0), (750_000, 0), (ONE, 0)]);
    assert_eq!(c.get_index(100_000), 0);
    assert_eq!(c.get_index(300_000), 1);
    assert_eq!(c.get_index(600_000), 2);
    assert_eq!(c.get_index(900_000), 3);
    assert_eq!(c.get_index(ONE + 1), 4);
    assert_eq!(c.get_index(-1), 0);
}

#[test]
fn set_position_rejects_crossing_a_neighbour() {
    let mut c = curve_of(&[(0, 0), (500_000, 500_000), (ONE, ONE)]);
    c.set_position(0, Pos::new(600_000, 200_000));
    assert_eq!(c.get_position(0), Some(Pos::new(0, 0)));
    c.set_position(2, Pos::new(400_000, 200_000));
    assert_eq!(c.get_position(2), Some(Pos::new(ONE, ONE)));
    c.set_position(1, Pos::new(ONE + 1, 0));
    assert_eq!(c.get_position(1), Some(Pos::new(ONE, 0)));
    c.set_position(0, Pos::new(300_000, 200_000));
    assert_eq!(c.get_position(0), Some(Pos::new(300_000, 200_000)));
    c.set_position(7, Pos::new(0, 0));
    assert_eq!(c.len(), 3);
}

#[test]
fn dragging_an_endpoint_moves_only_its_y() {
    let mut c = curve_of(&[(0, 0), (500_000, 500_000), (ONE, ONE)]);
    c.drag_point(0, Pos::new(300_000, 200_000));
    assert_eq!(c.get_position(0), Some(Pos::new(0, 200_000)));
    c.drag_point(2, Pos::new(100_000, 2 * ONE));
    assert_eq!(c.get_position(2), Some(Pos::new(ONE, ONE)));
    c.drag_point(1, Pos::new(400_000, 100_000));
    assert_eq!(c.get_position(1), Some(Pos::new(400_000, 100_000)));
}

#[test]
fn hand_set_tangent_survives_other_moves() {
    let mut c = curve_of(&[(0, 0), (250_000, 250_000), (500_000, 500_000), (ONE, ONE)]);
    c.set_left_tan(1, 123_456);
    c.set_position(3, Pos::new(ONE, 200_000));
    c.set_position(1, Pos::new(300_000, 900_000));
    c.set_position(0, Pos::new(0, 600_000));
    let p = c.points()[1];
    assert_eq!(p.left_mode, TangentMode::Free);
    assert_eq!(p.left_tan, 123_456);
    assert_eq!(p.right_mode, TangentMode::Linear);
}

#[test]
fn moving_middle_point_updates_linear_tangents() {
    let mut c = curve_of(&[(0, 0), (500_000, 500_000), (ONE, ONE)]);
    assert_eq!(c.get_left_tan(1), Some(ONE));
    c.set_position(1, Pos::new(500_000, 800_000));
    assert_eq!(c.get_left_tan(1), Some(1_600_000));
    assert_eq!(c.get_right_tan(1), Some(400_000));
    assert_eq!(c.get_right_tan(0), Some(1_600_000));
    assert_eq!(c.get_left_tan(2), Some(400_000));
}

#[test]
fn downward_slope_rounds_toward_zero() {
    let c = curve_of(&[(0, ONE), (300_000, 0)]);
    assert_eq!(c.get_right_tan(0), Some(-3_333_333));
    assert_eq!(c.get_left_tan(1), Some(-3_333_333));
}

#[test]
fn set_tangent_out_of_range_changes_nothing() {
    let mut c = curve_of(&[(0, 0), (ONE, ONE)]);
    let before = c.points();
    c.set_left_tan(2, 5);
    c.set_right_tan(9, 5);
    assert_eq!(c.points(), before);
    assert_eq!(c.get_left_tan(2), None);
    assert_eq!(c.get_right_tan(2), None);
    assert_eq!(c.get_position(2), None);
}

#[test]
fn remove_point_leaves_neighbour_tangents() {
    let mut c = curve_of(&[(0, 0), (500_000, 800_000), (ONE, ONE)]);
    let right0 = c.get_right_tan(0);
    c.remove_point(1);
    assert_eq!(xs(&c), vec![0, ONE]);
    assert_eq!(c.get_right_tan(0), right0);
    c.remove_point(5);
    assert_eq!(c.len(), 2);
    c.clear_points();
    assert_eq!(c.len(), 0);
    c.remove_point(0);
    assert_eq!(c.len(), 0);
}

#[test]
fn index_predicates() {
    let c = curve_of(&[(0, 0), (500_000, 500_000), (ONE, ONE)]);
    assert!(c.index_is_first(0));
    assert!(!c.index_is_first(1));
    assert!(c.index_is_last(2));
    assert!(!c.index_is_last(1));
    assert!(c.index_is_first_or_last(0));
    assert!(c.index_is_first_or_last(2));
    assert!(!c.index_is_first_or_last(1));
    let e = Curve::new();
    assert!(!e.index_is_last(0));
}

#[test]
fn stored_points_round_trip() {
    let mut c = curve_of(&[(0, 100_000), (300_000, 900_000), (600_000, 200_000), (ONE, 700_000)]);
    c.set_right_tan(1, -2 * ONE);
    c.set_left_tan(2, 5 * ONE);
    let stored = c.points();
    let back = Curve::from_points(stored.clone()).expect("valid points");
    assert_eq!(back.points(), stored);
    for k in 0..=20 {
        let x = k * 50_000;
        assert_eq!(back.sample(x), c.sample(x));
    }
}

#[test]
fn from_points_rejects_invalid_points() {
    let unsorted = vec![
        Point::from_pos(Pos::new(500_000, 0)),
        Point::from_pos(Pos::new(100_000, 0)),
    ];
    assert!(Curve::from_points(unsorted).is_none());
    let outside = vec![Point::from_pos(Pos::new(0, ONE + 1))];
    assert!(Curve::from_points(outside).is_none());
    assert!(Curve::from_points(Vec::new()).is_some());
}

#[test]
fn defaults() {
    let p = Point::default();
    assert_eq!(p.pos, Pos::new(0, 0));
    assert_eq!(p.left_tan, 0);
    assert_eq!(p.right_mode, TangentMode::Linear);
    assert_eq!(TangentMode::default(), TangentMode::Linear);
}
