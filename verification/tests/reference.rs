use robot_core::autonomy::Point2;
use robot_core::binary64::Binary64;
use robot_core::elementary::Elementary;
use robot_core::reference::{project_reference, PreparedReference};
use robot_core::tracking::MAX_PATH_POINTS;

fn b(x: f64) -> Binary64 {
    Binary64 { bits: x.to_bits() }
}

fn f(x: Binary64) -> f64 {
    f64::from_bits(x.bits)
}

fn host(question: Elementary) -> Binary64 {
    b(match question {
        Elementary::Sine(x) => f(x).sin(),
        Elementary::Cosine(x) => f(x).cos(),
        Elementary::ArcSine(x) => f(x).asin(),
        Elementary::SquareRoot(x) => f(x).sqrt(),
        Elementary::Bearing { y, x } => f(y).atan2(f(x)),
        Elementary::Length { x, y } => f(x).hypot(f(y)),
        Elementary::Turn { to, from } => {
            let turn = f(to) - f(from);
            turn.sin().atan2(turn.cos())
        }
    })
}

fn p(x_m: f64, y_m: f64) -> Point2 {
    Point2 {
        x_m: b(x_m),
        y_m: b(y_m),
    }
}

fn near(actual: Binary64, expected: f64) {
    let actual = f(actual);
    assert!(
        (actual - expected).abs() < 1e-10,
        "actual {actual}, expected {expected}"
    );
}

#[test]
fn arc_cursor_follows_turns_past_projection_window_and_stops_at_real_endpoint() {
    let path = [
        p(0.0, 0.0),
        p(1.0, 0.0),
        p(1.0, 0.0),
        p(1.0, 1.0),
        p(0.0, 1.0),
    ];
    let reference = PreparedReference::new(&path, 0, b(1.5), &host).unwrap();
    let mut cursor = reference.cursor_to_end();
    assert_eq!(cursor.at_arc(b(0.5), &host).unwrap().point, p(0.5, 0.0));
    let turn = cursor.at_arc(b(1.25), &host).unwrap();
    assert_eq!(turn.point, p(1.0, 0.25));
    near(turn.heading_rad, std::f64::consts::FRAC_PI_2);
    assert_eq!(cursor.at_arc(b(3.0), &host).unwrap().point, p(0.0, 1.0));
    assert_eq!(cursor.at_arc(b(4.0), &host).unwrap().point, p(0.0, 1.0));
    assert!(cursor.at_arc(b(2.0), &host).is_none());
    assert!(cursor.at_arc(b(f64::NAN), &host).is_none());
    assert!(reference.cursor_to_end().at_arc(b(-1.0), &host).is_none());
}

#[test]
fn straight_projection_has_consistent_local_arc_and_distance() {
    let path = [p(-1.0, 0.0), p(0.0, 0.0), p(2.0, 0.0)];
    let current = project_reference(&path, 1, p(0.25, 0.2), b(1.5), &host).unwrap();
    let predicted = project_reference(&path, 1, p(0.75, -0.1), b(1.5), &host).unwrap();
    assert_eq!(current.point, p(0.25, 0.0));
    near(current.heading_rad, 0.0);
    near(current.arc_m, 1.25);
    near(current.distance_m, 0.2);
    near(predicted.arc_m.minus(current.arc_m), 0.5);
}

#[test]
fn prepared_reference_borrows_only_the_clipped_local_window() {
    let path = [
        p(-1.0, 0.0),
        p(0.0, 0.0),
        p(10.0, 0.0),
        p(10.0, 10.0),
        p(0.0, 10.0),
    ];
    let reference = PreparedReference::new(&path, 1, b(0.4), &host).unwrap();
    assert_eq!(reference.points(), &path[..3]);
    for (query_x, expected_x) in [(-2.0, -1.0), (-0.5, -0.5), (0.2, 0.2), (8.0, 0.4)] {
        let projected = reference.project(p(query_x, 0.1), &host).unwrap();
        near(projected.point.x_m, expected_x);
        near(projected.arc_m, expected_x + 1.0);
    }
    assert!(reference.project(p(f64::NAN, 0.0), &host).is_none());
    let mut invalid_tail = path;
    invalid_tail[4].x_m = b(f64::INFINITY);
    assert!(PreparedReference::new(&invalid_tail, 1, b(0.4), &host).is_none());
}

#[test]
fn segment_heading_is_well_defined_across_angle_wrap() {
    for sign in [-1.0, 1.0] {
        let path = [p(0.0, 0.0), p(-1.0, sign * 1e-6)];
        let result = project_reference(&path, 0, p(-0.5, 0.0), b(2.0), &host).unwrap();
        near(result.heading_rad, (sign * 1e-6_f64).atan2(-1.0));
        let delta = f(result.heading_rad) - sign * std::f64::consts::PI;
        assert!(delta.sin().atan2(delta.cos()).abs() < 2e-6);
    }
}

#[test]
fn repeated_vertices_do_not_consume_budget_or_create_nan() {
    let path = [p(0.0, 0.0), p(0.0, 0.0), p(1.0, 0.0), p(1.0, 0.0)];
    let result = project_reference(&path, 1, p(0.5, 0.2), b(0.75), &host).unwrap();
    near(result.arc_m, 0.5);
    near(result.distance_m, 0.2);
    near(result.heading_rad, 0.0);
    assert!(project_reference(&[p(0.0, 0.0); 3], 1, p(0.0, 0.0), b(1.0), &host).is_none());
}

#[test]
fn crossing_does_not_select_a_distant_forward_branch() {
    let path = [
        p(-1.0, 0.0),
        p(1.0, 0.0),
        p(1.0, 2.0),
        p(0.0, 2.0),
        p(0.0, -1.0),
    ];
    // The later vertical branch contains the query exactly but lies well
    // beyond the supplied local arc budget.
    let result = project_reference(&path, 0, p(0.0, 0.1), b(2.0), &host).unwrap();
    assert_eq!(result.point, p(0.0, 0.0));
    near(result.distance_m, 0.1);
    near(result.heading_rad, 0.0);
    // If both crossings are in the requested window, equal distance still
    // chooses the earliest arc, never the later exact crossing.
    let tie = project_reference(&path, 0, p(0.0, 0.0), b(20.0), &host).unwrap();
    near(tie.arc_m, 1.0);
    near(tie.heading_rad, 0.0);
}

#[test]
fn progress_and_advance_clip_the_eligible_segments() {
    let path = [p(-2.0, 0.0), p(-1.0, 0.0), p(0.0, 0.0), p(10.0, 0.0)];
    let behind = project_reference(&path, 2, p(-1.5, 0.0), b(0.4), &host).unwrap();
    assert_eq!(behind.point, p(-1.0, 0.0));
    near(behind.arc_m, 0.0);
    let ahead = project_reference(&path, 2, p(8.0, 0.0), b(0.4), &host).unwrap();
    near(ahead.point.x_m, 0.4);
    near(ahead.arc_m, 1.4);
    let zero = project_reference(&path, 2, p(8.0, 0.0), b(0.0), &host).unwrap();
    assert_eq!(zero.point, p(0.0, 0.0));
    let final_vertex = project_reference(&path, 3, p(8.0, 0.0), b(0.4), &host).unwrap();
    near(final_vertex.arc_m, 8.0);
}

#[test]
fn rejects_invalid_unbounded_and_unrepresentable_inputs() {
    let path = [p(0.0, 0.0), p(1.0, 0.0)];
    assert!(project_reference(&[], 0, p(0.0, 0.0), b(1.0), &host).is_none());
    assert!(project_reference(&path, 2, p(0.0, 0.0), b(1.0), &host).is_none());
    assert!(project_reference(&path, 0, p(f64::NAN, 0.0), b(1.0), &host).is_none());
    for budget in [-1.0, f64::NAN, f64::INFINITY] {
        assert!(project_reference(&path, 0, p(0.0, 0.0), b(budget), &host).is_none());
    }
    let excessive = vec![p(0.0, 0.0); MAX_PATH_POINTS + 1];
    assert!(project_reference(&excessive, 0, p(0.0, 0.0), b(1.0), &host).is_none());
    let overflow = [p(-f64::MAX, 0.0), p(f64::MAX, 0.0)];
    assert!(project_reference(&overflow, 0, p(0.0, 0.0), b(1.0), &host).is_none());
    let invalid = [p(0.0, 0.0), p(f64::INFINITY, 0.0)];
    assert!(project_reference(&invalid, 0, p(0.0, 0.0), b(1.0), &host).is_none());
}

#[test]
fn the_projection_is_the_nearest_point_of_the_stretch() {
    let path = [p(0.0, 0.0), p(1.0, 0.0), p(2.0, 1.0)];
    let query = p(1.2, 0.7);
    let nearest = project_reference(&path, 0, query, b(5.0), &host).unwrap();
    for k in 0..=1000 {
        let t = k as f64 / 500.0;
        let (x, y) = if t <= 1.0 { (t, 0.0) } else { (t, t - 1.0) };
        assert!(f(nearest.distance_m) <= (1.2 - x).hypot(0.7 - y) + 1e-12);
    }
}
