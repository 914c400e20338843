use robot_core::autonomy::{Point2, Pose2};
use robot_core::binary64::Binary64;
use robot_core::elementary::Elementary;
use robot_core::tracking::lqr::LqrTracker;
use robot_core::tracking::{
    PathTracker, PurePursuitTracker, TrackInput, TrackingConfig, TrackingError, TrackingMode,
};

fn b(x: f64) -> Binary64 {
    Binary64 { bits: x.to_bits() }
}

fn f(x: Binary64) -> f64 {
    f64::from_bits(x.bits)
}

fn host(question: Elementary) -> Binary64 {
    b(match question {
        Elementary::Sine(x) => f(x).sin(),
        Elementary::Cosine(x) => f(x).cos(),
        Elementary::ArcSine(x) => f(x).asin(),
        Elementary::SquareRoot(x) => f(x).sqrt(),
        Elementary::Bearing { y, x } => f(y).atan2(f(x)),
        Elementary::Length { x, y } => f(x).hypot(f(y)),
        Elementary::Turn { to, from } => {
            let turn = f(to) - f(from);
            turn.sin().atan2(turn.cos())
        }
    })
}

fn p(x: f64, y: f64) -> Point2 {
    Point2 {
        x_m: b(x),
        y_m: b(y),
    }
}

fn at(x: f64, y: f64, yaw: f64) -> Pose2 {
    Pose2 {
        x_m: b(x),
        y_m: b(y),
        yaw_rad: b(yaw),
    }
}

fn input(pose: Pose2, path: &[Point2]) -> TrackInput<'_> {
    TrackInput {
        pose,
        speed_mps: b(0.5),
        path,
        progress: 0,
        lookahead_m: b(0.5),
        max_curvature_per_m: b(2.0),
    }
}

fn lqr() -> TrackingConfig {
    TrackingConfig::Lqr {
        q_lateral: b(4.0),
        q_heading: b(1.0),
        r_curvature: b(1.0),
        min_speed_mps: b(0.1),
        max_heading_error_rad: b(0.5),
        max_lateral_error_m: b(0.3),
    }
}

fn message(error: TrackingError) -> String {
    match error {
        TrackingError::Invalid(error) => error.message().into(),
        TrackingError::OutsideEnvelope { .. } => "outside".into(),
    }
}

#[test]
fn pure_pursuit_steers_along_the_circle_to_its_target() {
    let path = [p(0.0, 0.2), p(3.0, 0.2)];
    let command = PurePursuitTracker
        .track(input(at(0.0, 0.0, 0.0), &path), &host)
        .unwrap();
    // The lookahead of 0.5 runs toward (3, 0.2).
    let length = 3.0_f64.hypot(0.2);
    let (x, y) = (0.5 / length * 3.0, 0.5 / length * 0.2);
    assert!((f(command.target.x_m) - x).abs() < 1e-15);
    assert!((f(command.target.y_m) - y).abs() < 1e-15);
    assert!((f(command.curvature_per_m) - 2.0 * y / (x * x + y * y)).abs() < 1e-12);
    assert!(matches!(command.diagnostics.mode, TrackingMode::PurePursuit));
    assert!(command.diagnostics.lateral_error_m.is_none());
}

#[test]
fn curvature_is_clamped_and_reverse_targets_are_refused() {
    let path = [p(0.0, 0.0), p(0.1, 0.4)];
    let command = PurePursuitTracker
        .track(input(at(0.0, 0.0, 0.0), &path), &host)
        .unwrap();
    assert_eq!(f(command.curvature_per_m), 2.0);
    let path = [p(0.0, 0.0), p(-1.0, 0.1)];
    let error = PurePursuitTracker
        .track(input(at(0.0, 0.0, 0.0), &path), &host)
        .unwrap_err();
    assert_eq!(
        message(error),
        "tracking target requires reverse or turn in place"
    );
}

#[test]
fn invalid_tracking_inputs_are_refused() {
    let path = [p(0.0, 0.0), p(1.0, 0.0)];
    let good = input(at(0.0, 0.0, 0.0), &path);
    let same = [p(0.0, 0.0), p(0.0, 0.0)];
    let cases = [
        TrackInput {
            progress: 2,
            ..good
        },
        TrackInput {
            speed_mps: b(3.5),
            ..good
        },
        TrackInput {
            lookahead_m: b(0.0),
            ..good
        },
        TrackInput {
            max_curvature_per_m: b(f64::NAN),
            ..good
        },
        TrackInput {
            pose: at(2_000_000.0, 0.0, 0.0),
            ..good
        },
        TrackInput {
            path: &path[..1],
            ..good
        },
        TrackInput { path: &same, ..good },
    ];
    for case in cases {
        let error = PurePursuitTracker.track(case, &host).unwrap_err();
        assert_eq!(
            message(error),
            "invalid, excessive, or degenerate tracking input"
        );
    }
}

#[test]
fn lqr_gains_follow_from_the_weights() {
    let tracker = LqrTracker::new(lqr(), &host).unwrap();
    assert_eq!(f(tracker.lateral_gain), 2.0);
    assert_eq!(f(tracker.heading_gain), 5.0_f64.sqrt());
    let path = [p(0.0, 0.0), p(1.0, 0.0), p(2.0, 0.0)];
    let command = tracker
        .track(input(at(0.2, 0.1, 0.05), &path), &host)
        .unwrap();
    assert!(matches!(command.diagnostics.mode, TrackingMode::Lqr));
    assert_eq!(command.diagnostics.lateral_error_m, Some(b(0.1)));
    assert_eq!(command.diagnostics.reference_curvature_per_m, Some(b(0.0)));
    let heading = f(command.diagnostics.heading_error_rad.unwrap());
    assert!((heading - 0.05).abs() < 1e-15);
    let expected = 0.0 - 2.0 * 0.1 - 5.0_f64.sqrt() * heading;
    assert_eq!(f(command.curvature_per_m), expected);
    assert!(lqr().validate(&host).is_ok());
}

#[test]
fn lqr_falls_back_at_low_speed_and_keeps_its_envelope() {
    let path = [p(0.0, 0.0), p(1.0, 0.0), p(2.0, 0.0)];
    let mut slow = input(at(0.2, 0.1, 0.0), &path);
    slow.speed_mps = b(0.05);
    let command = lqr().track(slow, &host).unwrap();
    assert!(matches!(command.diagnostics.mode, TrackingMode::PurePursuit));
    let error = lqr()
        .track(input(at(0.2, 0.4, 0.0), &path), &host)
        .unwrap_err();
    let TrackingError::OutsideEnvelope {
        lateral_error_m,
        max_lateral_error_m,
        ..
    } = error
    else {
        panic!("the lateral error is too large");
    };
    assert_eq!(f(lateral_error_m), 0.4);
    assert_eq!(f(max_lateral_error_m), 0.3);
}

#[test]
fn lqr_reference_follows_a_circle() {
    let circle: Vec<Point2> = (0..10)
        .map(|i| {
            let angle = i as f64 * 0.1;
            p(2.0 * angle.sin(), 2.0 - 2.0 * angle.cos())
        })
        .collect();
    let mut on = input(at(2.0 * 0.3_f64.sin(), 2.0 - 2.0 * 0.3_f64.cos(), 0.3), &circle);
    on.progress = 3;
    let command = lqr().track(on, &host).unwrap();
    let curvature = f(command.diagnostics.reference_curvature_per_m.unwrap());
    assert!((curvature - 0.5).abs() < 1e-9);
    assert!(f(command.diagnostics.heading_error_rad.unwrap()).abs() < 1e-9);
    assert!(f(command.diagnostics.lateral_error_m.unwrap()).abs() < 1e-9);
}

#[test]
fn lqr_refuses_bad_weights_and_corners() {
    assert_eq!(
        message(LqrTracker::new(TrackingConfig::PurePursuit, &host).unwrap_err()),
        "LQR tracker requires LQR configuration"
    );
    let bad = TrackingConfig::Lqr {
        q_lateral: b(0.0),
        q_heading: b(1.0),
        r_curvature: b(1.0),
        min_speed_mps: b(0.1),
        max_heading_error_rad: b(0.5),
        max_lateral_error_m: b(0.3),
    };
    assert_eq!(
        message(bad.validate(&host).unwrap_err()),
        "invalid LQR weights or small-error envelope"
    );
    let huge = TrackingConfig::Lqr {
        q_lateral: b(f64::MAX),
        q_heading: b(1.0),
        r_curvature: b(f64::MIN_POSITIVE),
        min_speed_mps: b(0.1),
        max_heading_error_rad: b(0.5),
        max_lateral_error_m: b(0.3),
    };
    assert_eq!(
        message(huge.validate(&host).unwrap_err()),
        "LQR gain overflow or underflow"
    );
    let corner = [p(0.0, 0.0), p(1.0, 0.0), p(1.0, 1.0)];
    let error = lqr()
        .track(input(at(0.2, 0.0, 0.0), &corner), &host)
        .unwrap_err();
    assert_eq!(
        message(error),
        "LQR path corner exceeds the forward small-error model"
    );
}
