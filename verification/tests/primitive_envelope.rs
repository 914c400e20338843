use robot_core::autonomy::{Point2, Pose2};
use robot_core::binary64::Binary64;
use robot_core::elementary::Elementary;
use robot_core::motion_transition::MotionTransition;
use robot_core::navigation::primitive_envelope::{predict, ErrorBound};

fn b(x: f64) -> Binary64 {
    Binary64 { bits: x.to_bits() }
}

fn f(x: Binary64) -> f64 {
    f64::from_bits(x.bits)
}

fn host(question: Elementary) -> Binary64 {
    b(match question {
        Elementary::Sine(x) => f(x).sin(),
        Elementary::Cosine(x) => f(x).cos(),
        Elementary::ArcSine(x) => f(x).asin(),
        Elementary::SquareRoot(x) => f(x).sqrt(),
        Elementary::Bearing { y, x } => f(y).atan2(f(x)),
        Elementary::Length { x, y } => f(x).hypot(f(y)),
        Elementary::Turn { to, from } => {
            let turn = f(to) - f(from);
            turn.sin().atan2(turn.cos())
        }
    })
}

fn origin() -> Pose2 {
    Pose2 {
        x_m: b(0.0),
        y_m: b(0.0),
        yaw_rad: b(0.0),
    }
}

fn motion(initial_k: f64, target_k: f64) -> MotionTransition {
    MotionTransition {
        initial_speed_mps: b(0.3),
        target_speed_mps: b(0.3),
        initial_curvature_per_m: b(initial_k),
        target_curvature_per_m: b(target_k),
        max_accel_mps2: b(0.4),
        max_decel_mps2: b(0.6),
        max_curvature_rate_per_s: b(4.0),
    }
}

/// A plain pose, in machine numbers.
#[derive(Clone, Copy)]
struct Plain {
    x: f64,
    y: f64,
    yaw: f64,
}

fn plain(pose: Pose2) -> Plain {
    Plain {
        x: f(pose.x_m),
        y: f(pose.y_m),
        yaw: f(pose.yaw_rad),
    }
}

fn apart(p: Plain, q: Plain) -> f64 {
    (p.x - q.x).hypot(p.y - q.y)
}

/// An arc of constant curvature.
fn integrate(pose: Plain, length: f64, curvature: f64) -> Plain {
    let yaw = pose.yaw + length * curvature;
    if curvature.abs() < 1e-9 {
        Plain {
            x: pose.x + length * pose.yaw.cos(),
            y: pose.y + length * pose.yaw.sin(),
            yaw,
        }
    } else {
        Plain {
            x: pose.x + (yaw.sin() - pose.yaw.sin()) / curvature,
            y: pose.y + (pose.yaw.cos() - yaw.cos()) / curvature,
            yaw,
        }
    }
}

fn segment_distance(x: f64, y: f64, from: Plain, to: Plain) -> f64 {
    let dx = to.x - from.x;
    let dy = to.y - from.y;
    let fraction =
        (((x - from.x) * dx + (y - from.y) * dy) / (dx * dx + dy * dy)).clamp(0.0, 1.0);
    (x - from.x - fraction * dx).hypot(y - from.y - fraction * dy)
}

#[test]
fn saturation_counterexample_and_mirror_need_the_bounded_ramped_endpoint() {
    // Independent 80,000 midpoint integral with analytic source-time yaw;
    // doubling 40,000 samples changed xy by 3.13e-13 m. This is a local
    // mathematical regression, not an observed vehicle/collision claim.
    let expected = Plain {
        x: 0.39989631341910775,
        y: 0.007849910327996932,
        yaw: 0.03962500000000001,
    };
    let obstacle = (0.6607748862403154, 0.17629431073210472);
    let body_radius = 0.22_f64.hypot(0.13);
    let radius = body_radius + 0.04 + 0.015;
    let ds = 0.025;
    let sagitta = 2.0 * ds * ds / 8.0;
    for sign in [-1.0, 1.0] {
        let truth = Plain {
            y: sign * expected.y,
            yaw: sign * expected.yaw,
            ..expected
        };
        let (x, y) = (obstacle.0, sign * obstacle.1);
        let mut averaged_pose = plain(origin());
        let mut averaged_curvature: f64 = 0.0;
        let mut pose = origin();
        let mut curvature = 0.0;
        let mut bound = ErrorBound::default();
        let mut averaged_margin = f64::INFINITY;
        let mut corrected_margin = f64::INFINITY;
        for _ in 0..16 {
            let next_k = (sign * 0.1).clamp(
                averaged_curvature - 4.0 / 0.3 * ds,
                averaged_curvature + 4.0 / 0.3 * ds,
            );
            let averaged_end = integrate(averaged_pose, ds, (averaged_curvature + next_k) * 0.5);
            averaged_margin =
                averaged_margin.min(segment_distance(x, y, averaged_pose, averaged_end) - radius - sagitta);
            averaged_pose = averaged_end;
            averaged_curvature = next_k;

            let next = predict(pose, motion(curvature, sign * 0.1), b(ds / 0.3), &host).unwrap();
            bound = bound.advance(&next).unwrap();
            corrected_margin = corrected_margin.min(
                segment_distance(x, y, plain(pose), plain(next.projection.pose))
                    - radius
                    - sagitta
                    - f(bound.position_m),
            );
            pose = next.projection.pose;
            curvature = f(next.projection.curvature_per_m);
        }
        assert!(
            averaged_margin > 1.5e-5,
            "averaged capsules wrongly clear the inserted obstacle"
        );
        assert!(
            corrected_margin < 0.0,
            "bounded ramp rejects it without weakening clearance"
        );
        assert!(apart(plain(pose), truth) <= f(bound.position_m));
        assert!((f(pose.yaw_rad) - truth.yaw).abs() <= f(bound.heading_rad));
        assert!((averaged_pose.yaw - truth.yaw).abs() > 0.0008);
        assert!(f(bound.position_m) < 1e-6);
        let world = Pose2 {
            x_m: b(truth.x),
            y_m: b(truth.y),
            yaw_rad: b(truth.yaw),
        };
        let local = world.world_to_body(
            Point2 {
                x_m: b(x),
                y_m: b(y),
            },
            &host,
        );
        let true_margin = (f(local.x_m) - 0.22).hypot(f(local.y_m).abs() - 0.13) - 0.04 - 0.015;
        assert!(true_margin < -4.99e-6);
    }
}

#[test]
fn coupled_speed_and_steering_split_integrals_cover_independent_fine_model() {
    let transition = MotionTransition {
        initial_speed_mps: b(0.05),
        target_speed_mps: b(0.2),
        initial_curvature_per_m: b(-0.6),
        target_curvature_per_m: b(1.1),
        ..motion(0.0, 0.0)
    };
    let duration = 0.6;
    let mut pose = origin();
    let mut error = ErrorBound::default();
    let mut speed = transition.initial_speed_mps;
    let mut curvature = transition.initial_curvature_per_m;
    let mut distance = 0.0;
    for _ in 0..6 {
        let next = predict(
            pose,
            MotionTransition {
                initial_speed_mps: speed,
                initial_curvature_per_m: curvature,
                ..transition
            },
            b(0.1),
            &host,
        )
        .unwrap();
        error = error.advance(&next).unwrap();
        pose = next.projection.pose;
        speed = next.projection.speed_mps;
        curvature = next.projection.curvature_per_m;
        distance += f(next.projection.distance_m);
    }
    // Independent time-parametric midpoint dynamics, never predict or its
    // piece segmentation. Fine integration error is much smaller than the
    // tested quadrature tube; compare it at two resolutions below.
    let reference = |count: usize| {
        let h = duration / count as f64;
        let mut truth = plain(origin());
        for i in 0..count {
            let t = (i as f64 + 0.5) * h;
            let v = (0.05 + 0.4 * t).min(0.2);
            let k = (-0.6 + 4.0 * t).min(1.1);
            let yaw = truth.yaw + v * k * h * 0.5;
            truth.x += v * yaw.cos() * h;
            truth.y += v * yaw.sin() * h;
            truth.yaw += v * k * h;
        }
        truth
    };
    let truth = reference(120_000);
    assert!(apart(truth, reference(60_000)) < 1e-10);
    assert!(apart(plain(pose), truth) <= f(error.position_m));
    // Independent fine theta still has O(h²) error. The analytic reference
    // is checked separately so this allowance is not part of the bound.
    // [0, .375]: -.03t - .02t² + (1.6/3)t³;
    // [.375, .425]: -.12t + .4t²; then .22 rad/s.
    let exact_yaw = 0.0625625;
    assert!((f(pose.yaw_rad) - exact_yaw).abs() <= f(error.heading_rad));
    assert!((f(pose.yaw_rad) - truth.yaw).abs() < 1e-10);
    assert!((distance - 0.091875).abs() < 1e-12);
    assert_eq!(f(speed), 0.2);
    assert_eq!(f(curvature), 1.1);
    assert!(f(error.position_m) < 0.0001);
}

#[test]
fn uncertainty_is_composed_and_invalid_numeric_bounds_fail_closed() {
    let next = predict(origin(), motion(0.0, 0.0), b(0.1), &host).unwrap();
    let before = ErrorBound {
        position_m: b(0.01),
        heading_rad: b(0.02),
    };
    let after = before.advance(&next).unwrap();
    assert!(f(after.position_m) >= 0.01 + 0.03 * 0.02);
    assert!(f(after.heading_rad) >= f(before.heading_rad));
    assert!(ErrorBound {
        position_m: b(f64::NAN),
        ..before
    }
    .advance(&next)
    .is_none());
    assert!(predict(origin(), motion(0.0, f64::NAN), b(0.1), &host).is_none());
    assert!(predict(origin(), motion(0.0, 0.0), b(-0.1), &host).is_none());
    assert!(predict(origin(), motion(0.0, 0.0), b(f64::INFINITY), &host).is_none());
    let stopped = MotionTransition {
        initial_speed_mps: b(0.0),
        target_speed_mps: b(0.0),
        ..motion(-1.0, 1.0)
    };
    let stationary = predict(origin(), stopped, b(0.6), &host).unwrap();
    assert!(stationary.projection.pose.equals(origin()));
    assert_eq!(f(stationary.projection.distance_m), 0.0);
    assert_eq!(f(stationary.projection.curvature_per_m), 1.0);
}
