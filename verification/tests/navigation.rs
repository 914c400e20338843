use robot_core::autonomy::{Footprint, Point2, Pose2};
use robot_core::binary64::Binary64;
use robot_core::elementary::Elementary;
use robot_core::motion_transition::MotionTransition;
use robot_core::navigation::continuity::{remaining_length, CachedTerminalSeed};
use robot_core::navigation::primitive_envelope::{predict, ErrorBound};
use robot_core::navigation::recovery::{
    ForwardSearchDiagnostics, ForwardSearchExit, ForwardSearchWork, ObstacleDisc,
    PrimitiveGridFailure, RecoveryGrid,
};
use robot_core::navigation::stopping_envelope::{
    certify, reaction_s, Stopping, StoppingConstraint, StoppingMargin,
};
use robot_core::navigation::terminal::correction::{solve_endpoint_correction, Row, System};
use robot_core::navigation::terminal::solvers::{Approach, Arrival, Primitive, Terminal};
use robot_core::navigation::terminal::{TerminalBudget, TwoArcSeed, Variables};
use robot_core::navigation::{NavigationConfig, Rect};
use robot_core::sensors::Timestamp;

fn b(x: f64) -> Binary64 {
    Binary64 { bits: x.to_bits() }
}

fn f(x: Binary64) -> f64 {
    f64::from_bits(x.bits)
}

fn host(question: Elementary) -> Binary64 {
    b(match question {
        Elementary::Sine(x) => f(x).sin(),
        Elementary::Cosine(x) => f(x).cos(),
        Elementary::ArcSine(x) => f(x).asin(),
        Elementary::SquareRoot(x) => f(x).sqrt(),
        Elementary::Bearing { y, x } => f(y).atan2(f(x)),
        Elementary::Length { x, y } => f(x).hypot(f(y)),
        Elementary::Turn { to, from } => {
            let turn = f(to) - f(from);
            turn.sin().atan2(turn.cos())
        }
    })
}

fn p(x: f64, y: f64) -> Point2 {
    Point2 {
        x_m: b(x),
        y_m: b(y),
    }
}

fn at(x: f64, y: f64, yaw: f64) -> Pose2 {
    Pose2 {
        x_m: b(x),
        y_m: b(y),
        yaw_rad: b(yaw),
    }
}

fn apart(q: Point2, r: Point2) -> f64 {
    (f(q.x_m) - f(r.x_m)).hypot(f(q.y_m) - f(r.y_m))
}

fn config() -> NavigationConfig {
    NavigationConfig {
        bounds: Rect {
            min_x_m: b(0.0),
            max_x_m: b(7.0),
            min_y_m: b(0.0),
            max_y_m: b(5.0),
        },
        footprint: Footprint {
            front_m: b(0.22),
            rear_m: b(0.18),
            half_width_m: b(0.13),
        },
        clearance_m: b(0.04),
        control_period_ms: 50,
        max_speed_mps: b(0.5),
        max_accel_mps2: b(0.4),
        max_decel_mps2: b(0.6),
        max_curvature_per_m: b(2.0),
        lookahead_m: b(0.4),
        goal_tolerance_m: b(0.05),
        goal_heading_tolerance_rad: b(0.2),
    }
}

fn body_radius() -> f64 {
    0.22_f64.hypot(0.13)
}

fn anywhere(_: Point2, _: Binary64) -> bool {
    true
}

#[test]
fn recovery_capsule_preserves_the_minimum_forward_restart_space() {
    let trapped = p(4.299801450339034, 2.0533939874827416);
    let before = p(4.28, 2.05);
    let obstacle = ObstacleDisc {
        center: p(4.3, 2.5),
        radius_m: b(0.15),
    };
    let mut static_capsule =
        RecoveryGrid::new(&config(), b(body_radius()), vec![obstacle]);
    static_capsule.radius = b(body_radius() + 0.04);
    assert!(static_capsule.segment_clear(before, trapped, b(0.0), &host, &anywhere));
    let mut grid = RecoveryGrid::new(&config(), b(body_radius()), vec![obstacle]);
    grid.enable_recovery();
    assert!(grid.active && grid.diagnostics.recovery_active);
    assert!(grid.segment_clear(before, before, b(0.0), &host, &anywhere));
    assert!(!grid.segment_clear(before, trapped, b(0.0), &host, &anywhere));
    assert!(!grid.motion_transition_clear_with_error(
        before,
        trapped,
        b(apart(before, trapped)),
        b(0.0),
        true,
        &host,
        &anywhere
    ));
    let static_margin =
        apart(trapped, obstacle.center) - f(static_capsule.radius) - f(obstacle.radius_m);
    let minimum_restart = 2.0 * 0.05 * 0.01 + 0.01_f64.powi(2) / (2.0 * 0.6);
    assert!(static_margin > 0.0 && static_margin < minimum_restart);
}

#[test]
fn capsules_keep_to_the_field_the_boundary_and_the_arc_tube() {
    let mut grid = RecoveryGrid::new(&config(), b(body_radius()), Vec::new());
    let middle = p(3.0, 2.5);
    assert!(grid.segment_clear(middle, p(4.0, 2.5), b(0.0), &host, &anywhere));
    assert!(!grid.segment_clear(middle, p(6.9, 2.5), b(0.0), &host, &anywhere));
    assert!(!grid.segment_clear(middle, p(f64::NAN, 2.5), b(0.0), &host, &anywhere));
    assert!(!grid.segment_clear(middle, middle, b(-0.1), &host, &anywhere));
    let left = |point: Point2, radius: Binary64| f(point.x_m) + f(radius) <= 3.5;
    assert!(grid.segment_clear(middle, middle, b(0.0), &host, &left));
    assert!(!grid.segment_clear(middle, p(3.4, 2.5), b(0.0), &host, &left));
    // Without recovery the answer of the grid counts.
    let far = p(3.2, 2.5);
    assert!(grid.motion_transition_clear_with_error(
        middle, far, b(0.2), b(0.0), true, &host, &anywhere
    ));
    assert!(!grid.motion_transition_clear_with_error(
        middle, far, b(0.2), b(0.0), false, &host, &anywhere
    ));
    assert!(!grid.motion_transition_clear_with_error(
        middle, far, b(-0.2), b(0.0), true, &host, &anywhere
    ));
    // With recovery a long arc bulges: 2 * 4 * 4 / 8 metres.
    grid.enable_recovery();
    assert!(grid.motion_transition_clear_with_error(
        middle, far, b(0.2), b(0.0), false, &host, &anywhere
    ));
    assert!(!grid.motion_transition_clear_with_error(
        middle, far, b(4.0), b(0.0), false, &host, &anywhere
    ));
}

#[test]
fn search_work_adds_up_and_keeps_its_first_rejection() {
    let failure = PrimitiveGridFailure {
        continuous_domain: true,
        sample_index: 3,
        from_cell: Some(1),
        to_cell: None,
        blocked_cell: None,
    };
    let mut work = ForwardSearchWork {
        expanded_nodes: usize::MAX - 1,
        first_primitive_rejection: Some(failure),
        exit: ForwardSearchExit::OpenEmpty,
        ..ForwardSearchWork::default()
    };
    work.accumulate(ForwardSearchWork {
        expanded_nodes: 5,
        generated_nodes: 7,
        first_primitive_rejection: None,
        exit: ForwardSearchExit::Found,
        ..ForwardSearchWork::default()
    });
    assert_eq!(work.expanded_nodes, usize::MAX);
    assert_eq!(work.generated_nodes, 7);
    assert_eq!(work.first_primitive_rejection, Some(failure));
    assert_eq!(work.exit, ForwardSearchExit::Found);
    let mut diagnostics = ForwardSearchDiagnostics::default();
    assert!(diagnostics.is_empty());
    diagnostics.recovery_attempted = true;
    assert!(!diagnostics.is_empty());
}

#[test]
fn reserved_work_is_shared_uncharged_and_restored_on_every_axis() {
    for axis in 0..3 {
        let mut budget = TerminalBudget::default();
        assert!(budget.charge(11, 23, 101));
        budget.reserve_continuation(b(0.95), b(0.05));
        let reserved = budget.snapshot();
        assert_eq!(
            reserved.primitive_samples, 101,
            "reservation is not execution"
        );
        let mut fill = [0, 0, 0];
        fill[axis] = match axis {
            0 => {
                reserved.solver_limit
                    - reserved.recovery_reserved_solvers
                    - reserved.solver_attempts
            }
            1 => {
                reserved.iteration_limit
                    - reserved.recovery_reserved_iterations
                    - reserved.iterations
            }
            _ => {
                reserved.sample_limit
                    - reserved.recovery_reserved_samples
                    - reserved.primitive_samples
            }
        };
        assert!(budget.charge(fill[0], fill[1], fill[2]));
        let mut one = [0, 0, 0];
        one[axis] = 1;
        budget.begin_cold_candidate();
        assert!(!budget.charge(one[0], one[1], one[2]));
        assert!(budget.cold_deferred());
        assert!(!budget.snapshot().budget_exhausted);
        assert_eq!(budget.snapshot().cold_budget_deferrals, 1);
        // A second operation in the same deferred candidate stays cheap,
        // and cannot silently borrow from recovery or double count it.
        assert!(!budget.charge(0, 0, 0));
        assert_eq!(budget.snapshot().cold_budget_deferrals, 1);
        budget.release_continuation();
        assert!(budget.charge(
            reserved.recovery_reserved_solvers,
            reserved.recovery_reserved_iterations,
            reserved.recovery_reserved_samples,
        ));
        assert!(!budget.charge(one[0], one[1], one[2]));
        assert!(budget.snapshot().budget_exhausted);
    }
    let mut budget = TerminalBudget::default();
    assert!(budget.charge(1, 1, 1));
    assert!(!budget.charge(usize::MAX, usize::MAX, usize::MAX));
    assert!(budget.snapshot().budget_exhausted);
    assert_eq!(budget.snapshot().primitive_samples, 1);
}

#[test]
fn a_reservation_shortfall_holds_what_is_left_until_it_is_released() {
    let mut budget = TerminalBudget::default();
    assert!(budget.charge(255, 1016, 65536 - 200));
    budget.reserve_continuation(b(0.95), b(0.05));
    assert_eq!(budget.snapshot().recovery_reservation_shortfalls, 1);
    assert_eq!(budget.snapshot().recovery_reserved_samples, 200);
    budget.begin_cold_candidate();
    assert!(!budget.charge(1, 0, 0));
    assert!(budget.cold_deferred());
    assert!(!budget.snapshot().budget_exhausted);
    budget.release_continuation();
    assert!(!budget.cold_deferred());
    assert!(budget.charge(1, 8, 185));
    assert_eq!(budget.snapshot().primitive_samples, 65536 - 200 + 185);
    assert!(!budget.snapshot().budget_exhausted);
    budget.reset();
    assert_eq!(budget.snapshot().primitive_samples, 0);
    assert_eq!(budget.snapshot().recovery_reserved_samples, 0);
    // no ceiling is left: the whole of the limits can be charged
    assert!(budget.charge(256, 1024, 65536));
}

#[test]
fn timing_is_recorded_where_it_is_enabled() {
    let mut budget = TerminalBudget::default();
    budget.set_timing_enabled(true);
    budget.reset();
    assert_eq!(budget.snapshot().solver_elapsed_ns, Some(0));
    budget.record_elapsed(5);
    budget.record_elapsed(u64::MAX);
    assert_eq!(budget.snapshot().solver_elapsed_ns, Some(u64::MAX));
}

#[test]
fn corrections_solve_the_linear_system() {
    let row = |a: f64, k: f64, c: f64, rhs: f64| Row {
        a: b(a),
        b: b(k),
        c: b(c),
        rhs: b(rhs),
    };
    // x = 1, y = -2, z = 3.
    let system = System {
        top: row(0.0, 2.0, 1.0, -1.0),
        middle: row(1.0, 1.0, 1.0, 2.0),
        bottom: row(2.0, 0.0, -1.0, -1.0),
    };
    let (x, y, z) = solve_endpoint_correction(system).unwrap();
    assert!((f(x) - 1.0).abs() < 1e-12);
    assert!((f(y) + 2.0).abs() < 1e-12);
    assert!((f(z) - 3.0).abs() < 1e-12);
    let singular = System {
        top: row(1.0, 1.0, 1.0, 1.0),
        middle: row(1.0, 1.0, 1.0, 2.0),
        bottom: row(2.0, 0.0, -1.0, -1.0),
    };
    assert!(solve_endpoint_correction(singular).is_none());
}

/// A drive along a curvature ramp at walking speed, in an empty field.
fn drive(primitive: Primitive) -> Option<Arrival> {
    let length = f(primitive.length);
    if !(length.is_finite() && length > 0.0) {
        return None;
    }
    let count = (length / 0.01).ceil().max(1.0) as usize;
    let mut points = vec![primitive.start.point()];
    let mut pose = primitive.start;
    let mut curvature = primitive.initial_curvature;
    let mut error = primitive.error;
    for _ in 0..count {
        let next = predict(
            pose,
            MotionTransition {
                initial_speed_mps: b(0.2),
                target_speed_mps: b(0.2),
                initial_curvature_per_m: curvature,
                target_curvature_per_m: primitive.target_curvature,
                max_accel_mps2: b(0.4),
                max_decel_mps2: b(0.6),
                max_curvature_rate_per_s: b(4.0),
            },
            b(length / count as f64 / 0.2),
            &host,
        )?;
        error = error.advance(&next)?;
        pose = next.projection.pose;
        curvature = next.projection.curvature_per_m;
        points.push(pose.point());
    }
    Some(Arrival {
        points,
        endpoint: pose,
        curvature,
        error,
    })
}

fn approach(start: Pose2, goal: Point2) -> Approach {
    Approach {
        start,
        initial_curvature: b(0.0),
        goal,
        error: ErrorBound::default(),
    }
}

#[test]
fn a_short_arc_ends_at_its_goal() {
    let terminal = Terminal {
        config: config(),
        resolution: b(0.05),
        host: &host,
        drive: &drive,
    };
    let mut budget = TerminalBudget::default();
    let a = approach(at(1.0, 1.0, 0.0), p(1.3, 1.02));
    let arrival = terminal.single_arc(&mut budget, a, None).unwrap();
    assert!(apart(arrival.endpoint.point(), a.goal) <= 0.0001);
    assert!(f(arrival.curvature).abs() <= 2.0);
    let work = budget.snapshot();
    assert!(work.solver_attempts == 1 && work.iterations >= 1 && work.primitive_samples > 0);
    let behind = approach(at(1.0, 1.0, 0.0), p(0.8, 1.0));
    assert!(terminal.single_arc(&mut budget, behind, None).is_none());
    assert_eq!(budget.snapshot().domain_rejections, 1);
    assert_eq!(budget.snapshot().solver_attempts, 1);
}

#[test]
fn two_arcs_meet_a_goal_and_its_heading() {
    let terminal = Terminal {
        config: config(),
        resolution: b(0.05),
        host: &host,
        drive: &drive,
    };
    let mut budget = TerminalBudget::default();
    let a = approach(at(1.0, 1.0, 0.0), p(1.7, 1.1));
    let connection = terminal
        .two_arc(&mut budget, a, b(0.0), None)
        .expect("an easy lane change");
    assert!(!connection.used_seed);
    assert!(apart(connection.endpoint.point(), a.goal) <= 0.0001);
    assert!(f(connection.endpoint.yaw_rad).abs() <= 0.2);
    let cached = CachedTerminalSeed {
        goal: a.goal,
        heading: b(0.0),
        seed: connection.seed,
        anchor_at: Timestamp(100),
        anchor_pose: a.start,
        prefer_continuation: true,
    };
    let (continued, keep) = terminal
        .terminal_connection(&mut budget, Some(cached), Some(Timestamp(100)), a, b(0.0))
        .unwrap();
    assert!(continued.used_seed && keep);
    assert_eq!(budget.snapshot().continued_seed_accepted, 1);
    let plain = CachedTerminalSeed {
        prefer_continuation: false,
        ..cached
    };
    let (first, keep) = terminal
        .terminal_connection(&mut budget, Some(plain), Some(Timestamp(200)), a, b(0.0))
        .unwrap();
    assert!(!first.used_seed && !keep);
    assert!(apart(first.endpoint.point(), a.goal) <= 0.0001);
    let (cold, keep) = terminal
        .terminal_connection(&mut budget, None, Some(Timestamp(100)), a, b(0.0))
        .unwrap();
    assert!(!cold.used_seed && !keep);
}

#[test]
fn the_arrival_region_accepts_half_the_tolerance() {
    let terminal = Terminal {
        config: config(),
        resolution: b(0.05),
        host: &host,
        drive: &drive,
    };
    let mut budget = TerminalBudget::default();
    let a = approach(at(1.0, 1.0, 0.0), p(1.1, 1.0));
    let arrival = terminal
        .oriented_arrival_region(&mut budget, a, b(0.0))
        .unwrap();
    assert!(apart(arrival.endpoint.point(), a.goal) + f(arrival.error.position_m) < 0.025);
    let work = budget.snapshot();
    assert_eq!(
        (work.arrival_region_attempts, work.arrival_region_accepted),
        (1, 1)
    );
}

#[test]
fn an_exhausted_ledger_stops_every_solver() {
    let terminal = Terminal {
        config: config(),
        resolution: b(0.05),
        host: &host,
        drive: &drive,
    };
    let mut budget = TerminalBudget::default();
    let limits = budget.snapshot();
    assert!(budget.charge(limits.solver_limit, 0, 0));
    let a = approach(at(1.0, 1.0, 0.0), p(1.3, 1.02));
    assert!(terminal.single_arc(&mut budget, a, None).is_none());
    assert!(budget.snapshot().budget_exhausted);
    assert!(terminal.two_arc(&mut budget, a, b(0.0), None).is_none());
    assert!(terminal
        .oriented_arrival_region(&mut budget, a, b(0.0))
        .is_none());
    assert_eq!(budget.snapshot().solver_attempts, limits.solver_limit);
}

#[test]
fn a_reserve_covers_a_continuation_at_every_resolution() {
    for resolution in [0.025, 0.05, 0.1, 1.0] {
        let terminal = Terminal {
            config: config(),
            resolution: b(resolution),
            host: &host,
            drive: &drive,
        };
        let a = approach(at(1.0, 1.0, 0.0), p(1.7, 1.1));
        let distance = apart(a.start.point(), a.goal);
        let mut budget = TerminalBudget::default();
        let seed = terminal
            .two_arc(&mut budget, a, b(0.0), None)
            .unwrap()
            .seed;
        budget.reset();
        budget.reserve_continuation(b(distance), b(resolution));
        let allowance = budget.snapshot();
        assert_eq!(allowance.recovery_reservation_shortfalls, 0);
        budget.release_continuation();
        for fraction in [0.0, 0.001, 0.35, 0.5, 0.65, 0.999, 1.0] {
            for curvature in [-2.0, 0.0, 2.0] {
                budget.reset();
                let _ = terminal.continue_two_arc(
                    &mut budget,
                    Approach {
                        initial_curvature: b(curvature),
                        ..a
                    },
                    b(0.0),
                    TwoArcSeed {
                        first_fraction: b(fraction),
                        ..seed
                    },
                );
                let used = budget.snapshot();
                assert!(used.solver_attempts <= allowance.recovery_reserved_solvers);
                assert!(used.iterations <= allowance.recovery_reserved_iterations);
                assert!(used.primitive_samples <= allowance.recovery_reserved_samples);
                assert!(!used.budget_exhausted);
            }
        }
    }
    // 1.25 m at quarters of a decimetre, and two more samples of each kind
    let mut budget = TerminalBudget::default();
    budget.reserve_continuation(b(1.25), b(1.0));
    assert_eq!(budget.snapshot().recovery_reserved_samples, (79 + 2) * 32);
}

#[test]
fn connections_and_their_seeds_keep_to_their_bounds() {
    let terminal = Terminal {
        config: config(),
        resolution: b(0.05),
        host: &host,
        drive: &drive,
    };
    let a = approach(at(1.0, 1.0, 0.0), p(1.7, 1.1));
    let distance = apart(a.start.point(), a.goal);
    let mut budget = TerminalBudget::default();
    let seed = terminal
        .two_arc(&mut budget, a, b(0.0), None)
        .unwrap()
        .seed;
    assert_eq!(f(seed.first_fraction), 0.5);
    let length = f(seed.variables.length);
    assert!(distance <= length && length <= distance * std::f64::consts::FRAC_PI_2);
    assert!(f(seed.variables.first).abs() <= 2.0 && f(seed.variables.second).abs() <= 2.0);
    let left = seed.after_travel(b(0.1)).unwrap();
    assert_eq!(f(left.variables.length), length - 0.1);
    assert_eq!(f(left.first_fraction), (length * 0.5 - 0.1) / (length - 0.1));
    assert!((0.0..=1.0).contains(&f(left.first_fraction)));
}

#[test]
fn a_field_that_holds_both_ends_holds_what_lies_between() {
    let grid = RecoveryGrid::new(&config(), b(body_radius()), vec![]);
    let (from, to) = (p(0.5, 0.5), p(6.5, 4.5));
    assert!(grid.segment_clear(from, to, b(0.0), &host, &anywhere));
    for step in 0..=10 {
        let part = step as f64 / 10.0;
        let between = p(0.5 + 6.0 * part, 0.5 + 4.0 * part);
        assert!(grid.segment_clear(between, between, b(0.0), &host, &anywhere));
    }
    assert!(!grid.segment_clear(from, p(6.9, 4.5), b(0.0), &host, &anywhere));
}

#[test]
fn cached_seeds_shrink_only_with_forward_travel() {
    let cached = CachedTerminalSeed {
        goal: p(2.0, 0.0),
        heading: b(0.0),
        seed: TwoArcSeed {
            variables: Variables {
                first: b(0.3),
                second: b(-0.3),
                length: b(1.0),
            },
            first_fraction: b(0.5),
        },
        anchor_at: Timestamp(100),
        anchor_pose: at(0.0, 0.0, 0.0),
        prefer_continuation: false,
    };
    let length = |seed: TwoArcSeed| f(seed.variables.length);
    let early = cached.for_pose(Timestamp(100), at(0.3, 0.0, 0.0), &host).unwrap();
    assert_eq!(length(early), 1.0);
    let behind = cached.for_pose(Timestamp(150), at(-0.1, 0.0, 0.0), &host).unwrap();
    assert_eq!(length(behind), 1.0);
    let ahead = cached.for_pose(Timestamp(150), at(0.3, 0.0, 0.0), &host).unwrap();
    assert_eq!(length(ahead), 0.7);
    assert!((f(ahead.first_fraction) - 0.2 / 0.7).abs() < 1e-12);
    assert!(cached.for_pose(Timestamp(150), at(f64::NAN, 0.0, 0.0), &host).is_none());
    assert!(cached.for_pose(Timestamp(150), at(2.0, 0.0, 0.0), &host).is_none());
}

#[test]
fn remaining_length_follows_the_route() {
    let route = [p(0.0, 0.0), p(0.5, 0.0), p(1.0, 0.0), p(1.0, 2.0)];
    let left = |pose: Pose2, progress: usize| remaining_length(pose, &route, progress, &host);
    assert_eq!(left(at(0.0, 0.0, 0.0), 0).map(f), Some(3.0));
    assert_eq!(left(at(0.6, 0.0, 0.0), 0).map(f), Some(2.4));
    assert_eq!(left(at(1.0, 1.5, 0.0), 3).map(f), Some(0.5));
    assert_eq!(left(at(0.0, 0.0, 0.0), 4), None);
    // A loop that comes back is not cut short.
    let back = [p(0.0, 0.0), p(3.0, 0.0), p(3.0, 1.0), p(0.0, 1.0), p(0.0, 0.1)];
    let length = remaining_length(at(0.0, 0.05, 0.0), &back, 0, &host).map(f).unwrap();
    assert!(length > 7.0);
}

/// An envelope with two decimetres ahead at half a metre per second, and with
/// none for a speed that is not a number.
fn body_corners(motions: Stopping) -> Option<Vec<Point2>> {
    assert_eq!(f(motions.max_curvature_per_m), 2.0);
    assert_eq!(f(motions.reaction_s), 0.1);
    assert_eq!(f(motions.config.clearance_m), 0.04);
    if f(motions.speed_bound_mps).is_nan() {
        return None;
    }
    assert_eq!(f(motions.speed_bound_mps), 0.5);
    Some(vec![p(0.3, 0.2), p(0.3, -0.2), p(-0.2, -0.2), p(-0.2, 0.2)])
}

fn no_boundary(_: &Vec<Point2>) -> Option<Binary64> {
    None
}

fn disc_margin(motions: Stopping, center: Point2, radius: Binary64) -> Binary64 {
    assert_eq!(f(motions.speed_bound_mps), 0.5);
    b(f(center.x_m).hypot(f(center.y_m)) - 0.4 - f(radius))
}

#[test]
fn stopping_margins_name_what_limits_them() {
    let margin = |pose: Pose2, obstacles: Vec<ObstacleDisc>| {
        certify(
            &config(),
            pose,
            b(0.5),
            &obstacles,
            &host,
            &body_corners,
            &no_boundary,
            &disc_margin,
        )
    };
    let right = margin(at(6.5, 2.5, 0.0), Vec::new()).unwrap();
    assert_eq!(right.constraint, StoppingConstraint::MaxX);
    assert!((f(right.clearance_m) - 0.2).abs() < 1e-12);
    assert!(margin(at(6.8, 2.5, 0.0), Vec::new()).is_none());
    let disc = |x: f64, radius: f64| ObstacleDisc {
        center: p(x, 2.5),
        radius_m: b(radius),
    };
    let near = margin(at(3.0, 2.5, 0.0), vec![disc(5.0, 0.1), disc(3.6, 0.1)]).unwrap();
    assert_eq!(near.constraint, StoppingConstraint::Obstacle { index: 1 });
    assert!(margin(at(3.0, 2.5, 0.0), vec![disc(3.45, 0.1)]).is_none());
    assert!(margin(at(3.0, 2.5, 0.0), vec![disc(5.0, -0.1)]).is_none());
    assert!(margin(at(f64::NAN, 2.5, 0.0), Vec::new()).is_none());
    let fence = |_: &Vec<Point2>| Some(b(0.05));
    let fenced = certify(
        &config(),
        at(3.0, 2.5, 0.0),
        b(0.5),
        &Vec::new(),
        &host,
        &body_corners,
        &fence,
        &disc_margin,
    )
    .unwrap();
    assert_eq!(fenced.constraint, StoppingConstraint::TravelBoundary);
    let nothing = certify(
        &config(),
        at(3.0, 2.5, 0.0),
        b(f64::NAN),
        &Vec::new(),
        &host,
        &body_corners,
        &fence,
        &disc_margin,
    );
    assert!(nothing.is_none());
    assert_eq!(f(reaction_s(&config())), 0.1);
}

#[test]
fn an_edge_may_be_touched_but_no_obstacle() {
    let edge = StoppingMargin {
        clearance_m: b(0.0),
        constraint: StoppingConstraint::MinY,
    };
    let obstacle = StoppingMargin {
        clearance_m: b(0.0),
        constraint: StoppingConstraint::Obstacle { index: 0 },
    };
    assert!(edge.clear());
    assert!(!obstacle.clear());
}
