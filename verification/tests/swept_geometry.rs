use robot_core::autonomy::{
    Footprint, HalfPlane, LightState, Outline, Point2, Pose2, PoseEstimate, RoadObservation, Stance,
};
use robot_core::binary64::Binary64;
use robot_core::elementary::Elementary;
use robot_core::local_world::{
    ElementColor, ElementGeometry, ElementKind, ElementTrack, Space, SpaceState, TrackId,
};
use robot_core::mission::{MissionConfig, MissionOutput, MissionPhase};
use robot_core::online_mission::scene::Policy;
use robot_core::online_mission::targets::Arc;
use robot_core::online_mission::tick::Surroundings;
use robot_core::online_mission::{
    wrap, OnlineBehavior, OnlineMission, OnlineMissionConfig, Orbit, Proposal, Task,
};
use robot_core::sensors::{FrameId, Timestamp};
use std::f64::consts::{FRAC_PI_2, FRAC_PI_4, PI, TAU};

fn b(x: f64) -> Binary64 {
    Binary64 { bits: x.to_bits() }
}

fn f(x: Binary64) -> f64 {
    f64::from_bits(x.bits)
}

fn host(question: Elementary) -> Binary64 {
    b(match question {
        Elementary::Sine(x) => f(x).sin(),
        Elementary::Cosine(x) => f(x).cos(),
        Elementary::ArcSine(x) => f(x).asin(),
        Elementary::SquareRoot(x) => f(x).sqrt(),
        Elementary::Bearing { y, x } => f(y).atan2(f(x)),
        Elementary::Length { x, y } => f(x).hypot(f(y)),
        Elementary::Turn { to, from } => {
            let turn = f(to) - f(from);
            turn.sin().atan2(turn.cos())
        }
    })
}

fn pt(x_m: f64, y_m: f64) -> Point2 {
    Point2 {
        x_m: b(x_m),
        y_m: b(y_m),
    }
}

fn at_pose(x_m: f64, y_m: f64, yaw_rad: f64) -> Pose2 {
    Pose2 {
        x_m: b(x_m),
        y_m: b(y_m),
        yaw_rad: b(yaw_rad),
    }
}

/// One scan of a walled field with a cone, from one place.
struct Sight {
    x: f64,
    y: f64,
    ranges: Vec<Option<f64>>,
}

const INCREMENT: f64 = TAU / 360.0;

impl Sight {
    fn new(source: Pose2, extra: Option<(f64, f64, f64)>, missing: Option<f64>) -> Self {
        let (sx, sy) = (f(source.x_m), f(source.y_m));
        let ranges = (0..360)
            .map(|i| {
                let angle = i as f64 * INCREMENT;
                let (sin, cos) = angle.sin_cos();
                let mut nearest = 12.0f64;
                for hit in [-sx / cos, (5.0 - sx) / cos, -sy / sin, (4.0 - sy) / sin] {
                    if hit.is_finite() && hit > 0.0 {
                        nearest = nearest.min(hit);
                    }
                }
                let cone = (4.0, 2.0, 0.14 * 2.0f64.sqrt());
                for (cx, cy, radius) in [Some(cone), extra].into_iter().flatten() {
                    let (x, y) = (cx - sx, cy - sy);
                    let along = x * cos + y * sin;
                    let across = x * sin - y * cos;
                    if along > 0.0 && across.abs() <= radius {
                        let hit = along - (radius * radius - across * across).sqrt();
                        if hit > 0.0 {
                            nearest = nearest.min(hit);
                        }
                    }
                }
                let turn = |bearing: f64| f(wrap(b(angle - bearing))).abs();
                if missing.is_some_and(|bearing| turn(bearing) <= INCREMENT * 0.5) {
                    None
                } else {
                    Some(nearest)
                }
            })
            .collect();
        Sight {
            x: sx,
            y: sy,
            ranges,
        }
    }

    fn seen(&self, x: f64, y: f64) -> bool {
        let (dx, dy) = (x - self.x, y - self.y);
        let distance = dx.hypot(dy);
        let beam = (dy.atan2(dx).rem_euclid(TAU) / INCREMENT).round() as usize % 360;
        distance < 0.02 || self.ranges[beam].is_some_and(|range| distance < range - 0.01)
    }

    /// What is known of a convex hull with a margin: an obstacle where a beam
    /// ends in it, free where every part of it is seen.
    fn state(&self, points: &[Point2], padding: f64) -> SpaceState {
        let hull: Vec<(f64, f64)> = points.iter().map(|p| (f(p.x_m), f(p.y_m))).collect();
        for (i, range) in self.ranges.iter().enumerate() {
            if let Some(range) = range {
                let angle = i as f64 * INCREMENT;
                let x = self.x + range * angle.cos();
                let y = self.y + range * angle.sin();
                if *range < 12.0 && within(&hull, x, y) <= padding {
                    return SpaceState::Obstacle;
                }
            }
        }
        let low_x = hull.iter().map(|p| p.0).fold(f64::INFINITY, f64::min) - padding;
        let high_x = hull.iter().map(|p| p.0).fold(f64::NEG_INFINITY, f64::max) + padding;
        let low_y = hull.iter().map(|p| p.1).fold(f64::INFINITY, f64::min) - padding;
        let high_y = hull.iter().map(|p| p.1).fold(f64::NEG_INFINITY, f64::max) + padding;
        let (nx, ny) = (
            ((high_x - low_x) / 0.01).ceil() as usize,
            ((high_y - low_y) / 0.01).ceil() as usize,
        );
        for i in 0..=nx {
            for j in 0..=ny {
                let x = low_x + i as f64 * 0.01;
                let y = low_y + j as f64 * 0.01;
                if !self.seen(x, y) && within(&hull, x, y) <= padding {
                    return SpaceState::Unknown;
                }
            }
        }
        SpaceState::KnownFree
    }

    fn answer(&self, space: Space) -> SpaceState {
        match space {
            Space::Segment {
                from,
                to,
                padding_m,
            } => self.state(&[from, to], f(padding_m)),
            Space::Body { body, padding_m } => self.state(&corners(body), f(padding_m)),
            Space::Sweep {
                first,
                last,
                padding_m,
            } => {
                let mut points = corners(first).to_vec();
                points.extend(corners(last));
                self.state(&points, f(padding_m))
            }
        }
    }
}

fn corners(body: Outline) -> [Point2; 4] {
    [
        body.front_left,
        body.front_right,
        body.rear_right,
        body.rear_left,
    ]
}

/// The distance of a point to the convex hull of others, zero inside.
fn within(points: &[(f64, f64)], x: f64, y: f64) -> f64 {
    let mut nearest = f64::INFINITY;
    for (i, a) in points.iter().enumerate() {
        for c in &points[i..] {
            let (dx, dy) = (c.0 - a.0, c.1 - a.1);
            let squared = dx * dx + dy * dy;
            let t = if squared == 0.0 {
                0.0
            } else {
                (((x - a.0) * dx + (y - a.1) * dy) / squared).clamp(0.0, 1.0)
            };
            nearest = nearest.min((x - a.0 - t * dx).hypot(y - a.1 - t * dy));
        }
    }
    // Inside where no line through the point leaves all others on one side.
    let mut angles: Vec<f64> = points.iter().map(|p| (p.1 - y).atan2(p.0 - x)).collect();
    angles.sort_by(f64::total_cmp);
    let mut widest = angles[0] + TAU - angles[angles.len() - 1];
    for pair in angles.windows(2) {
        widest = widest.max(pair[1] - pair[0]);
    }
    if widest < PI {
        0.0
    } else {
        nearest
    }
}

fn flaw(_: HalfPlane) -> Option<String> {
    None
}

fn stand(_: HalfPlane, _: Footprint, _: Pose2) -> Stance {
    Stance {
        inside: true,
        rear_m: b(0.0),
    }
}

fn config() -> OnlineMissionConfig {
    OnlineMissionConfig::from_limits(&MissionConfig {
        world_frame: FrameId("sim_world".into()),
        body_frame: FrameId("sim_body".into()),
        footprint: Footprint {
            front_m: b(0.22),
            rear_m: b(0.18),
            half_width_m: b(0.13),
        },
        cruise_speed_mps: b(0.3),
        approach_speed_mps: b(0.18),
        goal_tolerance_m: b(0.05),
        goal_heading_tolerance_rad: b(0.2),
        crosswalk_stop_margin_m: b(0.15),
        stopped_speed_mps: b(0.02),
        crosswalk_hold_ms: 3000,
        min_green_ms: 300,
        min_green_frames: 3,
        max_pose_age_ms: 300,
        max_road_age_ms: 300,
        max_pose_gap_ms: 300,
        max_road_gap_ms: 300,
        max_observation_skew_ms: 100,
        min_pose_quality: b(0.5),
        min_detection_confidence: b(0.6),
    })
}

fn arc_state(sight: &Sight, center: Point2, radius: f64, start: f64, sweep: f64) -> SpaceState {
    let limits = config();
    let tracks = Vec::new();
    let policy = Policy {
        limits: &limits,
        host: &host,
        space: &|space: Space| sight.answer(space),
        flaw: &flaw,
        stance: &stand,
        tracks: &tracks,
    };
    policy.arc_space_state(Arc {
        center,
        radius: b(radius),
        start: b(start),
        sweep: b(sweep),
    })
}

fn local_target(
    sight: &Sight,
    pose: Pose2,
    goal: Point2,
    heading: Option<f64>,
    behavior: OnlineBehavior,
) -> Proposal {
    let limits = config();
    let tracks = Vec::new();
    let policy = Policy {
        limits: &limits,
        host: &host,
        space: &|space: Space| sight.answer(space),
        flaw: &flaw,
        stance: &stand,
        tracks: &tracks,
    };
    policy.local_target(pose, goal, heading.map(b), None, true, behavior, "bounded alignment")
}

fn cone_step(
    sight: &Sight,
    task: Task,
    estimate: &PoseEstimate,
    track: &mut ElementTrack,
) -> (Task, Proposal) {
    let limits = config();
    let tracks = vec![*track];
    let policy = Policy {
        limits: &limits,
        host: &host,
        space: &|space: Space| sight.answer(space),
        flaw: &flaw,
        stance: &stand,
        tracks: &tracks,
    };
    let (after, result) = policy.cone_step(
        task,
        Timestamp(100),
        estimate,
        false,
        |id: TrackId| {
            assert_eq!(id, track.id);
            track.processed = true;
            None
        },
    );
    (after, result.unwrap())
}

fn free_body(sight: &Sight, point: Point2, yaw: f64) -> bool {
    let limits = config();
    let pose = Pose2 {
        x_m: point.x_m,
        y_m: point.y_m,
        yaw_rad: b(yaw),
    };
    let body = limits.footprint.corners(pose, &host);
    sight.answer(Space::Body {
        body,
        padding_m: limits.clearance_m,
    }) == SpaceState::KnownFree
}

fn estimate(pose: Pose2) -> PoseEstimate {
    PoseEstimate {
        captured_at: Timestamp(100),
        frame_id: FrameId("sim_world".into()),
        pose,
        speed_mps: b(0.0),
        yaw_rate_radps: b(0.0),
        quality: b(1.0),
    }
}

fn cone_track(radius: f64, error: f64) -> ElementTrack {
    ElementTrack {
        id: TrackId(1),
        kind: ElementKind::Cone,
        color: ElementColor::Red,
        position: pt(4.0, 2.0),
        heading_rad: None,
        geometry: ElementGeometry::Cone {
            radius_m: b(radius),
        },
        confidence: b(0.99),
        position_error_m: b(error),
        heading_error_rad: b(0.0),
        observations: 2,
        last_geometry_at: Timestamp(100),
        last_visual_at: Timestamp(100),
        valid: true,
        processed: false,
    }
}

fn on_circle(radius: f64, angle: f64) -> Pose2 {
    at_pose(
        4.0 + radius * angle.cos(),
        2.0 + radius * angle.sin(),
        f(wrap(b(angle + FRAC_PI_2))),
    )
}

#[test]
fn zero_sweep_certifies_the_whole_stationary_footprint_or_remains_unknown() {
    let source = at_pose(4.7, 1.1, 0.0);
    let sight = Sight::new(source, None, None);
    let center = pt(4.0, 2.0);
    for sweep in [0.0, -0.0] {
        assert_eq!(
            arc_state(&sight, center, 0.6, -FRAC_PI_2, sweep),
            SpaceState::KnownFree
        );
    }
    // A zero-length reference is not permission to ignore its front/rear
    // corners. This stationary rectangle reaches beyond the observed wall.
    assert_eq!(
        arc_state(&sight, pt(4.9, 2.0), 0.6, -FRAC_PI_2, 0.0),
        SpaceState::Obstacle
    );
    let missing = (1.4_f64 - 1.1).atan2(4.0 - 4.7);
    let unknown = Sight::new(source, None, Some(missing));
    assert_eq!(
        arc_state(&unknown, center, 0.6, -FRAC_PI_2, 0.0),
        SpaceState::Unknown
    );
    for invalid in [f64::NAN, f64::INFINITY, f64::NEG_INFINITY] {
        assert_eq!(
            arc_state(&sight, center, 0.6, -FRAC_PI_2, invalid),
            SpaceState::Unknown
        );
    }
}

#[test]
fn zero_remaining_arc_keeps_observed_exit_speed_without_completing_early() {
    for cone_index in [0, 1] {
        let heading = if cone_index == 0 { PI } else { 0.0 };
        let x = if cone_index == 0 { 4.01 } else { 3.99 };
        let source = at_pose(x, 2.6, heading);
        let sight = Sight::new(source, None, None);
        let mut track = cone_track(0.14 * 2.0_f64.sqrt(), 0.001);
        let mut task = Task::new();
        task.active = Some(track.id);
        task.active_geometry = Some(track);
        task.initial_heading = Some(b(0.0));
        task.phase = MissionPhase::Cones;
        task.cone_index = cone_index;
        task.orbit = Some(Orbit {
            radius_m: b(0.6),
            entry_aligned: true,
            entered: true,
            progress_rad: b(PI),
            saw_outer_side: true,
            last_position: source.point(),
        });
        let (after, proposal) = cone_step(&sight, task, &estimate(source), &mut track);
        let MissionOutput::Target { max_speed_mps, .. } = proposal.output else {
            panic!("observed exit should retain a target");
        };
        assert_eq!(max_speed_mps, config().cruise_speed_mps);
        assert!(matches!(proposal.behavior, OnlineBehavior::OrbitCone));
        assert_eq!(after.cone_index, cone_index);
        assert!(!track.processed);
    }
}

#[test]
fn swept_geometry_small_observed_quarter_arc_accepts_tangent_rectangle_not_large_radius() {
    // A side-front observation sees the complete quarter sweep; the
    // distant entrance-view occlusion has a separate negative test below.
    let sight = Sight::new(at_pose(4.7, 1.1, 0.0), None, None);
    let limits = config();
    assert_eq!(f(limits.footprint.front_m), 0.22);
    assert_eq!(f(limits.footprint.rear_m), 0.18);
    assert_eq!(f(limits.footprint.half_width_m), 0.13);
    assert_eq!(f(limits.clearance_m), 0.04);
    assert!(0.6 >= 1.0 / f(limits.max_curvature_per_m));
    let center = pt(4.0, 2.0);
    assert_eq!(
        arc_state(&sight, center, 0.6, -FRAC_PI_2, FRAC_PI_2),
        SpaceState::KnownFree
    );
    // At the outer side, .85 + half-width + clearance exceeds the actual
    // 1 m center-to-wall gap. The complete sweep must be rejected.
    assert_ne!(
        arc_state(&sight, center, 0.85, -FRAC_PI_2, FRAC_PI_2),
        SpaceState::KnownFree
    );
}

#[test]
fn swept_geometry_mid_arc_obstacle_rejects_despite_clear_endpoint_bodies() {
    let source = at_pose(4.7, 1.1, 0.0);
    let middle = on_circle(0.7, -FRAC_PI_4).point();
    let sight = Sight::new(source, Some((f(middle.x_m), f(middle.y_m), 0.025)), None);
    for angle in [-FRAC_PI_2, 0.0] {
        let pose = on_circle(0.7, angle);
        assert!(free_body(&sight, pose.point(), f(pose.yaw_rad)));
    }
    assert_ne!(
        arc_state(&sight, pt(4.0, 2.0), 0.7, -FRAC_PI_2, FRAC_PI_2),
        SpaceState::KnownFree
    );
}

#[test]
fn swept_geometry_missing_ray_cannot_certify_an_arc() {
    let source = at_pose(4.7, 1.1, 0.0);
    let middle = on_circle(0.7, -FRAC_PI_4).point();
    let bearing = (f(middle.y_m) - 1.1).atan2(f(middle.x_m) - 4.7);
    let sight = Sight::new(source, None, Some(bearing));
    assert_ne!(
        arc_state(&sight, pt(4.0, 2.0), 0.7, -FRAC_PI_2, FRAC_PI_2),
        SpaceState::KnownFree
    );
}

#[test]
fn swept_geometry_far_cone_occlusion_is_unknown_even_with_a_free_tangent_approach() {
    let source = at_pose(2.8, 1.3, 0.0);
    let sight = Sight::new(source, None, None);
    let entry = on_circle(0.7, -FRAC_PI_2).point();
    let padding = 0.22_f64.hypot(0.13) + 0.04;
    assert_eq!(
        sight.answer(Space::Segment {
            from: source.point(),
            to: entry,
            padding_m: b(padding)
        }),
        SpaceState::KnownFree
    );
    // The cone occludes later portions from this distant source. This must
    // remain unknown; a separate approach policy may move closer and rescan.
    assert_ne!(
        arc_state(&sight, pt(4.0, 2.0), 0.7, -FRAC_PI_2, FRAC_PI_2),
        SpaceState::KnownFree
    );
}

#[test]
fn swept_geometry_oriented_target_checks_interior_not_only_clear_corners() {
    let source = at_pose(4.2, 1.5, 0.0);
    let sight = Sight::new(source, Some((4.59, 2.11, 0.006)), None);
    let target = at_pose(4.65, 2.0, FRAC_PI_2);
    let body = config().footprint.corners(target, &host);
    for corner in corners(body) {
        assert_eq!(sight.state(&[corner], 0.0), SpaceState::KnownFree);
    }
    let proposal = local_target(
        &sight,
        source,
        target.point(),
        Some(FRAC_PI_2),
        OnlineBehavior::ApproachRegion,
    );
    assert_eq!(proposal.output, MissionOutput::Stop);
    assert_eq!(
        proposal.reason,
        "short target body envelope is unknown or blocked"
    );
}

#[test]
fn swept_geometry_future_unknown_allows_observed_approach_but_unknown_target_stops() {
    let source = at_pose(2.8, 1.3, 0.0);
    let sight = Sight::new(source, None, None);
    let mut mission = OnlineMission::new(config()).unwrap();
    mission.task.phase = MissionPhase::Cones;
    mission.task.initial_heading = Some(b(0.0));
    assert_eq!(
        arc_state(&sight, pt(4.0, 2.0), 0.6, -FRAC_PI_2, FRAC_PI_2),
        SpaceState::Unknown
    );
    let tracks = vec![cone_track(0.2, 0.06)];
    let report = mission.update(
        Timestamp(100),
        &estimate(source),
        &RoadObservation {
            captured_at: Timestamp(100),
            frame_id: FrameId("sim_body".into()),
            crosswalk: None,
            light: LightState::Unknown,
            light_confidence: b(1.0),
            cones_body_m: vec![],
        },
        &Surroundings {
            host: &host,
            space: &|space: Space| sight.answer(space),
            flaw: &flaw,
            stance: &stand,
            tracks: &tracks,
            world_frame: &FrameId("sim_world".into()),
            body_frame: &FrameId("sim_body".into()),
        },
        |_: TrackId| panic!("the turn has not begun"),
    );
    let MissionOutput::Target { point, .. } = report.mission.output else {
        panic!("a known-free tangent approach should remain available: {report:?}");
    };
    assert!(f(point.x_m) > 2.8 && f(point.x_m) < 4.0);
    assert_eq!(f(report.cone_progress_rad), 0.0);
    assert_eq!(report.processed_cones, 0);
    assert!(!mission.task.orbit.unwrap().entered);
    let unknown = Sight::new(source, None, Some(0.0));
    let proposal = local_target(
        &unknown,
        source,
        pt(3.2, 1.3),
        Some(0.0),
        OnlineBehavior::ConeEntry,
    );
    assert_eq!(proposal.output, MissionOutput::Stop);
}

#[test]
fn swept_geometry_orbit_speed_uses_future_visibility_without_admitting_unknown_target() {
    let source = at_pose(4.7, 1.1, 0.0);
    for (missing_bearing, expected_state, expected_speed) in [
        (None, SpaceState::KnownFree, Some(0.3)),
        (Some(2.9), SpaceState::Unknown, Some(0.18)),
        (Some(2.1), SpaceState::Unknown, None),
    ] {
        let sight = Sight::new(source, None, missing_bearing);
        let mut track = cone_track(0.14 * 2.0f64.sqrt(), 0.06);
        let mut task = Task::new();
        task.active = Some(track.id);
        task.active_geometry = Some(track);
        task.initial_heading = Some(b(0.0));
        task.phase = MissionPhase::Cones;
        task.orbit = Some(Orbit {
            radius_m: b(0.6),
            entry_aligned: true,
            entered: true,
            progress_rad: b(0.0),
            saw_outer_side: false,
            last_position: source.point(),
        });
        assert_eq!(
            arc_state(&sight, track.position, 0.6, -FRAC_PI_2, FRAC_PI_4),
            expected_state
        );
        let (after, proposal) = cone_step(&sight, task, &estimate(source), &mut track);
        if let Some(expected_speed) = expected_speed {
            let MissionOutput::Target {
                point,
                max_speed_mps,
                ..
            } = proposal.output
            else {
                panic!("current target is observed free; future state was {expected_state:?}");
            };
            assert_eq!(f(max_speed_mps), expected_speed);
            assert!(free_body(&sight, point, f(proposal.heading.unwrap())));
        } else {
            assert_eq!(proposal.output, MissionOutput::Stop);
        }
        assert_eq!(f(after.orbit.unwrap().progress_rad), 0.0);
        assert_eq!(after.cone_index, 0);
    }
}

#[test]
fn swept_geometry_oriented_target_horizon_is_bounded_and_does_not_admit_unknown() {
    let source = at_pose(2.0, 1.0, 0.0);
    let sight = Sight::new(source, None, None);
    let horizon = f(config().search_horizon_m);
    assert_eq!(horizon, 0.8);
    for distance in [horizon, horizon * 1.5, horizon * 2.0] {
        let goal = pt(2.0 + distance, 1.0);
        let proposal = local_target(&sight, source, goal, Some(0.0), OnlineBehavior::ConeEntry);
        let MissionOutput::Target { point, .. } = proposal.output else {
            panic!("known-free oriented goal at {distance} m was rejected");
        };
        assert_eq!(point, goal);
        assert_eq!(proposal.heading, Some(b(0.0)));
        assert!(free_body(&sight, goal, 0.0));
    }
    // Beyond two horizons, even an oriented destination becomes a short
    // rolling point. Unoriented search keeps its one-horizon cap.
    for (distance, heading) in [(horizon * 2.0 + 0.001, Some(0.0)), (horizon * 2.0, None)] {
        let goal = pt(2.0 + distance, 1.0);
        let proposal = local_target(&sight, source, goal, heading, OnlineBehavior::ConeEntry);
        let MissionOutput::Target { point, .. } = proposal.output else {
            panic!("known-free rolling approach was rejected");
        };
        assert!((f(point.x_m) - 2.0).hypot(f(point.y_m) - 1.0) <= horizon);
        assert_ne!(point, goal);
        assert_eq!(proposal.heading, None);
    }
    let unknown = Sight::new(source, None, Some(0.0));
    let proposal = local_target(
        &unknown,
        source,
        pt(2.0 + horizon * 2.0, 1.0),
        Some(0.0),
        OnlineBehavior::ConeEntry,
    );
    assert_eq!(proposal.output, MissionOutput::Stop);
}
