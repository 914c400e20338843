use robot_core::autonomy::{
    Footprint, HalfPlane, LightState, Point2, Pose2, PoseEstimate, RoadObservation, Stance,
};
use robot_core::binary64::Binary64;
use robot_core::elementary::Elementary;
use robot_core::local_world::{
    ElementColor, ElementGeometry, ElementKind, ElementTrack, Space, SpaceState, TrackId,
};
use robot_core::mission::{ArrivalBehavior, MissionConfig, MissionOutput, MissionPhase};
use robot_core::online_mission::scene::Policy;
use robot_core::online_mission::tick::Surroundings;
use robot_core::online_mission::{
    observed_region_boundary, wrap, OnlineBehavior, OnlineMission, OnlineMissionConfig,
    OnlineMissionReport, Proposal, Task,
};
use robot_core::sensors::{FrameId, Timestamp};
use std::f64::consts::{FRAC_PI_2, FRAC_PI_4, PI};

fn b(x: f64) -> Binary64 {
    Binary64 { bits: x.to_bits() }
}

fn f(x: Binary64) -> f64 {
    f64::from_bits(x.bits)
}

fn host(question: Elementary) -> Binary64 {
    b(match question {
        Elementary::Sine(x) => f(x).sin(),
        Elementary::Cosine(x) => f(x).cos(),
        Elementary::ArcSine(x) => f(x).asin(),
        Elementary::SquareRoot(x) => f(x).sqrt(),
        Elementary::Bearing { y, x } => f(y).atan2(f(x)),
        Elementary::Length { x, y } => f(x).hypot(f(y)),
        Elementary::Turn { to, from } => {
            let turn = f(to) - f(from);
            turn.sin().atan2(turn.cos())
        }
    })
}

fn pt(x_m: f64, y_m: f64) -> Point2 {
    Point2 {
        x_m: b(x_m),
        y_m: b(y_m),
    }
}

fn at_pose(x_m: f64, y_m: f64, yaw_rad: f64) -> Pose2 {
    Pose2 {
        x_m: b(x_m),
        y_m: b(y_m),
        yaw_rad: b(yaw_rad),
    }
}

fn distance(p: Point2, q: Point2) -> f64 {
    (f(p.x_m) - f(q.x_m)).hypot(f(p.y_m) - f(q.y_m))
}

fn polar(origin: Point2, length: f64, angle: f64) -> Point2 {
    pt(
        f(origin.x_m) + length * angle.cos(),
        f(origin.y_m) + length * angle.sin(),
    )
}

fn turn(angle: f64) -> f64 {
    f(wrap(b(angle)))
}

/// The half-plane's view of a body: it holds the body where no corner lies
/// beyond the largest projection, or none is beside the region.
fn stand(edge: HalfPlane, body: Footprint, pose: Pose2) -> Stance {
    let (sin, cos) = f(edge.heading_rad).sin_cos();
    let along = |p: Point2| {
        (f(p.x_m) - f(edge.origin.x_m)) * cos + (f(p.y_m) - f(edge.origin.y_m)) * sin
    };
    let across = |p: Point2| {
        (f(p.y_m) - f(edge.origin.y_m)) * cos - (f(p.x_m) - f(edge.origin.x_m)) * sin
    };
    let outline = body.corners(pose, &host);
    let corners = [
        outline.front_left,
        outline.front_right,
        outline.rear_right,
        outline.rear_left,
    ];
    let front = corners.iter().map(|p| along(*p)).fold(f64::NEG_INFINITY, f64::max);
    let rear = corners.iter().map(|p| along(*p)).fold(f64::INFINITY, f64::min);
    let left = corners.iter().map(|p| across(*p)).fold(f64::NEG_INFINITY, f64::max);
    let right = corners.iter().map(|p| across(*p)).fold(f64::INFINITY, f64::min);
    let r = edge.region;
    let region = [
        (r.min_x_m, r.min_y_m),
        (r.min_x_m, r.max_y_m),
        (r.max_x_m, r.min_y_m),
        (r.max_x_m, r.max_y_m),
    ];
    let sides = region.map(|(x_m, y_m)| across(Point2 { x_m, y_m }));
    let high = sides.iter().copied().fold(f64::NEG_INFINITY, f64::max);
    let low = sides.iter().copied().fold(f64::INFINITY, f64::min);
    Stance {
        inside: front <= f(edge.max_projection_m) || left < low || right > high,
        rear_m: b(rear),
    }
}

fn flaw(edge: HalfPlane) -> Option<String> {
    if edge.origin.valid() && edge.max_projection_m.is_finite() {
        None
    } else {
        Some("half-plane must be finite".into())
    }
}

/// What a test observes of an element, in world coordinates.
#[derive(Clone, Copy)]
struct Seen {
    kind: ElementKind,
    color: ElementColor,
    position: Point2,
    heading: Option<f64>,
    geometry: ElementGeometry,
    position_error: f64,
    heading_error: f64,
}

/// Elements confirmed by a second observation and kept for a while, in a plane
/// that is either all known free or all unknown.
struct World {
    tracks: Vec<ElementTrack>,
    free: bool,
}

impl World {
    fn new() -> Self {
        World {
            tracks: Vec::new(),
            free: false,
        }
    }

    fn observe(&mut self, estimate: &PoseEstimate, observations: &[Seen], free: bool) {
        self.free = free;
        let at = estimate.captured_at;
        for seen in observations {
            let known = self.tracks.iter_mut().find(|track| {
                track.kind == seen.kind && distance(track.position, seen.position) < 0.3
            });
            match known {
                Some(track) => {
                    track.position = seen.position;
                    track.observations += 1;
                    track.valid = track.observations >= 2;
                    track.last_geometry_at = at;
                    track.last_visual_at = at;
                }
                None => {
                    let id = TrackId(self.tracks.len() as u64 + 1);
                    self.tracks.push(ElementTrack {
                        id,
                        kind: seen.kind,
                        color: seen.color,
                        position: seen.position,
                        heading_rad: seen.heading.map(b),
                        geometry: seen.geometry,
                        confidence: b(0.99),
                        position_error_m: b(seen.position_error),
                        heading_error_rad: b(seen.heading_error),
                        observations: 1,
                        last_geometry_at: at,
                        last_visual_at: at,
                        valid: false,
                        processed: false,
                    });
                }
            }
        }
    }

    fn tracks(&self, at: u64) -> Vec<ElementTrack> {
        self.tracks
            .iter()
            .filter(|track| track.valid && at - track.last_geometry_at.0 < 1800)
            .copied()
            .collect()
    }

    fn track(&self, at: u64, id: TrackId) -> ElementTrack {
        *self.tracks(at).iter().find(|track| track.id == id).unwrap()
    }

    fn retire(&mut self, id: TrackId) {
        for track in &mut self.tracks {
            if track.id == id {
                assert!(!track.processed);
                track.processed = true;
            }
        }
    }
}

fn update(
    mission: &mut OnlineMission,
    now: u64,
    estimate: &PoseEstimate,
    road: &RoadObservation,
    world: &mut World,
) -> OnlineMissionReport {
    let tracks = world.tracks(now);
    let free = world.free;
    let report = mission.update(
        Timestamp(now),
        estimate,
        road,
        &Surroundings {
            host: &host,
            space: &|_: Space| {
                if free {
                    SpaceState::KnownFree
                } else {
                    SpaceState::Unknown
                }
            },
            flaw: &flaw,
            stance: &stand,
            tracks: &tracks,
            world_frame: &FrameId("sim_world".into()),
            body_frame: &FrameId("sim_body".into()),
        },
        |id: TrackId| {
            world.retire(id);
            None
        },
    );
    report
}

fn finish_step(
    mission: &mut OnlineMission,
    now: u64,
    estimate: &PoseEstimate,
    road: &RoadObservation,
    world: &World,
) -> Result<Proposal, String> {
    let tracks = world.tracks(now);
    let policy = Policy {
        limits: &mission.config,
        host: &host,
        space: &|_: Space| SpaceState::KnownFree,
        flaw: &flaw,
        stance: &stand,
        tracks: &tracks,
    };
    let (task, result) = policy.finish_step(
        mission.task,
        Timestamp(now),
        estimate,
        road,
        |_: TrackId| panic!("the finish is not reached"),
    );
    mission.task = task;
    result
}

fn select(
    mission: &OnlineMission,
    now: u64,
    pose: Pose2,
    kind: ElementKind,
    world: &World,
) -> (Option<ElementTrack>, Task) {
    let tracks = world.tracks(now);
    let policy = Policy {
        limits: &mission.config,
        host: &host,
        space: &|_: Space| SpaceState::KnownFree,
        flaw: &flaw,
        stance: &stand,
        tracks: &tracks,
    };
    let selected = policy.select_track(mission.task, pose, kind);
    let (task, acquired) = policy.acquire(mission.task, pose, kind);
    assert_eq!(selected, acquired);
    (selected, task)
}

fn near(mission: &OnlineMission, pose: Pose2, point: Point2, heading: f64) -> bool {
    distance(pose.point(), point) <= f(mission.config.goal_tolerance_m)
        && turn(f(pose.yaw_rad) - heading).abs() <= f(mission.config.goal_heading_tolerance_rad)
}

fn inside_region(mission: &OnlineMission, pose: Pose2, track: ElementTrack) -> bool {
    let tracks = Vec::new();
    let policy = Policy {
        limits: &mission.config,
        host: &host,
        space: &|_: Space| SpaceState::KnownFree,
        flaw: &flaw,
        stance: &stand,
        tracks: &tracks,
    };
    policy.inside_region(pose, track)
}

fn rule_limits() -> MissionConfig {
    MissionConfig {
        world_frame: FrameId("sim_world".into()),
        body_frame: FrameId("sim_body".into()),
        footprint: Footprint {
            front_m: b(0.22),
            rear_m: b(0.18),
            half_width_m: b(0.13),
        },
        cruise_speed_mps: b(0.3),
        approach_speed_mps: b(0.18),
        goal_tolerance_m: b(0.05),
        goal_heading_tolerance_rad: b(0.2),
        crosswalk_stop_margin_m: b(0.15),
        stopped_speed_mps: b(0.02),
        crosswalk_hold_ms: 3000,
        min_green_ms: 300,
        min_green_frames: 3,
        max_pose_age_ms: 300,
        max_road_age_ms: 300,
        max_pose_gap_ms: 300,
        max_road_gap_ms: 300,
        max_observation_skew_ms: 100,
        min_pose_quality: b(0.5),
        min_detection_confidence: b(0.6),
    }
}

fn setup() -> (OnlineMission, World) {
    let mut mission = OnlineMission::new(OnlineMissionConfig::from_limits(&rule_limits())).unwrap();
    mission.start().unwrap();
    (mission, World::new())
}

fn pose(at: u64, pose: Pose2) -> PoseEstimate {
    PoseEstimate {
        captured_at: Timestamp(at),
        frame_id: FrameId("sim_world".into()),
        pose,
        speed_mps: b(0.0),
        yaw_rate_radps: b(0.0),
        quality: b(1.0),
    }
}

fn road(at: u64, light: LightState) -> RoadObservation {
    RoadObservation {
        captured_at: Timestamp(at),
        frame_id: FrameId("sim_body".into()),
        crosswalk: None,
        light,
        light_confidence: b(1.0),
        cones_body_m: vec![],
    }
}

fn origin() -> Pose2 {
    at_pose(0.0, 0.0, 0.0)
}

fn region(kind: ElementKind, x: f64, y: f64, depth: f64) -> Seen {
    Seen {
        kind,
        color: ElementColor::White,
        position: pt(x, y),
        heading: Some(0.0),
        geometry: ElementGeometry::LineRegion {
            lateral_half_width_m: b(0.6),
            depth_m: b(depth),
        },
        position_error: 0.001,
        heading_error: 0.0,
    }
}

fn cone(x: f64, y: f64, color: ElementColor) -> Seen {
    Seen {
        kind: ElementKind::Cone,
        color,
        position: pt(x, y),
        heading: None,
        geometry: ElementGeometry::Cone { radius_m: b(0.2) },
        position_error: 0.001,
        heading_error: 0.0,
    }
}

#[test]
fn limits_copy_does_not_read_legacy_geometry_and_does_not_weaken_rule_limits() {
    let source = rule_limits();
    let mut config = OnlineMissionConfig::from_limits(&source);
    assert_eq!(config.crosswalk_hold_ms, source.crosswalk_hold_ms);
    assert_eq!(config.min_green_ms, source.min_green_ms);
    assert!(config.validate().is_ok());
    config.crosswalk_hold_ms = 2999;
    assert!(config.validate().is_err());
    config.crosswalk_hold_ms = 3000;
    config.min_green_ms = 299;
    assert!(config.validate().is_err());
}

#[test]
fn unknown_search_space_stops_and_preserves_the_ordinary_ten_second_limit() {
    let (mut mission, mut world) = setup();
    for at in (0..=10_100).step_by(100) {
        let estimate = pose(at, origin());
        world.observe(&estimate, &[], false);
        let report = update(
            &mut mission,
            at,
            &estimate,
            &road(at, LightState::Unknown),
            &mut world,
        );
        assert_eq!(report.mission.output, MissionOutput::Stop);
        assert_eq!(report.active_track_id, None);
        if at <= 10_000 {
            assert_eq!(report.mission.phase, MissionPhase::ApproachCrosswalk);
        } else {
            assert_eq!(report.mission.phase, MissionPhase::Fault);
            assert!(report.mission.reason.contains("10 seconds"));
        }
    }
}

#[test]
fn cone_search_bias_only_for_first_task_and_does_not_accumulate_vehicle_yaw() {
    for axis in [0.0, 0.6] {
        for index in [0, 1] {
            let (mut mission, mut world) = setup();
            mission.task.phase = MissionPhase::Cones;
            mission.task.cone_index = index;
            mission.task.initial_heading = Some(b(axis));
            let departure = axis + if index == 0 { 0.0 } else { PI };
            for (at, extra_yaw) in [(100, 0.0), (200, 0.2)] {
                let estimate = pose(at, at_pose(2.0, 2.0, turn(departure + extra_yaw)));
                world.observe(&estimate, &[], true);
                let report = update(
                    &mut mission,
                    at,
                    &estimate,
                    &road(at, LightState::Unknown),
                    &mut world,
                );
                let MissionOutput::Target {
                    point,
                    max_speed_mps,
                    arrival,
                } = report.mission.output
                else {
                    panic!("observed free search sector must supply a target");
                };
                let expected = polar(
                    estimate.pose.point(),
                    f(mission.config.search_horizon_m),
                    departure + if index == 0 { PI / 6.0 } else { 0.0 },
                );
                assert!(distance(point, expected) < 1e-12);
                assert_eq!(max_speed_mps, mission.config.approach_speed_mps);
                assert_eq!(arrival, ArrivalBehavior::Stop);
                assert_eq!(
                    report.goal_heading_rad,
                    (index == 1).then_some(b(turn(departure)))
                );
                assert!(matches!(report.behavior, OnlineBehavior::Search));
            }
            let estimate = pose(300, at_pose(2.0, 2.0, turn(departure)));
            world.observe(&estimate, &[], false);
            let report = update(
                &mut mission,
                300,
                &estimate,
                &road(300, LightState::Unknown),
                &mut world,
            );
            assert_eq!(report.mission.output, MissionOutput::Stop);
        }
    }
}

#[test]
fn crosswalk_target_uses_the_same_finite_region_uncertainty_as_its_boundary() {
    for heading in [0.0, 0.7] {
        let (mut mission, mut world) = setup();
        let marker_frame = at_pose(2.0, 1.0, heading);
        let approach = marker_frame.body_to_world(pt(-1.0, 0.0), &host);
        let source = Pose2 {
            x_m: approach.x_m,
            y_m: approach.y_m,
            yaw_rad: b(heading),
        };
        let mut marker = region(ElementKind::Crosswalk, 2.0, 1.0, 0.3);
        marker.heading = Some(heading);
        marker.heading_error = 0.2;
        marker.geometry = ElementGeometry::LineRegion {
            lateral_half_width_m: b(1.0),
            depth_m: b(0.3),
        };
        for at in [100, 200] {
            world.observe(&pose(at, source), &[marker], true);
        }
        let track = world.tracks(200)[0];
        assert!(track.observations >= 2 && track.valid);
        let boundary = observed_region_boundary(track, false, &host, &flaw).unwrap();
        // A position-only target would put the front corners past the edge.
        let unpadded = marker_frame.body_to_world(
            pt(-0.22 - 0.15 - f(track.position_error_m), 0.0),
            &host,
        );
        assert!(
            !stand(
                boundary,
                mission.config.footprint,
                Pose2 {
                    x_m: unpadded.x_m,
                    y_m: unpadded.y_m,
                    yaw_rad: b(heading)
                }
            )
            .inside
        );
        let report = update(
            &mut mission,
            200,
            &pose(200, source),
            &road(200, LightState::Unknown),
            &mut world,
        );
        let MissionOutput::Target { point, .. } = report.mission.output else {
            panic!("observed, free crosswalk approach should have a target");
        };
        let local_goal = marker_frame.world_to_body(point, &host);
        let error = 0.001 + 0.3_f64.hypot(1.0) * 0.2;
        let expected = -0.22 - 0.15 - error;
        assert!((f(local_goal.x_m) - expected).abs() < 1e-12);
        assert!(f(local_goal.y_m).abs() < 1e-12);
        assert!(turn(f(report.goal_heading_rad.unwrap()) - heading).abs() < 1e-12);
        let stopped_pose = Pose2 {
            x_m: point.x_m,
            y_m: point.y_m,
            yaw_rad: b(heading),
        };
        assert!(stand(boundary, mission.config.footprint, stopped_pose).inside);
        world.observe(&pose(300, stopped_pose), &[marker], true);
        let stopped = update(
            &mut mission,
            300,
            &pose(300, stopped_pose),
            &road(300, LightState::Unknown),
            &mut world,
        );
        assert_eq!(stopped.mission.phase, MissionPhase::CrosswalkStop);
        assert_eq!(stopped.mission.output, MissionOutput::Stop);
        assert_eq!(stopped.mission.crosswalk_stop_elapsed_ms, 0);
    }
}

#[test]
fn crosswalk_requires_confirmed_geometry_and_three_seconds_of_fresh_stationary_poses() {
    let (mut mission, mut world) = setup();
    let position = at_pose(2.0 - 0.22 - 0.15 - 0.001, 0.0, 0.0);
    let marker = region(ElementKind::Crosswalk, 2.0, 0.0, 0.3);
    for at in (100..=3200).step_by(100) {
        let estimate = pose(at, position);
        world.observe(&estimate, &[marker], true);
        let report = update(
            &mut mission,
            at,
            &estimate,
            &road(at, LightState::Unknown),
            &mut world,
        );
        if at == 100 {
            assert_eq!(report.active_track_id, None);
        }
        if (200..3200).contains(&at) {
            assert_eq!(report.mission.phase, MissionPhase::CrosswalkStop);
        }
        if at == 200 {
            let repeated = update(
                &mut mission,
                250,
                &estimate,
                &road(at, LightState::Unknown),
                &mut world,
            );
            assert_eq!(repeated.mission.crosswalk_stop_elapsed_ms, 0);
        }
        if at == 3200 {
            assert_eq!(report.mission.phase, MissionPhase::Cones);
            assert_eq!(report.mission.crosswalk_stop_elapsed_ms, 3000);
        }
    }
    assert!(world
        .tracks(3200)
        .iter()
        .any(|track| track.kind == ElementKind::Crosswalk && track.processed));
}

#[test]
fn lamp_color_alone_cannot_create_a_stop_region_or_skip_the_task() {
    for light in [
        LightState::Red,
        LightState::Yellow,
        LightState::Green,
        LightState::Conflicting,
    ] {
        let (mut mission, mut world) = setup();
        mission.task.phase = MissionPhase::ApproachLight;
        for at in (100..=10_200).step_by(100) {
            let estimate = pose(at, origin());
            world.observe(&estimate, &[], true);
            // One trustworthy signal sighting is sufficient to require
            // geometry; later Unknown frames cannot release the stop.
            let seen_light = if at == 100 {
                light
            } else {
                LightState::Unknown
            };
            let report = update(
                &mut mission,
                at,
                &estimate,
                &road(at, seen_light),
                &mut world,
            );
            assert_eq!(
                report.mission.phase,
                if at <= 10_100 {
                    MissionPhase::ApproachLight
                } else {
                    MissionPhase::Fault
                }
            );
            assert_eq!(report.mission.output, MissionOutput::Stop);
            assert_eq!(report.goal_heading_rad, None);
            assert_eq!(report.mission.green_elapsed_ms, 0);
            assert_eq!(report.active_track_id, None);
            if at == 10_200 {
                assert!(report.mission.reason.contains("10 seconds"));
            }
        }
    }
}

#[test]
fn reported_boundary_carries_position_and_heading_uncertainty_into_navigation() {
    let (_, mut world) = setup();
    let mut observed = region(ElementKind::StopLine, 0.0, 0.0, 1.0);
    observed.position_error = 0.05;
    observed.heading_error = 0.1;
    for at in [100, 200] {
        world.observe(&pose(at, origin()), &[observed], true);
    }
    let track = world.tracks(200)[0];
    let boundary = observed_region_boundary(track, true, &host, &flaw).unwrap();
    let margin = 0.05 + 1.0_f64.hypot(0.6) * 0.1;
    assert!((f(boundary.max_projection_m) - (1.0 - margin)).abs() < 1e-12);
    let footprint = rule_limits().footprint;
    // Nominal geometry alone would permit this front at x=.96; the
    // uncertainty-propagated boundary must reject it before it is adopted.
    assert!(!stand(boundary, footprint, at_pose(0.74, 0.0, 0.0)).inside);
    // Also reject the uncertain lateral edge, outside the nominal .6 band.
    assert!(!stand(boundary, footprint, at_pose(1.0, 0.75, 0.0)).inside);
}

#[test]
fn expired_light_geometry_cannot_certify_clearance_even_with_green_and_forward_pose() {
    let (mut mission, mut world) = setup();
    let observed = region(ElementKind::StopLine, 0.0, 0.0, 1.0);
    for at in [100, 200] {
        world.observe(&pose(at, origin()), &[observed], true);
    }
    mission.task.light = world.tracks(200).first().copied();
    mission.task.phase = MissionPhase::Finish;
    // A policy-level expired-observation test: the forward pose must not
    // be interpreted as proof of clearing an indefinitely cached line.
    let estimate = pose(2200, at_pose(2.0, 0.0, 0.0));
    let proposal = finish_step(
        &mut mission,
        2200,
        &estimate,
        &road(2200, LightState::Green),
        &world,
    )
    .unwrap();
    assert_eq!(proposal.output, MissionOutput::Stop);
    assert!(!mission.task.light_cleared);
    assert!(finish_step(
        &mut mission,
        4200,
        &pose(4200, estimate.pose),
        &road(4200, LightState::Green),
        &world
    )
    .is_err());
}

#[test]
fn observed_regions_require_whole_body_stop_and_fresh_green_before_finish() {
    let (mut mission, mut world) = setup();
    mission.task.phase = MissionPhase::ApproachLight;
    let marker = region(ElementKind::StopLine, 0.0, 0.0, 1.0);
    for at in (100..=500).step_by(100) {
        let estimate = pose(at, at_pose(0.48, 0.0, 0.0));
        world.observe(&estimate, &[marker], true);
        let report = update(
            &mut mission,
            at,
            &estimate,
            &road(at, LightState::Green),
            &mut world,
        );
        if (200..500).contains(&at) {
            assert_eq!(report.mission.phase, MissionPhase::WaitGreen);
            assert_eq!(report.mission.output, MissionOutput::Stop);
            assert!(report.travel_boundary.is_some());
        }
        if at == 200 {
            let repeated = update(
                &mut mission,
                250,
                &estimate,
                &road(at, LightState::Green),
                &mut world,
            );
            assert_eq!(repeated.mission.green_elapsed_ms, 0);
        }
        if at == 500 {
            assert_eq!(report.mission.phase, MissionPhase::Finish);
            assert_eq!(report.mission.green_elapsed_ms, 300);
            assert!(report.travel_boundary.is_none());
        }
    }
    let finish = region(ElementKind::FinishMarker, 1.0, 0.0, 0.8);
    for at in [600, 700] {
        let estimate = pose(at, at_pose(1.38, 0.0, 0.0));
        world.observe(&estimate, &[marker, finish], true);
        let report = update(
            &mut mission,
            at,
            &estimate,
            &road(at, LightState::Green),
            &mut world,
        );
        if at == 700 {
            assert_eq!(report.mission.phase, MissionPhase::Completed);
            assert_eq!(report.mission.output, MissionOutput::Stop);
        }
    }
}

#[test]
fn finish_completion_requires_clearance_even_when_observed_regions_overlap() {
    for (finish_near, expected) in [
        (0.1, MissionPhase::Fault),
        // Partial region overlap is allowed when the actual whole vehicle
        // has passed the uncertainty-conservative light boundary.
        (0.9, MissionPhase::Completed),
        (1.0, MissionPhase::Completed),
    ] {
        let (mut mission, mut world) = setup();
        mission.task.phase = MissionPhase::ApproachLight;
        let stop = region(ElementKind::StopLine, 0.0, 0.0, 1.0);
        for at in (100..=500).step_by(100) {
            let estimate = pose(at, at_pose(0.48, 0.0, 0.0));
            world.observe(&estimate, &[stop], true);
            let report = update(
                &mut mission,
                at,
                &estimate,
                &road(at, LightState::Green),
                &mut world,
            );
            if at == 500 {
                assert_eq!(report.mission.phase, MissionPhase::Finish);
                assert_eq!(report.mission.green_elapsed_ms, 300);
                assert!(!mission.task.light_cleared);
            }
        }
        let finish = region(ElementKind::FinishMarker, finish_near, 0.0, 0.8);
        for at in [600, 700] {
            let estimate = pose(at, at_pose(finish_near + 0.38, 0.0, 0.0));
            world.observe(&estimate, &[stop, finish], true);
            let report = update(
                &mut mission,
                at,
                &estimate,
                &road(at, LightState::Green),
                &mut world,
            );
            if at == 700 {
                assert_eq!(report.mission.phase, expected, "finish_near={finish_near}");
                assert_eq!(report.mission.output, MissionOutput::Stop);
                let track = *world
                    .tracks(at)
                    .iter()
                    .find(|track| track.kind == ElementKind::FinishMarker)
                    .unwrap();
                assert_eq!(track.processed, expected == MissionPhase::Completed);
                assert_eq!(
                    mission.task.light_cleared,
                    expected == MissionPhase::Completed
                );
                if expected == MissionPhase::Fault {
                    assert!(report
                        .mission
                        .reason
                        .contains("before whole-vehicle light clearance"));
                    assert!(inside_region(
                        &mission,
                        estimate.pose,
                        mission.task.light.unwrap()
                    ));
                }
            }
        }
    }
}

#[test]
fn processed_stop_region_stays_fresh_through_gradual_green_exit_and_finish() {
    let (mut mission, mut world) = setup();
    mission.task.phase = MissionPhase::ApproachLight;
    let mut stop = region(ElementKind::StopLine, 0.0, 0.0, 1.0);
    stop.geometry = ElementGeometry::LineRegion {
        lateral_half_width_m: b(0.4),
        depth_m: b(1.0),
    };
    stop.position_error = 0.08;
    stop.heading_error = 0.07;
    let mut finish = region(ElementKind::FinishMarker, 1.0, 0.0, 0.8);
    finish.geometry = ElementGeometry::LineRegion {
        lateral_half_width_m: b(0.45),
        depth_m: b(0.8),
    };
    finish.position_error = 0.08;
    finish.heading_error = 0.07;
    let mut stop_id = None;
    let observations = [stop, finish];
    for at in (100u64..=6_700).step_by(100) {
        let x = 0.48 + (at.saturating_sub(600) as f64 * 0.00015).min(0.9);
        let mut estimate = pose(at, at_pose(x, 0.0, 0.0));
        if (700..6_700).contains(&at) {
            estimate.speed_mps = b(0.15);
        }
        world.observe(
            &estimate,
            if at <= 600 {
                std::slice::from_ref(&stop)
            } else {
                &observations
            },
            true,
        );
        let light = if at <= 200 {
            LightState::Red
        } else {
            LightState::Green
        };
        let report = update(&mut mission, at, &estimate, &road(at, light), &mut world);
        if at == 200 {
            stop_id = report.active_track_id;
        }
        if (200..600).contains(&at) {
            assert_eq!(report.mission.phase, MissionPhase::WaitGreen);
            assert_eq!(report.mission.output, MissionOutput::Stop);
            assert!(report.mission.green_elapsed_ms < 300);
        }
        if at >= 600 {
            let kept = world.track(at, stop_id.unwrap());
            assert!(kept.processed);
            assert_eq!(kept.last_geometry_at, Timestamp(at));
            assert_eq!(kept.last_visual_at, Timestamp(at));
            assert_eq!(kept.observations as u64, at / 100);
            assert_eq!(report.mission.green_elapsed_ms, 300);
            assert_eq!(
                report.mission.phase,
                if at == 6_700 {
                    MissionPhase::Completed
                } else {
                    MissionPhase::Finish
                }
            );
            if at < 6_700 {
                assert!(matches!(
                    report.mission.output,
                    MissionOutput::Target { .. }
                ));
            }
        }
        if at == 6_700 {
            assert!(mission.task.light_cleared);
            assert_eq!(report.mission.output, MissionOutput::Stop);
            assert_eq!(f(estimate.speed_mps), 0.0);
            assert!(inside_region(
                &mission,
                estimate.pose,
                mission.task.active_geometry.unwrap()
            ));
        }
    }
}

#[test]
fn permission_does_not_outlive_green_or_fresh_stop_region_geometry_before_clearance() {
    for failure in [LightState::Unknown, LightState::Red, LightState::Green] {
        let (mut mission, mut world) = setup();
        mission.task.phase = MissionPhase::ApproachLight;
        let marker = region(ElementKind::StopLine, 0.0, 0.0, 1.0);
        for at in (100..=4_300).step_by(100) {
            let estimate = pose(at, at_pose(0.48, 0.0, 0.0));
            world.observe(
                &estimate,
                if at <= 500 || failure != LightState::Green {
                    std::slice::from_ref(&marker)
                } else {
                    &[]
                },
                true,
            );
            let report = update(
                &mut mission,
                at,
                &estimate,
                &road(
                    at,
                    if at <= 500 {
                        LightState::Green
                    } else {
                        failure
                    },
                ),
                &mut world,
            );
            if at == 500 {
                assert_eq!(report.mission.phase, MissionPhase::Finish);
                assert_eq!(report.mission.green_elapsed_ms, 300);
            }
            if at >= 600 && failure != LightState::Green {
                assert_eq!(report.mission.phase, MissionPhase::Fault);
                assert_eq!(report.mission.output, MissionOutput::Stop);
                assert!(report.mission.reason.contains("green lost"));
                break;
            }
            if failure == LightState::Green && at >= 2_300 {
                assert_eq!(report.mission.output, MissionOutput::Stop);
                assert!(!mission.task.light_cleared);
                assert_eq!(
                    report.mission.phase,
                    if at < 4_300 {
                        MissionPhase::Finish
                    } else {
                        MissionPhase::Fault
                    }
                );
                if at == 4_300 {
                    assert!(report.mission.reason.contains("light region lost"));
                }
            }
        }
    }
}

#[test]
fn confirmed_finish_region_too_narrow_for_original_uncertainty_fails_closed() {
    let (mut mission, mut world) = setup();
    mission.task.phase = MissionPhase::ApproachLight;
    let stop = region(ElementKind::StopLine, 0.0, 0.0, 1.0);
    let mut finish = region(ElementKind::FinishMarker, 1.0, 0.0, 0.8);
    finish.geometry = ElementGeometry::LineRegion {
        lateral_half_width_m: b(0.25),
        depth_m: b(0.8),
    };
    finish.position_error = 0.15;
    finish.heading_error = 0.15;
    let observations = [stop, finish];
    for at in (100..=700).step_by(100) {
        let x = if at <= 500 { 0.48 } else { 1.38 };
        let estimate = pose(at, at_pose(x, 0.0, 0.0));
        world.observe(
            &estimate,
            if at <= 500 {
                std::slice::from_ref(&stop)
            } else {
                &observations
            },
            true,
        );
        let report = update(
            &mut mission,
            at,
            &estimate,
            &road(at, LightState::Green),
            &mut world,
        );
        if at == 700 {
            assert_eq!(report.mission.phase, MissionPhase::Fault);
            assert_eq!(report.mission.output, MissionOutput::Stop);
            assert!(report.mission.reason.contains("footprint and uncertainty"));
            let geometry = mission.task.active_geometry.unwrap();
            assert_eq!(f(geometry.position_error_m), 0.15);
            assert_eq!(f(geometry.heading_error_rad), 0.15);
        }
    }
}

#[test]
fn cone_identity_is_locked_until_actual_correct_side_half_turn_is_completed() {
    let (mut mission, mut world) = setup();
    mission.task.phase = MissionPhase::Cones;
    let cones = [
        cone(2.0, 1.0, ElementColor::Red),
        cone(0.5, 1.8, ElementColor::Blue),
    ];
    for at in [100, 200] {
        let estimate = pose(at, origin());
        world.observe(&estimate, &cones, true);
        let report = update(
            &mut mission,
            at,
            &estimate,
            &road(at, LightState::Unknown),
            &mut world,
        );
        if at == 200 {
            assert!(matches!(report.behavior, OnlineBehavior::ConeEntry));
            let MissionOutput::Target { point, .. } = report.mission.output else {
                panic!("tracked entrance should be approached");
            };
            // An oriented target inside two horizons preserves the actual
            // tracked tangent guide. It is not the +30-degree search ray.
            let radius = f(mission.task.orbit.unwrap().radius_m);
            let horizon = f(mission.config.search_horizon_m);
            assert!((f(point.x_m) - (2.0 - horizon)).abs() < 1e-12);
            assert!((f(point.y_m) - (1.0 - radius)).abs() < 1e-12);
            assert_eq!(f(report.goal_heading_rad.unwrap()), 0.0);
        }
    }
    let locked = mission.task.active.unwrap();
    assert_eq!(world.track(200, locked).color, ElementColor::Red);
    // Policy-level sequence of measured poses, not a simulated car trajectory.
    let radius = f(mission.task.orbit.unwrap().radius_m);
    for step in 0..=4 {
        let at = 300 + step * 100;
        let angle = -FRAC_PI_2 + step as f64 * FRAC_PI_4;
        let point = polar(pt(2.0, 1.0), radius, angle);
        let estimate = pose(
            at,
            Pose2 {
                x_m: point.x_m,
                y_m: point.y_m,
                yaw_rad: b(turn(angle + FRAC_PI_2)),
            },
        );
        world.observe(&estimate, &cones, true);
        let report = update(
            &mut mission,
            at,
            &estimate,
            &road(at, LightState::Unknown),
            &mut world,
        );
        assert_eq!(report.active_track_id, Some(locked));
        assert_eq!(report.processed_cones, 0);
    }
    // Reaching the circle's top is not yet leaving the exit centerline.
    // Continue along the measured tangent past the center uncertainty.
    let estimate = pose(
        800,
        at_pose(
            2.0 - 0.001 - 2.0 * f(mission.config.goal_tolerance_m),
            1.0 + radius,
            PI,
        ),
    );
    world.observe(&estimate, &cones, true);
    let report = update(
        &mut mission,
        800,
        &estimate,
        &road(800, LightState::Unknown),
        &mut world,
    );
    assert_eq!(report.processed_cones, 1);
    assert_eq!(report.mission.phase, MissionPhase::Cones);
    // Even a fresh tracker/new identity cannot turn the already processed
    // physical position into the next cone after the old track expired.
    let mut replacement = World::new();
    for at in [800, 900] {
        let estimate = pose(at, at_pose(4.0, 1.85, PI));
        replacement.observe(&estimate, &[cones[0]], true);
    }
    let (selected, _) = select(
        &mission,
        900,
        at_pose(4.0, 1.85, PI),
        ElementKind::Cone,
        &replacement,
    );
    assert!(selected.is_none());
}

#[test]
fn second_cone_near_exit_requires_observed_departure_beyond_center_uncertainty() {
    for (center_x, before_center_m) in [(1.8, 0.00605), (1.5, 0.005085)] {
        let (mut mission, mut world) = setup();
        mission.task.phase = MissionPhase::Cones;
        mission.task.cone_index = 1;
        mission.task.initial_heading = Some(b(0.0));
        mission.config.required_cone_colors[1] = Some(ElementColor::Blue);
        let mut observed = cone(center_x, 2.5, ElementColor::Blue);
        observed.position_error = 0.02;
        for at in [100, 200] {
            let estimate = pose(at, at_pose(center_x + 2.0, 2.5, PI));
            world.observe(&estimate, &[observed], true);
            let report = update(
                &mut mission,
                at,
                &estimate,
                &road(at, LightState::Unknown),
                &mut world,
            );
            assert_eq!(report.processed_cones, 1);
        }
        let locked = mission.task.active.unwrap();
        let radius = f(mission.task.orbit.unwrap().radius_m);
        for step in 0..=3 {
            let at = 300 + step * 100;
            let angle = -FRAC_PI_2 - step as f64 * FRAC_PI_4;
            let point = polar(observed.position, radius, angle);
            let estimate = pose(
                at,
                Pose2 {
                    x_m: point.x_m,
                    y_m: point.y_m,
                    yaw_rad: b(turn(angle - FRAC_PI_2)),
                },
            );
            world.observe(&estimate, &[observed], true);
            let report = update(
                &mut mission,
                at,
                &estimate,
                &road(at, LightState::Unknown),
                &mut world,
            );
            assert_eq!(report.active_track_id, Some(locked));
            assert_eq!(report.processed_cones, 1);
        }
        assert!(mission.task.orbit.unwrap().saw_outer_side);
        let top_exit = pt(center_x, 2.5 + radius);
        for (at, signed_departure_m) in [
            (700, -before_center_m),
            (800, 0.0),
            (900, observed.position_error * 0.5),
        ] {
            let estimate = pose(
                at,
                at_pose(center_x + signed_departure_m, 2.5 + radius, 0.0),
            );
            // A gate on position and heading alone would accept all three:
            // before the center, exactly on it, or within its error band.
            assert!(near(&mission, estimate.pose, top_exit, 0.0));
            world.observe(&estimate, &[observed], true);
            let report = update(
                &mut mission,
                at,
                &estimate,
                &road(at, LightState::Unknown),
                &mut world,
            );
            assert_eq!(report.mission.phase, MissionPhase::Cones);
            assert_eq!(report.processed_cones, 1);
            assert_eq!(report.active_track_id, Some(locked));
            assert!(
                f(report.cone_progress_rad) >= PI - f(mission.config.goal_heading_tolerance_rad)
            );
            assert!(mission.task.orbit.unwrap().saw_outer_side);
            assert!(!world.track(at, locked).processed);
        }
        let at = 1000;
        let estimate = pose(
            at,
            at_pose(
                center_x + observed.position_error + 2.0 * f(mission.config.goal_tolerance_m),
                2.5 + radius,
                0.0,
            ),
        );
        world.observe(&estimate, &[observed], true);
        let report = update(
            &mut mission,
            at,
            &estimate,
            &road(at, LightState::Unknown),
            &mut world,
        );
        assert_eq!(report.processed_cones, 2);
        assert_eq!(report.mission.phase, MissionPhase::ApproachLight);
        assert!(world.track(at, locked).processed);
    }
}

#[test]
fn cone_entrance_uses_observed_tangent_guide_before_the_original_arrival_gate() {
    for axis in [0.0, 0.7] {
        for index in [0, 1] {
            let (mut mission, mut world) = setup();
            mission.task.phase = MissionPhase::Cones;
            mission.task.cone_index = index;
            mission.task.initial_heading = Some(b(axis));
            let heading = turn(axis + if index == 0 { 0.0 } else { PI });
            let center = pt(2.0, 2.5);
            let observed = cone(2.0, 2.5, ElementColor::Red);
            let horizon = f(mission.config.search_horizon_m);
            let entry = polar(
                center,
                f(mission.config.preferred_cone_radius_m),
                axis - FRAC_PI_2,
            );
            let tangent = Pose2 {
                x_m: entry.x_m,
                y_m: entry.y_m,
                yaw_rad: b(heading),
            };
            let start = tangent.body_to_world(pt(-1.4, -0.4), &host);
            let guide = polar(entry, horizon, heading + PI);
            for at in [100, 200, 300, 350, 400, 500, 600] {
                let (point, yaw) = match at {
                    100 | 200 => (start, turn(heading + 0.3)),
                    // Position alone at the guide must not release the
                    // tangent gate, just as at the real entrance.
                    300 => (guide, turn(heading + 0.3)),
                    350 | 400 => (guide, heading),
                    // Once acquired, a small later error must not make
                    // the vehicle return to a guide behind its body.
                    500 => (polar(entry, 0.4, heading + PI), turn(heading + 0.15)),
                    _ => (entry, heading),
                };
                let mut estimate = pose(
                    at,
                    Pose2 {
                        x_m: point.x_m,
                        y_m: point.y_m,
                        yaw_rad: b(yaw),
                    },
                );
                if at == 350 {
                    // The guide is a Stop goal, with no dwell time added:
                    // correct pose while moving still cannot release it.
                    estimate.speed_mps = mission.config.approach_speed_mps;
                }
                world.observe(&estimate, &[observed], true);
                let report = update(
                    &mut mission,
                    at,
                    &estimate,
                    &road(at, LightState::Unknown),
                    &mut world,
                );
                if at == 100 {
                    continue;
                }
                let MissionOutput::Target {
                    point: target,
                    arrival,
                    ..
                } = report.mission.output
                else {
                    panic!("fully observed entrance corridor must produce a target");
                };
                if at <= 350 {
                    assert!(distance(target, guide) < 1e-12);
                    assert_eq!(report.goal_heading_rad, Some(b(heading)));
                    assert_eq!(arrival, ArrivalBehavior::Stop);
                    assert!(!mission.task.orbit.unwrap().entry_aligned);
                } else if at < 600 {
                    assert!(distance(target, entry) < 1e-12);
                    assert_eq!(report.goal_heading_rad, Some(b(heading)));
                    assert!(mission.task.orbit.unwrap().entry_aligned);
                    assert!(!mission.task.orbit.unwrap().entered);
                } else {
                    assert!(mission.task.orbit.unwrap().entered);
                    assert!(matches!(report.behavior, OnlineBehavior::OrbitCone));
                }
                assert_eq!(report.processed_cones, index);
                assert_eq!(f(report.cone_progress_rad), 0.0);
            }
        }
    }
}

#[test]
fn tangent_guide_cannot_authorize_motion_through_unknown_space() {
    let (mut mission, mut world) = setup();
    mission.task.phase = MissionPhase::Cones;
    for at in [100, 200] {
        let estimate = pose(at, origin());
        world.observe(&estimate, &[cone(2.0, 1.0, ElementColor::Red)], false);
        let report = update(
            &mut mission,
            at,
            &estimate,
            &road(at, LightState::Unknown),
            &mut world,
        );
        assert_eq!(report.mission.output, MissionOutput::Stop);
        assert_eq!(f(report.cone_progress_rad), 0.0);
        if at == 200 {
            assert!(report.active_track_id.is_some());
            assert!(!mission.task.orbit.unwrap().entry_aligned);
        }
    }
}

#[test]
fn second_cone_can_be_right_of_reverse_departure_without_changing_passing_side() {
    let (mut mission, mut world) = setup();
    mission.task.phase = MissionPhase::Cones;
    mission.task.cone_index = 1;
    mission.task.initial_heading = Some(b(0.0));
    mission.config.required_cone_colors[1] = Some(ElementColor::Blue);
    let start = at_pose(4.0, 3.35, PI);
    let actual = cone(1.5, 3.5, ElementColor::Blue);
    let observations = [
        actual,
        cone(3.5, 3.35, ElementColor::Red), // Closer, wrong configured color.
        cone(4.5, 3.35, ElementColor::Blue), // Behind the task direction.
        region(ElementKind::FinishMarker, 3.5, 3.35, 0.8),
    ];
    for at in [100, 200] {
        let estimate = pose(at, start);
        world.observe(&estimate, &observations, true);
        update(
            &mut mission,
            at,
            &estimate,
            &road(at, LightState::Unknown),
            &mut world,
        );
    }
    let selected = mission.task.active_geometry.unwrap();
    assert!(distance(selected.position, actual.position) < 1e-12);
    assert!(f(start.world_to_body(selected.position, &host).y_m) < 0.0);
    let radius = f(mission.task.orbit.unwrap().radius_m);
    let entry = polar(selected.position, radius, -FRAC_PI_2);
    let estimate = pose(
        300,
        Pose2 {
            x_m: entry.x_m,
            y_m: entry.y_m,
            yaw_rad: b(PI),
        },
    );
    world.observe(&estimate, &observations, true);
    let report = update(
        &mut mission,
        300,
        &estimate,
        &road(300, LightState::Unknown),
        &mut world,
    );
    let MissionOutput::Target { point, .. } = report.mission.output else {
        panic!("confirmed second cone must supply the clockwise arc");
    };
    assert!(f(point.x_m) < f(selected.position.x_m));
    assert!(f(point.y_m) < f(selected.position.y_m));
    assert!(turn(f(report.goal_heading_rad.unwrap()) - 3.0 * FRAC_PI_4).abs() < 1e-12);
    assert_eq!(report.processed_cones, 1);
}

#[test]
fn refreshed_processed_regions_are_not_selected_as_new_tasks() {
    for kind in [ElementKind::StopLine, ElementKind::FinishMarker] {
        let (mut mission, mut world) = setup();
        mission.task.phase = if kind == ElementKind::StopLine {
            MissionPhase::ApproachLight
        } else {
            MissionPhase::Finish
        };
        let observed = region(kind, 1.0, 0.0, 1.0);
        for at in [100, 200] {
            world.observe(&pose(at, origin()), &[observed], true);
        }
        let id = world.tracks(200)[0].id;
        world.retire(id);
        world.observe(&pose(300, origin()), &[observed], true);
        assert!(world.track(300, id).processed);
        let (selected, task) = select(&mission, 300, origin(), kind, &world);
        assert!(selected.is_none());
        assert_eq!(task.active, None);
    }
}

#[test]
fn current_track_loss_cannot_switch_to_another_visible_element() {
    let (mut mission, mut world) = setup();
    mission.task.phase = MissionPhase::Cones;
    let selected = cone(2.0, 1.0, ElementColor::Red);
    let initial = [selected];
    let mut locked = None;
    for at in (100..=4100).step_by(100) {
        let estimate = pose(at, origin());
        world.observe(
            &estimate,
            if at <= 200 { &initial } else { &[] },
            true,
        );
        let report = update(
            &mut mission,
            at,
            &estimate,
            &road(at, LightState::Unknown),
            &mut world,
        );
        if at == 200 {
            locked = report.active_track_id;
        }
        if at >= 2000 {
            assert_eq!(report.mission.output, MissionOutput::Stop);
            assert_eq!(report.active_track_id, locked);
        }
        if at >= 4000 {
            assert_eq!(report.mission.phase, MissionPhase::Fault);
            assert!(report.mission.reason.contains("lost"));
        }
    }
}

#[test]
fn a_mission_starts_once_and_stops_until_then() {
    let mut mission = OnlineMission::new(OnlineMissionConfig::from_limits(&rule_limits())).unwrap();
    let mut world = World::new();
    let estimate = pose(100, origin());
    world.observe(&estimate, &[], true);
    let report = update(
        &mut mission,
        100,
        &estimate,
        &road(100, LightState::Unknown),
        &mut world,
    );
    assert_eq!(report.mission.phase, MissionPhase::Idle);
    assert_eq!(report.mission.output, MissionOutput::Stop);
    assert_eq!(report.mission.reason, "not started");
    assert!(mission.start().is_ok());
    assert_eq!(
        mission.start().unwrap_err().message(),
        "online mission can only start once"
    );
    assert_eq!(mission.phase(), MissionPhase::ApproachCrosswalk);
}

#[test]
fn faults_latch_with_their_first_reason() {
    let (mut mission, mut world) = setup();
    let mut estimate = pose(100, origin());
    estimate.quality = b(0.1);
    let report = update(
        &mut mission,
        100,
        &estimate,
        &road(100, LightState::Unknown),
        &mut world,
    );
    assert_eq!(report.mission.phase, MissionPhase::Fault);
    assert_eq!(
        report.mission.reason,
        "invalid, stale or mismatched online mission observation"
    );
    let estimate = pose(200, origin());
    world.observe(&estimate, &[], true);
    let report = update(
        &mut mission,
        200,
        &estimate,
        &road(200, LightState::Unknown),
        &mut world,
    );
    assert_eq!(report.mission.phase, MissionPhase::Fault);
    assert_eq!(report.mission.output, MissionOutput::Stop);
    assert_eq!(
        report.mission.reason,
        "invalid, stale or mismatched online mission observation"
    );
}

#[test]
fn broken_pose_and_road_sequences_are_faults() {
    let cases: [(PoseEstimate, RoadObservation, &str); 3] = [
        (
            pose(100, at_pose(0.5, 0.0, 0.0)),
            road(100, LightState::Unknown),
            "pose timestamp/continuity invalid in online mission",
        ),
        (
            pose(110, origin()),
            road(90, LightState::Unknown),
            "road timestamp/continuity invalid in online mission",
        ),
        (
            pose(100, origin()),
            road(100, LightState::Red),
            "road timestamp/continuity invalid in online mission",
        ),
    ];
    for (estimate, view, reason) in cases {
        let (mut mission, mut world) = setup();
        update(
            &mut mission,
            100,
            &pose(100, origin()),
            &road(100, LightState::Unknown),
            &mut world,
        );
        let report = update(&mut mission, 120, &estimate, &view, &mut world);
        assert_eq!(report.mission.phase, MissionPhase::Fault);
        assert_eq!(report.mission.reason, reason);
    }
}

#[test]
fn crossing_a_crosswalk_before_the_stop_is_a_fault() {
    let (mut mission, mut world) = setup();
    let marker = region(ElementKind::Crosswalk, 0.5, 0.0, 0.3);
    for (at, x) in [(100, 0.0), (200, 0.0), (300, 0.4)] {
        let estimate = pose(at, at_pose(x, 0.0, 0.0));
        world.observe(&estimate, &[marker], true);
        let report = update(
            &mut mission,
            at,
            &estimate,
            &road(at, LightState::Unknown),
            &mut world,
        );
        if at == 300 {
            assert_eq!(report.mission.phase, MissionPhase::Fault);
            assert_eq!(
                report.mission.reason,
                "observed task boundary crossed before permission"
            );
        }
    }
}

#[test]
fn a_cone_without_room_is_not_entered() {
    let config = OnlineMissionConfig::from_limits(&rule_limits());
    let mut world = World::new();
    for at in [100, 200] {
        world.observe(
            &pose(at, origin()),
            &[cone(2.0, 1.0, ElementColor::Red)],
            true,
        );
    }
    let tracks = world.tracks(200);
    let policy = Policy {
        limits: &config,
        host: &host,
        space: &|space: Space| match space {
            Space::Sweep { .. } => SpaceState::Obstacle,
            _ => SpaceState::KnownFree,
        },
        flaw: &flaw,
        stance: &stand,
        tracks: &tracks,
    };
    let mut task = Task::new();
    task.phase = MissionPhase::Cones;
    task.initial_heading = Some(b(0.0));
    let (after, result) = policy.cone_step(
        task,
        Timestamp(200),
        &pose(200, origin()),
        true,
        |_: TrackId| panic!("no half-turn yet"),
    );
    let proposal = result.unwrap();
    assert_eq!(
        proposal.reason,
        "approaching observed entrance tangent to resolve hidden arc"
    );
    assert!(!after.orbit.unwrap().entered);
    let guide = pose(300, at_pose(1.2, 0.15, 0.0));
    let (_, result) = policy.cone_step(after, Timestamp(300), &guide, true, |_: TrackId| {
        panic!("no half-turn yet")
    });
    assert_eq!(
        result.unwrap().reason,
        "no observed whole-body arc supports a cone entry radius"
    );
}

#[test]
fn a_track_that_cannot_be_retired_is_a_fault() {
    let (mut mission, mut world) = setup();
    let position = at_pose(2.0 - 0.22 - 0.15 - 0.001, 0.0, 0.0);
    let marker = region(ElementKind::Crosswalk, 2.0, 0.0, 0.3);
    for at in (100..=3200).step_by(100) {
        let estimate = pose(at, position);
        world.observe(&estimate, &[marker], true);
        let tracks = world.tracks(at);
        let report = mission.update(
            Timestamp(at),
            &estimate,
            &road(at, LightState::Unknown),
            &Surroundings {
                host: &host,
                space: &|_: Space| SpaceState::KnownFree,
                flaw: &flaw,
                stance: &stand,
                tracks: &tracks,
                world_frame: &FrameId("sim_world".into()),
                body_frame: &FrameId("sim_body".into()),
            },
            |_: TrackId| Some("no such track".into()),
        );
        if at == 3200 {
            assert_eq!(report.mission.phase, MissionPhase::Fault);
            assert_eq!(report.mission.reason, "no such track");
        }
    }
    // the end is repeated, and nothing is retired any more
    for at in [100, 3300] {
        let report = mission.update(
            Timestamp(at),
            &pose(at, position),
            &road(at, LightState::Unknown),
            &Surroundings {
                host: &host,
                space: &|_: Space| SpaceState::KnownFree,
                flaw: &flaw,
                stance: &stand,
                tracks: &Vec::new(),
                world_frame: &FrameId("elsewhere".into()),
                body_frame: &FrameId("sim_body".into()),
            },
            |_: TrackId| panic!("the mission is over"),
        );
        assert_eq!(report.mission.phase, MissionPhase::Fault);
        assert_eq!(report.mission.reason, "no such track");
        assert!(matches!(report.mission.output, MissionOutput::Stop));
        assert!(report.goal_heading_rad.is_none());
    }
}

#[test]
fn boundaries_need_a_region_with_a_heading() {
    let (_, mut world) = setup();
    let mut headless = region(ElementKind::StopLine, 0.0, 0.0, 1.0);
    headless.heading = None;
    let lone = cone(3.0, 0.0, ElementColor::Red);
    for at in [100, 200] {
        world.observe(&pose(at, origin()), &[headless, lone], true);
    }
    let tracks = world.tracks(200);
    assert_eq!(
        observed_region_boundary(tracks[0], true, &host, &flaw).unwrap_err(),
        "line boundary has no heading"
    );
    assert_eq!(
        observed_region_boundary(tracks[1], true, &host, &flaw).unwrap_err(),
        "boundary track is not a line region"
    );
    let mut endless = tracks[0];
    endless.heading_rad = Some(b(0.0));
    endless.position.x_m = b(f64::INFINITY);
    assert_eq!(
        observed_region_boundary(endless, true, &host, &flaw).unwrap_err(),
        "half-plane must be finite"
    );
}
