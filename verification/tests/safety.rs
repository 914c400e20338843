use robot_core::binary64::Binary64;
use robot_core::safety::controller::Controller;
use robot_core::safety::{
    Event, MotionIntent, MotionOutput, MotionSink, RecordingSink, SafetyConfig, State, StopReason,
    TimedEvent,
};
use robot_core::sensors::{
    FrameId, ImuSample, LidarSample, OdometrySample, Quaternion, SensorFrames, SensorKind,
    SensorSample, Timestamp, Vec3, VisionSample,
};

fn b(x: f64) -> Binary64 {
    Binary64 { bits: x.to_bits() }
}

fn frame(name: &str) -> FrameId {
    FrameId(name.into())
}

fn frames() -> SensorFrames {
    SensorFrames {
        imu_frame: frame("imu"),
        lidar_frame: frame("laser"),
        odometry_frame: frame("odom"),
        body_frame: frame("base"),
        vision_frame: frame("camera"),
    }
}

fn vec3(x: f64) -> Vec3 {
    Vec3 {
        x: b(x),
        y: b(0.0),
        z: b(0.0),
    }
}

fn upright() -> Quaternion {
    Quaternion {
        x: b(0.0),
        y: b(0.0),
        z: b(0.0),
        w: b(1.0),
    }
}

fn imu_sample(at: u64) -> ImuSample {
    ImuSample {
        captured_at: Timestamp(at),
        frame_id: frame("imu"),
        acceleration_mps2: vec3(0.1),
        angular_velocity_radps: vec3(0.2),
        orientation_xyzw: upright(),
    }
}

fn lidar_sample() -> LidarSample {
    LidarSample {
        captured_at: Timestamp(0),
        frame_id: frame("laser"),
        angle_min_rad: b(0.0),
        angle_increment_rad: b(0.1),
        range_min_m: b(0.1),
        range_max_m: b(5.0),
        ranges_m: vec![Some(b(1.0)), None],
    }
}

fn odometry_sample() -> OdometrySample {
    OdometrySample {
        captured_at: Timestamp(0),
        frame_id: frame("odom"),
        child_frame_id: frame("base"),
        position_m: vec3(1.0),
        orientation_xyzw: upright(),
        linear_velocity_mps: vec3(0.0),
        angular_velocity_radps: vec3(0.0),
    }
}

fn config() -> SafetyConfig {
    SafetyConfig {
        schema_version: 1,
        simulation_only: true,
        max_speed_mps: b(1.0),
        max_abs_curvature_per_m: b(2.0),
        heartbeat_timeout_ms: 100,
        deadman_timeout_ms: 100,
        command_timeout_ms: 100,
        sensor_timeout_ms: 100,
        required_sensors: vec![SensorKind::Imu],
        frames: frames(),
    }
}

fn send(controller: &mut Controller, at: u64, event: Event) -> (State, Option<StopReason>) {
    let report = controller.handle(TimedEvent {
        at: Timestamp(at),
        event,
    });
    (report.state, report.output.reason)
}

fn motion(speed: f64, curvature: f64) -> Event {
    Event::Motion {
        intent: MotionIntent {
            speed_mps: b(speed),
            curvature_per_m: b(curvature),
        },
    }
}

fn imu(at: u64) -> Event {
    Event::Sensor {
        sample: SensorSample::Imu(imu_sample(at)),
    }
}

fn running() -> Controller {
    let mut controller = Controller::new(config()).unwrap();
    send(&mut controller, 0, Event::Heartbeat);
    send(&mut controller, 0, Event::Deadman { pressed: true });
    send(&mut controller, 0, imu(0));
    send(&mut controller, 0, Event::Arm);
    send(&mut controller, 0, motion(0.5, -1.0));
    let (state, _) = send(&mut controller, 0, Event::Start);
    assert!(matches!(state, State::Running));
    controller
}

#[test]
fn running_takes_every_permission_in_order() {
    let mut controller = running();
    let report = controller.tick(Timestamp(50));
    assert!(matches!(report.output.command, MotionOutput::Drive { .. }));
    assert_eq!(report.output.state, report.state);
    assert!(report
        .output
        .command
        .equals(MotionOutput::Drive {
            speed_mps: b(0.5),
            curvature_per_m: b(-1.0)
        }));
    assert!(report.output.reason.is_none());
}

#[test]
fn a_late_packet_cannot_erase_a_timeout() {
    let mut controller = running();
    let (state, reason) = send(&mut controller, 100, Event::Deadman { pressed: true });
    assert!(matches!(state, State::Fault));
    assert!(matches!(reason, Some(StopReason::DeadmanExpired)));
    let mut controller = running();
    send(&mut controller, 60, Event::Deadman { pressed: true });
    let (state, reason) = send(&mut controller, 110, Event::Heartbeat);
    assert!(matches!(state, State::Fault));
    assert!(matches!(reason, Some(StopReason::HeartbeatExpired)));
}

#[test]
fn emergency_stop_wins_and_reset_takes_a_released_deadman() {
    let mut controller = running();
    let (state, reason) = send(&mut controller, 10, Event::EmergencyStop);
    assert!(matches!(state, State::Fault));
    assert!(matches!(reason, Some(StopReason::EmergencyStop)));
    let (state, _) = send(&mut controller, 20, Event::ResetFault);
    assert!(matches!(state, State::Fault));
    send(&mut controller, 30, Event::Deadman { pressed: false });
    let (state, reason) = send(&mut controller, 40, Event::ResetFault);
    assert!(matches!(state, State::Disarmed));
    assert!(matches!(reason, Some(StopReason::Disarmed)));
    let (state, reason) = send(&mut controller, 50, Event::Arm);
    assert!(matches!(state, State::Fault));
    assert!(matches!(reason, Some(StopReason::DeadmanReleased)));
}

#[test]
fn each_cause_of_a_fault_has_its_reason() {
    let cases: [(u64, Event, StopReason); 6] = [
        (10, Event::Deadman { pressed: false }, StopReason::DeadmanReleased),
        (10, motion(1.5, 0.0), StopReason::LimitsExceeded),
        (10, Event::Arm, StopReason::InvalidTransition),
        (10, Event::ResetFault, StopReason::InvalidTransition),
        (
            10,
            motion(f64::NAN, 0.0),
            StopReason::InvalidInput {
                message: "motion intent must be finite".into(),
            },
        ),
        (
            10,
            imu(11),
            StopReason::InvalidInput {
                message: "sensor timestamp is future or regresses".into(),
            },
        ),
    ];
    for (at, event, expected) in cases {
        let mut controller = running();
        let (state, reason) = send(&mut controller, at, event);
        assert!(matches!(state, State::Fault));
        assert_eq!(format!("{:?}", reason.unwrap()), format!("{expected:?}"));
    }
    let mut controller = running();
    send(&mut controller, 10, Event::Heartbeat);
    let report = controller.handle(TimedEvent {
        at: Timestamp(9),
        event: Event::Tick,
    });
    assert!(matches!(report.output.reason, Some(StopReason::TimeRegression)));
    assert_eq!(report.output.at, Timestamp(10));
}

#[test]
fn arming_waits_for_the_required_sensors() {
    let mut controller = Controller::new(config()).unwrap();
    send(&mut controller, 0, Event::Heartbeat);
    send(&mut controller, 0, Event::Deadman { pressed: true });
    let (_, reason) = send(&mut controller, 0, Event::Arm);
    assert!(matches!(
        reason,
        Some(StopReason::SensorMissing {
            sensor: SensorKind::Imu
        })
    ));
}

#[test]
fn starting_takes_a_command_and_disarming_drops_it() {
    let mut controller = Controller::new(config()).unwrap();
    send(&mut controller, 0, Event::Heartbeat);
    send(&mut controller, 0, Event::Deadman { pressed: true });
    send(&mut controller, 0, imu(0));
    let (state, reason) = send(&mut controller, 0, Event::Arm);
    assert!(matches!(state, State::Armed));
    assert!(matches!(reason, Some(StopReason::ArmedAwaitingStart)));
    let (state, reason) = send(&mut controller, 0, Event::Start);
    assert!(matches!(state, State::Fault));
    assert!(matches!(reason, Some(StopReason::CommandMissing)));
    let mut controller = running();
    let (state, _) = send(&mut controller, 10, Event::Disarm);
    assert!(matches!(state, State::Disarmed));
    assert!(matches!(controller.state(), State::Disarmed));
}

#[test]
fn each_bad_safety_configuration_has_its_message() {
    let mut schema = config();
    schema.simulation_only = false;
    let mut limits = config();
    limits.max_speed_mps = b(0.0);
    let mut timeouts = config();
    timeouts.sensor_timeout_ms = 0;
    let mut twice = config();
    twice.required_sensors = vec![SensorKind::Imu, SensorKind::Lidar, SensorKind::Imu];
    let mut nameless = config();
    nameless.frames.imu_frame = frame("");
    let mut same = config();
    same.frames.body_frame = frame("odom");
    for (config, message) in [
        (schema, "schema_version=1 and simulation_only=true are required"),
        (limits, "positive finite speed/curvature limits required"),
        (timeouts, "all timeout values must be explicitly positive"),
        (twice, "required_sensors contains duplicates"),
        (nameless, "frame_id must contain 1..128 ASCII letters/digits/_/-"),
        (same, "odometry and body frames must differ"),
    ] {
        assert_eq!(config.validate().unwrap_err().message(), message);
        assert!(Controller::new(config).is_err());
    }
}

#[test]
fn the_recording_sink_keeps_every_record() {
    let mut sink = RecordingSink::default();
    let mut controller = Controller::new(config()).unwrap();
    for at in 0..3 {
        let report = controller.tick(Timestamp(at));
        sink.emit(&report.output).unwrap();
    }
    assert_eq!(sink.records().len(), 3);
    assert_eq!(sink.into_records()[2].at, Timestamp(2));
}

#[test]
fn samples_are_checked_before_use() {
    let good = [
        SensorSample::Imu(imu_sample(0)),
        SensorSample::Lidar(lidar_sample()),
        SensorSample::Odometry(odometry_sample()),
        SensorSample::Vision(VisionSample {
            captured_at: Timestamp(0),
            frame_id: frame("camera"),
            image_width_px: 640,
            image_height_px: 480,
            detection_count: 3,
        }),
    ];
    for sample in &good {
        assert!(sample.validate(&frames()).is_ok());
    }
    let mut tilted = imu_sample(0);
    tilted.orientation_xyzw.w = b(0.9);
    let mut near = lidar_sample();
    near.ranges_m[0] = Some(b(0.05));
    let mut detached = odometry_sample();
    detached.child_frame_id = frame("laser");
    let mut strange = lidar_sample();
    strange.frame_id = frame("imu");
    let cases = [
        (
            SensorSample::Imu(tilted),
            "invalid Imu units, dimensions, values or frame relation",
        ),
        (
            SensorSample::Lidar(near),
            "invalid Lidar units, dimensions, values or frame relation",
        ),
        (
            SensorSample::Odometry(detached),
            "invalid Odometry units, dimensions, values or frame relation",
        ),
        (
            SensorSample::Vision(VisionSample {
                captured_at: Timestamp(0),
                frame_id: frame("camera"),
                image_width_px: 0,
                image_height_px: 480,
                detection_count: 3,
            }),
            "invalid Vision units, dimensions, values or frame relation",
        ),
        (
            SensorSample::Lidar(strange),
            "unexpected Lidar frame; explicit transform required",
        ),
    ];
    for (sample, message) in cases {
        assert_eq!(sample.validate(&frames()).unwrap_err().message(), message);
    }
}

#[test]
fn frame_names_are_short_and_plain() {
    for good in ["a", "map/base_link-2", &"x".repeat(128)] {
        assert!(frame(good).validate().is_ok());
    }
    for bad in ["", "has space", "dot.dot", "größe", &"x".repeat(129)] {
        assert!(frame(bad).validate().is_err());
    }
}
