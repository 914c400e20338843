use robot_core::binary64::Binary64;
use robot_core::elementary::Elementary;
use robot_core::protocol::calibrated_chassis::{
    CalibratedChassis, ChassisCalibration, CurvaturePoint, MeasurementStatus, PwmRange,
    ReversePolicy, SpeedPoint,
};
use robot_core::protocol::chassis::{FactoryProfile, PacketWriter, PwmCommand, SendError};
use robot_core::protocol::imu::{ImuConfig, ImuDecoder};
use robot_core::protocol::n10::{
    N10Config, N10Decoder, MAX_CHUNK_BYTES, PACKET_BYTES, POINTS_PER_PACKET,
};
use robot_core::safety::MotionOutput;
use robot_core::sensors::{FrameId, Timestamp, Vec3};
use std::cell::RefCell;

fn b(x: f64) -> Binary64 {
    Binary64 { bits: x.to_bits() }
}

fn f(x: Binary64) -> f64 {
    f64::from_bits(x.bits)
}

fn host(question: Elementary) -> Binary64 {
    b(match question {
        Elementary::Sine(x) => f(x).sin(),
        Elementary::Cosine(x) => f(x).cos(),
        Elementary::ArcSine(x) => f(x).asin(),
        Elementary::SquareRoot(x) => f(x).sqrt(),
        Elementary::Bearing { y, x } => f(y).atan2(f(x)),
        Elementary::Length { x, y } => f(x).hypot(f(y)),
        Elementary::Turn { to, from } => {
            let turn = f(to) - f(from);
            turn.sin().atan2(turn.cos())
        }
    })
}

#[test]
fn packets_frame_both_widths_with_a_byte_sum() {
    let command = PwmCommand::new(1500, 1500).unwrap();
    assert_eq!(command.encode(), [0xaa, 0xdc, 0x05, 0xdc, 0x05, 0xc2, 0x55]);
    let command = PwmCommand::new(500, 2500).unwrap();
    assert_eq!(command.encode(), [0xaa, 0xf4, 0x01, 0xc4, 0x09, 0xc2, 0x55]);
    assert_eq!((command.motor_us(), command.servo_us()), (500, 2500));
}

#[test]
fn widths_outside_the_protocol_are_refused() {
    for (motor, servo) in [(499, 1500), (2501, 1500), (1500, 499), (1500, 2501)] {
        assert_eq!(
            PwmCommand::new(motor, servo).unwrap_err().message(),
            "PWM must be within 500..2500 microseconds"
        );
    }
}

#[test]
fn factory_profiles_keep_their_own_conventions() {
    let navigation = FactoryProfile::Navigation1300.preview(b(0.5), b(-0.25)).unwrap();
    assert_eq!((navigation.motor_us(), navigation.servo_us()), (1550, 1175));
    let one = FactoryProfile::NavigationOne1200.preview(b(0.5), b(-0.25)).unwrap();
    assert_eq!((one.motor_us(), one.servo_us()), (1550, 1200));
    let teleop = FactoryProfile::TeleopPwmDegrees.preview(b(1600.7), b(90.0)).unwrap();
    assert_eq!((teleop.motor_us(), teleop.servo_us()), (1600, 1500));
    let cases = [
        (FactoryProfile::Navigation1300, f64::NAN, 0.0, "factory input must be finite"),
        (FactoryProfile::Navigation1300, 0.0, 1.0, "factory mapping exceeds PWM envelope"),
        (
            FactoryProfile::TeleopPwmDegrees,
            1500.0,
            181.0,
            "teleop angle must be 0..180 degrees",
        ),
    ];
    for (profile, linear, angular, message) in cases {
        assert_eq!(
            profile.preview(b(linear), b(angular)).unwrap_err().message(),
            message
        );
    }
}

#[test]
fn a_failed_write_latches_the_writer() {
    let sent: RefCell<Vec<[u8; 7]>> = RefCell::new(Vec::new());
    let command = PwmCommand::new(1500, 1400).unwrap();
    let mut writer = PacketWriter::new();
    let first: Result<(), SendError<&str>> = writer.send(command, |packet| {
        sent.borrow_mut().push(packet);
        Ok(())
    });
    assert!(first.is_ok());
    let second = writer.send(command, |_| Err("unplugged"));
    assert!(matches!(second, Err(SendError::Write("unplugged"))));
    let third: Result<(), SendError<&str>> = writer.send(command, |packet| {
        sent.borrow_mut().push(packet);
        Ok(())
    });
    assert!(matches!(third, Err(SendError::Latched)));
    assert_eq!(sent.into_inner(), vec![command.encode()]);
}

fn imu_frame(kind: u8, values: [i16; 3]) -> Vec<u8> {
    let mut frame = vec![0x55, kind];
    for value in values {
        frame.extend(value.to_le_bytes());
    }
    frame.extend([0, 0]);
    let sum = frame.iter().fold(0u8, |sum, v| sum.wrapping_add(*v));
    frame.push(sum);
    frame
}

fn zero() -> Vec3 {
    Vec3 {
        x: b(0.0),
        y: b(0.0),
        z: b(0.0),
    }
}

fn imu() -> ImuDecoder {
    ImuDecoder::new(ImuConfig {
        frame_id: FrameId("imu".into()),
        acceleration_bias_mps2: Vec3 {
            x: b(0.5),
            ..zero()
        },
        gyro_bias_radps: zero(),
        max_component_age_ms: 100,
        max_component_skew_ms: 50,
    })
    .unwrap()
}

fn imu_stream() -> Vec<u8> {
    let mut stream = vec![0x00, 0x13];
    stream.extend(imu_frame(0x51, [1000, -2000, 3000]));
    stream.extend(imu_frame(0x52, [100, 200, -300]));
    stream.extend(imu_frame(0x54, [1, 2, 3]));
    stream.extend(imu_frame(0x53, [0, 0, 16384]));
    stream
}

#[test]
fn imu_components_become_one_sample() {
    let mut decoder = imu();
    let batch = decoder.feed(&imu_stream(), Timestamp(10), &host).unwrap();
    assert_eq!(batch.discarded_bytes, 2);
    assert_eq!(batch.checksum_errors, 0);
    assert_eq!(batch.samples.len(), 1);
    let sample = &batch.samples[0];
    assert_eq!(sample.captured_at, Timestamp(10));
    let scale = 16.0 * 9.8 / 32768.0;
    assert_eq!(f(sample.acceleration_mps2.x), 1000.0 * scale - 0.5);
    assert_eq!(f(sample.acceleration_mps2.y), -2000.0 * scale);
    let rate = 2000.0 * std::f64::consts::PI / 180.0 / 32768.0;
    assert_eq!(f(sample.angular_velocity_radps.z), -300.0 * rate);
    let half = std::f64::consts::FRAC_PI_4;
    assert_eq!(f(sample.orientation_xyzw.z), half.sin());
    assert_eq!(f(sample.orientation_xyzw.w), half.cos());
    assert_eq!(f(sample.orientation_xyzw.x), 0.0);
}

#[test]
fn imu_fragmentation_does_not_change_the_samples() {
    let stream = imu_stream();
    let whole = imu().feed(&stream, Timestamp(10), &host).unwrap();
    for cut in 0..=stream.len() {
        let mut decoder = imu();
        let first = decoder.feed(&stream[..cut], Timestamp(10), &host).unwrap();
        let second = decoder.feed(&stream[cut..], Timestamp(10), &host).unwrap();
        assert_eq!(first.samples.len() + second.samples.len(), whole.samples.len());
        assert_eq!(
            first.discarded_bytes + second.discarded_bytes,
            whole.discarded_bytes
        );
    }
}

#[test]
fn imu_corruption_and_age_drop_components() {
    let mut decoder = imu();
    let mut broken = imu_frame(0x52, [1, 2, 3]);
    broken[10] = broken[10].wrapping_add(1);
    decoder
        .feed(&imu_frame(0x51, [1, 2, 3]), Timestamp(0), &host)
        .unwrap();
    let batch = decoder.feed(&broken, Timestamp(1), &host).unwrap();
    assert_eq!(batch.checksum_errors, 1);
    assert_eq!(batch.discarded_bytes, 11);
    for kind in [0x52, 0x53] {
        let batch = decoder
            .feed(&imu_frame(kind, [1, 2, 3]), Timestamp(2), &host)
            .unwrap();
        assert!(batch.samples.is_empty());
    }
    let batch = decoder.feed(&[], Timestamp(200), &host).unwrap();
    assert_eq!(batch.expired_components, 2);
    let mut decoder = imu();
    for (kind, at) in [(0x51, 0), (0x52, 20), (0x53, 60)] {
        let batch = decoder
            .feed(&imu_frame(kind, [1, 2, 3]), Timestamp(at), &host)
            .unwrap();
        assert!(batch.samples.is_empty());
        assert_eq!(batch.expired_components, usize::from(at == 60));
    }
}

#[test]
fn imu_components_are_used_once() {
    let mut decoder = imu();
    let first = decoder.feed(&imu_stream(), Timestamp(10), &host).unwrap();
    assert_eq!(first.samples.len(), 1);
    // a new angle alone finds no acceleration or rate left to go with
    let second = decoder
        .feed(&imu_frame(0x53, [0, 0, 0]), Timestamp(11), &host)
        .unwrap();
    assert_eq!(second.samples.len(), 0);
    let third = decoder
        .feed(&imu_frame(0x51, [0, 0, 0]), Timestamp(11), &host)
        .unwrap();
    assert_eq!(third.samples.len(), 0);
    let fourth = decoder
        .feed(&imu_frame(0x52, [0, 0, 0]), Timestamp(11), &host)
        .unwrap();
    assert_eq!(fourth.samples.len(), 1);
}

#[test]
fn imu_refuses_bad_limits_chunks_and_times() {
    let message = "IMU chunk exceeds 4096 bytes or receive time regresses";
    let mut decoder = imu();
    decoder.feed(&[], Timestamp(5), &host).unwrap();
    assert_eq!(
        decoder.feed(&[], Timestamp(4), &host).unwrap_err().message(),
        message
    );
    assert_eq!(
        decoder
            .feed(&[0; 4097], Timestamp(5), &host)
            .unwrap_err()
            .message(),
        message
    );
    let bad = ImuDecoder::new(ImuConfig {
        frame_id: FrameId("imu".into()),
        acceleration_bias_mps2: zero(),
        gyro_bias_radps: zero(),
        max_component_age_ms: 10,
        max_component_skew_ms: 11,
    });
    assert_eq!(
        bad.err().unwrap().message(),
        "invalid IMU timing or calibration"
    );
}

fn n10() -> N10Decoder {
    N10Decoder::new(N10Config {
        frame_id: FrameId("laser".into()),
        range_min_m: b(0.1),
        range_max_m: b(10.0),
        max_packet_age_ms: 50,
    })
    .unwrap()
}

fn n10_packet(start: u16, end: u16, distance: u16) -> Vec<u8> {
    let mut packet = vec![0xa5, 0x5a, PACKET_BYTES as u8, 7, 8];
    packet.extend(start.to_be_bytes());
    for i in 0..POINTS_PER_PACKET {
        let word = if i == 3 { 0xffff } else { distance };
        packet.extend(word.to_be_bytes());
        packet.push(i as u8);
    }
    packet.extend(end.to_be_bytes());
    let sum = packet.iter().fold(0u8, |sum, v| sum.wrapping_add(*v));
    packet.push(sum);
    packet
}

#[test]
fn n10_packets_keep_slots_and_invalid_returns() {
    let mut decoder = n10();
    let mut stream = vec![0x00, 0xa5];
    stream.extend(n10_packet(35_500, 1_000, 1234));
    let batch = decoder.feed(&stream, Timestamp(7)).unwrap();
    assert_eq!(batch.discarded_bytes, 2);
    assert_eq!(batch.packets.len(), 1);
    assert_eq!(decoder.buffered_len(), 0);
    let packet = &batch.packets[0];
    assert_eq!(packet.header_bytes, [7, 8]);
    assert_eq!(packet.points[3].range_m, None);
    assert_eq!(packet.points[3].raw_distance_mm, 0xffff);
    assert_eq!(packet.points[4].range_m, Some(b(1.234)));
    assert_eq!(packet.points[4].intensity, 4);
    let sample = packet.packet_sample().unwrap();
    assert_eq!(f(sample.angle_min_rad), -(355.0_f64).to_radians());
    assert_eq!(
        f(sample.angle_increment_rad),
        -(15.0_f64 / 15.0).to_radians()
    );
    assert_eq!(sample.ranges_m.len(), 16);
    assert_eq!(sample.ranges_m[3], None);
}

#[test]
fn n10_empty_or_flat_packets_give_no_sample() {
    let mut decoder = n10();
    let flat = decoder
        .feed(&n10_packet(100, 100, 1000), Timestamp(0))
        .unwrap();
    assert!(flat.packets[0].packet_sample().is_none());
    let far = decoder
        .feed(&n10_packet(100, 200, 20_000), Timestamp(0))
        .unwrap();
    assert!(far.packets[0].packet_sample().is_none());
}

#[test]
fn n10_errors_are_counted_apart() {
    let mut decoder = n10();
    let mut wrong_sum = n10_packet(0, 100, 1000);
    wrong_sum[57] = wrong_sum[57].wrapping_add(1);
    assert_eq!(
        decoder
            .feed(&wrong_sum, Timestamp(0))
            .unwrap()
            .checksum_errors,
        1
    );
    let mut decoder = n10();
    assert_eq!(
        decoder
            .feed(&n10_packet(36_001, 100, 1000), Timestamp(0))
            .unwrap()
            .angle_errors,
        1
    );
    let mut decoder = n10();
    let batch = decoder.feed(&[0xa5, 0x5a, 57], Timestamp(0)).unwrap();
    assert_eq!((batch.length_errors, batch.discarded_bytes), (1, 3));
    decoder.feed(&[0xa5, 0x5a], Timestamp(0)).unwrap();
    let batch = decoder.feed(&[], Timestamp(50)).unwrap();
    assert_eq!((batch.expired_packets, batch.discarded_bytes), (1, 2));
    assert_eq!(
        decoder.feed(&[], Timestamp(49)).err().unwrap().message(),
        "N10 chunk exceeds 4096 bytes or receive time regresses"
    );
    assert!(decoder
        .feed(&vec![0; MAX_CHUNK_BYTES + 1], Timestamp(50))
        .is_err());
    let bad = N10Decoder::new(N10Config {
        frame_id: FrameId("laser".into()),
        range_min_m: b(1.0),
        range_max_m: b(1.0),
        max_packet_age_ms: 50,
    });
    assert_eq!(
        bad.err().unwrap().message(),
        "invalid N10 ranges or packet age"
    );
}

#[test]
fn n10_bytes_are_in_packets_discarded_or_held() {
    let mut stream = vec![1, 2, 0xa5];
    stream.extend(n10_packet(0, 100, 1000));
    let mut wrong = n10_packet(100, 200, 2000);
    wrong[57] = wrong[57].wrapping_add(1);
    stream.extend(wrong);
    stream.extend(n10_packet(200, 300, 3000));
    stream.extend_from_slice(&n10_packet(300, 400, 4000)[..20]);
    let mut decoder = n10();
    let mut packets = 0;
    let mut discarded = 0;
    for (i, chunk) in stream.chunks(17).enumerate() {
        let batch = decoder.feed(chunk, Timestamp(3)).unwrap();
        packets += batch.packets.len();
        discarded += batch.discarded_bytes;
        let fed = stream.len().min(17 * (i + 1));
        assert_eq!(
            PACKET_BYTES * packets + discarded + decoder.buffered_len(),
            fed
        );
    }
    assert_eq!((packets, decoder.buffered_len()), (2, 20));
}

#[test]
fn n10_fragmentation_does_not_change_the_packets() {
    let mut stream = vec![0xa5, 0xa5, 0x5a, 1];
    stream.extend(n10_packet(0, 100, 1000));
    stream.extend(n10_packet(100, 200, 2000));
    let whole = n10().feed(&stream, Timestamp(3)).unwrap();
    assert_eq!(whole.packets.len(), 2);
    for cut in 0..=stream.len() {
        let mut decoder = n10();
        let first = decoder.feed(&stream[..cut], Timestamp(3)).unwrap();
        let second = decoder.feed(&stream[cut..], Timestamp(3)).unwrap();
        assert_eq!(first.packets.len() + second.packets.len(), 2);
        assert_eq!(first.length_errors + second.length_errors, 1);
        assert_eq!(
            first.discarded_bytes + second.discarded_bytes,
            whole.discarded_bytes
        );
    }
}

fn calibration() -> ChassisCalibration {
    ChassisCalibration {
        schema_version: 1,
        simulation_only: true,
        measurement_status: MeasurementStatus::Unverified,
        motor_pwm_range: PwmRange {
            min_us: 1400,
            max_us: 1700,
        },
        servo_pwm_range: PwmRange {
            min_us: 1200,
            max_us: 1800,
        },
        stop_motor_us: 1500,
        stop_servo_us: 1500,
        reverse_policy: ReversePolicy::Disabled,
        speed_points: vec![
            SpeedPoint {
                speed_mps: b(0.0),
                motor_us: 1500,
            },
            SpeedPoint {
                speed_mps: b(0.4),
                motor_us: 1560,
            },
            SpeedPoint {
                speed_mps: b(1.0),
                motor_us: 1600,
            },
        ],
        curvature_points: vec![
            CurvaturePoint {
                curvature_per_m: b(-2.0),
                servo_us: 1800,
            },
            CurvaturePoint {
                curvature_per_m: b(0.0),
                servo_us: 1500,
            },
            CurvaturePoint {
                curvature_per_m: b(2.0),
                servo_us: 1200,
            },
        ],
    }
}

fn drive(speed: f64, curvature: f64) -> MotionOutput {
    MotionOutput::Drive {
        speed_mps: b(speed),
        curvature_per_m: b(curvature),
    }
}

#[test]
fn tables_interpolate_between_their_points() {
    let chassis = CalibratedChassis::new(calibration()).unwrap();
    assert_eq!(chassis.config().stop_motor_us, 1500);
    for (speed, curvature, motor, servo) in [
        (0.0, 0.0, 1500, 1500),
        (0.4, -2.0, 1560, 1800),
        (0.2, 1.0, 1530, 1350),
        (0.7, -0.51, 1580, 1577),
        (1.0, 2.0, 1600, 1200),
    ] {
        let command = chassis.preview(&drive(speed, curvature)).unwrap();
        assert_eq!((command.motor_us(), command.servo_us()), (motor, servo));
    }
    let stop = chassis.preview(&MotionOutput::Stop).unwrap();
    assert_eq!(stop.encode(), chassis.stop_command().encode());
}

#[test]
fn previews_never_extrapolate_or_reverse() {
    let chassis = CalibratedChassis::new(calibration()).unwrap();
    let outside = "speed_mps -> motor_us: input is non-finite or outside the calibrated table; extrapolation is disabled";
    let bent = "curvature_per_m -> servo_us: input is non-finite or outside the calibrated table; extrapolation is disabled";
    for (speed, curvature, message) in [
        (-0.1, 0.0, "reverse motion is disabled"),
        (1.1, 0.0, outside),
        (f64::NAN, 0.0, outside),
        (0.5, 2.1, bent),
    ] {
        assert_eq!(
            chassis.preview(&drive(speed, curvature)).unwrap_err().message(),
            message
        );
    }
}

#[test]
fn reverse_takes_explicit_entries() {
    let mut config = calibration();
    config.reverse_policy = ReversePolicy::CalibratedSignedSpeed;
    assert!(CalibratedChassis::new(config).is_err());
    let mut config = calibration();
    config.reverse_policy = ReversePolicy::CalibratedSignedSpeed;
    config.speed_points.insert(
        0,
        SpeedPoint {
            speed_mps: b(-0.5),
            motor_us: 1450,
        },
    );
    let chassis = CalibratedChassis::new(config).unwrap();
    let command = chassis.preview(&drive(-0.25, 0.0)).unwrap();
    assert_eq!(command.motor_us(), 1475);
}

#[test]
fn each_bad_calibration_has_its_message() {
    let mut wrong_schema = calibration();
    wrong_schema.schema_version = 2;
    let mut bad_range = calibration();
    bad_range.motor_pwm_range.min_us = 499;
    let mut short = calibration();
    short.speed_points.truncate(1);
    let mut infinite = calibration();
    infinite.curvature_points[0].curvature_per_m = b(f64::NEG_INFINITY);
    let mut repeated = calibration();
    repeated.speed_points[1].speed_mps = b(0.0);
    let mut bumpy = calibration();
    bumpy.speed_points[2].motor_us = 1550;
    let mut no_zero = calibration();
    no_zero.stop_motor_us = 1501;
    let mut one_sided = calibration();
    one_sided.curvature_points.remove(0);
    for (config, message) in [
        (
            wrong_schema,
            "chassis calibration requires schema_version=1 and simulation_only=true",
        ),
        (
            bad_range,
            "speed_mps -> motor_us: explicit PWM range and neutral must fit 500..2500 us",
        ),
        (short, "speed_mps -> motor_us: table must contain 2..1024 points"),
        (
            infinite,
            "curvature_per_m -> servo_us: table inputs must be finite and PWM must fit its range",
        ),
        (
            repeated,
            "speed_mps -> motor_us: physical inputs must strictly increase with finite spans",
        ),
        (
            bumpy,
            "speed_mps -> motor_us: PWM values must be strictly monotonic in one direction",
        ),
        (
            no_zero,
            "speed_mps -> motor_us: table requires an exact zero anchor at the Stop neutral PWM",
        ),
        (
            one_sided,
            "curvature table must cover both sides of its zero anchor",
        ),
    ] {
        assert_eq!(CalibratedChassis::new(config).err().unwrap().message(), message);
    }
}
