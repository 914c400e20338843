use robot_core::autonomy::{Pose2, PoseEstimate};
use robot_core::binary64::Binary64;
use robot_core::elementary::Elementary;
use robot_core::safety::MotionOutput;
use robot_core::sensors::{FrameId, Timestamp};
use robot_core::startup_assist::{
    LocalizationUpdate, StartupAction, StartupAssist, StartupConfig, StartupDecision,
    StartupFeedback, StartupInput, StartupPermit, StartupPhase,
};

fn b(x: f64) -> Binary64 {
    Binary64 { bits: x.to_bits() }
}

fn f(x: Binary64) -> f64 {
    f64::from_bits(x.bits)
}

fn host(question: Elementary) -> Binary64 {
    b(match question {
        Elementary::Sine(x) => f(x).sin(),
        Elementary::Cosine(x) => f(x).cos(),
        Elementary::ArcSine(x) => f(x).asin(),
        Elementary::SquareRoot(x) => f(x).sqrt(),
        Elementary::Bearing { y, x } => f(y).atan2(f(x)),
        Elementary::Length { x, y } => f(x).hypot(f(y)),
        Elementary::Turn { to, from } => {
            let turn = f(to) - f(from);
            turn.sin().atan2(turn.cos())
        }
    })
}

fn config() -> StartupConfig {
    StartupConfig {
        enabled: true,
        frame_id: FrameId("map".into()),
        stop_motor_us: 1500,
        stop_servo_us: 1500,
        start_motor_us: 1540,
        max_motor_us: 1600,
        step_us: 10,
        step_wait_ms: 200,
        max_attempt_ms: 5000,
        stationary_window_ms: 100,
        max_feedback_age_ms: 100,
        max_feedback_gap_ms: 60,
        min_stationary_samples: 3,
        min_motion_samples: 2,
        stationary_distance_m: b(0.01),
        moving_distance_m: b(0.03),
        stationary_speed_mps: b(0.02),
        stationary_yaw_rate_radps: b(0.05),
        moving_speed_mps: b(0.05),
        max_speed_mps: b(0.5),
        min_quality: b(0.5),
        max_lateral_m: b(0.1),
        max_start_distance_m: b(0.5),
        max_yaw_rad: b(0.3),
    }
}

fn estimate(at: u64, x: f64, speed: f64) -> PoseEstimate {
    PoseEstimate {
        captured_at: Timestamp(at),
        frame_id: FrameId("map".into()),
        pose: Pose2 {
            x_m: b(x),
            y_m: b(0.0),
            yaw_rad: b(0.0),
        },
        speed_mps: b(speed),
        yaw_rate_radps: b(0.0),
        quality: b(0.9),
    }
}

fn drive(speed: f64) -> MotionOutput {
    MotionOutput::Drive {
        speed_mps: b(speed),
        curvature_per_m: b(0.0),
    }
}

fn input(at: u64, x: f64, speed: f64) -> StartupInput {
    StartupInput {
        now: Timestamp(at),
        command: drive(0.3),
        nominal_motor_us: 1530,
        nominal_servo_us: 1480,
        permit: Some(StartupPermit {
            issued_at: Timestamp(at),
            valid_until: Timestamp(at + 50),
            max_motor_us: 1600,
            max_speed_mps: b(0.5),
        }),
        feedback: Some(StartupFeedback {
            accepted: true,
            localization_epoch: 1,
            estimate: estimate(at, x, speed),
        }),
    }
}

/// Runs ticks at rest until the first proposal, and gives its time.
fn ramping(assist: &mut StartupAssist) -> u64 {
    for at in (0..1000).step_by(50) {
        let decision = assist.update(input(at, 0.0, 0.0), &host);
        match decision.action {
            StartupAction::Preview { command } => {
                assert_eq!((command.motor_us(), command.servo_us()), (1540, 1480));
                assert_eq!(decision.reason, "bounded_startup_proposal");
                return at;
            }
            StartupAction::Stop { command } => {
                assert_eq!((command.motor_us(), command.servo_us()), (1500, 1500));
                assert_eq!(decision.reason, "confirming_stationary_baseline");
            }
            StartupAction::Handoff => panic!("no motion yet"),
        }
    }
    panic!("never proposed");
}

fn failed(decision: &StartupDecision, reason: &str) {
    assert!(matches!(decision.phase, StartupPhase::Fault));
    assert!(matches!(decision.action, StartupAction::Stop { .. }));
    assert_eq!(decision.reason, reason);
}

#[test]
fn a_stationary_baseline_comes_before_any_proposal() {
    let mut assist = StartupAssist::new(config()).unwrap();
    assert_eq!(ramping(&mut assist), 100);
}

#[test]
fn the_width_rises_one_step_at_a_time_until_motion() {
    let mut assist = StartupAssist::new(config()).unwrap();
    let mut at = ramping(&mut assist);
    let mut widths = vec![1540];
    while widths.len() < 3 {
        at += 50;
        if let StartupAction::Preview { command } = assist.update(input(at, 0.0, 0.0), &host).action
        {
            if command.motor_us() != *widths.last().unwrap() {
                widths.push(command.motor_us());
            }
        }
    }
    assert_eq!(widths, [1540, 1550, 1560]);
    at += 50;
    assist.update(input(at, 0.04, 0.1), &host);
    at += 50;
    let decision = assist.update(input(at, 0.05, 0.1), &host);
    assert!(matches!(decision.action, StartupAction::Handoff));
    assert_eq!(decision.reason, "motion_confirmed_stop_increasing");
    at += 50;
    let decision = assist.update(input(at, 0.06, 0.1), &host);
    assert_eq!(decision.reason, "normal_speed_control");
    let mut last = decision;
    for _ in 0..6 {
        at += 50;
        last = assist.update(input(at, 0.06, 0.0), &host);
    }
    failed(&last, "stalled_after_start_no_automatic_retry");
}

#[test]
fn a_proposal_is_never_below_the_nominal_width() {
    let mut assist = StartupAssist::new(config()).unwrap();
    for at in (0..=150).step_by(50) {
        let mut eager = input(at, 0.0, 0.0);
        eager.nominal_motor_us = 1560;
        if let StartupAction::Preview { command } = assist.update(eager, &host).action {
            assert_eq!(command.motor_us(), 1560);
            return;
        }
    }
    panic!("never proposed");
}

#[test]
fn the_width_never_rises_without_a_new_observation() {
    let mut assist = StartupAssist::new(config()).unwrap();
    let start = ramping(&mut assist);
    // the wait passes, but every other tick repeats the estimate before it
    let mut seen = start;
    for at in (start + 25..start + 400).step_by(25) {
        let fresh = (at - start) % 50 == 0;
        if fresh {
            seen = at;
        }
        let mut repeated = input(at, 0.0, 0.0);
        repeated.feedback = Some(StartupFeedback {
            accepted: true,
            localization_epoch: 1,
            estimate: estimate(seen, 0.0, 0.0),
        });
        if let StartupAction::Preview { command } = assist.update(repeated, &host).action {
            if command.motor_us() > 1540 {
                assert!(fresh && at - start >= 200);
                return;
            }
        }
    }
    panic!("never rose");
}

#[test]
fn suspicion_of_motion_ends_the_rise() {
    let mut assist = StartupAssist::new(config()).unwrap();
    let mut at = ramping(&mut assist);
    at += 50;
    assist.update(input(at, 0.02, 0.0), &host);
    for _ in 0..20 {
        at += 50;
        let decision = assist.update(input(at, 0.0, 0.0), &host);
        let StartupAction::Preview { command } = decision.action else {
            panic!("still proposing");
        };
        assert_eq!(command.motor_us(), 1540);
    }
}

#[test]
fn faults_latch_and_upstream_stop_ends_the_attempt() {
    let mut assist = StartupAssist::new(config()).unwrap();
    let at = ramping(&mut assist);
    let mut stop = input(at + 50, 0.0, 0.0);
    stop.command = MotionOutput::Stop;
    let decision = assist.update(stop, &host);
    assert_eq!(decision.reason, "upstream_stop");
    assert!(matches!(decision.phase, StartupPhase::Idle));
    let mut bare = input(at + 100, 0.0, 0.0);
    bare.permit = None;
    failed(&assist.update(bare, &host), "permit_missing");
    let mut stop = input(at + 150, 0.0, 0.0);
    stop.command = MotionOutput::Stop;
    failed(&assist.update(stop, &host), "permit_missing");
}

#[test]
fn each_refusal_has_its_reason() {
    let mut reversed = input(0, 0.0, 0.0);
    reversed.command = drive(-0.1);
    let mut late = input(100, 0.0, 0.0);
    late.permit.as_mut().unwrap().valid_until = Timestamp(100);
    let mut fast = input(0, 0.0, 0.0);
    fast.command = drive(0.6);
    let mut poor = input(0, 0.0, 0.0);
    poor.feedback.as_mut().unwrap().estimate.quality = b(0.4);
    let mut blind = input(0, 0.0, 0.0);
    blind.feedback = None;
    let mut stale = input(200, 0.0, 0.0);
    stale.feedback.as_mut().unwrap().estimate.captured_at = Timestamp(100);
    let racing = input(0, 0.0, 0.6);
    for (input, reason) in [
        (reversed, "invalid_or_reverse_request"),
        (late, "permit_invalid_or_expired"),
        (fast, "nominal_request_outside_authorized_envelope"),
        (poor, "feedback_rejected_or_invalid"),
        (blind, "feedback_missing"),
        (stale, "feedback_stale"),
        (racing, "measured_speed_limit"),
    ] {
        let mut assist = StartupAssist::new(config()).unwrap();
        failed(&assist.update(input, &host), reason);
    }
}

#[test]
fn each_broken_sequence_has_its_reason() {
    let mut reset = input(150, 0.0, 0.0);
    reset.feedback.as_mut().unwrap().localization_epoch = 2;
    let mut older = input(150, 0.0, 0.0);
    older.feedback.as_mut().unwrap().estimate.captured_at = Timestamp(90);
    let mut changed = input(150, 0.0, 0.0);
    changed.feedback.as_mut().unwrap().estimate = estimate(100, 0.005, 0.0);
    let mut turned = input(150, 0.0, 0.0);
    turned.nominal_servo_us = 1490;
    let mut capped = input(150, 0.0, 0.0);
    capped.permit.as_mut().unwrap().max_motor_us = 1535;
    let sideways = input(150, -0.1, 0.0);
    for (input, reason) in [
        (input(100, 0.0, 0.0), "control_time_not_increasing"),
        (input(161, 0.0, 0.0), "control_gap"),
        (reset, "localization_reset"),
        (older, "feedback_time_regression"),
        (changed, "changed_duplicate_feedback"),
        (turned, "request_changed_requires_stop"),
        (capped, "authorized_pwm_limit"),
        (sideways, "unexpected_motion"),
    ] {
        let mut assist = StartupAssist::new(config()).unwrap();
        assert_eq!(ramping(&mut assist), 100);
        failed(&assist.update(input, &host), reason);
    }
}

#[test]
fn an_attempt_without_motion_ends_at_the_limit() {
    let mut assist = StartupAssist::new(config()).unwrap();
    let mut at = ramping(&mut assist);
    let mut widest = 0;
    loop {
        at += 50;
        let decision = assist.update(input(at, 0.0, 0.0), &host);
        match decision.action {
            StartupAction::Preview { command } => widest = command.motor_us(),
            _ => {
                failed(&decision, "startup_pwm_limit_without_motion");
                break;
            }
        }
    }
    assert_eq!(widest, 1600);
}

#[test]
fn a_disabled_assistant_hands_off_and_zero_speed_stops() {
    let mut off = config();
    off.enabled = false;
    let mut assist = StartupAssist::new(off).unwrap();
    let decision = assist.update(input(0, 0.0, 0.0), &host);
    assert!(matches!(decision.action, StartupAction::Handoff));
    assert_eq!(decision.reason, "disabled");
    let mut assist = StartupAssist::new(config()).unwrap();
    let mut still = input(0, 0.0, 0.0);
    still.command = drive(0.0);
    assert_eq!(assist.update(still, &host).reason, "zero_speed_request");
}

#[test]
fn localization_results_are_fed_or_refused() {
    let mut assist = StartupAssist::new(config()).unwrap();
    let mut bare = input(0, 0.0, 0.0);
    bare.feedback = None;
    let accepted = LocalizationUpdate {
        accepted: true,
        estimate: Some(estimate(0, 0.0, 0.0)),
    };
    let decision = assist.update_with_localization(bare, 1, &accepted, &host);
    assert_eq!(decision.reason, "confirming_stationary_baseline");
    let rejected = LocalizationUpdate {
        accepted: false,
        estimate: Some(estimate(50, 0.0, 0.0)),
    };
    let decision = assist.update_with_localization(input(50, 0.0, 0.0), 1, &rejected, &host);
    failed(&decision, "localization_rejected");
    let mut assist = StartupAssist::new(config()).unwrap();
    let mut stop = input(0, 0.0, 0.0);
    stop.command = MotionOutput::Stop;
    let decision = assist.update_with_localization(stop, 1, &rejected, &host);
    assert_eq!(decision.reason, "upstream_stop");
    failed(&assist.reject_localization(Timestamp(5)), "localization_rejected");
}

#[test]
fn bad_startup_limits_are_refused() {
    let mut timing = config();
    timing.step_wait_ms = 50;
    let mut thresholds = config();
    thresholds.max_yaw_rad = b(0.6);
    let mut frame = config();
    frame.frame_id = FrameId("".into());
    let mut neutral = config();
    neutral.stop_servo_us = 100;
    for (config, message) in [
        (timing, "invalid startup PWM or timing limits"),
        (thresholds, "invalid startup motion/quality thresholds"),
        (frame, "frame_id must contain 1..128 ASCII letters/digits/_/-"),
        (neutral, "PWM must be within 500..2500 microseconds"),
    ] {
        assert_eq!(config.validate().unwrap_err().message(), message);
        assert!(StartupAssist::new(config).is_err());
    }
}
