//! What it takes to drive, condition by condition.
use super::controller::Interlock;
use super::controller;
use super::{Captures, Event, MotionIntent, MotionOutput, Reason, State};
use crate::sensors::{SensorKind, Timestamp};
use vstd::prelude::*;

verus! {

/// Without a gap every sensor has been seen less than the timeout ago, and with
/// one some sensor has not.
proof fn lemma_gaps(kinds: Seq<SensorKind>, captures: Captures, now: Timestamp, timeout: u64)
    requires
        timeout > 0,
    ensures
        controller::sensor_gap(kinds, captures, now, timeout) is None <==> forall|i: int|
            0 <= i < kinds.len() ==> seen(captures, #[trigger] kinds[i], now, timeout),
    decreases kinds.len(),
{
    if kinds.len() > 0 {
        let rest = kinds.drop_first();
        lemma_gaps(rest, captures, now, timeout);
        let here = seen(captures, kinds[0], now, timeout);
        let others = forall|i: int|
            0 <= i < rest.len() ==> seen(captures, #[trigger] rest[i], now, timeout);
        if here && others {
            assert forall|i: int| 0 <= i < kinds.len() implies seen(
                captures,
                #[trigger] kinds[i],
                now,
                timeout,
            ) by {
                if i > 0 {
                    assert(rest[i - 1] == kinds[i]);
                }
            }
        }
        if here && !others {
            let i = choose|i: int|
                0 <= i < rest.len() && !seen(captures, #[trigger] rest[i], now, timeout);
            assert(kinds[i + 1] == rest[i]);
        }
    }
}

/// Whether a sensor has been seen less than a timeout ago.
pub open spec fn seen(captures: Captures, kind: SensorKind, now: Timestamp, timeout: u64) -> bool {
    let at = match kind {
        SensorKind::Imu => captures.imu,
        SensorKind::Lidar => captures.lidar,
        SensorKind::Odometry => captures.odometry,
        SensorKind::Vision => captures.vision,
    };
    at is Some && now.0 < (at->0).0 + timeout
}

/// Where the output is to drive, no emergency stop is latched, the deadman is
/// held, and the deadman, the heartbeat, the command and every required sensor
/// were seen less than their timeouts ago. Speed and curvature are finite and
/// within their limits to both sides.
pub proof fn law_driving_is_fresh_and_limited(before: Interlock, at: Timestamp, event: Event)
    requires
        before.sound(),
        before.step(at, event).output().0 is Drive,
    ensures
        ({
            let after = before.step(at, event);
            let config = before.config;
            let speed = after.output().0->speed_mps;
            let curvature = after.output().0->curvature_per_m;
            &&& after.state == State::Running && !after.emergency_stop_latched
            &&& after.deadman_pressed
            &&& after.deadman_at matches Some(t) && after.now.0 < t.0 + config.deadman_timeout_ms
            &&& after.heartbeat_at matches Some(t) && after.now.0 < t.0
                + config.heartbeat_timeout_ms
            &&& after.motion matches Some((t, intent)) && {
                &&& after.now.0 < t.0 + config.command_timeout_ms
                &&& intent.speed_mps == speed && intent.curvature_per_m == curvature
            }
            &&& forall|i: int|
                0 <= i < config.required_sensors@.len() ==> seen(
                    after.captures,
                    #[trigger] config.required_sensors@[i],
                    after.now,
                    config.sensor_timeout_ms,
                )
            &&& speed.finite() && curvature.finite()
            &&& speed.le(config.max_speed_mps) && speed.negated().le(config.max_speed_mps)
            &&& curvature.le(config.max_abs_curvature_per_m)
            &&& curvature.negated().le(config.max_abs_curvature_per_m)
        }),
{
    controller::law_drive_needs_every_permission(before, at, event);
    let after = before.step(at, event);
    lemma_gaps(
        before.config.required_sensors@,
        after.captures,
        after.now,
        before.config.sensor_timeout_ms,
    );
    assert(after.config == before.config);
}

/// A running interlock drives on through a tick just where the deadman, the
/// heartbeat, the command and every required sensor are still fresh at its time.
/// Otherwise it stops with a fault.
pub proof fn law_running_goes_on_while_all_is_fresh(before: Interlock, at: Timestamp)
    requires
        before.sound(),
        before.state == State::Running,
        before.now.0 <= at.0,
        before.deadman_at matches Some(t) && t.0 <= at.0,
        before.heartbeat_at matches Some(t) && t.0 <= at.0,
    ensures
        ({
            let after = before.step(at, Event::Tick);
            let config = before.config;
            let (given, intent) = before.motion->0;
            let fresh = at.0 < (before.deadman_at->0).0 + config.deadman_timeout_ms && at.0 < (
            before.heartbeat_at->0).0 + config.heartbeat_timeout_ms && at.0 < given.0
                + config.command_timeout_ms && forall|i: int|
                0 <= i < config.required_sensors@.len() ==> seen(
                    before.captures,
                    #[trigger] config.required_sensors@[i],
                    at,
                    config.sensor_timeout_ms,
                );
            &&& before.motion is Some
            &&& fresh ==> after.state == State::Running && after.output().0 == (
            MotionOutput::Drive {
                speed_mps: intent.speed_mps,
                curvature_per_m: intent.curvature_per_m,
            })
            &&& !fresh ==> after.state == State::Fault && after.output().0 is Stop
        }),
{
    lemma_gaps(
        before.config.required_sensors@,
        before.captures,
        at,
        before.config.sensor_timeout_ms,
    );
}

/// A command is taken by an armed or running interlock just where it is finite
/// and within the limits to both sides, and is then what a running one drives;
/// any other one is a fault.
pub proof fn law_commands_are_taken_within_the_limits(
    before: Interlock,
    at: Timestamp,
    intent: MotionIntent,
)
    requires
        before.sound(),
        before.now.0 <= at.0,
        before.advanced(at).state == before.state,
        before.state == State::Armed || before.state == State::Running,
    ensures
        ({
            let after = before.step(at, Event::Motion { intent });
            let config = before.config;
            let within = intent.speed_mps.finite() && intent.curvature_per_m.finite()
                && intent.speed_mps.le(config.max_speed_mps) && intent.speed_mps.negated().le(
                config.max_speed_mps,
            ) && intent.curvature_per_m.le(config.max_abs_curvature_per_m)
                && intent.curvature_per_m.negated().le(config.max_abs_curvature_per_m);
            &&& within ==> after.state == before.state && after.motion == Some((at, intent))
            &&& !within ==> after.state == State::Fault && after.motion is None
            &&& within && before.state == State::Running ==> after.output().0 == (
            MotionOutput::Drive {
                speed_mps: intent.speed_mps,
                curvature_per_m: intent.curvature_per_m,
            })
            &&& intent.speed_mps.finite() && intent.curvature_per_m.finite() && !within
                ==> after.fault_reason == Some(Reason::LimitsExceeded)
        }),
{
}

/// A sample counts from when it was captured, for its own sensor and no other,
/// and only where that is neither in the future nor before an earlier sample
/// nor a timeout ago.
pub proof fn law_samples_count_from_their_capture(
    before: Interlock,
    at: Timestamp,
    sample: crate::sensors::SensorSample,
    other: SensorKind,
)
    requires
        before.sound(),
        before.now.0 <= at.0,
        before.advanced(at).state == before.state,
        before.state != State::Fault,
    ensures
        ({
            let after = before.step(at, Event::Sensor { sample });
            let captured = sample.captured_at();
            let last = before.captures.get(sample.kind());
            let timely = captured.0 <= at.0 && at.0 < captured.0 + before.config.sensor_timeout_ms
                && (last is Some ==> (last->0).0 <= captured.0);
            &&& after.state != State::Fault <==> timely && sample.fault(&before.config.frames) is None
            &&& after.state != State::Fault ==> after.captures.get(sample.kind()) == Some(captured)
            &&& other != sample.kind() || after.state == State::Fault ==> after.captures.get(other)
                == before.captures.get(other)
        }),
{
}

} // verus!
