//! What a start keeps to, measured from where it began.
use super::{Assist, Attempt, StartupConfig, StartupInput, StartupPhase};
use crate::autonomy::PoseEstimate;
use crate::binary64::laws;
use crate::binary64::signs;
use crate::binary64::values::{ONE, PI, TAU, ZERO};
use crate::binary64::Binary64;
use crate::elementary::Elementary;
use crate::online_mission::angles;
use crate::safety;
use vstd::prelude::*;

verus! {

/// The difference of two headings is brought to within half a turn either way.
pub proof fn law_turns_stay_within_half_a_turn(to: Binary64, from: Binary64)
    requires
        to.minus(from).plus(Binary64::of(PI)).finite(),
    ensures
        super::turned(to, from).finite(),
        Binary64::of(PI).negated().le(super::turned(to, from)),
        super::turned(to, from).le(Binary64::of(PI)),
{
    let half = Binary64::of(PI);
    let zero = Binary64::of(ZERO);
    let shifted = to.minus(from).plus(half);
    angles::lemma_whole_turns(shifted);
    angles::lemma_half_of_a_turn();
    let rest = shifted.rem_euclid(Binary64::of(TAU));
    laws::law_sums_are_monotone(zero, rest, half);
    laws::law_sums_are_monotone(rest, Binary64::of(TAU), half);
    signs::law_zero_adds_nothing(half, zero);
}

/// A start that goes on ramping, or hands off, has kept to the corridor ahead of
/// where it began: not farther from there than a start may take, not back by
/// more than a motion is, and not off to either side, nor turned to either
/// side, by more than is allowed. The vehicle is measured in the frame of the
/// anchor, along its heading.
pub proof fn law_ramping_keeps_to_its_corridor(
    before: Assist,
    m: spec_fn(Elementary) -> Binary64,
    input: StartupInput,
)
    requires
        before.sound(),
        before.phase == StartupPhase::Ramping,
        before.step(m, input).1.action is Preview || before.step(m, input).1.action is Handoff,
        before.config.enabled,
    ensures
        ({
            let c = before.config;
            let anchor = (before.attempt->0).anchor.pose;
            let estimate = match input.feedback {
                Some(f) => f.estimate,
                None => (before.feedback->0).estimate,
            };
            let dx = estimate.pose.x_m.minus(anchor.x_m);
            let dy = estimate.pose.y_m.minus(anchor.y_m);
            let cos = m(Elementary::Cosine(anchor.yaw_rad));
            let sin = m(Elementary::Sine(anchor.yaw_rad));
            let forward = dx.times(cos).plus(dy.times(sin));
            let left = dy.times(cos).minus(dx.times(sin));
            let turn = super::turned(estimate.pose.yaw_rad, anchor.yaw_rad);
            &&& !c.max_start_distance_m.lt(m(Elementary::Length { x: forward, y: left }))
            &&& !forward.lt(c.moving_distance_m.negated())
            &&& !c.max_lateral_m.lt(left) && !c.max_lateral_m.lt(left.negated())
            &&& !c.max_yaw_rad.lt(turn) && !c.max_yaw_rad.lt(turn.negated())
        }),
{
}

/// Whatever is proposed or handed off by an enabled assist was asked for within
/// the permit and seen by a fresh estimate: the permit covers the time and is
/// not longer than an estimate may be old, the request is to go forward at no
/// more than either speed allowed and with a motor width above the stop and
/// within both widths allowed, and the estimate is of the right frame, good
/// enough, not from the future, less than its age old, and no faster than
/// either speed allowed, forwards or backwards.
pub proof fn law_starts_are_asked_for_and_seen(
    before: Assist,
    m: spec_fn(Elementary) -> Binary64,
    input: StartupInput,
)
    requires
        before.sound(),
        before.config.enabled,
        before.step(m, input).1.action is Preview || before.step(m, input).1.action is Handoff,
    ensures
        ({
            let c = before.config;
            let permit = input.permit->0;
            let now = input.now;
            let speed = input.command->speed_mps;
            let p = match input.feedback {
                Some(f) => f.estimate,
                None => (before.feedback->0).estimate,
            };
            &&& input.command is Drive && input.permit is Some
            &&& permit.issued_at.0 <= now.0 < permit.valid_until.0
            &&& permit.valid_until.0 <= permit.issued_at.0 + c.max_feedback_age_ms
            &&& Binary64::of(ZERO).lt(speed) && speed.finite()
            &&& speed.le(permit.max_speed_mps) && speed.le(c.max_speed_mps)
            &&& c.stop_motor_us < input.nominal_motor_us <= c.max_motor_us
            &&& input.nominal_motor_us <= permit.max_motor_us
            &&& now.0 < p.captured_at.0 + c.max_feedback_age_ms
            &&& !permit.max_speed_mps.lt(p.speed_mps) && !permit.max_speed_mps.lt(
                p.speed_mps.negated(),
            )
            &&& !c.max_speed_mps.lt(p.speed_mps) && !c.max_speed_mps.lt(p.speed_mps.negated())
            &&& input.feedback matches Some(f) ==> {
                &&& f.accepted
                &&& p.frame_id@ == c.frame_id@ && p.pose.finite()
                &&& c.min_quality.le(p.quality) && p.quality.le(Binary64::of(ONE))
                &&& p.captured_at.0 <= now.0
            }
        }),
{
}

/// A start is handed off out of ramping only on a new estimate that shows it
/// moving: ahead of where it began by at least a motion, and forwards at no
/// less than the speed of one.
pub proof fn law_handing_off_takes_motion_forwards(
    before: Assist,
    m: spec_fn(Elementary) -> Binary64,
    input: StartupInput,
)
    requires
        before.sound(),
        before.phase == StartupPhase::Ramping,
        before.step(m, input).0.phase == StartupPhase::Moving,
    ensures
        input.feedback matches Some(f) && ({
            let c = before.config;
            let anchor = (before.attempt->0).anchor.pose;
            let dx = f.estimate.pose.x_m.minus(anchor.x_m);
            let dy = f.estimate.pose.y_m.minus(anchor.y_m);
            let forward = dx.times(m(Elementary::Cosine(anchor.yaw_rad))).plus(
                dy.times(m(Elementary::Sine(anchor.yaw_rad))),
            );
            &&& c.moving_distance_m.le(forward)
            &&& c.moving_speed_mps.le(f.estimate.speed_mps)
            &&& before.attempt->0.motion_samples + 1 >= c.min_motion_samples
        }),
{
}

/// The record of standing still goes on only over a new estimate that lies
/// within the distance of where it began and neither moves, forwards or
/// backwards, nor turns, to the left or to the right, faster than what stands
/// still may.
pub proof fn law_standing_still_is_neither_moving_nor_turning(
    config: StartupConfig,
    a: Attempt,
    pose: PoseEstimate,
    excursion: Binary64,
)
    requires
        !pose.speed_mps.nan(),
        !pose.yaw_rate_radps.nan(),
        !excursion.nan(),
        safety::positive(config.stationary_distance_m),
        safety::positive(config.stationary_speed_mps),
        safety::positive(config.stationary_yaw_rate_radps),
        a.still_samples < u32::MAX,
    ensures
        ({
            let b = config.stillness(a, pose, excursion);
            let still = excursion.le(config.stationary_distance_m) && pose.speed_mps.le(
                config.stationary_speed_mps,
            ) && pose.speed_mps.negated().le(config.stationary_speed_mps) && pose.yaw_rate_radps.le(
                config.stationary_yaw_rate_radps,
            ) && pose.yaw_rate_radps.negated().le(config.stationary_yaw_rate_radps);
            &&& still ==> b.still_samples == a.still_samples + 1 && b.still_since == a.still_since
                && b.still_anchor == a.still_anchor
            &&& !still ==> b.still_samples == 0 && b.still_since == pose.captured_at
                && b.still_anchor == pose
        }),
{
}

} // verus!
