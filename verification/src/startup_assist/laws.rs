//! What holds of the startup assist as a whole, whatever the host computes.
use super::{
    capped_sum, Action, Assist, Decision, Sight, StartupConfig, StartupInput,
    StartupPhase,
};
use crate::sensors::Timestamp;
use vstd::prelude::*;

verus! {

/// Every step keeps soundness.
#[verifier::rlimit(40)]
pub proof fn law_soundness_is_kept(
    before: Assist,
    g: Sight,
    input: StartupInput,
)
    requires
        before.sound(),
    ensures
        before.given(g, input).0.sound(),
{
}

/// What an assist is told: to step, with what the host has to say, or that
/// localization was refused.
pub enum Turn {
    Step { sight: Sight, input: StartupInput },
    Refused { now: Timestamp },
}

impl Turn {
    pub open spec fn now(self) -> Timestamp {
        match self {
            Turn::Step { input, .. } => input.now,
            Turn::Refused { now } => now,
        }
    }
}

/// The answer to a turn.
#[verifier::opaque]
pub open spec fn answer(before: Assist, turn: Turn) -> (Assist, Decision) {
    match turn {
        Turn::Step { sight, input } => before.given(sight, input),
        Turn::Refused { now } => before.fail(now, "localization_rejected"@),
    }
}

/// The state after the first `n` turns of a run.
pub open spec fn state(start: Assist, turns: Seq<Turn>, n: int) -> Assist
    decreases n,
{
    if n <= 0 {
        start
    } else {
        answer(state(start, turns, n - 1), turns[n - 1]).0
    }
}

/// The decision of a turn of a run.
pub open spec fn decision(start: Assist, turns: Seq<Turn>, i: int) -> Decision {
    answer(state(start, turns, i), turns[i]).1
}

proof fn lemma_sound_turn(before: Assist, turn: Turn)
    requires
        before.sound(),
    ensures
        answer(before, turn).0.sound(),
        answer(before, turn).0.config == before.config,
{
    reveal(answer);
    if let Turn::Step { sight, input } = turn {
        law_soundness_is_kept(before, sight, input);
    }
}

/// Whatever happens to an assist from its start on, it is sound.
pub proof fn law_every_run_is_sound(config: StartupConfig, turns: Seq<Turn>, n: int)
    requires
        config.fault() is None,
    ensures
        state(Assist::initial(config), turns, n).sound(),
        state(Assist::initial(config), turns, n).config == config,
    decreases n,
{
    if n > 0 {
        law_every_run_is_sound(config, turns, n - 1);
        lemma_sound_turn(state(Assist::initial(config), turns, n - 1), turns[n - 1]);
    }
}

/// A fault latches: whatever comes, also a request to stop, the answer is the
/// neutral command with the reason of the fault, and nothing changes.
pub proof fn law_fault_latches(
    before: Assist,
    g: Sight,
    input: StartupInput,
)
    requires
        before.fault is Some,
    ensures
        before.given(g, input).0 == before,
        before.given(g, input).1 == (Decision {
            at: input.now,
            phase: before.phase,
            action: before.neutral(),
            reason: before.fault->0,
        }),
{
}

/// A request to stop is answered by the neutral command and ends the attempt.
pub proof fn law_stop_ends_the_attempt(
    before: Assist,
    g: Sight,
    input: StartupInput,
)
    requires
        input.command is Stop,
    ensures
        before.given(g, input).1.action == before.neutral(),
        before.given(g, input).0.fault is Some || before.given(g, input).0.attempt is None,
{
}

/// A proposal is never made without a request to drive, an enabled assist and
/// a permit valid at that time. It lies between the start width and what both
/// the permit and the configuration allow, is never below the nominal width,
/// and its servo width is the nominal one.
pub proof fn law_proposals_are_authorized(
    before: Assist,
    g: Sight,
    input: StartupInput,
)
    requires
        before.sound(),
        before.given(g, input).1.action is Preview,
    ensures
        before.config.enabled,
        input.command is Drive,
        input.permit matches Some(permit) && {
            &&& before.config.permits(permit, input.now)
            &&& before.given(g, input).1.action matches Action::Preview(motor, servo) && {
                &&& before.config.start_motor_us <= motor <= before.config.max_motor_us
                &&& motor <= permit.max_motor_us
                &&& input.nominal_motor_us <= motor
                &&& servo == input.nominal_servo_us
            }
        },
{
}

/// Nothing is proposed before a stationary baseline has been observed: from a
/// state without an attempt no single step proposes.
pub proof fn law_observation_comes_first(
    before: Assist,
    g: Sight,
    input: StartupInput,
)
    requires
        before.sound(),
        before.attempt is None,
    ensures
        !(before.given(g, input).1.action is Preview),
{
}

/// Whether an estimate shows that a vehicle which ramps has moved.
pub open spec fn moved(config: StartupConfig, g: Sight, speed_mps: crate::binary64::Binary64) -> bool {
    config.stationary_distance_m.lt(g.reach) || config.stationary_speed_mps.lt(speed_mps.abs())
}

/// Within an attempt the motor width rises by at most one step at a time, and
/// only on a new observation, where no motion is suspected, this observation
/// shows none, the full wait has passed since the last rise, and the vehicle
/// was seen to stand still, by enough observations, over the whole window that
/// ends with this observation and that began after the last rise.
pub proof fn law_width_rises_one_step_at_a_time(before: Assist, g: Sight, input: StartupInput)
    requires
        before.sound(),
        before.attempt is Some,
        before.given(g, input).0.attempt is Some,
    ensures
        ({
            let a = before.attempt->0;
            let b = before.given(g, input).0.attempt->0;
            let c = before.config;
            &&& b.pwm == a.pwm || b.pwm == a.pwm + c.step_us
            &&& b.pwm != a.pwm ==> {
                &&& before.phase == StartupPhase::Ramping
                &&& !a.motion_suspected
                &&& input.now.0 - a.step_at.0 >= c.step_wait_ms
                &&& b.step_at == input.now
                &&& input.feedback matches Some(f) && {
                    let p = f.estimate;
                    &&& before.is_fresh(f)
                    &&& !moved(c, g, p.speed_mps)
                    &&& !c.stationary_distance_m.lt(g.excursion)
                    &&& !c.stationary_yaw_rate_radps.lt(p.yaw_rate_radps.abs())
                    &&& a.still_samples + 1 >= c.min_stationary_samples
                    &&& p.captured_at.0 - a.still_since.0 >= c.stationary_window_ms
                    &&& p.captured_at.0 >= capped_sum(a.step_at.0, c.stationary_window_ms)
                }
            }
        }),
{
}

/// A new observation of a vehicle that moves or turns starts the record of its
/// standing still anew, from where it is then.
pub proof fn law_disturbance_restarts_the_record(before: Assist, g: Sight, input: StartupInput)
    requires
        before.sound(),
        before.attempt is Some,
        before.given(g, input).1.action is Preview,
        input.feedback matches Some(f) && {
            &&& before.is_fresh(f)
            &&& before.config.stationary_distance_m.lt(g.excursion)
                || before.config.stationary_speed_mps.lt(f.estimate.speed_mps.abs())
                || before.config.stationary_yaw_rate_radps.lt(f.estimate.yaw_rate_radps.abs())
        },
        before.phase == StartupPhase::Ramping,
    ensures
        before.given(g, input).0.attempt matches Some(b) && {
            &&& b.still_samples == 0
            &&& b.still_since == input.feedback->0.estimate.captured_at
            &&& b.still_anchor == input.feedback->0.estimate
        },
{
}

/// Movement seen while ramping raises suspicion.
pub proof fn law_movement_raises_suspicion(before: Assist, g: Sight, input: StartupInput)
    requires
        before.sound(),
        before.phase == StartupPhase::Ramping,
        before.given(g, input).0.fault is None,
        before.given(g, input).0.attempt is Some,
        input.feedback matches Some(f) && before.is_fresh(f) && moved(
            before.config,
            g,
            f.estimate.speed_mps,
        ),
    ensures
        before.given(g, input).0.attempt->0.motion_suspected,
{
}

/// Once motion is suspected in an attempt, it stays suspected.
pub proof fn law_suspicion_stays(
    before: Assist,
    g: Sight,
    input: StartupInput,
)
    requires
        before.attempt matches Some(a) && a.motion_suspected,
        before.given(g, input).0.attempt is Some,
    ensures
        before.given(g, input).0.attempt->0.motion_suspected,
{
}

/// The moving phase is entered only from ramping, and left only by a stop or a
/// fault: there is no automatic retry.
pub proof fn law_no_automatic_retry(
    before: Assist,
    g: Sight,
    input: StartupInput,
)
    requires
        before.sound(),
    ensures
        ({
            let after = before.given(g, input).0;
            &&& after.phase == StartupPhase::Moving && before.phase != StartupPhase::Moving
                ==> before.phase == StartupPhase::Ramping
            &&& before.phase == StartupPhase::Moving ==> after.phase == StartupPhase::Moving
                || after.phase == StartupPhase::Idle || after.phase == StartupPhase::Fault
        }),
{
}

/// An assist that is not enabled hands every request to drive on.
pub proof fn law_disabled_hands_off(
    before: Assist,
    g: Sight,
    input: StartupInput,
)
    requires
        before.sound(),
        !before.config.enabled,
        before.fault is None,
        input.command is Drive,
        before.last_tick matches Some(last) ==> last.0 < input.now.0,
    ensures
        before.given(g, input).1.action is Handoff,
{
}

/// The motor width that a turn of a run proposes.
pub open spec fn width(start: Assist, turns: Seq<Turn>, i: int) -> u16 {
    decision(start, turns, i).action->Preview_0
}

/// Whether a turn of a run proposes a larger width than the one before it.
pub open spec fn rises(start: Assist, turns: Seq<Turn>, i: int) -> bool {
    width(start, turns, i) != width(start, turns, i - 1)
}

/// Whether a turn of a run brings an observation that is newer than any before.
pub open spec fn observes(start: Assist, turns: Seq<Turn>, i: int) -> bool {
    turns[i] matches Turn::Step { input, .. } && input.feedback is Some && state(
        start,
        turns,
        i,
    ).is_fresh(input.feedback->0)
}

/// Whether a turn of a run observes that the vehicle has moved.
pub open spec fn shows_motion(start: Assist, turns: Seq<Turn>, i: int) -> bool {
    &&& observes(start, turns, i)
    &&& turns[i] matches Turn::Step { sight, input } && moved(
        start.config,
        sight,
        input.feedback->0.estimate.speed_mps,
    )
}

/// Whether an attempt measures its motion from the estimate held in a state.
pub open spec fn anchored(s: Assist, first: Assist) -> bool {
    &&& s.attempt is Some
    &&& first.feedback is Some
    &&& s.attempt->0.anchor == first.feedback->0.estimate
}

/// Whether a run from outside a ramp proposes in each of its turns: its first
/// turn is then the first proposal of an attempt.
pub open spec fn ramp(start: Assist, turns: Seq<Turn>) -> bool {
    &&& start.sound()
    &&& start.phase != StartupPhase::Ramping
    &&& turns.len() > 0
    &&& forall|i: int|
        0 <= i < turns.len() ==> (#[trigger] decision(start, turns, i)).action is Preview
}

/// The last turn before the `n`-th that rises, the first one where none does.
spec fn last_rise(start: Assist, turns: Seq<Turn>, n: int) -> int
    decreases n,
{
    if n <= 1 {
        0
    } else if rises(start, turns, n - 1) {
        n - 1
    } else {
        last_rise(start, turns, n - 1)
    }
}

/// What a turn that proposes does.
#[verifier::rlimit(40)]
proof fn lemma_proposing(before: Assist, turn: Turn)
    requires
        before.sound(),
        answer(before, turn).1.action is Preview,
    ensures
        before.fault is None,
        before.last_tick matches Some(last) ==> last.0 < turn.now().0,
        ({
            let (after, decision) = answer(before, turn);
            &&& after.sound()
            &&& after.config == before.config
            &&& after.phase == StartupPhase::Ramping
            &&& after.fault is None
            &&& after.last_tick == Some(turn.now())
            &&& after.attempt is Some
            &&& after.attempt->0.pwm == decision.action->Preview_0
            &&& before.phase != StartupPhase::Ramping ==> {
                &&& after.attempt->0.step_at == turn.now()
                &&& after.attempt->0.anchor == after.feedback->0.estimate
            }
            &&& before.phase == StartupPhase::Ramping ==> lifted(
                before,
                turn,
                after,
            )
        }),
        turn is Step,
{
    reveal(answer);
    if let Turn::Step { sight, input } = turn {
        law_soundness_is_kept(before, sight, input);
        if before.phase == StartupPhase::Ramping {
            law_width_rises_one_step_at_a_time(before, sight, input);
            if before.attempt->0.motion_suspected {
                law_suspicion_stays(before, sight, input);
            }
        }
    }
}

/// What a turn that proposes while ramping does to the attempt.
spec fn lifted(before: Assist, turn: Turn, after: Assist) -> bool {
    let a = before.attempt->0;
    let b = after.attempt->0;
    let input = turn->input;
    let new = input.feedback is Some && before.is_fresh(input.feedback->0);
    let motion = new && moved(
        before.config,
        turn->sight,
        input.feedback->0.estimate.speed_mps,
    );
    &&& b.anchor == a.anchor
    &&& b.pwm == a.pwm || b.pwm == a.pwm + before.config.step_us
    &&& b.pwm == a.pwm ==> b.step_at == a.step_at
    &&& b.pwm != a.pwm ==> {
        &&& b.step_at == turn.now()
        &&& !a.motion_suspected
        &&& new
        &&& !motion
        &&& turn.now().0 - a.step_at.0 >= before.config.step_wait_ms
    }
    &&& a.motion_suspected || motion ==> b.motion_suspected
}

proof fn lemma_no_proposal(before: Assist, turn: Turn)
    requires
        before.sound(),
        before.phase == StartupPhase::Moving || before.phase == StartupPhase::Fault,
    ensures
        ({
            let (after, decision) = answer(before, turn);
            &&& !(decision.action is Preview)
            &&& decision.phase == after.phase
            &&& after.phase == StartupPhase::Moving || after.phase == StartupPhase::Fault
                || after.phase == StartupPhase::Idle
        }),
{
    reveal(answer);
}

/// What holds after the first `n` turns of a ramp.
proof fn lemma_ramping(start: Assist, turns: Seq<Turn>, n: int)
    requires
        ramp(start, turns),
        1 <= n <= turns.len(),
    ensures
        ({
            let s = state(start, turns, n);
            &&& s.sound()
            &&& s.config == start.config
            &&& s.phase == StartupPhase::Ramping
            &&& s.fault is None
            &&& s.last_tick == Some(turns[n - 1].now())
            &&& s.attempt matches Some(a) && {
                &&& a.pwm == width(start, turns, n - 1)
                &&& a.anchor == state(start, turns, 1).feedback->0.estimate
                &&& a.step_at == turns[last_rise(start, turns, n)].now()
            }
            &&& 0 <= last_rise(start, turns, n) < n
        }),
        turns[n - 1] is Step,
        n > 1 ==> turns[n - 2].now().0 < turns[n - 1].now().0,
    decreases n,
{
    let before = state(start, turns, n - 1);
    let one = decision(start, turns, n - 1);
    if n > 1 {
        lemma_ramping(start, turns, n - 1);
    } else {
        assert(before == start);
    }
    lemma_proposing(before, turns[n - 1]);
}

/// Time goes on from turn to turn of a ramp.
proof fn lemma_time_goes_on(start: Assist, turns: Seq<Turn>, i: int, j: int)
    requires
        ramp(start, turns),
        0 <= i <= j < turns.len(),
    ensures
        turns[i].now().0 <= turns[j].now().0,
    decreases j - i,
{
    if i < j {
        lemma_ramping(start, turns, j + 1);
        lemma_time_goes_on(start, turns, i, j - 1);
    }
}

/// A rise is the last one until the next.
proof fn lemma_last_rise(start: Assist, turns: Seq<Turn>, k: int, n: int)
    requires
        1 <= k < n,
        rises(start, turns, k),
    ensures
        k <= last_rise(start, turns, n),
    decreases n,
{
    if n - 1 > k && !rises(start, turns, n - 1) {
        lemma_last_rise(start, turns, k, n - 1);
    }
}

/// Motion that a ramp has shown stays suspected.
proof fn lemma_motion_is_kept(start: Assist, turns: Seq<Turn>, k: int, n: int)
    requires
        ramp(start, turns),
        1 <= k < n <= turns.len(),
        shows_motion(start, turns, k),
    ensures
        state(start, turns, n).attempt->0.motion_suspected,
    decreases n,
{
    lemma_ramping(start, turns, n - 1);
    assert(decision(start, turns, n - 1).action is Preview);
    lemma_proposing(state(start, turns, n - 1), turns[n - 1]);
    if k < n - 1 {
        lemma_motion_is_kept(start, turns, k, n - 1);
    }
}

/// Over all the proposals of one attempt, from the first on, the motor width
/// stays or rises by exactly one step. It rises only on an observation newer
/// than all before, and only once the full wait has passed since the first
/// proposal and since every earlier rise. Once an observation after the first
/// proposal has shown motion, be it a distance from the place of the first
/// proposal or a speed, the width never rises again.
pub proof fn law_ramps_rise_in_steps(start: Assist, turns: Seq<Turn>)
    requires
        ramp(start, turns),
    ensures
        forall|i: int|
            1 <= i < turns.len() ==> (#[trigger] width(start, turns, i)) == width(
                start,
                turns,
                i - 1,
            ) || width(start, turns, i) == width(start, turns, i - 1) + start.config.step_us,
        forall|i: int|
            1 <= i < turns.len() && #[trigger] rises(start, turns, i) ==> {
                &&& observes(start, turns, i)
                &&& turns[i].now().0 - turns[0].now().0 >= start.config.step_wait_ms
            },
        forall|k: int, i: int|
            1 <= k < i < turns.len() && #[trigger] rises(start, turns, k) && #[trigger] rises(
                start,
                turns,
                i,
            ) ==> turns[i].now().0 - turns[k].now().0 >= start.config.step_wait_ms,
        forall|k: int, i: int|
            1 <= k <= i < turns.len() && #[trigger] shows_motion(start, turns, k)
                ==> !(#[trigger] rises(start, turns, i)),
        forall|i: int|
            0 < i <= turns.len() ==> anchored(
                #[trigger] state(start, turns, i),
                state(start, turns, 1),
            ),
{
    assert forall|i: int| 1 <= i < turns.len() implies (#[trigger] width(start, turns, i))
        == width(start, turns, i - 1) || width(start, turns, i) == width(start, turns, i - 1)
        + start.config.step_us by {
        lemma_one_step(start, turns, i);
    }
    assert forall|i: int| 1 <= i < turns.len() && #[trigger] rises(start, turns, i) implies {
        &&& observes(start, turns, i)
        &&& turns[i].now().0 - turns[0].now().0 >= start.config.step_wait_ms
    } by {
        lemma_rise(start, turns, i);
        lemma_ramping(start, turns, i);
        lemma_time_goes_on(start, turns, 0, last_rise(start, turns, i));
    }
    assert forall|k: int, i: int|
        1 <= k < i < turns.len() && #[trigger] rises(start, turns, k) && #[trigger] rises(
            start,
            turns,
            i,
        ) implies turns[i].now().0 - turns[k].now().0 >= start.config.step_wait_ms by {
        lemma_rise(start, turns, i);
        lemma_ramping(start, turns, i);
        lemma_last_rise(start, turns, k, i);
        lemma_time_goes_on(start, turns, k, last_rise(start, turns, i));
    }
    assert forall|k: int, i: int|
        1 <= k <= i < turns.len() && #[trigger] shows_motion(start, turns, k) implies !(
    #[trigger] rises(start, turns, i)) by {
        if rises(start, turns, i) {
            lemma_rise(start, turns, i);
            lemma_ramping(start, turns, i);
            if k < i {
                lemma_motion_is_kept(start, turns, k, i);
            }
        }
    }
    assert forall|i: int| 0 < i <= turns.len() implies anchored(
        #[trigger] state(start, turns, i),
        state(start, turns, 1),
    ) by {
        lemma_ramping(start, turns, 1);
        lemma_ramping(start, turns, i);
    }
}

proof fn lemma_one_step(start: Assist, turns: Seq<Turn>, i: int)
    requires
        ramp(start, turns),
        1 <= i < turns.len(),
    ensures
        width(start, turns, i) == width(start, turns, i - 1) || width(start, turns, i) == width(
            start,
            turns,
            i - 1,
        ) + start.config.step_us,
{
    lemma_ramping(start, turns, i);
    assert(decision(start, turns, i).action is Preview);
    lemma_proposing(state(start, turns, i), turns[i]);
}

/// What a rise takes.
proof fn lemma_rise(start: Assist, turns: Seq<Turn>, i: int)
    requires
        ramp(start, turns),
        1 <= i < turns.len(),
        rises(start, turns, i),
    ensures
        observes(start, turns, i),
        !shows_motion(start, turns, i),
        !state(start, turns, i).attempt->0.motion_suspected,
        turns[i].now().0 - turns[last_rise(start, turns, i)].now().0
            >= start.config.step_wait_ms,
{
    lemma_ramping(start, turns, i);
    assert(decision(start, turns, i).action is Preview);
    lemma_proposing(state(start, turns, i), turns[i]);
}

/// Between two proposals of which no turn in between is idle, every turn
/// proposes: they belong to one ramp.
pub proof fn law_ramps_are_unbroken(start: Assist, turns: Seq<Turn>, i: int, j: int)
    requires
        start.sound(),
        0 <= i < j < turns.len(),
        decision(start, turns, i).action is Preview,
        decision(start, turns, j).action is Preview,
        forall|k: int|
            i < k < j ==> (#[trigger] decision(start, turns, k)).phase != StartupPhase::Idle,
    ensures
        forall|k: int| i <= k <= j ==> (#[trigger] decision(start, turns, k)).action is Preview,
    decreases j - i,
{
    if i + 1 < j {
        lemma_after_a_proposal(start, turns, i);
        assert(decision(start, turns, i + 1).phase != StartupPhase::Idle);
        if !(decision(start, turns, i + 1).action is Preview) {
            lemma_no_way_back(start, turns, i + 2, j);
        }
        law_ramps_are_unbroken(start, turns, i + 1, j);
    }
}

proof fn lemma_proposals_ramp(before: Assist, turn: Turn)
    requires
        before.sound(),
        answer(before, turn).1.action is Preview,
    ensures
        answer(before, turn).0.phase == StartupPhase::Ramping,
{
    reveal(answer);
}

proof fn lemma_ways_out(before: Assist, turn: Turn)
    requires
        before.sound(),
        before.phase == StartupPhase::Ramping,
    ensures
        ({
            let (after, decision) = answer(before, turn);
            ||| decision.action is Preview
            ||| decision.phase == StartupPhase::Idle
            ||| after.phase == StartupPhase::Moving
            ||| after.phase == StartupPhase::Fault
        }),
{
    reveal(answer);
}

/// After a proposal comes another one, unless moving, a fault or idleness does.
proof fn lemma_after_a_proposal(start: Assist, turns: Seq<Turn>, i: int)
    requires
        start.sound(),
        i >= 0,
        decision(start, turns, i).action is Preview,
    ensures
        ({
            let next = decision(start, turns, i + 1);
            let phase = state(start, turns, i + 2).phase;
            ||| next.action is Preview
            ||| next.phase == StartupPhase::Idle
            ||| phase == StartupPhase::Moving
            ||| phase == StartupPhase::Fault
        }),
{
    lemma_sound_run(start, turns, i);
    lemma_sound_run(start, turns, i + 1);
    lemma_proposals_ramp(state(start, turns, i), turns[i]);
    lemma_ways_out(state(start, turns, i + 1), turns[i + 1]);
}

proof fn lemma_sound_run(start: Assist, turns: Seq<Turn>, n: int)
    requires
        start.sound(),
        n >= 0,
    ensures
        state(start, turns, n).sound(),
    decreases n,
{
    if n > 0 {
        lemma_sound_run(start, turns, n - 1);
        lemma_sound_turn(state(start, turns, n - 1), turns[n - 1]);
    }
}

/// From a fault, and from moving, only idleness leads to another proposal.
proof fn lemma_no_way_back(start: Assist, turns: Seq<Turn>, n: int, j: int)
    requires
        start.sound(),
        1 <= n <= j < turns.len(),
        state(start, turns, n).phase == StartupPhase::Moving || state(start, turns, n).phase
            == StartupPhase::Fault,
        forall|k: int|
            n <= k < j ==> (#[trigger] decision(start, turns, k)).phase != StartupPhase::Idle,
    ensures
        !(decision(start, turns, j).action is Preview),
    decreases j - n,
{
    lemma_sound_run(start, turns, n);
    lemma_no_proposal(state(start, turns, n), turns[n]);
    if n < j {
        assert(decision(start, turns, n).phase != StartupPhase::Idle);
        lemma_no_way_back(start, turns, n + 1, j);
    }
}

/// A fault ends a run: every later decision is the neutral command in the fault
/// phase, so that nothing is proposed or handed off again, and its reason is
/// that of the fault unless a refused localization has given another since.
pub proof fn law_nothing_follows_a_fault(start: Assist, turns: Seq<Turn>, i: int, j: int)
    requires
        start.sound(),
        0 <= i <= j < turns.len(),
        decision(start, turns, i).phase == StartupPhase::Fault,
    ensures
        decision(start, turns, j).phase == StartupPhase::Fault,
        decision(start, turns, j).action == start.neutral(),
        (forall|k: int| i < k <= j ==> (#[trigger] turns[k]) is Step) ==> decision(
            start,
            turns,
            j,
        ).reason == decision(start, turns, i).reason,
        state(start, turns, j + 1).fault == Some(decision(start, turns, j).reason),
        state(start, turns, j + 1).config == start.config,
    decreases j - i,
{
    lemma_config_stays(start, turns, j);
    lemma_sound_run(start, turns, j);
    if i < j {
        law_nothing_follows_a_fault(start, turns, i, j - 1);
        lemma_faulty_turn(state(start, turns, j), turns[j]);
    } else {
        lemma_reported_fault(state(start, turns, j), turns[j]);
    }
}

proof fn lemma_config_stays(start: Assist, turns: Seq<Turn>, n: int)
    requires
        start.sound(),
        n >= 0,
    ensures
        state(start, turns, n).config == start.config,
    decreases n,
{
    if n > 0 {
        lemma_config_stays(start, turns, n - 1);
        lemma_sound_run(start, turns, n - 1);
        lemma_sound_turn(state(start, turns, n - 1), turns[n - 1]);
    }
}

proof fn lemma_faulty_turn(before: Assist, turn: Turn)
    requires
        before.sound(),
        before.fault is Some,
    ensures
        ({
            let (after, decision) = answer(before, turn);
            &&& decision.phase == StartupPhase::Fault
            &&& decision.action == before.neutral()
            &&& turn is Step ==> Some(decision.reason) == before.fault
            &&& after.fault == Some(decision.reason)
            &&& after.config == before.config
        }),
{
    reveal(answer);
}

proof fn lemma_reported_fault(before: Assist, turn: Turn)
    requires
        before.sound(),
        answer(before, turn).1.phase == StartupPhase::Fault,
    ensures
        ({
            let (after, decision) = answer(before, turn);
            &&& decision.action == before.neutral()
            &&& after.fault == Some(decision.reason)
            &&& after.config == before.config
        }),
{
    reveal(answer);
}

} // verus!
