//! Bounded forward-start PWM proposals, without device I/O.
//!
//! The caller authorizes the whole actuator envelope, with the acceleration and
//! stopping distance measured for it. A request to drive alone is no permit.
use crate::autonomy::{Point2, PoseEstimate};
use crate::binary64::values::{HALF, ONE, PI, TAU, TWO, ZERO};
use crate::binary64::Binary64;
use crate::elementary::Elementary;
use crate::elementary;
use crate::protocol::chassis::PwmCommand;
use crate::protocol::chassis;
use crate::safety::MotionOutput;
use crate::safety;
use crate::sensors::{FrameId, Timestamp, ValidationError};
use crate::sensors;
use vstd::prelude::*;

pub mod corridor;
pub mod laws;

verus! {

#[derive(Clone, Debug)]
pub struct StartupConfig {
    pub enabled: bool,
    pub frame_id: FrameId,
    pub stop_motor_us: u16,
    pub stop_servo_us: u16,
    pub start_motor_us: u16,
    pub max_motor_us: u16,
    pub step_us: u16,
    pub step_wait_ms: u64,
    pub max_attempt_ms: u64,
    pub stationary_window_ms: u64,
    pub max_feedback_age_ms: u64,
    pub max_feedback_gap_ms: u64,
    pub min_stationary_samples: u32,
    pub min_motion_samples: u32,
    pub stationary_distance_m: Binary64,
    pub moving_distance_m: Binary64,
    pub stationary_speed_mps: Binary64,
    pub stationary_yaw_rate_radps: Binary64,
    pub moving_speed_mps: Binary64,
    pub max_speed_mps: Binary64,
    pub min_quality: Binary64,
    pub max_lateral_m: Binary64,
    pub max_start_distance_m: Binary64,
    pub max_yaw_rad: Binary64,
}

impl StartupConfig {
    pub open spec fn timing_ok(&self) -> bool {
        &&& self.stop_motor_us < self.start_motor_us <= self.max_motor_us <= 2500
        &&& 0 < self.step_us <= self.max_motor_us - self.stop_motor_us
        &&& 10 <= self.max_feedback_age_ms <= 1000
        &&& 10 <= self.max_feedback_gap_ms <= 1000
        &&& self.stationary_window_ms >= self.max_feedback_gap_ms
        &&& self.step_wait_ms >= self.stationary_window_ms
        &&& self.step_wait_ms < self.max_attempt_ms <= 30_000
        &&& 3 <= self.min_stationary_samples <= 100
        &&& 2 <= self.min_motion_samples <= 100
    }

    pub open spec fn thresholds_ok(&self) -> bool {
        &&& safety::positive(self.stationary_distance_m)
        &&& safety::positive(self.moving_distance_m)
        &&& safety::positive(self.stationary_speed_mps)
        &&& safety::positive(self.stationary_yaw_rate_radps)
        &&& safety::positive(self.moving_speed_mps)
        &&& safety::positive(self.max_speed_mps)
        &&& safety::positive(self.min_quality)
        &&& safety::positive(self.max_lateral_m)
        &&& safety::positive(self.max_start_distance_m)
        &&& safety::positive(self.max_yaw_rad)
        &&& !self.moving_distance_m.le(Binary64::of(TWO).times(self.stationary_distance_m))
        &&& !self.moving_speed_mps.le(self.stationary_speed_mps)
        &&& !self.max_speed_mps.le(self.moving_speed_mps)
        &&& !self.max_start_distance_m.le(self.moving_distance_m)
        &&& !Binary64::of(ONE).lt(self.min_quality)
        &&& !Binary64::of(HALF).lt(self.max_yaw_rad)
    }

    /// What is wrong with a configuration, the first of these that applies.
    pub open spec fn fault(&self) -> Option<Seq<char>> {
        if sensors::frame_fault(self.frame_id@) is Some {
            sensors::frame_fault(self.frame_id@)
        } else if chassis::pwm_fault(self.stop_motor_us, self.stop_servo_us) is Some {
            chassis::pwm_fault(self.stop_motor_us, self.stop_servo_us)
        } else if !self.timing_ok() {
            Some("invalid startup PWM or timing limits"@)
        } else if !self.thresholds_ok() {
            Some("invalid startup motion/quality thresholds"@)
        } else {
            None
        }
    }

    pub fn validate(&self) -> (r: Result<(), ValidationError>)
        ensures
            sensors::refusal(r) == self.fault(),
    {
        self.frame_id.validate()?;
        if let Err(error) = PwmCommand::new(self.stop_motor_us, self.stop_servo_us) {
            return Err(error);
        }
        if !(self.stop_motor_us < self.start_motor_us && self.start_motor_us <= self.max_motor_us
            && self.max_motor_us <= 2500 && self.step_us > 0 && self.step_us <= self.max_motor_us
            - self.stop_motor_us && 10 <= self.max_feedback_age_ms && self.max_feedback_age_ms
            <= 1000 && 10 <= self.max_feedback_gap_ms && self.max_feedback_gap_ms <= 1000
            && self.stationary_window_ms >= self.max_feedback_gap_ms && self.step_wait_ms
            >= self.stationary_window_ms && self.max_attempt_ms > self.step_wait_ms
            && self.max_attempt_ms <= 30_000 && 3 <= self.min_stationary_samples
            && self.min_stationary_samples <= 100 && 2 <= self.min_motion_samples
            && self.min_motion_samples <= 100) {
            return Err(ValidationError::new("invalid startup PWM or timing limits"));
        }
        if !(safety::is_positive(self.stationary_distance_m) && safety::is_positive(
            self.moving_distance_m,
        ) && safety::is_positive(self.stationary_speed_mps) && safety::is_positive(
            self.stationary_yaw_rate_radps,
        ) && safety::is_positive(self.moving_speed_mps) && safety::is_positive(self.max_speed_mps)
            && safety::is_positive(self.min_quality) && safety::is_positive(self.max_lateral_m)
            && safety::is_positive(self.max_start_distance_m) && safety::is_positive(
            self.max_yaw_rad,
        )) || self.moving_distance_m.at_most(
            Binary64::of(TWO).times(self.stationary_distance_m),
        ) || self.moving_speed_mps.at_most(self.stationary_speed_mps) || self.max_speed_mps.at_most(
            self.moving_speed_mps,
        ) || self.max_start_distance_m.at_most(self.moving_distance_m) || Binary64::of(ONE).less(
            self.min_quality,
        ) || Binary64::of(HALF).less(self.max_yaw_rad) {
            return Err(ValidationError::new("invalid startup motion/quality thresholds"));
        }
        Ok(())
    }
}

/// A short-lived authorization from upstream for a *bounded PWM envelope*. It
/// covers the boosted output, not merely the nominal speed.
#[derive(Clone, Copy, Debug)]
pub struct StartupPermit {
    pub issued_at: Timestamp,
    pub valid_until: Timestamp,
    pub max_motor_us: u16,
    pub max_speed_mps: Binary64,
}

#[derive(Clone, Debug)]
pub struct StartupFeedback {
    pub accepted: bool,
    /// Changes whenever localization is reset or anchored anew.
    pub localization_epoch: u64,
    pub estimate: PoseEstimate,
}

#[derive(Clone, Debug)]
pub struct StartupInput {
    pub now: Timestamp,
    pub command: MotionOutput,
    pub nominal_motor_us: u16,
    pub nominal_servo_us: u16,
    pub permit: Option<StartupPermit>,
    /// `None` means no new observation, not a stationary vehicle. What was
    /// observed before still expires.
    pub feedback: Option<StartupFeedback>,
}

/// What localization made of a scan.
#[derive(Clone, Debug)]
pub struct LocalizationUpdate {
    pub accepted: bool,
    pub estimate: Option<PoseEstimate>,
}

#[derive(Clone, Copy, Debug, PartialEq, Eq, Structural)]
pub enum StartupPhase {
    Idle,
    Observing,
    Ramping,
    Moving,
    Fault,
}

#[derive(Clone, Copy, Debug)]
pub enum StartupAction {
    Stop { command: PwmCommand },
    /// A proposal only: it still has to pass the final actuator gate.
    Preview { command: PwmCommand },
    /// Drop the boost and return control to the normal speed loop.
    Handoff,
}

#[derive(Clone, Debug)]
pub struct StartupDecision {
    pub at: Timestamp,
    pub phase: StartupPhase,
    pub action: StartupAction,
    pub reason: String,
}

/// One attempt to get the vehicle moving.
pub struct Attempt {
    pub started: Timestamp,
    pub step_at: Timestamp,
    pub anchor: PoseEstimate,
    pub still_anchor: PoseEstimate,
    pub still_since: Timestamp,
    pub still_samples: u32,
    pub motion_samples: u32,
    pub motion_suspected: bool,
    pub pwm: u16,
    pub nominal_motor_us: u16,
    pub nominal_servo_us: u16,
    pub request: MotionOutput,
}

/// An action with its widths as numbers.
pub enum Action {
    Stop(u16, u16),
    Preview(u16, u16),
    Handoff,
}

impl View for StartupAction {
    type V = Action;

    open spec fn view(&self) -> Action {
        match self {
            StartupAction::Stop { command } => Action::Stop(command@.0, command@.1),
            StartupAction::Preview { command } => Action::Preview(command@.0, command@.1),
            StartupAction::Handoff => Action::Handoff,
        }
    }
}

/// A decision with its reason as a sequence of characters.
pub struct Decision {
    pub at: Timestamp,
    pub phase: StartupPhase,
    pub action: Action,
    pub reason: Seq<char>,
}

impl View for StartupDecision {
    type V = Decision;

    open spec fn view(&self) -> Decision {
        Decision { at: self.at, phase: self.phase, action: self.action@, reason: self.reason@ }
    }
}

/// How an estimate lies to the places that an attempt remembers: where it is
/// seen from the anchor and how far from it, and how far from where the vehicle
/// last stood still.
pub struct Sight {
    pub relative: Point2,
    pub reach: Binary64,
    pub excursion: Binary64,
}

/// The state of the assist.
pub struct Assist {
    pub config: StartupConfig,
    pub phase: StartupPhase,
    pub fault: Option<Seq<char>>,
    pub last_tick: Option<Timestamp>,
    pub feedback: Option<StartupFeedback>,
    pub attempt: Option<Attempt>,
}

pub open spec fn smaller(a: u16, b: u16) -> u16 {
    if a <= b {
        a
    } else {
        b
    }
}

pub open spec fn larger(a: u16, b: u16) -> u16 {
    if a <= b {
        b
    } else {
        a
    }
}

/// A sum that stops at the largest time.
pub open spec fn capped_sum(a: u64, b: u64) -> u64 {
    if a + b > u64::MAX {
        u64::MAX
    } else {
        (a + b) as u64
    }
}

/// An angle difference brought to the range from `-pi` to `pi`.
pub open spec fn turned(to: Binary64, from: Binary64) -> Binary64 {
    to.minus(from).plus(Binary64::of(PI)).rem_euclid(Binary64::of(TAU)).minus(Binary64::of(PI))
}

impl StartupConfig {
    /// The motor width that both the configuration and the permit allow.
    pub open spec fn cap(&self, permit: StartupPermit) -> u16 {
        smaller(permit.max_motor_us, self.max_motor_us)
    }

    /// The speed that both the configuration and the permit allow.
    pub open spec fn speed_cap(&self, permit: StartupPermit) -> Binary64 {
        permit.max_speed_mps.min(self.max_speed_mps)
    }

    /// Whether a permit covers a time.
    pub open spec fn permits(&self, permit: StartupPermit, now: Timestamp) -> bool {
        &&& permit.issued_at.0 <= now.0 < permit.valid_until.0
        &&& permit.valid_until.0 - permit.issued_at.0 <= self.max_feedback_age_ms
        &&& safety::positive(permit.max_speed_mps)
    }

    /// Whether an estimate can be used at a time.
    pub open spec fn usable(&self, p: &PoseEstimate, now: Timestamp) -> bool {
        &&& p.frame_id@ == self.frame_id@
        &&& p.pose.finite()
        &&& p.speed_mps.finite()
        &&& p.yaw_rate_radps.finite()
        &&& p.quality.finite()
        &&& !p.quality.lt(self.min_quality)
        &&& !Binary64::of(ONE).lt(p.quality)
        &&& p.captured_at.0 <= now.0
    }

    /// Whether a vehicle that ramps has left the corridor ahead of its anchor.
    pub open spec fn strayed(&self, relative: Point2, reach: Binary64, yaw: Binary64) -> bool {
        ||| self.max_start_distance_m.lt(reach)
        ||| relative.x_m.lt(self.moving_distance_m.negated())
        ||| self.max_lateral_m.lt(relative.y_m.abs())
        ||| self.max_yaw_rad.lt(yaw.abs())
    }

    /// The stillness record after a fresh estimate: restarted where the vehicle
    /// moved or turned, else one sample longer.
    pub open spec fn stillness(&self, a: Attempt, pose: PoseEstimate, excursion: Binary64) -> Attempt {
        if self.stationary_distance_m.lt(excursion) || self.stationary_speed_mps.lt(
            pose.speed_mps.abs(),
        ) || self.stationary_yaw_rate_radps.lt(pose.yaw_rate_radps.abs()) {
            Attempt {
                still_anchor: pose,
                still_since: pose.captured_at,
                still_samples: 0,
                ..a
            }
        } else {
            Attempt {
                still_samples: if a.still_samples == u32::MAX {
                    u32::MAX
                } else {
                    (a.still_samples + 1) as u32
                },
                ..a
            }
        }
    }

    /// The motion record after a fresh estimate.
    pub open spec fn motion(&self, a: Attempt, ramping: bool, pose: PoseEstimate, x_m: Binary64) -> Attempt {
        Attempt {
            motion_samples: if ramping && self.moving_distance_m.le(x_m)
                && self.moving_speed_mps.le(pose.speed_mps) {
                (a.motion_samples + 1) as u32
            } else {
                0
            },
            ..a
        }
    }

    /// An attempt after an estimate. Only a fresh one counts. A displacement
    /// while ramping, however brief, forbids more torque in this attempt.
    pub open spec fn assessed(
        &self,
        a: Attempt,
        ramping: bool,
        fresh: bool,
        pose: PoseEstimate,
        x_m: Binary64,
        reach: Binary64,
        excursion: Binary64,
    ) -> Attempt {
        if !fresh {
            a
        } else {
            let suspected = Attempt {
                motion_suspected: a.motion_suspected || (ramping && (self.stationary_distance_m.lt(
                    reach,
                ) || self.stationary_speed_mps.lt(pose.speed_mps.abs()))),
                ..a
            };
            self.motion(self.stillness(suspected, pose, excursion), ramping, pose, x_m)
        }
    }

    /// Whether a fresh estimate completes a stationary window.
    pub open spec fn stationary(&self, a: Attempt, fresh: bool, pose: PoseEstimate) -> bool {
        &&& fresh
        &&& a.still_samples >= self.min_stationary_samples
        &&& pose.captured_at.0 - a.still_since.0 >= self.stationary_window_ms
    }
}

impl Assist {
    pub open spec fn initial(config: StartupConfig) -> Self {
        Assist {
            config,
            phase: StartupPhase::Idle,
            fault: None,
            last_tick: None,
            feedback: None,
            attempt: None,
        }
    }

    pub open spec fn neutral(self) -> Action {
        Action::Stop(self.config.stop_motor_us, self.config.stop_servo_us)
    }

    /// A decision that leaves the state as it is.
    pub open spec fn decide(self, now: Timestamp, action: Action, reason: Seq<char>) -> (
        Assist,
        Decision,
    ) {
        (self, Decision { at: now, phase: self.phase, action, reason })
    }

    /// A fault, which stops the vehicle and latches.
    pub open spec fn fail(self, now: Timestamp, reason: Seq<char>) -> (Assist, Decision) {
        let faulted = Assist { phase: StartupPhase::Fault, fault: Some(reason), ..self };
        faulted.decide(now, faulted.neutral(), reason)
    }

    /// The state without any attempt.
    pub open spec fn rested(self) -> Self {
        Assist { phase: StartupPhase::Idle, attempt: None, feedback: None, ..self }
    }

    /// Why a request to drive is not authorized.
    pub open spec fn unauthorized(self, input: StartupInput, speed: Binary64) -> Option<Seq<char>> {
        match input.permit {
            None => Some("permit_missing"@),
            Some(permit) => if !self.config.permits(permit, input.now) {
                Some("permit_invalid_or_expired"@)
            } else if self.config.speed_cap(permit).lt(speed) || input.nominal_motor_us
                <= self.config.stop_motor_us || input.nominal_motor_us > self.config.cap(permit)
                || chassis::pwm_fault(input.nominal_motor_us, input.nominal_servo_us) is Some {
                Some("nominal_request_outside_authorized_envelope"@)
            } else {
                None
            },
        }
    }

    /// Why a new observation is refused.
    pub open spec fn feedback_fault(self, f: StartupFeedback, now: Timestamp) -> Option<Seq<char>> {
        let p = f.estimate;
        if !f.accepted || !self.config.usable(&p, now) {
            Some("feedback_rejected_or_invalid"@)
        } else {
            match self.feedback {
                None => None,
                Some(old) => {
                    let before = old.estimate.captured_at;
                    if f.localization_epoch != old.localization_epoch {
                        Some("localization_reset"@)
                    } else if p.captured_at.0 < before.0 {
                        Some("feedback_time_regression"@)
                    } else if p.captured_at == before && !p.same(&old.estimate) {
                        Some("changed_duplicate_feedback"@)
                    } else if p.captured_at.0 - before.0 > self.config.max_feedback_gap_ms {
                        Some("feedback_gap"@)
                    } else {
                        None
                    }
                },
            }
        }
    }

    /// Whether an accepted observation is newer than the one held.
    pub open spec fn is_fresh(self, f: StartupFeedback) -> bool {
        self.feedback is None || f.estimate.captured_at.0
            > self.feedback->0.estimate.captured_at.0
    }

    /// The state with an attempt under way.
    pub open spec fn begun(self, input: StartupInput, pose: PoseEstimate) -> Self {
        if self.attempt is Some {
            self
        } else {
            Assist {
                attempt: Some(
                    Attempt {
                        started: input.now,
                        step_at: input.now,
                        anchor: pose,
                        still_anchor: pose,
                        still_since: pose.captured_at,
                        still_samples: 0,
                        motion_samples: 0,
                        motion_suspected: false,
                        pwm: larger(self.config.start_motor_us, input.nominal_motor_us),
                        nominal_motor_us: input.nominal_motor_us,
                        nominal_servo_us: input.nominal_servo_us,
                        request: input.command,
                    },
                ),
                phase: StartupPhase::Observing,
                ..self
            }
        }
    }

    /// Why an attempt that has not succeeded yet ends here.
    pub open spec fn expired(self, input: StartupInput, cap: u16) -> Option<Seq<char>> {
        let a = self.attempt->0;
        if self.phase == StartupPhase::Moving {
            None
        } else if !a.request.same(input.command) || a.nominal_motor_us != input.nominal_motor_us
            || a.nominal_servo_us != input.nominal_servo_us {
            Some("request_changed_requires_stop"@)
        } else if a.pwm > cap {
            Some("authorized_pwm_limit"@)
        } else if input.now.0 - a.started.0 >= self.config.max_attempt_ms {
            Some("startup_timeout"@)
        } else {
            None
        }
    }

    /// The decision once an attempt has been assessed.
    pub open spec fn concluded(
        self,
        input: StartupInput,
        cap: u16,
        fresh: bool,
        pose: PoseEstimate,
    ) -> (Assist, Decision) {
        let now = input.now;
        let a = self.attempt->0;
        let stationary = self.config.stationary(a, fresh, pose);
        let restarted = Attempt { still_since: pose.captured_at, still_samples: 0, ..a };
        if self.phase == StartupPhase::Moving {
            if stationary {
                self.fail(now, "stalled_after_start_no_automatic_retry"@)
            } else {
                self.decide(now, Action::Handoff, "normal_speed_control"@)
            }
        } else if self.phase == StartupPhase::Observing {
            if !stationary {
                self.decide(now, self.neutral(), "confirming_stationary_baseline"@)
            } else {
                Assist {
                    attempt: Some(Attempt { anchor: pose, step_at: now, ..restarted }),
                    phase: StartupPhase::Ramping,
                    ..self
                }.proposed(input)
            }
        } else if a.motion_samples >= self.config.min_motion_samples {
            Assist {
                attempt: Some(Attempt { still_anchor: pose, ..restarted }),
                phase: StartupPhase::Moving,
                ..self
            }.decide(now, Action::Handoff, "motion_confirmed_stop_increasing"@)
        } else if !a.motion_suspected && stationary && now.0 - a.step_at.0
            >= self.config.step_wait_ms && pose.captured_at.0 >= capped_sum(
            a.step_at.0,
            self.config.stationary_window_ms,
        ) {
            if a.pwm + self.config.step_us > cap {
                self.fail(now, "startup_pwm_limit_without_motion"@)
            } else {
                Assist {
                    attempt: Some(
                        Attempt {
                            pwm: (a.pwm + self.config.step_us) as u16,
                            step_at: now,
                            ..restarted
                        },
                    ),
                    ..self
                }.proposed(input)
            }
        } else {
            self.proposed(input)
        }
    }

    /// The proposal of the attempt's motor width.
    pub open spec fn proposed(self, input: StartupInput) -> (Assist, Decision) {
        self.decide(
            input.now,
            Action::Preview(self.attempt->0.pwm, input.nominal_servo_us),
            "bounded_startup_proposal"@,
        )
    }

    /// The attempt judged by a usable estimate.
    pub open spec fn driven(
        self,
        g: Sight,
        input: StartupInput,
        permit: StartupPermit,
        fresh: bool,
        pose: PoseEstimate,
    ) -> (Assist, Decision) {
        let now = input.now;
        let cap = self.config.cap(permit);
        let a = self.attempt->0;
        let ramping = self.phase == StartupPhase::Ramping;
        let yaw = turned(pose.pose.yaw_rad, a.anchor.pose.yaw_rad);
        if self.expired(input, cap) is Some {
            self.fail(now, self.expired(input, cap)->0)
        } else if ramping && self.config.strayed(g.relative, g.reach, yaw) {
            self.fail(now, "unexpected_motion"@)
        } else {
            let assessed = self.config.assessed(
                a,
                ramping,
                fresh,
                pose,
                g.relative.x_m,
                g.reach,
                g.excursion,
            );
            Assist { attempt: Some(assessed), ..self }.concluded(input, cap, fresh, pose)
        }
    }

    /// The step for an authorized request: take the observation, then judge.
    pub open spec fn observed(
        self,
        g: Sight,
        input: StartupInput,
        permit: StartupPermit,
    ) -> (Assist, Decision) {
        let now = input.now;
        let refused = match input.feedback {
            None => None,
            Some(f) => self.feedback_fault(f, now),
        };
        let fresh = input.feedback is Some && self.is_fresh(input.feedback->0);
        let seen = Assist {
            feedback: if input.feedback is Some {
                input.feedback
            } else {
                self.feedback
            },
            ..self
        };
        if refused is Some {
            self.fail(now, refused->0)
        } else if seen.feedback is None {
            seen.fail(now, "feedback_missing"@)
        } else {
            let pose = seen.feedback->0.estimate;
            if now.0 - pose.captured_at.0 >= self.config.max_feedback_age_ms {
                seen.fail(now, "feedback_stale"@)
            } else if self.config.speed_cap(permit).lt(pose.speed_mps.abs()) {
                seen.fail(now, "measured_speed_limit"@)
            } else {
                seen.begun(input, pose).driven(g, input, permit, fresh, pose)
            }
        }
    }

    /// The estimate that a step judges: a new one, else the one held.
    pub open spec fn judged(self, input: StartupInput) -> PoseEstimate {
        if input.feedback is Some {
            input.feedback->0.estimate
        } else {
            self.feedback->0.estimate
        }
    }

    /// How an estimate lies by the host's geometry.
    pub open spec fn sight(self, m: spec_fn(Elementary) -> Binary64, pose: PoseEstimate) -> Sight {
        let (anchor, still) = match self.attempt {
            Some(a) => (a.anchor, a.still_anchor),
            None => (pose, pose),
        };
        let relative = anchor.pose.seen(m, pose.pose.point());
        Sight {
            relative,
            reach: m(Elementary::Length { x: relative.x_m, y: relative.y_m }),
            excursion: m(still.pose.point().separation(pose.pose.point())),
        }
    }

    /// One control step by the host's geometry.
    pub open spec fn step(self, m: spec_fn(Elementary) -> Binary64, input: StartupInput) -> (
        Assist,
        Decision,
    ) {
        self.given(self.sight(m, self.judged(input)), input)
    }

    /// One control step. What the host has to say of an estimate is used only
    /// where an authorized attempt is judged by it.
    pub open spec fn given(self, g: Sight, input: StartupInput) -> (Assist, Decision) {
        let now = input.now;
        if self.fault is Some {
            self.decide(now, self.neutral(), self.fault->0)
        } else if self.last_tick is Some && now.0 <= (self.last_tick->0).0 {
            self.fail(now, "control_time_not_increasing"@)
        } else {
            let gap = self.last_tick is Some && now.0 - (self.last_tick->0).0
                > self.config.max_feedback_gap_ms;
            let ticked = Assist { last_tick: Some(now), ..self };
            match input.command {
                MotionOutput::Stop => {
                    let rested = ticked.rested();
                    rested.decide(now, rested.neutral(), "upstream_stop"@)
                },
                MotionOutput::Drive { speed_mps, curvature_per_m } => if !self.config.enabled {
                    ticked.decide(now, Action::Handoff, "disabled"@)
                } else if gap && self.attempt is Some {
                    ticked.fail(now, "control_gap"@)
                } else if !speed_mps.finite() || !curvature_per_m.finite() || speed_mps.lt(
                    Binary64::of(ZERO),
                ) {
                    ticked.fail(now, "invalid_or_reverse_request"@)
                } else if speed_mps.same(Binary64::of(ZERO)) {
                    let rested = ticked.rested();
                    rested.decide(now, rested.neutral(), "zero_speed_request"@)
                } else if ticked.unauthorized(input, speed_mps) is Some {
                    ticked.fail(now, ticked.unauthorized(input, speed_mps)->0)
                } else {
                    ticked.observed(g, input, input.permit->0)
                },
            }
        }
    }

    /// The input that a localization update makes of another one: the update is
    /// its feedback. A request to stop wins over the update, and an update that
    /// was refused makes none.
    pub open spec fn relayed(
        input: StartupInput,
        epoch: u64,
        update: LocalizationUpdate,
    ) -> Option<StartupInput> {
        if input.command is Stop {
            Some(input)
        } else if !update.accepted || update.estimate is None {
            None
        } else {
            Some(
                StartupInput {
                    feedback: Some(
                        StartupFeedback {
                            accepted: true,
                            localization_epoch: epoch,
                            estimate: update.estimate->0,
                        },
                    ),
                    ..input
                },
            )
        }
    }

    /// What every reachable state satisfies.
    pub open spec fn sound(self) -> bool {
        &&& self.config.fault() is None
        &&& self.fault is Some <==> self.phase == StartupPhase::Fault
        &&& self.feedback matches Some(f) ==> {
            &&& self.last_tick is Some
            &&& f.estimate.captured_at.0 <= (self.last_tick->0).0
        }
        &&& self.phase == StartupPhase::Idle ==> self.attempt is None
        &&& self.attempt is None && self.fault is None ==> self.phase == StartupPhase::Idle
        &&& self.attempt matches Some(a) ==> {
            &&& self.config.enabled
            &&& self.feedback is Some
            &&& a.started.0 <= (self.last_tick->0).0
            &&& a.step_at.0 <= (self.last_tick->0).0
            &&& a.still_since.0 <= self.feedback->0.estimate.captured_at.0
            &&& a.motion_samples <= self.config.min_motion_samples
            &&& self.phase == StartupPhase::Observing ==> a.motion_samples == 0
            &&& self.phase == StartupPhase::Ramping ==> a.motion_samples
                < self.config.min_motion_samples
            &&& self.phase == StartupPhase::Observing ==> !a.motion_suspected
            &&& self.config.start_motor_us <= a.pwm <= self.config.max_motor_us
            &&& a.nominal_motor_us <= a.pwm
        }
    }
}

pub struct StartupAssist {
    config: StartupConfig,
    phase: StartupPhase,
    fault: Option<String>,
    last_tick: Option<Timestamp>,
    feedback: Option<StartupFeedback>,
    attempt: Option<Attempt>,
}

impl View for StartupAssist {
    type V = Assist;

    closed spec fn view(&self) -> Assist {
        Assist {
            config: self.config,
            phase: self.phase,
            fault: match self.fault {
                None => None,
                Some(reason) => Some(reason@),
            },
            last_tick: self.last_tick,
            feedback: self.feedback,
            attempt: self.attempt,
        }
    }
}

fn smaller_of(a: u16, b: u16) -> (r: u16)
    ensures
        r == smaller(a, b),
{
    if a <= b {
        a
    } else {
        b
    }
}

fn larger_of(a: u16, b: u16) -> (r: u16)
    ensures
        r == larger(a, b),
{
    if a <= b {
        b
    } else {
        a
    }
}

impl StartupAssist {
    pub fn new(config: StartupConfig) -> (r: Result<Self, ValidationError>)
        ensures
            sensors::refusal(r) == config.fault(),
            r matches Ok(assist) ==> assist@ == Assist::initial(config) && assist@.sound(),
    {
        config.validate()?;
        Ok(
            StartupAssist {
                config,
                phase: StartupPhase::Idle,
                fault: None,
                last_tick: None,
                feedback: None,
                attempt: None,
            },
        )
    }

    pub fn config(&self) -> (r: &StartupConfig)
        ensures
            *r == self@.config,
    {
        &self.config
    }

    /// Takes the result of scan localization. Localization has to be warm before
    /// arming: every refusal while armed is final.
    pub fn update_with_localization<F: Fn(Elementary) -> Binary64>(
        &mut self,
        input: StartupInput,
        epoch: u64,
        update: &LocalizationUpdate,
        host: &F,
    ) -> (r: StartupDecision)
        requires
            old(self)@.sound(),
            elementary::total(*host),
        ensures
            final(self)@.sound(),
            match Assist::relayed(input, epoch, *update) {
                None => (final(self)@, r@) == old(self)@.fail(
                    input.now,
                    "localization_rejected"@,
                ),
                Some(relayed) => {
                    &&& exists|g: Sight| #[trigger]
                        old(self)@.given(g, relayed) == (final(self)@, r@)
                    &&& forall|m: spec_fn(Elementary) -> Binary64| #[trigger]
                        elementary::models(*host, m) ==> (final(self)@, r@) == old(self)@.step(
                            m,
                            relayed,
                        )
                },
            },
    {
        // A request to stop always wins over the sensor.
        if let MotionOutput::Stop = input.command {
            return self.update(input, host);
        }
        if !update.accepted {
            return self.reject_localization(input.now);
        }
        match &update.estimate {
            None => self.reject_localization(input.now),
            Some(estimate) => {
                let feedback: StartupFeedback = StartupFeedback {
                    accepted: true,
                    localization_epoch: epoch,
                    estimate: estimate.clone(),
                };
                self.update(StartupInput { feedback: Some(feedback), ..input }, host)
            },
        }
    }

    /// Takes a refused localization update. A refusal is not a missing
    /// observation.
    pub fn reject_localization(&mut self, now: Timestamp) -> (r: StartupDecision)
        requires
            old(self)@.sound(),
        ensures
            final(self)@.sound(),
            (final(self)@, r@) == old(self)@.fail(now, "localization_rejected"@),
    {
        self.fail(now, "localization_rejected")
    }

    fn decision(&self, at: Timestamp, action: StartupAction, reason: &str) -> (r: StartupDecision)
        ensures
            (self@, r@) == self@.decide(at, action@, reason@),
    {
        StartupDecision { at, phase: self.phase, action, reason: reason.to_owned() }
    }

    fn stop(&self, at: Timestamp, reason: &str) -> (r: StartupDecision)
        requires
            self@.config.fault() is None,
        ensures
            (self@, r@) == self@.decide(at, self@.neutral(), reason@),
    {
        let command: PwmCommand = command_of(self.config.stop_motor_us, self.config.stop_servo_us);
        self.decision(at, StartupAction::Stop { command }, reason)
    }

    fn fail(&mut self, at: Timestamp, reason: &str) -> (r: StartupDecision)
        requires
            old(self)@.config.fault() is None,
        ensures
            (final(self)@, r@) == old(self)@.fail(at, reason@),
            old(self)@.sound() ==> final(self)@.sound(),
    {
        self.phase = StartupPhase::Fault;
        self.fault = Some(reason.to_owned());
        self.stop(at, reason)
    }

    /// One control step. A fault latches, also across a request to stop: only a
    /// new instance, which observes a stationary vehicle first, boosts again.
    pub fn update<F: Fn(Elementary) -> Binary64>(&mut self, input: StartupInput, host: &F) -> (r:
        StartupDecision)
        requires
            old(self)@.sound(),
            elementary::total(*host),
        ensures
            final(self)@.sound(),
            exists|g: Sight| #[trigger] old(self)@.given(g, input) == (final(self)@, r@),
            old(self)@.fault matches Some(reason) ==> final(self)@ == old(self)@ && r@
                == (Decision {
                at: input.now,
                phase: StartupPhase::Fault,
                action: old(self)@.neutral(),
                reason,
            }),
            forall|m: spec_fn(Elementary) -> Binary64| #[trigger]
                elementary::models(*host, m) ==> (final(self)@, r@) == old(self)@.step(m, input),
    {
        let ghost unseen = self@.given(arbitrary(), input);
        let now: Timestamp = input.now;
        if let Some(reason) = &self.fault {
            return self.stop(now, reason.as_str());
        }
        let mut gap: bool = false;
        if let Some(last) = self.last_tick {
            if now.0 <= last.0 {
                return self.fail(now, "control_time_not_increasing");
            }
            gap = now.0 - last.0 > self.config.max_feedback_gap_ms;
        }
        self.last_tick = Some(now);
        match input.command {
            MotionOutput::Stop => {
                self.rest();
                self.stop(now, "upstream_stop")
            },
            MotionOutput::Drive { speed_mps, curvature_per_m } => {
                if !self.config.enabled {
                    return self.decision(now, StartupAction::Handoff, "disabled");
                }
                if gap && self.attempt.is_some() {
                    return self.fail(now, "control_gap");
                }
                if !speed_mps.is_finite() || !curvature_per_m.is_finite() || speed_mps.less(
                    Binary64::of(ZERO),
                ) {
                    return self.fail(now, "invalid_or_reverse_request");
                }
                if speed_mps.equals(Binary64::of(ZERO)) {
                    self.rest();
                    return self.stop(now, "zero_speed_request");
                }
                match self.authorize(&input, speed_mps) {
                    Err(reason) => self.fail(now, reason),
                    Ok(permit) => {
                        let ghost ready = self@;
                        let ghost asked = input;
                        let decision: StartupDecision = self.observe(input, permit, host);
                        proof {
                            let g = choose|g: Sight| #[trigger]
                                ready.observed(g, asked, permit) == (self@, decision@);
                            assert(old(self)@.given(g, asked) == (self@, decision@));
                        }
                        decision
                    },
                }
            },
        }
    }

    fn rest(&mut self)
        ensures
            final(self)@ == old(self)@.rested(),
    {
        self.phase = StartupPhase::Idle;
        self.attempt = None;
        self.feedback = None;
    }

    fn authorize(&self, input: &StartupInput, speed: Binary64) -> (r: Result<
        StartupPermit,
        &'static str,
    >)
        ensures
            match r {
                Ok(permit) => self@.unauthorized(*input, speed) is None && input.permit == Some(
                    permit,
                ),
                Err(reason) => self@.unauthorized(*input, speed) == Some(reason@),
            },
    {
        let permit: StartupPermit = match input.permit {
            None => {
                return Err("permit_missing");
            },
            Some(permit) => permit,
        };
        let now: Timestamp = input.now;
        if permit.issued_at.0 > now.0 || permit.valid_until.0 <= now.0 || permit.valid_until.0
            - permit.issued_at.0 > self.config.max_feedback_age_ms || !safety::is_positive(
            permit.max_speed_mps,
        ) {
            return Err("permit_invalid_or_expired");
        }
        let cap: u16 = smaller_of(permit.max_motor_us, self.config.max_motor_us);
        let speed_cap: Binary64 = permit.max_speed_mps.min(self.config.max_speed_mps);
        if speed_cap.less(speed) || input.nominal_motor_us <= self.config.stop_motor_us
            || input.nominal_motor_us > cap || PwmCommand::new(
            input.nominal_motor_us,
            input.nominal_servo_us,
        ).is_err() {
            return Err("nominal_request_outside_authorized_envelope");
        }
        Ok(permit)
    }

    fn check_feedback(&self, f: &StartupFeedback, now: Timestamp) -> (r: Result<bool, &'static str>)
        ensures
            match r {
                Ok(fresh) => self@.feedback_fault(*f, now) is None && fresh == self@.is_fresh(*f),
                Err(reason) => self@.feedback_fault(*f, now) == Some(reason@),
            },
    {
        let p: &PoseEstimate = &f.estimate;
        if !f.accepted || !p.frame_id.same_as(&self.config.frame_id) || !p.pose.valid()
            || !p.speed_mps.is_finite() || !p.yaw_rate_radps.is_finite() || !p.quality.is_finite()
            || p.quality.less(self.config.min_quality) || Binary64::of(ONE).less(p.quality)
            || p.captured_at.0 > now.0 {
            return Err("feedback_rejected_or_invalid");
        }
        match &self.feedback {
            None => Ok(true),
            Some(old) => {
                let before: Timestamp = old.estimate.captured_at;
                if f.localization_epoch != old.localization_epoch {
                    return Err("localization_reset");
                }
                if p.captured_at.0 < before.0 {
                    return Err("feedback_time_regression");
                }
                if p.captured_at == before {
                    if !p.equals(&old.estimate) {
                        return Err("changed_duplicate_feedback");
                    }
                    return Ok(false);
                }
                if p.captured_at.0 - before.0 > self.config.max_feedback_gap_ms {
                    return Err("feedback_gap");
                }
                Ok(true)
            },
        }
    }

    fn observe<F: Fn(Elementary) -> Binary64>(
        &mut self,
        input: StartupInput,
        permit: StartupPermit,
        host: &F,
    ) -> (r: StartupDecision)
        requires
            old(self)@.sound(),
            old(self)@.fault is None,
            old(self)@.last_tick == Some(input.now),
            old(self)@.config.enabled,
            input.command is Drive,
            old(self)@.unauthorized(input, input.command->speed_mps) is None,
            input.permit == Some(permit),
            old(self)@.attempt matches Some(a) ==> a.started.0 <= input.now.0 && a.step_at.0
                <= input.now.0,
            elementary::total(*host),
        ensures
            final(self)@.sound(),
            exists|g: Sight| #[trigger]
                old(self)@.observed(g, input, permit) == (final(self)@, r@),
            forall|m: spec_fn(Elementary) -> Binary64| #[trigger]
                elementary::models(*host, m) ==> (final(self)@, r@) == old(self)@.observed(
                    old(self)@.sight(m, old(self)@.judged(input)),
                    input,
                    permit,
                ),
    {
        let ghost unseen = self@.observed(arbitrary(), input, permit);
        let now: Timestamp = input.now;
        let ghost asked = input;
        let mut fresh: bool = false;
        if let Some(f) = &input.feedback {
            match self.check_feedback(f, now) {
                Err(reason) => {
                    return self.fail(now, reason);
                },
                Ok(newer) => {
                    fresh = newer;
                },
            }
            self.feedback = Some(
                StartupFeedback {
                    accepted: f.accepted,
                    localization_epoch: f.localization_epoch,
                    estimate: f.estimate.clone(),
                },
            );
        }
        let pose: PoseEstimate = match &self.feedback {
            None => {
                return self.fail(now, "feedback_missing");
            },
            Some(f) => f.estimate.clone(),
        };
        if now.0 - pose.captured_at.0 >= self.config.max_feedback_age_ms {
            return self.fail(now, "feedback_stale");
        }
        let speed_cap: Binary64 = permit.max_speed_mps.min(self.config.max_speed_mps);
        if speed_cap.less(pose.speed_mps.abs()) {
            return self.fail(now, "measured_speed_limit");
        }
        let ghost seen = self@;
        if self.attempt.is_none() {
            self.attempt = Some(
                Attempt {
                    started: now,
                    step_at: now,
                    anchor: pose.clone(),
                    still_anchor: pose.clone(),
                    still_since: pose.captured_at,
                    still_samples: 0,
                    motion_samples: 0,
                    motion_suspected: false,
                    pwm: larger_of(self.config.start_motor_us, input.nominal_motor_us),
                    nominal_motor_us: input.nominal_motor_us,
                    nominal_servo_us: input.nominal_servo_us,
                    request: input.command,
                },
            );
            self.phase = StartupPhase::Observing;
        }
        assert(self@ == seen.begun(asked, pose));
        let ghost ready = self@;
        let decision: StartupDecision = self.judge(input, permit, fresh, pose, host);
        proof {
            let g = choose|g: Sight| #[trigger]
                ready.driven(g, asked, permit, fresh, pose) == (self@, decision@);
            assert(old(self)@.observed(g, asked, permit) == (self@, decision@));
        }
        decision
    }

    fn judge<F: Fn(Elementary) -> Binary64>(
        &mut self,
        input: StartupInput,
        permit: StartupPermit,
        fresh: bool,
        pose: PoseEstimate,
        host: &F,
    ) -> (r: StartupDecision)
        requires
            old(self)@.sound(),
            old(self)@.fault is None,
            old(self)@.last_tick == Some(input.now),
            old(self)@.attempt is Some,
            old(self)@.feedback matches Some(f) && f.estimate == pose,
            chassis::in_envelope(input.nominal_servo_us),
            elementary::total(*host),
        ensures
            final(self)@.sound(),
            exists|g: Sight| #[trigger]
                old(self)@.driven(g, input, permit, fresh, pose) == (final(self)@, r@),
            forall|m: spec_fn(Elementary) -> Binary64| #[trigger]
                elementary::models(*host, m) ==> (final(self)@, r@) == old(self)@.driven(
                    old(self)@.sight(m, pose),
                    input,
                    permit,
                    fresh,
                    pose,
                ),
    {
        let ghost unseen = self@.driven(arbitrary(), input, permit, fresh, pose);
        let now: Timestamp = input.now;
        let cap: u16 = smaller_of(permit.max_motor_us, self.config.max_motor_us);
        let ghost start = self@;
        let mut a: Attempt = self.attempt.take().unwrap();
        if self.phase != StartupPhase::Moving {
            let expired: Option<&'static str> = if !a.request.equals(input.command)
                || a.nominal_motor_us != input.nominal_motor_us || a.nominal_servo_us
                != input.nominal_servo_us {
                Some("request_changed_requires_stop")
            } else if a.pwm > cap {
                Some("authorized_pwm_limit")
            } else if now.0 - a.started.0 >= self.config.max_attempt_ms {
                Some("startup_timeout")
            } else {
                None
            };
            if let Some(reason) = expired {
                self.attempt = Some(a);
                assert(self@ == start);
                return self.fail(now, reason);
            }
        }
        let ramping: bool = self.phase == StartupPhase::Ramping;
        let relative: Point2 = a.anchor.pose.world_to_body(pose.pose.point(), host);
        let reach: Binary64 = host(Elementary::Length { x: relative.x_m, y: relative.y_m });
        let yaw: Binary64 = pose.pose.yaw_rad.minus(a.anchor.pose.yaw_rad).plus(
            Binary64::of(PI),
        ).rem_euclid(Binary64::of(TAU)).minus(Binary64::of(PI));
        let ghost near = Sight { relative, reach, excursion: arbitrary() };
        let ghost glimpse = start.driven(near, input, permit, fresh, pose);
        if ramping && (self.config.max_start_distance_m.less(reach) || relative.x_m.less(
            self.config.moving_distance_m.negated(),
        ) || self.config.max_lateral_m.less(relative.y_m.abs()) || self.config.max_yaw_rad.less(
            yaw.abs(),
        )) {
            self.attempt = Some(a);
            assert(self@ == start);
            return self.fail(now, "unexpected_motion");
        }
        let excursion: Binary64 = a.still_anchor.pose.point().distance(pose.pose.point(), host);
        let ghost seen = Sight { relative, reach, excursion };
        let ghost answer = start.driven(seen, input, permit, fresh, pose);
        if fresh {
            self.assess(&mut a, ramping, &pose, relative.x_m, reach, excursion);
        }
        assert(a == start.config.assessed(
            start.attempt->0,
            ramping,
            fresh,
            pose,
            relative.x_m,
            reach,
            excursion,
        ));
        self.attempt = Some(a);
        assert(self@ == (Assist { attempt: Some(a), ..start }));
        self.conclude(now, input.nominal_servo_us, cap, fresh, pose, Ghost(input))
    }

    fn assess(
        &self,
        a: &mut Attempt,
        ramping: bool,
        pose: &PoseEstimate,
        x_m: Binary64,
        reach: Binary64,
        excursion: Binary64,
    )
        requires
            ramping ==> old(a).motion_samples < u32::MAX,
        ensures
            *final(a) == self@.config.assessed(
                *old(a),
                ramping,
                true,
                *pose,
                x_m,
                reach,
                excursion,
            ),
    {
        if ramping && (self.config.stationary_distance_m.less(reach)
            || self.config.stationary_speed_mps.less(pose.speed_mps.abs())) {
            // A brief displacement followed by a return is no proof that more
            // torque is safe.
            a.motion_suspected = true;
        }
        if self.config.stationary_distance_m.less(excursion)
            || self.config.stationary_speed_mps.less(pose.speed_mps.abs())
            || self.config.stationary_yaw_rate_radps.less(pose.yaw_rate_radps.abs()) {
            a.still_anchor = pose.clone();
            a.still_since = pose.captured_at;
            a.still_samples = 0;
        } else {
            a.still_samples = a.still_samples.saturating_add(1);
        }
        if ramping && self.config.moving_distance_m.at_most(x_m)
            && self.config.moving_speed_mps.at_most(pose.speed_mps) {
            a.motion_samples = a.motion_samples + 1;
        } else {
            a.motion_samples = 0;
        }
    }

    fn conclude(
        &mut self,
        now: Timestamp,
        servo_us: u16,
        cap: u16,
        fresh: bool,
        pose: PoseEstimate,
        Ghost(input): Ghost<StartupInput>,
    ) -> (r: StartupDecision)
        requires
            old(self)@.config.fault() is None,
            old(self)@.fault is None,
            old(self)@.phase == StartupPhase::Observing || old(self)@.phase
                == StartupPhase::Ramping || old(self)@.phase == StartupPhase::Moving,
            old(self)@.feedback matches Some(f) && f.estimate == pose,
            pose.captured_at.0 <= now.0,
            old(self)@.last_tick == Some(now),
            old(self)@.config.enabled,
            old(self)@.attempt matches Some(a) && {
                &&& a.started.0 <= now.0
                &&& a.step_at.0 <= now.0
                &&& a.still_since.0 <= pose.captured_at.0
                &&& a.motion_samples <= old(self)@.config.min_motion_samples
                &&& old(self)@.phase == StartupPhase::Observing ==> a.motion_samples == 0
                &&& old(self)@.phase == StartupPhase::Observing ==> !a.motion_suspected
                &&& old(self)@.config.start_motor_us <= a.pwm <= old(self)@.config.max_motor_us
                &&& a.nominal_motor_us <= a.pwm
            },
            cap <= old(self)@.config.max_motor_us,
            input.now == now,
            input.nominal_servo_us == servo_us,
            chassis::in_envelope(servo_us),
        ensures
            (final(self)@, r@) == old(self)@.concluded(input, cap, fresh, pose),
            final(self)@.sound(),
    {
        let ghost start = self@;
        let mut a: Attempt = self.attempt.take().unwrap();
        let stationary: bool = fresh && a.still_samples >= self.config.min_stationary_samples
            && pose.captured_at.0 - a.still_since.0 >= self.config.stationary_window_ms;
        if self.phase == StartupPhase::Moving {
            self.attempt = Some(a);
            assert(self@ == start);
            if stationary {
                return self.fail(now, "stalled_after_start_no_automatic_retry");
            }
            return self.decision(now, StartupAction::Handoff, "normal_speed_control");
        }
        if self.phase == StartupPhase::Observing {
            if !stationary {
                self.attempt = Some(a);
                assert(self@ == start);
                return self.stop(now, "confirming_stationary_baseline");
            }
            a.anchor = pose.clone();
            a.step_at = now;
            a.still_since = pose.captured_at;
            a.still_samples = 0;
            self.phase = StartupPhase::Ramping;
        } else if a.motion_samples >= self.config.min_motion_samples {
            self.phase = StartupPhase::Moving;
            a.still_anchor = pose.clone();
            a.still_since = pose.captured_at;
            a.still_samples = 0;
            self.attempt = Some(a);
            return self.decision(
                now,
                StartupAction::Handoff,
                "motion_confirmed_stop_increasing",
            );
        } else if !a.motion_suspected && stationary && now.0 - a.step_at.0
            >= self.config.step_wait_ms && pose.captured_at.0 >= a.step_at.0.saturating_add(
            self.config.stationary_window_ms,
        ) {
            if a.pwm > cap || self.config.step_us > cap - a.pwm {
                self.attempt = Some(a);
                assert(self@ == start);
                return self.fail(now, "startup_pwm_limit_without_motion");
            }
            a.pwm = a.pwm + self.config.step_us;
            a.step_at = now;
            a.still_since = pose.captured_at;
            a.still_samples = 0;
        }
        let command: PwmCommand = command_of(a.pwm, servo_us);
        self.attempt = Some(a);
        self.decision(now, StartupAction::Preview { command }, "bounded_startup_proposal")
    }
}

/// The command with widths that lie in the envelope.
fn command_of(motor_us: u16, servo_us: u16) -> (r: PwmCommand)
    requires
        chassis::in_envelope(motor_us),
        chassis::in_envelope(servo_us),
    ensures
        r@ == (motor_us, servo_us),
{
    match PwmCommand::new(motor_us, servo_us) {
        Ok(command) => command,
        Err(_) => {
            assert(false);
            vstd::pervasive::unreached()
        },
    }
}

} // verus!
