//! The interlock as a state machine from timed events to motion outputs.
use super::{
    Captures, Event, MotionIntent, MotionOutput, OutputRecord, Reason, SafetyConfig, State,
    StepReport, StopReason, TimedEvent,
};
use crate::sensors::{SensorKind, SensorSample, Timestamp, ValidationError};
use crate::sensors;
use vstd::prelude::*;

verus! {

/// Milliseconds since an earlier time, zero where that time lies ahead.
pub open spec fn age(now: Timestamp, at: Timestamp) -> int {
    if at.0 <= now.0 {
        now.0 - at.0
    } else {
        0
    }
}

/// The state of the interlock.
pub struct Interlock {
    pub config: SafetyConfig,
    pub state: State,
    pub now: Timestamp,
    pub emergency_stop_latched: bool,
    pub fault_reason: Option<Reason>,
    pub heartbeat_at: Option<Timestamp>,
    pub deadman_at: Option<Timestamp>,
    pub deadman_pressed: bool,
    pub motion: Option<(Timestamp, MotionIntent)>,
    pub captures: Captures,
}

/// What one step reports.
pub struct Report {
    pub event_at: Timestamp,
    pub previous_state: State,
    pub state: State,
    pub at: Timestamp,
    pub output_state: State,
    pub command: MotionOutput,
    pub reason: Option<Reason>,
    pub emergency_stop_latched: bool,
}

impl View for StepReport {
    type V = Report;

    open spec fn view(&self) -> Report {
        Report {
            event_at: self.event_at,
            previous_state: self.previous_state,
            state: self.state,
            at: self.output.at,
            output_state: self.output.state,
            command: self.output.command,
            reason: super::reason_view(self.output.reason),
            emergency_stop_latched: self.emergency_stop_latched,
        }
    }
}

/// The first required sensor that is missing or too old, in their order.
pub open spec fn sensor_gap(
    kinds: Seq<SensorKind>,
    captures: Captures,
    now: Timestamp,
    timeout: u64,
) -> Option<Reason>
    decreases kinds.len(),
{
    if kinds.len() == 0 {
        None
    } else {
        let kind = kinds[0];
        match captures.get(kind) {
            None => Some(Reason::SensorMissing { sensor: kind }),
            Some(at) => if age(now, at) >= timeout {
                Some(Reason::SensorExpired { sensor: kind })
            } else {
                sensor_gap(kinds.drop_first(), captures, now, timeout)
            },
        }
    }
}

/// Whether an intent is finite and within the configured limits.
pub open spec fn within_limits(config: SafetyConfig, intent: MotionIntent) -> bool {
    &&& intent.speed_mps.finite()
    &&& intent.curvature_per_m.finite()
    &&& !config.max_speed_mps.lt(intent.speed_mps.abs())
    &&& !config.max_abs_curvature_per_m.lt(intent.curvature_per_m.abs())
}

impl Interlock {
    /// A disarmed interlock that has seen nothing.
    pub open spec fn initial(config: SafetyConfig) -> Self {
        Interlock {
            config,
            state: State::Disarmed,
            now: Timestamp(0),
            emergency_stop_latched: false,
            fault_reason: None,
            heartbeat_at: None,
            deadman_at: None,
            deadman_pressed: false,
            motion: None,
            captures: Captures::none(),
        }
    }

    /// Faults stop motion; the first reason stays.
    pub open spec fn faulted(self, reason: Reason) -> Self {
        Interlock {
            state: State::Fault,
            motion: None,
            fault_reason: if self.fault_reason is None {
                Some(reason)
            } else {
                self.fault_reason
            },
            ..self
        }
    }

    /// Why motion may not be authorized now, the first of these that applies.
    pub open spec fn obstruction(self, include_motion: bool) -> Option<Reason> {
        let gap = sensor_gap(
            self.config.required_sensors@,
            self.captures,
            self.now,
            self.config.sensor_timeout_ms,
        );
        if self.emergency_stop_latched {
            Some(Reason::EmergencyStop)
        } else if !self.deadman_pressed {
            Some(Reason::DeadmanReleased)
        } else if self.deadman_at is None || age(self.now, self.deadman_at->0)
            >= self.config.deadman_timeout_ms {
            Some(Reason::DeadmanExpired)
        } else if self.heartbeat_at is None {
            Some(Reason::HeartbeatMissing)
        } else if age(self.now, self.heartbeat_at->0) >= self.config.heartbeat_timeout_ms {
            Some(Reason::HeartbeatExpired)
        } else if gap is Some {
            gap
        } else if include_motion && self.motion is None {
            Some(Reason::CommandMissing)
        } else if include_motion && age(self.now, (self.motion->0).0)
            >= self.config.command_timeout_ms {
            Some(Reason::CommandExpired)
        } else {
            None
        }
    }

    /// The same interlock at a later time. What was seen before is judged at
    /// that time, before anything new is accepted, so that a delayed packet
    /// cannot hide a timeout that has already occurred.
    pub open spec fn advanced(self, at: Timestamp) -> Self {
        let later = Interlock { now: at, ..self };
        let obstruction = later.obstruction(later.state == State::Running);
        if (later.state == State::Armed || later.state == State::Running) && obstruction is Some {
            later.faulted(obstruction->0)
        } else {
            later
        }
    }

    pub open spec fn after_reset(self) -> Self {
        if self.state != State::Fault {
            self.faulted(Reason::InvalidTransition)
        } else if self.deadman_pressed {
            Interlock { fault_reason: Some(Reason::ResetRequiresDeadmanRelease), ..self }
        } else {
            Interlock {
                state: State::Disarmed,
                emergency_stop_latched: false,
                fault_reason: None,
                motion: None,
                heartbeat_at: None,
                deadman_at: None,
                captures: Captures::none(),
                ..self
            }
        }
    }

    pub open spec fn after_deadman(self, pressed: bool) -> Self {
        let seen = Interlock {
            deadman_pressed: pressed,
            deadman_at: Some(self.now),
            ..self
        };
        if !pressed && (self.state == State::Armed || self.state == State::Running) {
            seen.faulted(Reason::DeadmanReleased)
        } else {
            seen
        }
    }

    pub open spec fn after_arm(self) -> Self {
        if self.state == State::Disarmed {
            match self.obstruction(false) {
                Some(reason) => self.faulted(reason),
                None => Interlock { state: State::Armed, motion: None, ..self },
            }
        } else if self.state != State::Fault {
            self.faulted(Reason::InvalidTransition)
        } else {
            self
        }
    }

    pub open spec fn after_start(self) -> Self {
        if self.state == State::Armed {
            match self.obstruction(true) {
                Some(reason) => self.faulted(reason),
                None => Interlock { state: State::Running, ..self },
            }
        } else if self.state != State::Fault {
            self.faulted(Reason::InvalidTransition)
        } else {
            self
        }
    }

    pub open spec fn after_motion(self, intent: MotionIntent) -> Self {
        if !intent.speed_mps.finite() || !intent.curvature_per_m.finite() {
            self.faulted(Reason::InvalidInput { message: "motion intent must be finite"@ })
        } else if !within_limits(self.config, intent) {
            self.faulted(Reason::LimitsExceeded)
        } else if self.state == State::Armed || self.state == State::Running {
            Interlock { motion: Some((self.now, intent)), ..self }
        } else {
            self
        }
    }

    pub open spec fn after_sample(self, sample: SensorSample) -> Self {
        let kind = sample.kind();
        let captured = sample.captured_at();
        let fault = sample.fault(&self.config.frames);
        if fault is Some {
            self.faulted(Reason::InvalidInput { message: fault->0 })
        } else if captured.0 > self.now.0 || (self.captures.get(kind) is Some && captured.0
            < (self.captures.get(kind)->0).0) {
            self.faulted(
                Reason::InvalidInput { message: "sensor timestamp is future or regresses"@ },
            )
        } else if self.now.0 - captured.0 >= self.config.sensor_timeout_ms {
            self.faulted(Reason::SensorExpired { sensor: kind })
        } else {
            Interlock { captures: self.captures.with(kind, captured), ..self }
        }
    }

    /// What an event does once time has advanced.
    pub open spec fn after(self, event: Event) -> Self {
        match event {
            Event::EmergencyStop => Interlock {
                state: State::Fault,
                motion: None,
                emergency_stop_latched: true,
                fault_reason: Some(Reason::EmergencyStop),
                ..self
            },
            Event::Disarm => Interlock {
                state: if self.state == State::Fault {
                    State::Fault
                } else {
                    State::Disarmed
                },
                motion: None,
                deadman_at: None,
                ..self
            },
            Event::ResetFault => self.after_reset(),
            Event::Heartbeat => Interlock { heartbeat_at: Some(self.now), ..self },
            Event::Deadman { pressed } => self.after_deadman(pressed),
            Event::Arm => self.after_arm(),
            Event::Start => self.after_start(),
            Event::Motion { intent } => self.after_motion(intent),
            Event::Sensor { sample } => self.after_sample(sample),
            Event::Tick => self,
        }
    }

    /// The interlock after a timed event. An event from before the latest time
    /// is a fault, and of such events only an emergency stop is also heeded.
    pub open spec fn step(self, at: Timestamp, event: Event) -> Self {
        if at.0 < self.now.0 {
            Interlock {
                emergency_stop_latched: self.emergency_stop_latched || event is EmergencyStop,
                ..self
            }.faulted(Reason::TimeRegression)
        } else {
            self.advanced(at).after(event)
        }
    }

    /// The motion output in this state, and why it is not to drive.
    pub open spec fn output(self) -> (MotionOutput, Option<Reason>) {
        match self.state {
            State::Disarmed => (MotionOutput::Stop, Some(Reason::Disarmed)),
            State::Armed => (MotionOutput::Stop, Some(Reason::ArmedAwaitingStart)),
            State::Fault => (
                MotionOutput::Stop,
                Some(
                    if self.emergency_stop_latched {
                        Reason::EmergencyStop
                    } else if self.fault_reason is Some {
                        self.fault_reason->0
                    } else {
                        Reason::FaultLatched
                    },
                ),
            ),
            State::Running => match self.motion {
                Some((_, intent)) => (
                    MotionOutput::Drive {
                        speed_mps: intent.speed_mps,
                        curvature_per_m: intent.curvature_per_m,
                    },
                    None,
                ),
                None => (MotionOutput::Stop, Some(Reason::CommandMissing)),
            },
        }
    }

    pub open spec fn report(self, event_at: Timestamp, previous_state: State) -> Report {
        Report {
            event_at,
            previous_state,
            state: self.state,
            at: self.now,
            output_state: self.state,
            command: self.output().0,
            reason: self.output().1,
            emergency_stop_latched: self.emergency_stop_latched,
        }
    }

    /// What every reachable interlock satisfies.
    pub open spec fn sound(self) -> bool {
        &&& self.config.fault() is None
        &&& self.fault_reason is Some <==> self.state == State::Fault
        &&& self.emergency_stop_latched ==> self.state == State::Fault
        &&& self.state == State::Armed || self.state == State::Running ==> self.deadman_pressed
        &&& self.state == State::Running ==> self.motion is Some
        &&& self.motion is Some ==> {
            &&& self.state == State::Armed || self.state == State::Running
            &&& within_limits(self.config, (self.motion->0).1)
            &&& (self.motion->0).0.0 <= self.now.0
        }
    }
}

pub struct Controller {
    config: SafetyConfig,
    state: State,
    now: Timestamp,
    emergency_stop_latched: bool,
    fault_reason: Option<StopReason>,
    heartbeat_at: Option<Timestamp>,
    deadman_at: Option<Timestamp>,
    deadman_pressed: bool,
    motion: Option<(Timestamp, MotionIntent)>,
    captures: Captures,
}

impl View for Controller {
    type V = Interlock;

    closed spec fn view(&self) -> Interlock {
        Interlock {
            config: self.config,
            state: self.state,
            now: self.now,
            emergency_stop_latched: self.emergency_stop_latched,
            fault_reason: super::reason_view(self.fault_reason),
            heartbeat_at: self.heartbeat_at,
            deadman_at: self.deadman_at,
            deadman_pressed: self.deadman_pressed,
            motion: self.motion,
            captures: self.captures,
        }
    }
}

impl Controller {
    pub fn new(config: SafetyConfig) -> (r: Result<Self, ValidationError>)
        ensures
            sensors::refusal(r) == config.fault(),
            r matches Ok(c) ==> c@ == Interlock::initial(config) && c@.sound(),
    {
        config.validate()?;
        Ok(
            Controller {
                config,
                state: State::Disarmed,
                now: Timestamp(0),
                emergency_stop_latched: false,
                fault_reason: None,
                heartbeat_at: None,
                deadman_at: None,
                deadman_pressed: false,
                motion: None,
                captures: Captures::none(),
            },
        )
    }

    pub fn state(&self) -> (r: State)
        ensures
            r == self@.state,
    {
        self.state
    }

    pub fn config(&self) -> (r: &SafetyConfig)
        ensures
            *r == self@.config,
    {
        &self.config
    }

    pub fn tick(&mut self, at: Timestamp) -> (r: StepReport)
        ensures
            final(self)@ == old(self)@.step(at, Event::Tick),
            r@ == final(self)@.report(at, old(self)@.state),
            old(self)@.sound() ==> final(self)@.sound(),
    {
        self.handle(TimedEvent { at, event: Event::Tick })
    }

    fn fault(&mut self, reason: StopReason)
        ensures
            final(self)@ == old(self)@.faulted(reason@),
    {
        self.state = State::Fault;
        self.motion = None;
        if self.fault_reason.is_none() {
            self.fault_reason = Some(reason);
        }
    }

    fn readiness(&self, include_motion: bool) -> (r: Option<StopReason>)
        ensures
            super::reason_view(r) == self@.obstruction(include_motion),
    {
        if self.emergency_stop_latched {
            return Some(StopReason::EmergencyStop);
        }
        if !self.deadman_pressed {
            return Some(StopReason::DeadmanReleased);
        }
        match self.deadman_at {
            None => {
                return Some(StopReason::DeadmanExpired);
            },
            Some(at) => {
                if self.now.0.saturating_sub(at.0) >= self.config.deadman_timeout_ms {
                    return Some(StopReason::DeadmanExpired);
                }
            },
        }
        match self.heartbeat_at {
            None => {
                return Some(StopReason::HeartbeatMissing);
            },
            Some(at) => {
                if self.now.0.saturating_sub(at.0) >= self.config.heartbeat_timeout_ms {
                    return Some(StopReason::HeartbeatExpired);
                }
            },
        }
        let kinds: &Vec<SensorKind> = &self.config.required_sensors;
        let ghost timeout = self.config.sensor_timeout_ms;
        let mut i: usize = 0;
        assert(kinds@.skip(0) =~= kinds@);
        while i < kinds.len()
            invariant
                i <= kinds@.len(),
                kinds == self.config.required_sensors,
                timeout == self.config.sensor_timeout_ms,
                sensor_gap(kinds@, self.captures, self.now, timeout) == sensor_gap(
                    kinds@.skip(i as int),
                    self.captures,
                    self.now,
                    timeout,
                ),
                !self.emergency_stop_latched,
                self.deadman_pressed,
                self.deadman_at is Some,
                age(self.now, self.deadman_at->0) < self.config.deadman_timeout_ms,
                self.heartbeat_at is Some,
                age(self.now, self.heartbeat_at->0) < self.config.heartbeat_timeout_ms,
            decreases kinds@.len() - i,
        {
            let kind: SensorKind = kinds[i];
            assert(kinds@.skip(i as int)[0] == kind);
            assert(kinds@.skip(i as int).drop_first() =~= kinds@.skip(i + 1));
            match self.captures.get(kind) {
                None => {
                    return Some(StopReason::SensorMissing { sensor: kind });
                },
                Some(at) => {
                    if self.now.0.saturating_sub(at.0) >= self.config.sensor_timeout_ms {
                        return Some(StopReason::SensorExpired { sensor: kind });
                    }
                },
            }
            i += 1;
        }
        assert(kinds@.skip(i as int).len() == 0);
        if include_motion {
            match self.motion {
                None => {
                    return Some(StopReason::CommandMissing);
                },
                Some((at, _)) => {
                    if self.now.0.saturating_sub(at.0) >= self.config.command_timeout_ms {
                        return Some(StopReason::CommandExpired);
                    }
                },
            }
        }
        None
    }

    /// Takes one event and says what the vehicle may do.
    pub fn handle(&mut self, input: TimedEvent) -> (r: StepReport)
        ensures
            final(self)@ == old(self)@.step(input.at, input.event),
            r@ == final(self)@.report(input.at, old(self)@.state),
            old(self)@.sound() ==> final(self)@.sound(),
    {
        proof {
            if self@.sound() {
                law_soundness_is_kept(self@, input.at, input.event);
            }
        }
        let previous_state: State = self.state;
        if input.at.0 < self.now.0 {
            if let Event::EmergencyStop = input.event {
                self.emergency_stop_latched = true;
            }
            self.fault(StopReason::TimeRegression);
            return self.report(input.at, previous_state);
        }
        self.now = input.at;
        // Judge what was seen before ahead of accepting a late keepalive or
        // command: a delayed packet cannot erase a timeout that already occurred.
        if self.state == State::Armed || self.state == State::Running {
            if let Some(reason) = self.readiness(self.state == State::Running) {
                self.fault(reason);
            }
        }
        assert(self@ == old(self)@.advanced(input.at));
        match input.event {
            Event::EmergencyStop => {
                self.emergency_stop_latched = true;
                self.fault_reason = Some(StopReason::EmergencyStop);
                self.fault(StopReason::EmergencyStop);
            },
            Event::Disarm => {
                if self.state != State::Fault {
                    self.state = State::Disarmed;
                }
                self.motion = None;
                self.deadman_at = None;
            },
            Event::ResetFault => self.reset(),
            Event::Heartbeat => {
                self.heartbeat_at = Some(self.now);
            },
            Event::Deadman { pressed } => {
                self.deadman_pressed = pressed;
                self.deadman_at = Some(self.now);
                if !pressed && (self.state == State::Armed || self.state == State::Running) {
                    self.fault(StopReason::DeadmanReleased);
                }
            },
            Event::Arm => {
                if self.state == State::Disarmed {
                    if let Some(reason) = self.readiness(false) {
                        self.fault(reason);
                    } else {
                        self.state = State::Armed;
                        self.motion = None;
                    }
                } else if self.state != State::Fault {
                    self.fault(StopReason::InvalidTransition);
                }
            },
            Event::Start => {
                if self.state == State::Armed {
                    if let Some(reason) = self.readiness(true) {
                        self.fault(reason);
                    } else {
                        self.state = State::Running;
                    }
                } else if self.state != State::Fault {
                    self.fault(StopReason::InvalidTransition);
                }
            },
            Event::Motion { intent } => self.accept_motion(intent),
            Event::Sensor { sample } => self.accept_sample(&sample),
            Event::Tick => {},
        }
        self.report(input.at, previous_state)
    }

    fn reset(&mut self)
        ensures
            final(self)@ == old(self)@.after_reset(),
    {
        if self.state != State::Fault {
            self.fault(StopReason::InvalidTransition);
        } else if self.deadman_pressed {
            self.fault_reason = Some(StopReason::ResetRequiresDeadmanRelease);
        } else {
            self.state = State::Disarmed;
            self.emergency_stop_latched = false;
            self.fault_reason = None;
            self.motion = None;
            self.heartbeat_at = None;
            self.deadman_at = None;
            self.captures = Captures::none();
        }
    }

    fn accept_motion(&mut self, intent: MotionIntent)
        ensures
            final(self)@ == old(self)@.after_motion(intent),
    {
        if !intent.speed_mps.is_finite() || !intent.curvature_per_m.is_finite() {
            self.fault(
                StopReason::InvalidInput { message: "motion intent must be finite".to_owned() },
            );
        } else if self.config.max_speed_mps.less(intent.speed_mps.abs())
            || self.config.max_abs_curvature_per_m.less(intent.curvature_per_m.abs()) {
            self.fault(StopReason::LimitsExceeded);
        } else if self.state == State::Armed || self.state == State::Running {
            self.motion = Some((self.now, intent));
        }
    }

    fn accept_sample(&mut self, sample: &SensorSample)
        ensures
            final(self)@ == old(self)@.after_sample(*sample),
    {
        let kind: SensorKind = sample.kind();
        let captured: Timestamp = sample.captured_at();
        let regresses: bool = match self.captures.get(kind) {
            None => false,
            Some(previous) => captured.0 < previous.0,
        };
        if let Err(error) = sample.validate(&self.config.frames) {
            self.fault(StopReason::InvalidInput { message: error.0 });
        } else if captured.0 > self.now.0 || regresses {
            self.fault(
                StopReason::InvalidInput {
                    message: "sensor timestamp is future or regresses".to_owned(),
                },
            );
        } else if self.now.0 - captured.0 >= self.config.sensor_timeout_ms {
            self.fault(StopReason::SensorExpired { sensor: kind });
        } else {
            self.captures = self.captures.with(kind, captured);
        }
    }

    fn report(&self, event_at: Timestamp, previous_state: State) -> (r: StepReport)
        ensures
            r@ == self@.report(event_at, previous_state),
    {
        let command: MotionOutput;
        let reason: Option<StopReason>;
        match self.state {
            State::Disarmed => {
                command = MotionOutput::Stop;
                reason = Some(StopReason::Disarmed);
            },
            State::Armed => {
                command = MotionOutput::Stop;
                reason = Some(StopReason::ArmedAwaitingStart);
            },
            State::Fault => {
                command = MotionOutput::Stop;
                reason =
                Some(
                    if self.emergency_stop_latched {
                        StopReason::EmergencyStop
                    } else {
                        match &self.fault_reason {
                            Some(latched) => latched.clone(),
                            None => StopReason::FaultLatched,
                        }
                    },
                );
            },
            State::Running => match self.motion {
                Some((_, intent)) => {
                    command =
                    MotionOutput::Drive {
                        speed_mps: intent.speed_mps,
                        curvature_per_m: intent.curvature_per_m,
                    };
                    reason = None;
                },
                None => {
                    command = MotionOutput::Stop;
                    reason = Some(StopReason::CommandMissing);
                },
            },
        }
        StepReport {
            event_at,
            previous_state,
            state: self.state,
            output: OutputRecord { at: self.now, state: self.state, command, reason },
            emergency_stop_latched: self.emergency_stop_latched,
        }
    }
}

/// The interlock after a run of timed events.
pub open spec fn after_all(start: Interlock, events: Seq<(Timestamp, Event)>) -> Interlock
    decreases events.len(),
{
    if events.len() == 0 {
        start
    } else {
        let (at, event) = events.last();
        after_all(start, events.drop_last()).step(at, event)
    }
}

/// Every event keeps soundness.
pub proof fn law_soundness_is_kept(before: Interlock, at: Timestamp, event: Event)
    requires
        before.sound(),
    ensures
        before.step(at, event).sound(),
{
}

/// Whatever happens to an interlock from its start on, it is sound.
pub proof fn law_every_run_is_sound(config: SafetyConfig, events: Seq<(Timestamp, Event)>)
    requires
        config.fault() is None,
    ensures
        after_all(Interlock::initial(config), events).sound(),
        after_all(Interlock::initial(config), events).config == config,
    decreases events.len(),
{
    if events.len() > 0 {
        law_every_run_is_sound(config, events.drop_last());
    }
}

/// A sensor that was fresh stays fresh when a newer capture replaces it.
proof fn lemma_refreshed(
    kinds: Seq<SensorKind>,
    captures: Captures,
    now: Timestamp,
    timeout: u64,
    kind: SensorKind,
    captured: Timestamp,
)
    requires
        sensor_gap(kinds, captures, now, timeout) is None,
        age(now, captured) < timeout,
    ensures
        sensor_gap(kinds, captures.with(kind, captured), now, timeout) is None,
    decreases kinds.len(),
{
    if kinds.len() > 0 {
        lemma_refreshed(kinds.drop_first(), captures, now, timeout, kind, captured);
    }
}

/// The output is to drive only where, at that very time, nothing obstructs
/// motion: the stop is not latched, the deadman is held, and the deadman, the
/// heartbeat, every required sensor and the command are fresh. The command is
/// then finite and within the limits.
pub proof fn law_drive_needs_every_permission(before: Interlock, at: Timestamp, event: Event)
    requires
        before.sound(),
        before.step(at, event).output().0 is Drive,
    ensures
        before.step(at, event).state == State::Running,
        before.step(at, event).obstruction(true) is None,
        before.step(at, event).motion matches Some((_, intent)) && within_limits(
            before.config,
            intent,
        ) && before.step(at, event).output().0 == (MotionOutput::Drive {
            speed_mps: intent.speed_mps,
            curvature_per_m: intent.curvature_per_m,
        }),
{
    let ready = before.advanced(at);
    if let Event::Sensor { sample } = event {
        lemma_refreshed(
            ready.config.required_sensors@,
            ready.captures,
            ready.now,
            ready.config.sensor_timeout_ms,
            sample.kind(),
            sample.captured_at(),
        );
    }
}

/// Without the running state the output is to stop, with a reason.
pub proof fn law_stop_unless_running(interlock: Interlock)
    requires
        interlock.state != State::Running,
    ensures
        interlock.output().0 is Stop,
        interlock.output().1 is Some,
{
}

/// An emergency stop takes effect from any state and at any time stamp, also
/// one from before the latest event, and its reason is what is reported.
pub proof fn law_emergency_stop_always_wins(before: Interlock, at: Timestamp)
    ensures
        before.step(at, Event::EmergencyStop).state == State::Fault,
        before.step(at, Event::EmergencyStop).emergency_stop_latched,
        before.step(at, Event::EmergencyStop).output() == (
            MotionOutput::Stop,
            Some(Reason::EmergencyStop),
        ),
{
}

/// A fault, and with it a latched emergency stop, ends only by a reset in time
/// order with the deadman released.
pub proof fn law_fault_latches(before: Interlock, at: Timestamp, event: Event)
    requires
        before.state == State::Fault,
        !(event is ResetFault) || before.deadman_pressed || at.0 < before.now.0,
    ensures
        before.step(at, event).state == State::Fault,
        before.emergency_stop_latched ==> before.step(at, event).emergency_stop_latched,
{
}

/// A reset with the deadman released forgets everything seen before: the
/// result differs from a new interlock only by the time.
pub proof fn law_reset_starts_over(before: Interlock, at: Timestamp)
    requires
        before.state == State::Fault,
        !before.deadman_pressed,
        before.now.0 <= at.0,
    ensures
        before.step(at, Event::ResetFault) == (Interlock {
            now: at,
            ..Interlock::initial(before.config)
        }),
{
}

/// A timeout that has occurred by the time of an event faults an armed or
/// running interlock, whatever the event brings.
pub proof fn law_late_packet_cannot_erase_timeout(
    before: Interlock,
    at: Timestamp,
    event: Event,
)
    requires
        before.sound(),
        before.state == State::Armed || before.state == State::Running,
        before.now.0 <= at.0,
        (Interlock { now: at, ..before }).obstruction(before.state == State::Running) is Some,
    ensures
        before.step(at, event).state == State::Fault,
        before.step(at, event).output().0 is Stop,
{
}

/// Running is entered only by a start from armed, and armed only by an arm
/// from disarmed.
pub proof fn law_running_takes_arm_then_start(before: Interlock, at: Timestamp, event: Event)
    ensures
        before.step(at, event).state == State::Running && before.state != State::Running
            ==> before.state == State::Armed && event is Start,
        before.step(at, event).state == State::Armed && before.state != State::Armed
            ==> before.state == State::Disarmed && event is Arm,
{
}

/// Time never runs backwards, and an event from the past is a fault.
pub proof fn law_time_is_monotonic(before: Interlock, at: Timestamp, event: Event)
    ensures
        before.step(at, event).now.0 >= before.now.0,
        at.0 < before.now.0 ==> before.step(at, event).state == State::Fault
            && before.step(at, event).now == before.now,
{
}

/// The first reason of a fault stays until an emergency stop or a reset
/// request replaces it.
pub proof fn law_first_reason_stays(before: Interlock, at: Timestamp, event: Event)
    requires
        before.sound(),
        before.state == State::Fault,
        !(event is ResetFault),
        !(event is EmergencyStop),
    ensures
        before.step(at, event).fault_reason == before.fault_reason,
{
}

} // verus!
