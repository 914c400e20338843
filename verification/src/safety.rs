//! The motion interlock: arming, freshness of every input, latched faults.
use crate::binary64::values::ZERO;
use crate::binary64::Binary64;
use crate::sensors::{SensorFrames, SensorKind, SensorSample, Timestamp, ValidationError};
use crate::sensors;
use vstd::prelude::*;

pub mod controller;
pub mod permits;

pub use controller::Controller;

verus! {

#[derive(Clone, Debug)]
pub struct SafetyConfig {
    pub schema_version: u32,
    pub simulation_only: bool,
    pub max_speed_mps: Binary64,
    pub max_abs_curvature_per_m: Binary64,
    pub heartbeat_timeout_ms: u64,
    pub deadman_timeout_ms: u64,
    pub command_timeout_ms: u64,
    pub sensor_timeout_ms: u64,
    pub required_sensors: Vec<SensorKind>,
    pub frames: SensorFrames,
}

/// Whether a limit is a positive finite number.
pub open spec fn positive(limit: Binary64) -> bool {
    limit.finite() && Binary64::of(ZERO).lt(limit)
}

pub fn is_positive(limit: Binary64) -> (r: bool)
    ensures
        r == positive(limit),
{
    limit.is_finite() && Binary64::of(ZERO).less(limit)
}

impl SafetyConfig {
    /// What is wrong with a configuration, the first of these that applies.
    pub open spec fn fault(&self) -> Option<Seq<char>> {
        if self.schema_version != 1 || !self.simulation_only {
            Some("schema_version=1 and simulation_only=true are required"@)
        } else if !positive(self.max_speed_mps) || !positive(self.max_abs_curvature_per_m) {
            Some("positive finite speed/curvature limits required"@)
        } else if self.heartbeat_timeout_ms == 0 || self.deadman_timeout_ms == 0
            || self.command_timeout_ms == 0 || self.sensor_timeout_ms == 0 {
            Some("all timeout values must be explicitly positive"@)
        } else if !self.required_sensors@.no_duplicates() {
            Some("required_sensors contains duplicates"@)
        } else if sensors::frame_fault(self.frames.imu_frame@) is Some {
            sensors::frame_fault(self.frames.imu_frame@)
        } else if sensors::frame_fault(self.frames.lidar_frame@) is Some {
            sensors::frame_fault(self.frames.lidar_frame@)
        } else if sensors::frame_fault(self.frames.odometry_frame@) is Some {
            sensors::frame_fault(self.frames.odometry_frame@)
        } else if sensors::frame_fault(self.frames.body_frame@) is Some {
            sensors::frame_fault(self.frames.body_frame@)
        } else if sensors::frame_fault(self.frames.vision_frame@) is Some {
            sensors::frame_fault(self.frames.vision_frame@)
        } else if self.frames.odometry_frame@ == self.frames.body_frame@ {
            Some("odometry and body frames must differ"@)
        } else {
            None
        }
    }

    pub fn validate(&self) -> (r: Result<(), ValidationError>)
        ensures
            sensors::refusal(r) == self.fault(),
    {
        if self.schema_version != 1 || !self.simulation_only {
            return Err(
                ValidationError::new("schema_version=1 and simulation_only=true are required"),
            );
        }
        if !is_positive(self.max_speed_mps) || !is_positive(self.max_abs_curvature_per_m) {
            return Err(ValidationError::new("positive finite speed/curvature limits required"));
        }
        if self.heartbeat_timeout_ms == 0 || self.deadman_timeout_ms == 0
            || self.command_timeout_ms == 0 || self.sensor_timeout_ms == 0 {
            return Err(ValidationError::new("all timeout values must be explicitly positive"));
        }
        if !distinct(&self.required_sensors) {
            return Err(ValidationError::new("required_sensors contains duplicates"));
        }
        self.frames.imu_frame.validate()?;
        self.frames.lidar_frame.validate()?;
        self.frames.odometry_frame.validate()?;
        self.frames.body_frame.validate()?;
        self.frames.vision_frame.validate()?;
        if self.frames.odometry_frame.same_as(&self.frames.body_frame) {
            return Err(ValidationError::new("odometry and body frames must differ"));
        }
        Ok(())
    }
}

fn distinct(kinds: &Vec<SensorKind>) -> (r: bool)
    ensures
        r == kinds@.no_duplicates(),
{
    let mut i: usize = 0;
    while i < kinds.len()
        invariant
            i <= kinds@.len(),
            forall|a: int, b: int| 0 <= a < i && 0 <= b < i && a != b ==> kinds@[a] != kinds@[b],
        decreases kinds@.len() - i,
    {
        let mut j: usize = 0;
        while j < i
            invariant
                j <= i < kinds@.len(),
                forall|a: int| 0 <= a < j ==> kinds@[a] != kinds@[i as int],
            decreases i - j,
        {
            if kinds[j] == kinds[i] {
                return false;
            }
            j += 1;
        }
        i += 1;
    }
    true
}

#[derive(Clone, Copy, Debug, PartialEq, Eq, Structural)]
pub enum State {
    Disarmed,
    Armed,
    Running,
    Fault,
}

#[derive(Clone, Copy, Debug)]
pub struct MotionIntent {
    pub speed_mps: Binary64,
    pub curvature_per_m: Binary64,
}

#[derive(Clone, Debug)]
pub enum Event {
    Heartbeat,
    Deadman { pressed: bool },
    Arm,
    Start,
    Disarm,
    EmergencyStop,
    ResetFault,
    Motion { intent: MotionIntent },
    Sensor { sample: SensorSample },
    Tick,
}

#[derive(Clone, Debug)]
pub struct TimedEvent {
    pub at: Timestamp,
    pub event: Event,
}

#[derive(Debug)]
pub enum StopReason {
    Disarmed,
    ArmedAwaitingStart,
    EmergencyStop,
    DeadmanReleased,
    DeadmanExpired,
    HeartbeatMissing,
    HeartbeatExpired,
    CommandMissing,
    CommandExpired,
    SensorMissing { sensor: SensorKind },
    SensorExpired { sensor: SensorKind },
    InvalidInput { message: String },
    LimitsExceeded,
    TimeRegression,
    InvalidTransition,
    FaultLatched,
    ResetRequiresDeadmanRelease,
}

/// A stop reason with its message as a sequence of characters.
pub enum Reason {
    Disarmed,
    ArmedAwaitingStart,
    EmergencyStop,
    DeadmanReleased,
    DeadmanExpired,
    HeartbeatMissing,
    HeartbeatExpired,
    CommandMissing,
    CommandExpired,
    SensorMissing { sensor: SensorKind },
    SensorExpired { sensor: SensorKind },
    InvalidInput { message: Seq<char> },
    LimitsExceeded,
    TimeRegression,
    InvalidTransition,
    FaultLatched,
    ResetRequiresDeadmanRelease,
}

impl View for StopReason {
    type V = Reason;

    open spec fn view(&self) -> Reason {
        match self {
            StopReason::Disarmed => Reason::Disarmed,
            StopReason::ArmedAwaitingStart => Reason::ArmedAwaitingStart,
            StopReason::EmergencyStop => Reason::EmergencyStop,
            StopReason::DeadmanReleased => Reason::DeadmanReleased,
            StopReason::DeadmanExpired => Reason::DeadmanExpired,
            StopReason::HeartbeatMissing => Reason::HeartbeatMissing,
            StopReason::HeartbeatExpired => Reason::HeartbeatExpired,
            StopReason::CommandMissing => Reason::CommandMissing,
            StopReason::CommandExpired => Reason::CommandExpired,
            StopReason::SensorMissing { sensor } => Reason::SensorMissing { sensor: *sensor },
            StopReason::SensorExpired { sensor } => Reason::SensorExpired { sensor: *sensor },
            StopReason::InvalidInput { message } => Reason::InvalidInput { message: message@ },
            StopReason::LimitsExceeded => Reason::LimitsExceeded,
            StopReason::TimeRegression => Reason::TimeRegression,
            StopReason::InvalidTransition => Reason::InvalidTransition,
            StopReason::FaultLatched => Reason::FaultLatched,
            StopReason::ResetRequiresDeadmanRelease => Reason::ResetRequiresDeadmanRelease,
        }
    }
}

impl Clone for StopReason {
    fn clone(&self) -> (r: Self)
        ensures
            r == *self,
    {
        match self {
            StopReason::Disarmed => StopReason::Disarmed,
            StopReason::ArmedAwaitingStart => StopReason::ArmedAwaitingStart,
            StopReason::EmergencyStop => StopReason::EmergencyStop,
            StopReason::DeadmanReleased => StopReason::DeadmanReleased,
            StopReason::DeadmanExpired => StopReason::DeadmanExpired,
            StopReason::HeartbeatMissing => StopReason::HeartbeatMissing,
            StopReason::HeartbeatExpired => StopReason::HeartbeatExpired,
            StopReason::CommandMissing => StopReason::CommandMissing,
            StopReason::CommandExpired => StopReason::CommandExpired,
            StopReason::SensorMissing { sensor } => StopReason::SensorMissing { sensor: *sensor },
            StopReason::SensorExpired { sensor } => StopReason::SensorExpired { sensor: *sensor },
            StopReason::InvalidInput { message } => StopReason::InvalidInput {
                message: message.clone(),
            },
            StopReason::LimitsExceeded => StopReason::LimitsExceeded,
            StopReason::TimeRegression => StopReason::TimeRegression,
            StopReason::InvalidTransition => StopReason::InvalidTransition,
            StopReason::FaultLatched => StopReason::FaultLatched,
            StopReason::ResetRequiresDeadmanRelease => StopReason::ResetRequiresDeadmanRelease,
        }
    }
}

/// The view of an optional reason.
pub open spec fn reason_view(reason: Option<StopReason>) -> Option<Reason> {
    match reason {
        None => None,
        Some(r) => Some(r@),
    }
}

#[derive(Clone, Copy, Debug)]
pub enum MotionOutput {
    Stop,
    Drive { speed_mps: Binary64, curvature_per_m: Binary64 },
}

impl MotionOutput {
    /// Equality of values, which no command with a NaN has.
    pub open spec fn same(self, other: Self) -> bool {
        match (self, other) {
            (MotionOutput::Stop, MotionOutput::Stop) => true,
            (
                MotionOutput::Drive { speed_mps: a, curvature_per_m: b },
                MotionOutput::Drive { speed_mps: c, curvature_per_m: d },
            ) => a.same(c) && b.same(d),
            _ => false,
        }
    }

    #[verifier::when_used_as_spec(same)]
    pub fn equals(self, other: Self) -> (r: bool)
        ensures
            r == self.same(other),
    {
        match (self, other) {
            (MotionOutput::Stop, MotionOutput::Stop) => true,
            (
                MotionOutput::Drive { speed_mps: a, curvature_per_m: b },
                MotionOutput::Drive { speed_mps: c, curvature_per_m: d },
            ) => a.equals(c) && b.equals(d),
            _ => false,
        }
    }
}

#[derive(Debug)]
pub struct OutputRecord {
    pub at: Timestamp,
    pub state: State,
    pub command: MotionOutput,
    pub reason: Option<StopReason>,
}

impl Clone for OutputRecord {
    fn clone(&self) -> (r: Self)
        ensures
            r == *self,
    {
        OutputRecord {
            at: self.at,
            state: self.state,
            command: self.command,
            reason: match &self.reason {
                None => None,
                Some(reason) => Some(reason.clone()),
            },
        }
    }
}

#[derive(Clone, Debug)]
pub struct StepReport {
    pub event_at: Timestamp,
    pub previous_state: State,
    pub state: State,
    pub output: OutputRecord,
    pub emergency_stop_latched: bool,
}

#[derive(Clone, Debug)]
pub struct SinkError(pub String);

impl SinkError {
    /// The message.
    pub fn message(&self) -> (r: &str)
        ensures
            r@ == self.0@,
    {
        self.0.as_str()
    }
}

/// Where output records go. A transport is not a motor protocol.
pub trait MotionSink {
    fn emit(&mut self, record: &OutputRecord) -> Result<(), SinkError>;
}

/// A sink that keeps every record.
#[derive(Debug)]
pub struct RecordingSink {
    records: Vec<OutputRecord>,
}

impl View for RecordingSink {
    type V = Seq<OutputRecord>;

    closed spec fn view(&self) -> Seq<OutputRecord> {
        self.records@
    }
}

impl Default for RecordingSink {
    fn default() -> (r: Self)
        ensures
            r@ == Seq::<OutputRecord>::empty(),
    {
        RecordingSink { records: Vec::new() }
    }
}

impl RecordingSink {
    pub fn records(&self) -> (r: &[OutputRecord])
        ensures
            r@ == self@,
    {
        self.records.as_slice()
    }

    pub fn into_records(self) -> (r: Vec<OutputRecord>)
        ensures
            r@ == self@,
    {
        self.records
    }
}

impl MotionSink for RecordingSink {
    fn emit(&mut self, record: &OutputRecord) -> (r: Result<(), SinkError>)
        ensures
            r is Ok,
            final(self)@ == old(self)@.push(*record),
    {
        self.records.push(record.clone());
        Ok(())
    }
}

/// The latest accepted capture time of each kind of sensor.
#[derive(Clone, Copy, Debug)]
pub struct Captures {
    pub imu: Option<Timestamp>,
    pub lidar: Option<Timestamp>,
    pub odometry: Option<Timestamp>,
    pub vision: Option<Timestamp>,
}

impl Captures {
    pub open spec fn spec_none() -> Self {
        Captures { imu: None, lidar: None, odometry: None, vision: None }
    }

    pub open spec fn spec_get(self, kind: SensorKind) -> Option<Timestamp> {
        match kind {
            SensorKind::Imu => self.imu,
            SensorKind::Lidar => self.lidar,
            SensorKind::Odometry => self.odometry,
            SensorKind::Vision => self.vision,
        }
    }

    pub open spec fn spec_with(self, kind: SensorKind, at: Timestamp) -> Self {
        match kind {
            SensorKind::Imu => Captures { imu: Some(at), ..self },
            SensorKind::Lidar => Captures { lidar: Some(at), ..self },
            SensorKind::Odometry => Captures { odometry: Some(at), ..self },
            SensorKind::Vision => Captures { vision: Some(at), ..self },
        }
    }

    #[verifier::when_used_as_spec(spec_none)]
    pub fn none() -> (r: Self)
        ensures
            r == Self::spec_none(),
    {
        Captures { imu: None, lidar: None, odometry: None, vision: None }
    }

    #[verifier::when_used_as_spec(spec_get)]
    pub fn get(self, kind: SensorKind) -> (r: Option<Timestamp>)
        ensures
            r == self.spec_get(kind),
    {
        match kind {
            SensorKind::Imu => self.imu,
            SensorKind::Lidar => self.lidar,
            SensorKind::Odometry => self.odometry,
            SensorKind::Vision => self.vision,
        }
    }

    #[verifier::when_used_as_spec(spec_with)]
    pub fn with(self, kind: SensorKind, at: Timestamp) -> (r: Self)
        ensures
            r == self.spec_with(kind, at),
    {
        let mut r: Captures = self;
        match kind {
            SensorKind::Imu => {
                r.imu = Some(at);
            },
            SensorKind::Lidar => {
                r.lidar = Some(at);
            },
            SensorKind::Odometry => {
                r.odometry = Some(at);
            },
            SensorKind::Vision => {
                r.vision = Some(at);
            },
        }
        r
    }
}

} // verus!
