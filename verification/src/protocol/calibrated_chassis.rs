//! Lookup tables from physical units to PWM, for previews.
//!
//! The mapper opens no device and proves of no neutral PWM that it stops a
//! vehicle: the configuration it takes is an unverified simulation.
use super::chassis::PwmCommand;
use super::chassis;
use crate::binary64::conversion;
use crate::binary64::laws;
use crate::binary64::rounding;
use crate::binary64::signs;
use crate::binary64::values::{ONE, ZERO};
use crate::binary64::Binary64;
use crate::safety::MotionOutput;
use crate::sensors::ValidationError;
use crate::sensors;
use vstd::prelude::*;
use vstd::string::StringExecFns;

verus! {

#[derive(Clone, Copy, Debug, PartialEq, Eq, Structural)]
pub enum MeasurementStatus {
    Unverified,
}

#[derive(Clone, Copy, Debug, PartialEq, Eq, Structural)]
pub enum ReversePolicy {
    Disabled,
    /// Takes explicit entries of negative speed. Curvature keeps its geometric
    /// sign in reverse: the intended yaw rate is speed times curvature.
    CalibratedSignedSpeed,
}

#[derive(Clone, Copy, Debug, PartialEq, Eq, Structural)]
pub struct PwmRange {
    pub min_us: u16,
    pub max_us: u16,
}

#[derive(Clone, Copy, Debug)]
pub struct SpeedPoint {
    pub speed_mps: Binary64,
    pub motor_us: u16,
}

#[derive(Clone, Copy, Debug)]
pub struct CurvaturePoint {
    pub curvature_per_m: Binary64,
    pub servo_us: u16,
}

/// There are no defaults: units, zero points, envelope and reverse behaviour
/// are explicit.
#[derive(Clone, Debug)]
pub struct ChassisCalibration {
    pub schema_version: u32,
    pub simulation_only: bool,
    pub measurement_status: MeasurementStatus,
    pub motor_pwm_range: PwmRange,
    pub servo_pwm_range: PwmRange,
    pub stop_motor_us: u16,
    pub stop_servo_us: u16,
    pub reverse_policy: ReversePolicy,
    pub speed_points: Vec<SpeedPoint>,
    pub curvature_points: Vec<CurvaturePoint>,
}

impl PwmRange {
    pub open spec fn holds(self, us: u16) -> bool {
        self.min_us <= us <= self.max_us
    }
}

/// Why the entries from `i` on do not continue a table: their inputs have to
/// increase with finite spans, their widths to keep one direction.
pub open spec fn order_fault(
    points: Seq<(Binary64, u16)>,
    rising: bool,
    i: nat,
) -> Option<Seq<char>>
    decreases points.len() - i,
{
    if i + 1 >= points.len() {
        None
    } else {
        let (x0, y0) = points[i as int];
        let (x1, y1) = points[i as int + 1];
        if x1.le(x0) || !x1.minus(x0).finite() {
            Some("physical inputs must strictly increase with finite spans"@)
        } else if y0 == y1 || (y1 > y0) != rising {
            Some("PWM values must be strictly monotonic in one direction"@)
        } else {
            order_fault(points, rising, i + 1)
        }
    }
}

/// What is wrong with a table.
pub open spec fn table_fault(
    points: Seq<(Binary64, u16)>,
    envelope: PwmRange,
    neutral: u16,
) -> Option<Seq<char>> {
    if envelope.min_us < 500 || envelope.max_us > 2500 || envelope.min_us >= envelope.max_us
        || !envelope.holds(neutral) {
        Some("explicit PWM range and neutral must fit 500..2500 us"@)
    } else if !(2 <= points.len() <= 1024) {
        Some("table must contain 2..1024 points"@)
    } else if exists|i: int|
        0 <= i < points.len() && !((#[trigger] points[i]).0.finite() && envelope.holds(
            points[i].1,
        )) {
        Some("table inputs must be finite and PWM must fit its range"@)
    } else if order_fault(points, points[1].1 > points[0].1, 0) is Some {
        order_fault(points, points[1].1 > points[0].1, 0)
    } else if !exists|i: int|
        0 <= i < points.len() && (#[trigger] points[i]).0.same(Binary64::of(ZERO)) && points[i].1
            == neutral {
        Some("table requires an exact zero anchor at the Stop neutral PWM"@)
    } else {
        None
    }
}

/// A message about a named table.
pub open spec fn named(name: Seq<char>, why: Seq<char>) -> Seq<char> {
    name + ": "@ + why
}

/// The first entry whose input is not below a value.
pub open spec fn position(points: Seq<(Binary64, u16)>, input: Binary64) -> nat
    decreases points.len(),
{
    if points.len() == 0 || !points[0].0.lt(input) {
        0
    } else {
        1 + position(points.drop_first(), input)
    }
}

/// The width between two entries, in proportion, rounded.
pub open spec fn between(
    lower: (Binary64, u16),
    upper: (Binary64, u16),
    input: Binary64,
) -> Binary64 {
    let fraction = input.minus(lower.0).over(upper.0.minus(lower.0));
    let y0 = Binary64::from_natural(lower.1 as u64);
    let y1 = Binary64::from_natural(upper.1 as u64);
    y0.plus(fraction.times(y1.minus(y0))).round()
}

/// The width that a table gives for an input, or the reason why none: nothing
/// is extrapolated or clipped.
pub open spec fn looked_up(
    points: Seq<(Binary64, u16)>,
    envelope: PwmRange,
    input: Binary64,
) -> Result<u16, Seq<char>> {
    let upper = position(points, input) as int;
    if !input.finite() || input.lt(points[0].0) || points.last().0.lt(input) {
        Err(
            "input is non-finite or outside the calibrated table; extrapolation is disabled"@,
        )
    } else if points[upper].0.same(input) {
        Ok(points[upper].1)
    } else {
        let pwm = between(points[upper - 1], points[upper], input);
        if !pwm.finite() || pwm.lt(Binary64::from_natural(envelope.min_us as u64))
            || Binary64::from_natural(envelope.max_us as u64).lt(pwm) {
            Err("interpolated PWM exceeds the explicit range"@)
        } else {
            Ok(chassis::width(pwm))
        }
    }
}

impl ChassisCalibration {
    pub open spec fn motor_table(&self) -> Seq<(Binary64, u16)> {
        self.speed_points@.map_values(|p: SpeedPoint| (p.speed_mps, p.motor_us))
    }

    pub open spec fn servo_table(&self) -> Seq<(Binary64, u16)> {
        self.curvature_points@.map_values(|p: CurvaturePoint| (p.curvature_per_m, p.servo_us))
    }

    /// Whether the speeds go forward, and backward where that is calibrated.
    pub open spec fn directions_ok(&self) -> bool {
        let first = self.motor_table()[0].0;
        let last = self.motor_table().last().0;
        Binary64::of(ZERO).lt(last) && match self.reverse_policy {
            ReversePolicy::Disabled => first.same(Binary64::of(ZERO)),
            ReversePolicy::CalibratedSignedSpeed => first.lt(Binary64::of(ZERO)),
        }
    }

    /// What is wrong with a calibration, the first of these that applies.
    pub open spec fn fault(&self) -> Option<Seq<char>> {
        let motor = table_fault(self.motor_table(), self.motor_pwm_range, self.stop_motor_us);
        let servo = table_fault(self.servo_table(), self.servo_pwm_range, self.stop_servo_us);
        if self.schema_version != 1 || !self.simulation_only {
            Some("chassis calibration requires schema_version=1 and simulation_only=true"@)
        } else if motor is Some {
            Some(named("speed_mps -> motor_us"@, motor->0))
        } else if servo is Some {
            Some(named("curvature_per_m -> servo_us"@, servo->0))
        } else if !self.directions_ok() {
            Some(
                "speed table must include forward motion; reverse requires explicit calibrated_signed_speed and negative entries"@,
            )
        } else if Binary64::of(ZERO).le(self.servo_table()[0].0) || self.servo_table().last().0.le(
            Binary64::of(ZERO),
        ) {
            Some("curvature table must cover both sides of its zero anchor"@)
        } else {
            chassis::pwm_fault(self.stop_motor_us, self.stop_servo_us)
        }
    }

    /// The widths for a motion output, or the reason why none.
    pub open spec fn previewed(&self, output: MotionOutput) -> Result<(u16, u16), Seq<char>> {
        match output {
            MotionOutput::Stop => Ok((self.stop_motor_us, self.stop_servo_us)),
            MotionOutput::Drive { speed_mps, curvature_per_m } => {
                if self.reverse_policy == ReversePolicy::Disabled && speed_mps.lt(
                    Binary64::of(ZERO),
                ) {
                    Err("reverse motion is disabled"@)
                } else {
                    match looked_up(self.motor_table(), self.motor_pwm_range, speed_mps) {
                        Err(why) => Err(named("speed_mps -> motor_us"@, why)),
                        Ok(motor) => match looked_up(
                            self.servo_table(),
                            self.servo_pwm_range,
                            curvature_per_m,
                        ) {
                            Err(why) => Err(named("curvature_per_m -> servo_us"@, why)),
                            Ok(servo) => if chassis::pwm_fault(motor, servo) is Some {
                                Err(chassis::pwm_fault(motor, servo)->0)
                            } else {
                                Ok((motor, servo))
                            },
                        },
                    }
                }
            },
        }
    }
}

fn about(name: &str, why: &str) -> (r: ValidationError)
    ensures
        r.0@ == named(name@, why@),
{
    let mut message: String = name.to_owned();
    message.append(": ");
    message.append(why);
    ValidationError(message)
}

struct Table {
    points: Vec<(Binary64, u16)>,
    envelope: PwmRange,
    name: &'static str,
}

impl Table {
    /// What construction has established.
    spec fn sound(&self) -> bool {
        &&& 2 <= self.points@.len() <= 1024
        &&& 500 <= self.envelope.min_us < self.envelope.max_us <= 2500
        &&& forall|i: int|
            0 <= i < self.points@.len() ==> (#[trigger] self.points@[i]).0.finite()
    }

    fn new(
        points: Vec<(Binary64, u16)>,
        envelope: PwmRange,
        neutral: u16,
        name: &'static str,
    ) -> (r: Result<Self, ValidationError>)
        ensures
            match r {
                Ok(table) => {
                    &&& table_fault(points@, envelope, neutral) is None
                    &&& table.points == points
                    &&& table.envelope == envelope
                    &&& table.name == name
                    &&& table.sound()
                },
                Err(e) => {
                    &&& table_fault(points@, envelope, neutral) is Some
                    &&& e.0@ == named(name@, table_fault(points@, envelope, neutral)->0)
                },
            },
    {
        if envelope.min_us < 500 || envelope.max_us > 2500 || envelope.min_us >= envelope.max_us
            || !(envelope.min_us <= neutral && neutral <= envelope.max_us) {
            return Err(about(name, "explicit PWM range and neutral must fit 500..2500 us"));
        }
        if !(2 <= points.len() && points.len() <= 1024) {
            return Err(about(name, "table must contain 2..1024 points"));
        }
        if !all_fit(&points, envelope) {
            return Err(about(name, "table inputs must be finite and PWM must fit its range"));
        }
        if let Err(why) = check_order(&points) {
            return Err(about(name, why));
        }
        if !anchored(&points, neutral) {
            return Err(about(name, "table requires an exact zero anchor at the Stop neutral PWM"));
        }
        Ok(Table { points, envelope, name })
    }

    fn interpolate(&self, input: Binary64) -> (r: Result<u16, ValidationError>)
        requires
            self.sound(),
        ensures
            match r {
                Ok(us) => looked_up(self.points@, self.envelope, input) == Ok::<u16, Seq<char>>(us),
                Err(e) => looked_up(self.points@, self.envelope, input) is Err && e.0@ == named(
                    self.name@,
                    looked_up(self.points@, self.envelope, input)->Err_0,
                ),
            },
    {
        let count: usize = self.points.len();
        if !input.is_finite() || input.less(self.points[0].0) || self.points[count - 1].0.less(
            input,
        ) {
            return Err(
                about(
                    self.name,
                    "input is non-finite or outside the calibrated table; extrapolation is disabled",
                ),
            );
        }
        let upper: usize = find(&self.points, input);
        if self.points[upper].0.equals(input) {
            return Ok(self.points[upper].1);
        }
        let (x0, y0) = self.points[upper - 1];
        let (x1, y1) = self.points[upper];
        let fraction: Binary64 = input.minus(x0).over(x1.minus(x0));
        let low: Binary64 = Binary64::from_natural(y0 as u64);
        let high: Binary64 = Binary64::from_natural(y1 as u64);
        let pwm: Binary64 = low.plus(fraction.times(high.minus(low))).round();
        if !pwm.is_finite() || pwm.less(Binary64::from_natural(self.envelope.min_us as u64))
            || Binary64::from_natural(self.envelope.max_us as u64).less(pwm) {
            return Err(about(self.name, "interpolated PWM exceeds the explicit range"));
        }
        Ok(pwm.truncate(0xffff) as u16)
    }
}

fn all_fit(points: &Vec<(Binary64, u16)>, envelope: PwmRange) -> (r: bool)
    ensures
        r == !exists|i: int|
            0 <= i < points@.len() && !((#[trigger] points@[i]).0.finite() && envelope.holds(
                points@[i].1,
            )),
{
    let mut i: usize = 0;
    while i < points.len()
        invariant
            i <= points@.len(),
            forall|j: int|
                0 <= j < i ==> (#[trigger] points@[j]).0.finite() && envelope.holds(points@[j].1),
        decreases points@.len() - i,
    {
        let (x, y) = points[i];
        if !x.is_finite() || !(envelope.min_us <= y && y <= envelope.max_us) {
            assert(!(points@[i as int].0.finite() && envelope.holds(points@[i as int].1)));
            return false;
        }
        i += 1;
    }
    true
}

fn check_order(points: &Vec<(Binary64, u16)>) -> (r: Result<(), &'static str>)
    requires
        points@.len() >= 2,
    ensures
        match r {
            Ok(_) => order_fault(points@, points@[1].1 > points@[0].1, 0) is None,
            Err(why) => order_fault(points@, points@[1].1 > points@[0].1, 0) == Some(why@),
        },
{
    let rising: bool = points[1].1 > points[0].1;
    let mut i: usize = 0;
    while i < points.len() - 1
        invariant
            points@.len() >= 2,
            i <= points@.len() - 1,
            rising == (points@[1].1 > points@[0].1),
            order_fault(points@, rising, 0) == order_fault(points@, rising, i as nat),
        decreases points@.len() - i,
    {
        let (x0, y0) = points[i];
        let (x1, y1) = points[i + 1];
        if x1.at_most(x0) || !x1.minus(x0).is_finite() {
            return Err("physical inputs must strictly increase with finite spans");
        }
        if y0 == y1 || (y1 > y0) != rising {
            return Err("PWM values must be strictly monotonic in one direction");
        }
        i += 1;
    }
    Ok(())
}

fn anchored(points: &Vec<(Binary64, u16)>, neutral: u16) -> (r: bool)
    ensures
        r == exists|i: int|
            0 <= i < points@.len() && (#[trigger] points@[i]).0.same(Binary64::of(ZERO))
                && points@[i].1 == neutral,
{
    let mut i: usize = 0;
    while i < points.len()
        invariant
            i <= points@.len(),
            forall|j: int|
                0 <= j < i ==> !((#[trigger] points@[j]).0.same(Binary64::of(ZERO)) && points@[j].1
                    == neutral),
        decreases points@.len() - i,
    {
        let (x, y) = points[i];
        if x.equals(Binary64::of(ZERO)) && y == neutral {
            assert(points@[i as int].0.same(Binary64::of(ZERO)));
            return true;
        }
        i += 1;
    }
    false
}

/// Finds the first entry whose input is not below a value that the table
/// covers.
fn find(points: &Vec<(Binary64, u16)>, input: Binary64) -> (r: usize)
    requires
        points@.len() >= 1,
        input.finite(),
        forall|i: int| 0 <= i < points@.len() ==> (#[trigger] points@[i]).0.finite(),
        !points@.last().0.lt(input),
        !input.lt(points@[0].0),
    ensures
        r == position(points@, input),
        r < points@.len(),
        !points@[r as int].0.same(input) ==> r >= 1,
{
    let mut i: usize = 0;
    assert(points@.skip(0) =~= points@);
    while i < points.len() && points[i].0.less(input)
        invariant
            i <= points@.len(),
            position(points@, input) == i + position(points@.skip(i as int), input),
            forall|j: int| 0 <= j < i ==> (#[trigger] points@[j]).0.lt(input),
        decreases points@.len() - i,
    {
        assert(points@.skip(i as int)[0] == points@[i as int]);
        assert(points@.skip(i as int).drop_first() =~= points@.skip(i + 1));
        i += 1;
    }
    assert(i < points@.len()) by {
        if i == points@.len() {
            assert(points@[i - 1].0.lt(input));
        }
    }
    assert(points@.skip(i as int)[0] == points@[i as int]);
    i
}

pub struct CalibratedChassis {
    config: ChassisCalibration,
    motor: Table,
    servo: Table,
    stop: PwmCommand,
}

impl View for CalibratedChassis {
    type V = ChassisCalibration;

    closed spec fn view(&self) -> ChassisCalibration {
        self.config
    }
}

impl CalibratedChassis {
    /// The tables are those of the calibration.
    #[verifier::type_invariant]
    spec fn consistent(&self) -> bool {
        &&& self.config.fault() is None
        &&& self.motor.sound()
        &&& self.servo.sound()
        &&& self.motor.points@ == self.config.motor_table()
        &&& self.servo.points@ == self.config.servo_table()
        &&& self.motor.envelope == self.config.motor_pwm_range
        &&& self.servo.envelope == self.config.servo_pwm_range
        &&& self.motor.name@ == "speed_mps -> motor_us"@
        &&& self.servo.name@ == "curvature_per_m -> servo_us"@
        &&& self.stop@ == (self.config.stop_motor_us, self.config.stop_servo_us)
    }

    pub fn new(config: ChassisCalibration) -> (r: Result<Self, ValidationError>)
        ensures
            sensors::refusal(r) == config.fault(),
            r matches Ok(chassis) ==> chassis@ == config,
    {
        if config.schema_version != 1 || !config.simulation_only {
            return Err(
                ValidationError::new(
                    "chassis calibration requires schema_version=1 and simulation_only=true",
                ),
            );
        }
        let motor: Table = Table::new(
            speed_entries(&config.speed_points),
            config.motor_pwm_range,
            config.stop_motor_us,
            "speed_mps -> motor_us",
        )?;
        let servo: Table = Table::new(
            curvature_entries(&config.curvature_points),
            config.servo_pwm_range,
            config.stop_servo_us,
            "curvature_per_m -> servo_us",
        )?;
        let zero: Binary64 = Binary64::of(ZERO);
        let first: Binary64 = motor.points[0].0;
        let last: Binary64 = motor.points[motor.points.len() - 1].0;
        let directions_ok: bool = zero.less(last) && match config.reverse_policy {
            ReversePolicy::Disabled => first.equals(zero),
            ReversePolicy::CalibratedSignedSpeed => first.less(zero),
        };
        if !directions_ok {
            return Err(
                ValidationError::new(
                    "speed table must include forward motion; reverse requires explicit calibrated_signed_speed and negative entries",
                ),
            );
        }
        if zero.at_most(servo.points[0].0) || servo.points[servo.points.len() - 1].0.at_most(zero) {
            return Err(
                ValidationError::new("curvature table must cover both sides of its zero anchor"),
            );
        }
        let stop: PwmCommand = PwmCommand::new(config.stop_motor_us, config.stop_servo_us)?;
        Ok(CalibratedChassis { config, motor, servo, stop })
    }

    pub fn config(&self) -> (r: &ChassisCalibration)
        ensures
            *r == self@,
    {
        &self.config
    }

    /// The configured neutral widths, which acknowledge no physical stopping.
    pub fn stop_command(&self) -> (r: PwmCommand)
        ensures
            r@ == (self@.stop_motor_us, self@.stop_servo_us),
    {
        proof {
            use_type_invariant(self);
        }
        self.stop
    }

    /// Maps a controller output. Nothing is clipped or substituted.
    pub fn preview(&self, output: &MotionOutput) -> (r: Result<PwmCommand, ValidationError>)
        ensures
            match r {
                Ok(command) => self@.previewed(*output) == Ok::<(u16, u16), Seq<char>>(command@),
                Err(e) => self@.previewed(*output) == Err::<(u16, u16), Seq<char>>(e.0@),
            },
    {
        proof {
            use_type_invariant(self);
        }
        match *output {
            MotionOutput::Stop => Ok(self.stop),
            MotionOutput::Drive { speed_mps, curvature_per_m } => {
                if self.config.reverse_policy == ReversePolicy::Disabled && speed_mps.less(
                    Binary64::of(ZERO),
                ) {
                    return Err(ValidationError::new("reverse motion is disabled"));
                }
                let motor: u16 = self.motor.interpolate(speed_mps)?;
                let servo: u16 = self.servo.interpolate(curvature_per_m)?;
                PwmCommand::new(motor, servo)
            },
        }
    }
}

fn speed_entries(points: &Vec<SpeedPoint>) -> (r: Vec<(Binary64, u16)>)
    ensures
        r@ == points@.map_values(|p: SpeedPoint| (p.speed_mps, p.motor_us)),
{
    let mut r: Vec<(Binary64, u16)> = Vec::new();
    while r.len() < points.len()
        invariant
            r@.len() <= points@.len(),
            forall|i: int|
                0 <= i < r@.len() ==> r@[i] == (points@[i].speed_mps, points@[i].motor_us),
        decreases points@.len() - r@.len(),
    {
        let p: SpeedPoint = points[r.len()];
        r.push((p.speed_mps, p.motor_us));
    }
    assert(r@ =~= points@.map_values(|p: SpeedPoint| (p.speed_mps, p.motor_us)));
    r
}

fn curvature_entries(points: &Vec<CurvaturePoint>) -> (r: Vec<(Binary64, u16)>)
    ensures
        r@ == points@.map_values(|p: CurvaturePoint| (p.curvature_per_m, p.servo_us)),
{
    let mut r: Vec<(Binary64, u16)> = Vec::new();
    while r.len() < points.len()
        invariant
            r@.len() <= points@.len(),
            forall|i: int|
                0 <= i < r@.len() ==> r@[i] == (points@[i].curvature_per_m, points@[i].servo_us),
        decreases points@.len() - r@.len(),
    {
        let p: CurvaturePoint = points[r.len()];
        r.push((p.curvature_per_m, p.servo_us));
    }
    assert(r@ =~= points@.map_values(|p: CurvaturePoint| (p.curvature_per_m, p.servo_us)));
    r
}

/// The inputs of a table without fault strictly increase.
proof fn lemma_inputs_increase(points: Seq<(Binary64, u16)>, rising: bool, i: nat, a: int, b: int)
    requires
        order_fault(points, rising, i) is None,
        i <= a < b < points.len(),
        forall|j: int| 0 <= j < points.len() ==> (#[trigger] points[j]).0.finite(),
    ensures
        points[a].0.lt(points[b].0),
    decreases points.len() - i, b,
{
    if i < a {
        lemma_inputs_increase(points, rising, i + 1, a, b);
    } else if a + 1 < b {
        lemma_inputs_increase(points, rising, i + 1, a + 1, b);
        assert(points[a].0.lt(points[a + 1].0));
    }
}

/// Where the entries before an index are below a value and the entry there is
/// not, the index is the position of the value.
proof fn lemma_position(points: Seq<(Binary64, u16)>, input: Binary64, i: int)
    requires
        0 <= i < points.len(),
        forall|j: int| 0 <= j < i ==> (#[trigger] points[j]).0.lt(input),
        !points[i].0.lt(input),
    ensures
        position(points, input) == i,
    decreases points.len(),
{
    if i > 0 {
        assert(points[0].0.lt(input));
        assert forall|j: int| 0 <= j < i - 1 implies (#[trigger] points.drop_first()[j]).0.lt(
            input,
        ) by {
            assert(points.drop_first()[j] == points[j + 1]);
        }
        assert(points.drop_first()[i - 1] == points[i]);
        lemma_position(points.drop_first(), input, i - 1);
    }
}

/// A table without fault gives at each of its own inputs exactly the width of
/// that entry.
pub proof fn law_table_entries_are_exact(
    points: Seq<(Binary64, u16)>,
    envelope: PwmRange,
    neutral: u16,
    i: int,
    input: Binary64,
)
    requires
        table_fault(points, envelope, neutral) is None,
        0 <= i < points.len(),
        input.same(points[i].0),
    ensures
        looked_up(points, envelope, input) == Ok::<u16, Seq<char>>(points[i].1),
{
    let rising = points[1].1 > points[0].1;
    assert(forall|j: int| 0 <= j < points.len() ==> (#[trigger] points[j]).0.finite());
    assert forall|j: int| 0 <= j < i implies (#[trigger] points[j]).0.lt(input) by {
        lemma_inputs_increase(points, rising, 0, j, i);
    }
    lemma_position(points, input, i);
    assert(points[i].0.finite());
    let last = points.len() - 1;
    if i < last {
        lemma_inputs_increase(points, rising, 0, i, last);
    }
}

/// Every width that a table without fault gives lies in its explicit range.
pub proof fn law_widths_stay_in_range(
    points: Seq<(Binary64, u16)>,
    envelope: PwmRange,
    neutral: u16,
    input: Binary64,
)
    requires
        table_fault(points, envelope, neutral) is None,
        looked_up(points, envelope, input) is Ok,
    ensures
        envelope.holds(looked_up(points, envelope, input)->Ok_0),
{
    let upper = position(points, input) as int;
    let rising = points[1].1 > points[0].1;
    lemma_position_bound(points, input);
    assert(points.last() == points[points.len() - 1]);
    assert(upper < points.len());
    assert(points[upper].0.finite() && envelope.holds(points[upper].1));
    if !points[upper].0.same(input) {
        let pwm = between(points[upper - 1], points[upper], input);
        laws::law_small_naturals_are_exact(envelope.min_us as u64);
        laws::law_small_naturals_are_exact(envelope.max_us as u64);
        laws::law_truncation_stays_between(envelope.min_us, pwm, envelope.max_us);
    }
}

proof fn lemma_position_bound(points: Seq<(Binary64, u16)>, input: Binary64)
    requires
        points.len() > 0,
        !points.last().0.lt(input),
    ensures
        position(points, input) < points.len(),
    decreases points.len(),
{
    if points[0].0.lt(input) {
        assert(points.drop_first().last() == points.last());
        lemma_position_bound(points.drop_first(), input);
    }
}

/// A calibration without fault maps a request for zero speed and zero
/// curvature to exactly the widths of a stop.
pub proof fn law_zero_motion_is_the_stop_command(
    calibration: ChassisCalibration,
    speed: Binary64,
    curvature: Binary64,
)
    requires
        calibration.fault() is None,
        speed.same(Binary64::of(ZERO)),
        curvature.same(Binary64::of(ZERO)),
    ensures
        calibration.previewed(
            MotionOutput::Drive { speed_mps: speed, curvature_per_m: curvature },
        ) == calibration.previewed(MotionOutput::Stop),
{
    let motor = calibration.motor_table();
    let servo = calibration.servo_table();
    let i = choose|i: int|
        0 <= i < motor.len() && (#[trigger] motor[i]).0.same(Binary64::of(ZERO)) && motor[i].1
            == calibration.stop_motor_us;
    let j = choose|j: int|
        0 <= j < servo.len() && (#[trigger] servo[j]).0.same(Binary64::of(ZERO)) && servo[j].1
            == calibration.stop_servo_us;
    law_table_entries_are_exact(
        motor,
        calibration.motor_pwm_range,
        calibration.stop_motor_us,
        i,
        speed,
    );
    law_table_entries_are_exact(
        servo,
        calibration.servo_pwm_range,
        calibration.stop_servo_us,
        j,
        curvature,
    );
}

/// What is added to the width of the lower entry on the way to the upper one.
spec fn share(lower: (Binary64, u16), upper: (Binary64, u16), input: Binary64) -> Binary64 {
    let fraction = input.minus(lower.0).over(upper.0.minus(lower.0));
    let y0 = Binary64::from_natural(lower.1 as u64);
    let y1 = Binary64::from_natural(upper.1 as u64);
    y0.plus(fraction.times(y1.minus(y0)))
}

/// Between two entries the unrounded width lies between theirs, and goes on with
/// the input towards the upper one.
proof fn lemma_share(lower: (Binary64, u16), upper: (Binary64, u16), a: Binary64, b: Binary64)
    requires
        lower.0.finite(),
        upper.0.finite(),
        a.finite(),
        b.finite(),
        lower.0.lt(upper.0),
        upper.0.minus(lower.0).finite(),
        lower.0.le(a),
        a.le(b),
        b.le(upper.0),
    ensures
        ({
            let y0 = Binary64::from_natural(lower.1 as u64);
            let y1 = Binary64::from_natural(upper.1 as u64);
            let (s, t) = (share(lower, upper, a), share(lower, upper, b));
            &&& s.finite() && t.finite()
            &&& lower.1 <= upper.1 ==> y0.le(s) && s.le(t) && t.le(y1)
            &&& upper.1 <= lower.1 ==> y1.le(t) && t.le(s) && s.le(y0)
        }),
{
    let zero = Binary64::of(ZERO);
    let one = Binary64::of(ONE);
    let span = upper.0.minus(lower.0);
    let y0 = Binary64::from_natural(lower.1 as u64);
    let y1 = Binary64::from_natural(upper.1 as u64);
    let dy = y1.minus(y0);
    laws::law_small_naturals_are_exact(lower.1 as u64);
    laws::law_small_naturals_are_exact(upper.1 as u64);
    signs::law_differences_order_their_terms(upper.0, lower.0);
    signs::law_differences_order_their_terms(a, lower.0);
    laws::law_sums_are_monotone(a, b, lower.0);
    laws::law_sums_are_monotone(b, upper.0, lower.0);
    let (p, q) = (a.minus(lower.0), b.minus(lower.0));
    assert(p.finite() && q.finite());
    signs::law_quotients_are_monotone(p, q, span, span);
    signs::law_quotients_are_monotone(q, span, span, span);
    signs::law_a_whole_is_one(span);
    let (f, g) = (p.over(span), q.over(span));
    lemma_whole_difference(lower.1, upper.1);
    signs::law_zero_and_one(dy);
    signs::law_zero_adds_nothing(y0, zero.times(dy));
    if lower.1 <= upper.1 {
        signs::law_products_are_monotone(zero, f, dy);
        signs::law_products_are_monotone(f, g, dy);
        signs::law_products_are_monotone(g, one, dy);
        lemma_sums(y0, zero.times(dy), f.times(dy), g.times(dy), dy);
    } else {
        let back = dy.negated();
        signs::law_products_are_monotone(zero, f, back);
        signs::law_products_are_monotone(f, g, back);
        signs::law_products_are_monotone(g, one, back);
        signs::law_zero_and_one(back);
        signs::law_products_are_mirrored(zero, dy);
        signs::law_products_are_mirrored(f, dy);
        signs::law_products_are_mirrored(g, dy);
        signs::law_products_are_mirrored(one, dy);
        lemma_mirrored_order(f.times(dy), zero.times(dy));
        lemma_mirrored_order(g.times(dy), f.times(dy));
        lemma_mirrored_order(dy, g.times(dy));
        lemma_sums(y0, dy, g.times(dy), f.times(dy), zero.times(dy));
    }
}

proof fn lemma_mirrored_order(a: Binary64, b: Binary64)
    ensures
        a.le(b) == b.negated().le(a.negated()),
{
    signs::law_negation_mirrors(b, a);
}

proof fn lemma_sums(y: Binary64, a: Binary64, b: Binary64, c: Binary64, d: Binary64)
    requires
        y.finite(),
        a.finite(),
        d.finite(),
        a.le(b),
        b.le(c),
        c.le(d),
        y.plus(a).finite(),
        y.plus(d).finite(),
    ensures
        y.plus(a).le(y.plus(b)),
        y.plus(b).le(y.plus(c)),
        y.plus(c).le(y.plus(d)),
        y.plus(b).finite(),
        y.plus(c).finite(),
{
    laws::law_sums_are_monotone(a, b, y);
    laws::law_sums_are_monotone(b, c, y);
    laws::law_sums_are_monotone(c, d, y);
    signs::law_products_commute(a, y);
    signs::law_products_commute(b, y);
    signs::law_products_commute(c, y);
    signs::law_products_commute(d, y);
}

/// Differences of widths are exact, and lead from one to the other.
proof fn lemma_whole_difference(from: u16, to: u16)
    ensures
        ({
            let y0 = Binary64::from_natural(from as u64);
            let y1 = Binary64::from_natural(to as u64);
            let dy = y1.minus(y0);
            &&& dy.finite()
            &&& y0.plus(dy).same(y1)
            &&& y0.plus(dy).finite()
            &&& from <= to ==> Binary64::of(ZERO).le(dy)
            &&& to <= from ==> dy.le(Binary64::of(ZERO))
        }),
{
    let y0 = Binary64::from_natural(from as u64);
    let y1 = Binary64::from_natural(to as u64);
    let u = conversion::one();
    laws::law_small_naturals_are_exact(from as u64);
    laws::law_small_naturals_are_exact(to as u64);
    vstd::arithmetic::power2::lemma_pow2_pos(1074);
    reveal(Binary64::spec_plus);
    let n: nat = (if from <= to {
        to - from
    } else {
        from - to
    }) as nat;
    laws::law_rounding_is_exact_on_representable_values(true, n, 1074);
    laws::law_rounding_is_exact_on_representable_values(false, n, 1074);
    laws::law_rounding_is_exact_on_representable_values(false, to as nat, 1074);
    laws::lemma_zero_magnitude(y0);
    laws::lemma_zero_magnitude(y1);
    assert(y0.negated().magnitude() == y0.magnitude());
    assert(to * u - from * u == (to - from) * u) by (nonlinear_arith);
    assert(from <= to ==> (to - from) * u == n * u);
    assert(to <= from ==> (from - to) * u == n * u);
    assert((from - to) * u == -((to - from) * u)) by (nonlinear_arith);
    assert(n * u >= 0 && to * u >= 0 && from * u >= 0) by (nonlinear_arith)
        requires n >= 0, u > 0;
    let dy = y1.minus(y0);
    laws::lemma_zero_magnitude(dy);
    assert(dy.units() == to * u - from * u);
    assert(y0.units() + dy.units() == y1.units());
    rounding::lemma_exact(y1);
}

/// A table that rises gives no smaller a width for a larger input, and one that
/// falls no larger a one, within the span of two neighbouring entries. The
/// widths lie between those of the two entries.
pub proof fn law_widths_follow_the_input(
    points: Seq<(Binary64, u16)>,
    envelope: PwmRange,
    neutral: u16,
    i: int,
    a: Binary64,
    b: Binary64,
)
    requires
        table_fault(points, envelope, neutral) is None,
        0 <= i < points.len() - 1,
        points[i].0.lt(a),
        a.le(b),
        b.lt(points[i + 1].0),
        looked_up(points, envelope, a) is Ok,
        looked_up(points, envelope, b) is Ok,
    ensures
        ({
            let (s, t) = (looked_up(points, envelope, a)->Ok_0, looked_up(points, envelope, b)->Ok_0);
            let (low, high) = (points[i].1, points[i + 1].1);
            &&& low < high ==> low <= s <= t <= high
            &&& high < low ==> high <= t <= s <= low
        }),
{
    let rising = points[1].1 > points[0].1;
    assert(forall|j: int| 0 <= j < points.len() ==> (#[trigger] points[j]).0.finite());
    lemma_between_entries(points, envelope, neutral, i, a);
    lemma_between_entries(points, envelope, neutral, i, b);
    lemma_inputs_increase(points, rising, 0, i, i + 1);
    lemma_span(points, rising, 0, i);
    let (lower, upper) = (points[i], points[i + 1]);
    lemma_share(lower, upper, a, b);
    let (s, t) = (share(lower, upper, a), share(lower, upper, b));
    let y0 = Binary64::from_natural(lower.1 as u64);
    let y1 = Binary64::from_natural(upper.1 as u64);
    laws::law_small_naturals_are_exact(lower.1 as u64);
    laws::law_small_naturals_are_exact(upper.1 as u64);
    lemma_whole_width(lower.1);
    lemma_whole_width(upper.1);
    if lower.1 <= upper.1 {
        signs::law_whole_parts_keep_the_order(y0, s, 0xffff);
        signs::law_whole_parts_keep_the_order(s, t, 0xffff);
        signs::law_whole_parts_keep_the_order(t, y1, 0xffff);
    } else {
        signs::law_whole_parts_keep_the_order(y1, t, 0xffff);
        signs::law_whole_parts_keep_the_order(t, s, 0xffff);
        signs::law_whole_parts_keep_the_order(s, y0, 0xffff);
    }
}

/// Between two neighbouring entries the width is that of the two, rounded.
proof fn lemma_between_entries(
    points: Seq<(Binary64, u16)>,
    envelope: PwmRange,
    neutral: u16,
    i: int,
    input: Binary64,
)
    requires
        table_fault(points, envelope, neutral) is None,
        0 <= i < points.len() - 1,
        points[i].0.lt(input),
        input.lt(points[i + 1].0),
        looked_up(points, envelope, input) is Ok,
    ensures
        input.finite(),
        looked_up(points, envelope, input)->Ok_0 == chassis::width(
            share(points[i], points[i + 1], input).round(),
        ),
        share(points[i], points[i + 1], input).round().finite(),
{
    let rising = points[1].1 > points[0].1;
    assert(forall|j: int| 0 <= j < points.len() ==> (#[trigger] points[j]).0.finite());
    assert forall|j: int| 0 <= j < i + 1 implies (#[trigger] points[j]).0.lt(input) by {
        if j < i {
            lemma_inputs_increase(points, rising, 0, j, i);
        }
    }
    lemma_position(points, input, i + 1);
}

/// The spans of a table without fault are finite.
proof fn lemma_span(points: Seq<(Binary64, u16)>, rising: bool, from: nat, i: int)
    requires
        order_fault(points, rising, from) is None,
        from <= i < points.len() - 1,
    ensures
        points[i + 1].0.minus(points[i].0).finite(),
    decreases i - from,
{
    if from < i {
        lemma_span(points, rising, from + 1, i);
    }
}

/// A whole width is its own rounding and its own integer part.
proof fn lemma_whole_width(us: u16)
    ensures
        Binary64::from_natural(us as u64).round().finite(),
        Binary64::from_natural(us as u64).round().truncated(0xffff) == us,
{
    let y = Binary64::from_natural(us as u64);
    let u = conversion::one();
    laws::law_small_naturals_are_exact(us as u64);
    reveal(Binary64::spec_round);
    reveal(Binary64::truncated);
    vstd::arithmetic::power2::lemma_pow2_pos(1074);
    vstd::arithmetic::div_mod::lemma_div_by_multiple(us as int, u as int);
    vstd::arithmetic::div_mod::lemma_fundamental_div_mod((us * u) as int, u as int);
    assert((us * u) as int % u as int == 0) by {
        vstd::arithmetic::div_mod::lemma_mod_multiples_basic(us as int, u as int);
    }
    rounding::lemma_exact(y);
}

} // verus!
