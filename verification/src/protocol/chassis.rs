//! The chassis controller's packet. PWM is not a velocity unit.
use crate::binary64::values::{
    GAIN_1200, GAIN_1300, HALF_TURN_DEG, HUNDRED, PWM_CENTRE, PWM_HIGH, PWM_LOW, TWO_THOUSAND, ZERO,
};
use crate::binary64::Binary64;
use crate::sensors::ValidationError;
use crate::sensors;
use vstd::prelude::*;

verus! {

/// Pulse widths of the motor and the servo, in microseconds.
#[derive(Clone, Copy, Debug, PartialEq, Eq, Structural)]
pub struct PwmCommand {
    motor_us: u16,
    servo_us: u16,
}

/// The conventions by which different teleoperation tools fill a twist.
#[derive(Clone, Copy, Debug)]
pub enum FactoryProfile {
    Navigation1300,
    NavigationOne1200,
    TeleopPwmDegrees,
}

/// The protocol envelope, which is no vehicle safety limit.
pub open spec fn in_envelope(us: u16) -> bool {
    500 <= us <= 2500
}

/// Whether both pulse widths lie in the envelope.
pub open spec fn pwm_fault(motor_us: u16, servo_us: u16) -> Option<Seq<char>> {
    if in_envelope(motor_us) && in_envelope(servo_us) {
        None
    } else {
        Some("PWM must be within 500..2500 microseconds"@)
    }
}

/// The seven bytes of a packet: a start byte, both widths with the low byte
/// first, the sum of those four bytes modulo 256, an end byte.
pub open spec fn packet(motor_us: u16, servo_us: u16) -> Seq<u8> {
    let (a, b) = (motor_us as int % 256, motor_us as int / 256);
    let (c, d) = (servo_us as int % 256, servo_us as int / 256);
    seq![0xaa, a as u8, b as u8, c as u8, d as u8, ((a + b + c + d) % 256) as u8, 0x55]
}

impl View for PwmCommand {
    type V = (u16, u16);

    closed spec fn view(&self) -> (u16, u16) {
        (self.motor_us, self.servo_us)
    }
}

impl PwmCommand {
    /// Every command lies in the protocol envelope.
    #[verifier::type_invariant]
    spec fn bounded(self) -> bool {
        in_envelope(self.motor_us) && in_envelope(self.servo_us)
    }

    pub fn new(motor_us: u16, servo_us: u16) -> (r: Result<Self, ValidationError>)
        ensures
            sensors::refusal(r) == pwm_fault(motor_us, servo_us),
            r matches Ok(command) ==> command@ == (motor_us, servo_us),
    {
        if !(500 <= motor_us && motor_us <= 2500) || !(500 <= servo_us && servo_us <= 2500) {
            return Err(ValidationError::new("PWM must be within 500..2500 microseconds"));
        }
        Ok(PwmCommand { motor_us, servo_us })
    }

    pub fn motor_us(self) -> (r: u16)
        ensures
            r == self@.0,
            in_envelope(r),
    {
        proof {
            use_type_invariant(&self);
        }
        self.motor_us
    }

    pub fn servo_us(self) -> (r: u16)
        ensures
            r == self@.1,
            in_envelope(r),
    {
        proof {
            use_type_invariant(&self);
        }
        self.servo_us
    }

    pub fn encode(self) -> (r: [u8; 7])
        ensures
            r@ == packet(self@.0, self@.1),
    {
        let a: u8 = (self.motor_us % 256) as u8;
        let b: u8 = (self.motor_us / 256) as u8;
        let c: u8 = (self.servo_us % 256) as u8;
        let d: u8 = (self.servo_us / 256) as u8;
        let checksum: u8 = a.wrapping_add(b).wrapping_add(c).wrapping_add(d);
        let r: [u8; 7] = [0xaa, a, b, c, d, checksum, 0x55];
        assert(r@ =~= packet(self@.0, self@.1));
        r
    }
}

/// A packet determines the command.
pub proof fn law_packet_is_injective(a: PwmCommand, b: PwmCommand)
    requires
        packet(a@.0, a@.1) == packet(b@.0, b@.1),
    ensures
        a == b,
{
    let p = packet(a@.0, a@.1);
    let q = packet(b@.0, b@.1);
    assert(p[1] == q[1] && p[2] == q[2] && p[3] == q[3] && p[4] == q[4]);
}

/// The sum of a packet's four payload bytes is its checksum, modulo 256.
pub proof fn law_packet_checksum(motor_us: u16, servo_us: u16)
    ensures
        ({
            let p = packet(motor_us, servo_us);
            (p[1] + p[2] + p[3] + p[4]) % 256 == p[5] && p.len() == 7
        }),
{
}

impl FactoryProfile {
    /// The widths that a profile gives, before any check of their range.
    pub open spec fn widths(self, linear_x: Binary64, angular_z: Binary64) -> (Binary64, Binary64) {
        let centre = Binary64::of(PWM_CENTRE);
        match self {
            FactoryProfile::Navigation1300 => (
                centre.plus(linear_x.times(Binary64::of(HUNDRED))),
                centre.plus(angular_z.times(Binary64::of(GAIN_1300))),
            ),
            FactoryProfile::NavigationOne1200 => (
                centre.plus(linear_x.times(Binary64::of(HUNDRED))),
                centre.plus(angular_z.times(Binary64::of(GAIN_1200))),
            ),
            FactoryProfile::TeleopPwmDegrees => (
                linear_x,
                Binary64::of(PWM_HIGH).minus(
                    angular_z.times(Binary64::of(TWO_THOUSAND)).over(Binary64::of(HALF_TURN_DEG)),
                ),
            ),
        }
    }

    /// Why a profile refuses an input.
    pub open spec fn fault(self, linear_x: Binary64, angular_z: Binary64) -> Option<Seq<char>> {
        let (motor, servo) = self.widths(linear_x, angular_z);
        let low = Binary64::of(PWM_LOW);
        let high = Binary64::of(PWM_HIGH);
        if !linear_x.finite() || !angular_z.finite() {
            Some("factory input must be finite"@)
        } else if self is TeleopPwmDegrees && !(Binary64::of(ZERO).le(angular_z) && angular_z.le(
            Binary64::of(HALF_TURN_DEG),
        )) {
            Some("teleop angle must be 0..180 degrees"@)
        } else if !(low.le(motor) && motor.le(high) && low.le(servo) && servo.le(high)) {
            Some("factory mapping exceeds PWM envelope"@)
        } else {
            pwm_fault(width(motor), width(servo))
        }
    }

    /// A reference conversion. It takes no motion intent: these gains are no
    /// calibrated model of speed and curvature.
    pub fn preview(self, linear_x: Binary64, angular_z: Binary64) -> (r: Result<
        PwmCommand,
        ValidationError,
    >)
        ensures
            sensors::refusal(r) == self.fault(linear_x, angular_z),
            r matches Ok(command) ==> command@ == (
                width(self.widths(linear_x, angular_z).0),
                width(self.widths(linear_x, angular_z).1),
            ),
    {
        if !linear_x.is_finite() || !angular_z.is_finite() {
            return Err(ValidationError::new("factory input must be finite"));
        }
        let centre: Binary64 = Binary64::of(PWM_CENTRE);
        let motor: Binary64;
        let servo: Binary64;
        match self {
            FactoryProfile::Navigation1300 => {
                motor = centre.plus(linear_x.times(Binary64::of(HUNDRED)));
                servo = centre.plus(angular_z.times(Binary64::of(GAIN_1300)));
            },
            FactoryProfile::NavigationOne1200 => {
                motor = centre.plus(linear_x.times(Binary64::of(HUNDRED)));
                servo = centre.plus(angular_z.times(Binary64::of(GAIN_1200)));
            },
            FactoryProfile::TeleopPwmDegrees => {
                if !(Binary64::of(ZERO).at_most(angular_z) && angular_z.at_most(
                    Binary64::of(HALF_TURN_DEG),
                )) {
                    return Err(ValidationError::new("teleop angle must be 0..180 degrees"));
                }
                motor = linear_x;
                servo =
                Binary64::of(PWM_HIGH).minus(
                    angular_z.times(Binary64::of(TWO_THOUSAND)).over(Binary64::of(HALF_TURN_DEG)),
                );
            },
        }
        // Check before casting: nothing wraps, saturates or is clipped.
        let low: Binary64 = Binary64::of(PWM_LOW);
        let high: Binary64 = Binary64::of(PWM_HIGH);
        if !(low.at_most(motor) && motor.at_most(high)) || !(low.at_most(servo) && servo.at_most(
            high,
        )) {
            return Err(ValidationError::new("factory mapping exceeds PWM envelope"));
        }
        PwmCommand::new(to_width(motor), to_width(servo))
    }
}

/// The integer part of a width.
pub open spec fn width(us: Binary64) -> u16 {
    us.truncated(0xffff) as u16
}

fn to_width(us: Binary64) -> (r: u16)
    ensures
        r == width(us),
{
    us.truncate(0xffff) as u16
}

/// What a packet writer answers where a packet was not delivered.
#[derive(Debug)]
pub enum SendError<E> {
    /// An earlier write failed, and nothing was written since.
    Latched,
    /// The write failed now.
    Write(E),
}

/// Hands complete packets to a transport. Any failed write latches: retrying a
/// partly transmitted packet could corrupt the receiver's framing.
#[derive(Debug)]
pub struct PacketWriter {
    failed: bool,
}

impl PacketWriter {
    pub closed spec fn has_failed(&self) -> bool {
        self.failed
    }

    pub fn new() -> (r: Self)
        ensures
            !r.has_failed(),
    {
        PacketWriter { failed: false }
    }

    /// Writes one packet by the given call, which is not made where an earlier
    /// write has failed.
    pub fn send<E, F: FnOnce([u8; 7]) -> Result<(), E>>(
        &mut self,
        command: PwmCommand,
        write_all: F,
    ) -> (r: Result<(), SendError<E>>)
        requires
            !old(self).has_failed() ==> forall|bytes: [u8; 7]|
                bytes@ == packet(command@.0, command@.1) ==> #[trigger] call_requires(
                    write_all,
                    (bytes,),
                ),
        ensures
            old(self).has_failed() ==> r is Err && r->Err_0 is Latched && final(self).has_failed(),
            !old(self).has_failed() ==> {
                &&& final(self).has_failed() == r is Err
                &&& exists|bytes: [u8; 7], written: Result<(), E>|
                    {
                        &&& bytes@ == packet(command@.0, command@.1)
                        &&& #[trigger] call_ensures(write_all, (bytes,), written)
                        &&& r == (match written {
                            Ok(_) => Ok::<(), SendError<E>>(()),
                            Err(e) => Err(SendError::Write(e)),
                        })
                    }
            },
    {
        if self.failed {
            return Err(SendError::Latched);
        }
        let bytes: [u8; 7] = command.encode();
        match write_all(bytes) {
            Ok(_) => Ok(()),
            Err(e) => {
                self.failed = true;
                Err(SendError::Write(e))
            },
        }
    }
}

} // verus!
