//! Sensor samples and the checks that a sample passes before anything uses it.
use crate::binary64::signs;
use crate::binary64::values::{ONE, THOUSANDTH, ZERO};
use crate::binary64::Binary64;
use vstd::prelude::*;

verus! {

/// Monotonic milliseconds since the beginning of a session, never wall-clock
/// time.
#[derive(Clone, Copy, Debug, PartialEq, Eq, PartialOrd, Ord, Structural)]
pub struct Timestamp(pub u64);

impl Default for Timestamp {
    fn default() -> (r: Self)
        ensures
            r == Timestamp(0),
    {
        Timestamp(0)
    }
}

#[derive(Debug)]
pub struct FrameId(pub String);

impl Clone for FrameId {
    fn clone(&self) -> (r: Self)
        ensures
            r == *self,
    {
        FrameId(self.0.clone())
    }
}

#[derive(Clone, Copy, Debug)]
pub struct Vec3 {
    pub x: Binary64,
    pub y: Binary64,
    pub z: Binary64,
}

#[derive(Clone, Copy, Debug)]
pub struct Quaternion {
    pub x: Binary64,
    pub y: Binary64,
    pub z: Binary64,
    pub w: Binary64,
}

#[derive(Clone, Copy, Debug, PartialEq, Eq, PartialOrd, Ord, Structural)]
pub enum SensorKind {
    Imu,
    Lidar,
    Odometry,
    Vision,
}

#[derive(Clone, Debug)]
pub struct ImuSample {
    pub captured_at: Timestamp,
    pub frame_id: FrameId,
    pub acceleration_mps2: Vec3,
    pub angular_velocity_radps: Vec3,
    pub orientation_xyzw: Quaternion,
}

#[derive(Clone, Debug)]
pub struct LidarSample {
    pub captured_at: Timestamp,
    pub frame_id: FrameId,
    pub angle_min_rad: Binary64,
    pub angle_increment_rad: Binary64,
    pub range_min_m: Binary64,
    pub range_max_m: Binary64,
    /// `None` is "no return, unknown", never an obstacle at zero metres.
    pub ranges_m: Vec<Option<Binary64>>,
}

#[derive(Clone, Debug)]
pub struct OdometrySample {
    pub captured_at: Timestamp,
    pub frame_id: FrameId,
    pub child_frame_id: FrameId,
    pub position_m: Vec3,
    pub orientation_xyzw: Quaternion,
    pub linear_velocity_mps: Vec3,
    pub angular_velocity_radps: Vec3,
}

#[derive(Clone, Debug)]
pub struct VisionSample {
    pub captured_at: Timestamp,
    pub frame_id: FrameId,
    pub image_width_px: u32,
    pub image_height_px: u32,
    pub detection_count: u32,
}

#[derive(Clone, Debug)]
pub enum SensorSample {
    Imu(ImuSample),
    Lidar(LidarSample),
    Odometry(OdometrySample),
    Vision(VisionSample),
}

#[derive(Clone, Debug)]
pub struct SensorFrames {
    pub imu_frame: FrameId,
    pub lidar_frame: FrameId,
    pub odometry_frame: FrameId,
    pub body_frame: FrameId,
    pub vision_frame: FrameId,
}

#[derive(Clone, Debug)]
pub struct ValidationError(pub String);

impl ValidationError {
    pub(crate) fn new(message: &str) -> (r: Self)
        ensures
            r.0@ == message@,
    {
        ValidationError(message.to_owned())
    }

    /// The message.
    pub fn message(&self) -> (r: &str)
        ensures
            r@ == self.0@,
    {
        self.0.as_str()
    }
}

/// The message of a refusal, or nothing where a check passed.
pub open spec fn refusal<T>(r: Result<T, ValidationError>) -> Option<Seq<char>> {
    match r {
        Ok(_) => None,
        Err(e) => Some(e.0@),
    }
}

/// The characters of a frame name.
pub open spec fn frame_char(c: char) -> bool {
    ||| 'a' <= c <= 'z'
    ||| 'A' <= c <= 'Z'
    ||| '0' <= c <= '9'
    ||| c == '_'
    ||| c == '/'
    ||| c == '-'
}

impl View for FrameId {
    type V = Seq<char>;

    open spec fn view(&self) -> Seq<char> {
        self.0@
    }
}

/// What is wrong with a frame name.
pub open spec fn frame_fault(name: Seq<char>) -> Option<Seq<char>> {
    if 1 <= name.len() <= 128 && forall|i: int| 0 <= i < name.len() ==> frame_char(name[i]) {
        None
    } else {
        Some("frame_id must contain 1..128 ASCII letters/digits/_/-"@)
    }
}

impl FrameId {
    pub fn validate(&self) -> (r: Result<(), ValidationError>)
        ensures
            refusal(r) == frame_fault(self@),
    {
        if !self.well_formed() {
            return Err(
                ValidationError::new("frame_id must contain 1..128 ASCII letters/digits/_/-"),
            );
        }
        Ok(())
    }

    fn well_formed(&self) -> (r: bool)
        ensures
            r == (frame_fault(self@) is None),
    {
        let name: &str = self.0.as_str();
        if !name.is_ascii() {
            proof {
                let i = choose|i: int| 0 <= i < name@.len() && !('\0' <= #[trigger] name@[i] <= '\u{7f}');
                assert(!frame_char(name@[i]));
            }
            return false;
        }
        proof {
            vstd::string::is_ascii_spec_bytes(name);
        }
        let bytes: &[u8] = name.as_bytes();
        if bytes.len() == 0 || bytes.len() > 128 {
            return false;
        }
        let mut i: usize = 0;
        while i < bytes.len()
            invariant
                bytes@.len() == name@.len(),
                forall|j: int| 0 <= j < name@.len() ==> bytes@[j] == name@[j] as u8,
                forall|j: int| 0 <= j < name@.len() ==> '\0' <= #[trigger] name@[j] <= '\u{7f}',
                self@ == name@,
                i <= bytes@.len(),
                1 <= bytes@.len() <= 128,
                forall|j: int| 0 <= j < i ==> frame_char(name@[j]),
            decreases bytes@.len() - i,
        {
            let v: u8 = bytes[i];
            if !((0x61 <= v && v <= 0x7a) || (0x41 <= v && v <= 0x5a) || (0x30 <= v && v <= 0x39)
                || v == 0x5f || v == 0x2f || v == 0x2d) {
                assert(!frame_char(name@[i as int]));
                return false;
            }
            i += 1;
        }
        true
    }

    /// Whether two frames have the same name.
    pub fn same_as(&self, other: &FrameId) -> (r: bool)
        ensures
            r == (self@ == other@),
    {
        self.0 == other.0
    }
}

impl Vec3 {
    pub open spec fn all_finite(self) -> bool {
        self.x.finite() && self.y.finite() && self.z.finite()
    }

    pub fn finite(&self) -> (r: bool)
        ensures
            r == self.all_finite(),
    {
        self.x.is_finite() && self.y.is_finite() && self.z.is_finite()
    }
}

impl Quaternion {
    /// The squared norm, summed from the left.
    pub open spec fn squared_norm(self) -> Binary64 {
        self.x.times(self.x).plus(self.y.times(self.y)).plus(self.z.times(self.z)).plus(
            self.w.times(self.w),
        )
    }

    /// Whether the components are finite and the squared norm is within a
    /// thousandth of one.
    pub open spec fn unit(self) -> bool {
        &&& self.x.finite()
        &&& self.y.finite()
        &&& self.z.finite()
        &&& self.w.finite()
        &&& self.squared_norm().minus(Binary64::of(ONE)).abs().at_most(Binary64::of(THOUSANDTH))
    }

    pub fn valid(&self) -> (r: bool)
        ensures
            r == self.unit(),
    {
        let norm: Binary64 = self.x.times(self.x).plus(self.y.times(self.y)).plus(
            self.z.times(self.z),
        ).plus(self.w.times(self.w));
        self.x.is_finite() && self.y.is_finite() && self.z.is_finite() && self.w.is_finite()
            && norm.minus(Binary64::of(ONE)).abs().at_most(Binary64::of(THOUSANDTH))
    }
}

/// The message about a sample of a kind that names another frame than the one
/// configured for that kind.
pub open spec fn misplaced(kind: SensorKind) -> Seq<char> {
    match kind {
        SensorKind::Imu => "unexpected Imu frame; explicit transform required"@,
        SensorKind::Lidar => "unexpected Lidar frame; explicit transform required"@,
        SensorKind::Odometry => "unexpected Odometry frame; explicit transform required"@,
        SensorKind::Vision => "unexpected Vision frame; explicit transform required"@,
    }
}

/// The message about a sample of a kind whose contents are refused.
pub open spec fn malformed(kind: SensorKind) -> Seq<char> {
    match kind {
        SensorKind::Imu => "invalid Imu units, dimensions, values or frame relation"@,
        SensorKind::Lidar => "invalid Lidar units, dimensions, values or frame relation"@,
        SensorKind::Odometry => "invalid Odometry units, dimensions, values or frame relation"@,
        SensorKind::Vision => "invalid Vision units, dimensions, values or frame relation"@,
    }
}

fn misplaced_message(kind: SensorKind) -> (r: &'static str)
    ensures
        r@ == misplaced(kind),
{
    match kind {
        SensorKind::Imu => "unexpected Imu frame; explicit transform required",
        SensorKind::Lidar => "unexpected Lidar frame; explicit transform required",
        SensorKind::Odometry => "unexpected Odometry frame; explicit transform required",
        SensorKind::Vision => "unexpected Vision frame; explicit transform required",
    }
}

fn malformed_message(kind: SensorKind) -> (r: &'static str)
    ensures
        r@ == malformed(kind),
{
    match kind {
        SensorKind::Imu => "invalid Imu units, dimensions, values or frame relation",
        SensorKind::Lidar => "invalid Lidar units, dimensions, values or frame relation",
        SensorKind::Odometry => "invalid Odometry units, dimensions, values or frame relation",
        SensorKind::Vision => "invalid Vision units, dimensions, values or frame relation",
    }
}

impl SensorFrames {
    /// The frame in which samples of a kind are taken.
    pub open spec fn spec_of_kind(&self, kind: SensorKind) -> &FrameId {
        match kind {
            SensorKind::Imu => &self.imu_frame,
            SensorKind::Lidar => &self.lidar_frame,
            SensorKind::Odometry => &self.odometry_frame,
            SensorKind::Vision => &self.vision_frame,
        }
    }

    #[verifier::when_used_as_spec(spec_of_kind)]
    pub fn of_kind(&self, kind: SensorKind) -> (r: &FrameId)
        ensures
            r == self.spec_of_kind(kind),
    {
        match kind {
            SensorKind::Imu => &self.imu_frame,
            SensorKind::Lidar => &self.lidar_frame,
            SensorKind::Odometry => &self.odometry_frame,
            SensorKind::Vision => &self.vision_frame,
        }
    }
}

impl ImuSample {
    pub open spec fn sound(&self) -> bool {
        &&& self.acceleration_mps2.all_finite()
        &&& self.angular_velocity_radps.all_finite()
        &&& self.orientation_xyzw.unit()
    }
}

impl OdometrySample {
    pub open spec fn sound(&self, body: &FrameId) -> bool {
        &&& self.child_frame_id@ == body@
        &&& self.frame_id@ != self.child_frame_id@
        &&& self.position_m.all_finite()
        &&& self.linear_velocity_mps.all_finite()
        &&& self.angular_velocity_radps.all_finite()
        &&& self.orientation_xyzw.unit()
    }
}

/// A scan with its ranges as a sequence.
pub struct LidarScan {
    pub captured_at: Timestamp,
    pub frame_id: FrameId,
    pub angle_min_rad: Binary64,
    pub angle_increment_rad: Binary64,
    pub range_min_m: Binary64,
    pub range_max_m: Binary64,
    pub ranges_m: Seq<Option<Binary64>>,
}

impl View for LidarSample {
    type V = LidarScan;

    open spec fn view(&self) -> LidarScan {
        LidarScan {
            captured_at: self.captured_at,
            frame_id: self.frame_id,
            angle_min_rad: self.angle_min_rad,
            angle_increment_rad: self.angle_increment_rad,
            range_min_m: self.range_min_m,
            range_max_m: self.range_max_m,
            ranges_m: self.ranges_m@,
        }
    }
}

impl LidarSample {
    pub open spec fn in_range(&self, range: Option<Binary64>) -> bool {
        match range {
            None => true,
            Some(r) => r.finite() && self.range_min_m.le(r) && r.le(self.range_max_m),
        }
    }

    pub open spec fn sound(&self) -> bool {
        &&& self.angle_min_rad.finite()
        &&& self.angle_increment_rad.finite()
        &&& !self.angle_increment_rad.same(Binary64::of(ZERO))
        &&& self.range_min_m.finite()
        &&& self.range_max_m.finite()
        &&& Binary64::of(ZERO).le(self.range_min_m)
        &&& self.range_min_m.lt(self.range_max_m)
        &&& 1 <= self.ranges_m@.len() <= 100_000
        &&& forall|i: int|
            0 <= i < self.ranges_m@.len() ==> self.in_range(#[trigger] self.ranges_m@[i])
    }

    fn check(&self) -> (r: bool)
        ensures
            r == self.sound(),
    {
        if !(self.angle_min_rad.is_finite() && self.angle_increment_rad.is_finite()
            && !self.angle_increment_rad.equals(Binary64::of(ZERO)) && self.range_min_m.is_finite()
            && self.range_max_m.is_finite() && Binary64::of(ZERO).at_most(self.range_min_m)
            && self.range_min_m.less(self.range_max_m)) {
            return false;
        }
        if self.ranges_m.len() == 0 || self.ranges_m.len() > 100_000 {
            return false;
        }
        let mut i: usize = 0;
        while i < self.ranges_m.len()
            invariant
                i <= self.ranges_m@.len(),
                forall|j: int| 0 <= j < i ==> self.in_range(#[trigger] self.ranges_m@[j]),
            decreases self.ranges_m@.len() - i,
        {
            if let Some(r) = self.ranges_m[i] {
                if !(r.is_finite() && self.range_min_m.at_most(r) && r.at_most(self.range_max_m)) {
                    assert(!self.in_range(self.ranges_m@[i as int]));
                    return false;
                }
            }
            i += 1;
        }
        true
    }
}

impl VisionSample {
    pub open spec fn sound(&self) -> bool {
        &&& 0 < self.image_width_px <= 65_536
        &&& 0 < self.image_height_px <= 65_536
        &&& self.detection_count <= 4096
    }
}

impl SensorSample {
    pub open spec fn spec_kind(&self) -> SensorKind {
        match self {
            SensorSample::Imu(_) => SensorKind::Imu,
            SensorSample::Lidar(_) => SensorKind::Lidar,
            SensorSample::Odometry(_) => SensorKind::Odometry,
            SensorSample::Vision(_) => SensorKind::Vision,
        }
    }

    pub open spec fn spec_captured_at(&self) -> Timestamp {
        match self {
            SensorSample::Imu(v) => v.captured_at,
            SensorSample::Lidar(v) => v.captured_at,
            SensorSample::Odometry(v) => v.captured_at,
            SensorSample::Vision(v) => v.captured_at,
        }
    }

    pub open spec fn spec_frame_id(&self) -> &FrameId {
        match self {
            SensorSample::Imu(v) => &v.frame_id,
            SensorSample::Lidar(v) => &v.frame_id,
            SensorSample::Odometry(v) => &v.frame_id,
            SensorSample::Vision(v) => &v.frame_id,
        }
    }

    /// What is wrong with a sample: its frame name, then the frame that its
    /// kind is configured to have, then its contents.
    pub open spec fn fault(&self, frames: &SensorFrames) -> Option<Seq<char>> {
        let kind = self.kind();
        if frame_fault(self.frame_id()@) is Some {
            frame_fault(self.frame_id()@)
        } else if self.frame_id()@ != frames.of_kind(kind)@ {
            Some(misplaced(kind))
        } else {
            let sound = match self {
                SensorSample::Imu(v) => v.sound(),
                SensorSample::Lidar(v) => v.sound(),
                SensorSample::Odometry(v) => v.sound(&frames.body_frame),
                SensorSample::Vision(v) => v.sound(),
            };
            match self {
                SensorSample::Odometry(v) if frame_fault(v.child_frame_id@) is Some => frame_fault(
                    v.child_frame_id@,
                ),
                _ => if sound {
                    None
                } else {
                    Some(malformed(kind))
                },
            }
        }
    }

    #[verifier::when_used_as_spec(spec_kind)]
    pub fn kind(&self) -> (r: SensorKind)
        ensures
            r == self.spec_kind(),
    {
        match self {
            SensorSample::Imu(_) => SensorKind::Imu,
            SensorSample::Lidar(_) => SensorKind::Lidar,
            SensorSample::Odometry(_) => SensorKind::Odometry,
            SensorSample::Vision(_) => SensorKind::Vision,
        }
    }

    #[verifier::when_used_as_spec(spec_captured_at)]
    pub fn captured_at(&self) -> (r: Timestamp)
        ensures
            r == self.spec_captured_at(),
    {
        match self {
            SensorSample::Imu(v) => v.captured_at,
            SensorSample::Lidar(v) => v.captured_at,
            SensorSample::Odometry(v) => v.captured_at,
            SensorSample::Vision(v) => v.captured_at,
        }
    }

    #[verifier::when_used_as_spec(spec_frame_id)]
    pub fn frame_id(&self) -> (r: &FrameId)
        ensures
            r == self.spec_frame_id(),
    {
        match self {
            SensorSample::Imu(v) => &v.frame_id,
            SensorSample::Lidar(v) => &v.frame_id,
            SensorSample::Odometry(v) => &v.frame_id,
            SensorSample::Vision(v) => &v.frame_id,
        }
    }

    pub fn validate(&self, frames: &SensorFrames) -> (r: Result<(), ValidationError>)
        ensures
            refusal(r) == self.fault(frames),
    {
        self.frame_id().validate()?;
        let kind: SensorKind = self.kind();
        if !self.frame_id().same_as(frames.of_kind(kind)) {
            return Err(ValidationError::new(misplaced_message(kind)));
        }
        let valid: bool = match self {
            SensorSample::Imu(v) => {
                v.acceleration_mps2.finite() && v.angular_velocity_radps.finite()
                    && v.orientation_xyzw.valid()
            },
            SensorSample::Odometry(v) => {
                v.child_frame_id.validate()?;
                v.child_frame_id.same_as(&frames.body_frame) && !v.frame_id.same_as(
                    &v.child_frame_id,
                ) && v.position_m.finite() && v.linear_velocity_mps.finite()
                    && v.angular_velocity_radps.finite() && v.orientation_xyzw.valid()
            },
            SensorSample::Lidar(v) => v.check(),
            SensorSample::Vision(v) => {
                v.image_width_px > 0 && v.image_height_px > 0 && v.image_width_px <= 65_536
                    && v.image_height_px <= 65_536 && v.detection_count <= 4096
            },
        };
        if !valid {
            return Err(ValidationError::new(malformed_message(kind)));
        }
        Ok(())
    }
}

/// An orientation is accepted where its parts are finite and the sum of their
/// squares is off one by no more than a thousandth to either side. The opposite
/// orientation, which is the same rotation, is accepted just where it is.
pub proof fn law_orientations_are_of_unit_length(q: Quaternion)
    ensures
        q.unit() <==> ({
            let square = q.x.times(q.x).plus(q.y.times(q.y)).plus(q.z.times(q.z)).plus(
                q.w.times(q.w),
            );
            let off = square.minus(Binary64::of(ONE));
            &&& q.x.finite() && q.y.finite() && q.z.finite() && q.w.finite()
            &&& off.le(Binary64::of(THOUSANDTH))
            &&& off.negated().le(Binary64::of(THOUSANDTH))
        }),
        q.unit() == (Quaternion {
            x: q.x.negated(),
            y: q.y.negated(),
            z: q.z.negated(),
            w: q.w.negated(),
        }).unit(),
{
    signs::law_products_are_mirrored(q.x, q.x);
    signs::law_products_are_mirrored(q.y, q.y);
    signs::law_products_are_mirrored(q.z, q.z);
    signs::law_products_are_mirrored(q.w, q.w);
}

} // verus!
