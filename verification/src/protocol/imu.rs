//! The inertial unit's eleven-byte frames.
//!
//! A frame is a head byte, a kind, four little-endian words and the sum of the
//! ten bytes before it. Time stamps are receive times of the host, not
//! measurement times of the device.
use super::framing;
use crate::binary64::values::{
    FULL_SCALE, GRAVITY, HALF_TURN_DEG, PI, TWO_THOUSAND, SIXTEEN, TWO, ZERO,
};
use crate::binary64::Binary64;
use crate::elementary::Elementary;
use crate::elementary;
use crate::sensors::{FrameId, ImuSample, Quaternion, Timestamp, ValidationError, Vec3};
use crate::sensors;
use vstd::prelude::*;

verus! {

#[derive(Clone, Debug)]
pub struct ImuConfig {
    pub frame_id: FrameId,
    pub acceleration_bias_mps2: Vec3,
    pub gyro_bias_radps: Vec3,
    pub max_component_age_ms: u64,
    pub max_component_skew_ms: u64,
}

/// What one read decoded.
#[derive(Debug)]
pub struct DecodeBatch {
    pub samples: Vec<ImuSample>,
    pub checksum_errors: usize,
    pub discarded_bytes: usize,
    pub expired_components: usize,
}

impl Default for DecodeBatch {
    fn default() -> (r: Self)
        ensures
            r@ == Batch::empty(),
    {
        let r: DecodeBatch = DecodeBatch {
            samples: Vec::new(),
            checksum_errors: 0,
            discarded_bytes: 0,
            expired_components: 0,
        };
        assert(r@.samples =~= Batch::empty().samples);
        r
    }
}

/// A batch with its samples as a sequence.
pub struct Batch {
    pub samples: Seq<ImuSample>,
    pub checksum_errors: nat,
    pub discarded_bytes: nat,
    pub expired_components: nat,
}

impl Batch {
    pub open spec fn empty() -> Self {
        Batch {
            samples: Seq::empty(),
            checksum_errors: 0,
            discarded_bytes: 0,
            expired_components: 0,
        }
    }

    /// Two batches, one after the other.
    pub open spec fn followed_by(self, later: Batch) -> Self {
        Batch {
            samples: self.samples + later.samples,
            checksum_errors: self.checksum_errors + later.checksum_errors,
            discarded_bytes: self.discarded_bytes + later.discarded_bytes,
            expired_components: self.expired_components + later.expired_components,
        }
    }
}

impl View for DecodeBatch {
    type V = Batch;

    open spec fn view(&self) -> Batch {
        Batch {
            samples: self.samples@,
            checksum_errors: self.checksum_errors as nat,
            discarded_bytes: self.discarded_bytes as nat,
            expired_components: self.expired_components as nat,
        }
    }
}

/// The three vectors that make a sample, each with its receive time.
#[derive(Clone, Copy, Debug)]
pub struct Components {
    pub acceleration: Option<(Vec3, Timestamp)>,
    pub rate: Option<(Vec3, Timestamp)>,
    pub angle: Option<(Vec3, Timestamp)>,
}

/// A component that is still young enough.
pub open spec fn kept(
    part: Option<(Vec3, Timestamp)>,
    newest: Timestamp,
    fresh: spec_fn(int) -> bool,
) -> Option<(Vec3, Timestamp)> {
    match part {
        Some((v, at)) if fresh(newest.0 - at.0) => part,
        _ => None,
    }
}

pub open spec fn dropped(before: Option<(Vec3, Timestamp)>, after: Option<(Vec3, Timestamp)>) -> nat {
    if before is Some && after is None {
        1
    } else {
        0
    }
}

pub open spec fn earlier(a: Timestamp, b: Timestamp) -> Timestamp {
    if a.0 <= b.0 {
        a
    } else {
        b
    }
}

pub open spec fn later(a: Timestamp, b: Timestamp) -> Timestamp {
    if a.0 <= b.0 {
        b
    } else {
        a
    }
}

impl Components {
    pub open spec fn spec_none() -> Self {
        Components { acceleration: None, rate: None, angle: None }
    }

    #[verifier::when_used_as_spec(spec_none)]
    pub fn none() -> (r: Self)
        ensures
            r == Self::spec_none(),
    {
        Components { acceleration: None, rate: None, angle: None }
    }

    /// The components whose age at a time passes a test.
    pub open spec fn pruned(self, newest: Timestamp, fresh: spec_fn(int) -> bool) -> Self {
        Components {
            acceleration: kept(self.acceleration, newest, fresh),
            rate: kept(self.rate, newest, fresh),
            angle: kept(self.angle, newest, fresh),
        }
    }

    /// How many components another set lacks.
    pub open spec fn lost(self, after: Components) -> nat {
        dropped(self.acceleration, after.acceleration) + dropped(self.rate, after.rate) + dropped(
            self.angle,
            after.angle,
        )
    }

    pub open spec fn complete(self) -> bool {
        self.acceleration is Some && self.rate is Some && self.angle is Some
    }

    pub open spec fn oldest(self) -> Timestamp {
        earlier(
            earlier((self.acceleration->0).1, (self.rate->0).1),
            (self.angle->0).1,
        )
    }

    pub open spec fn newest(self) -> Timestamp {
        later(later((self.acceleration->0).1, (self.rate->0).1), (self.angle->0).1)
    }

    /// Whether every component was received by a time.
    pub open spec fn received_by(self, at: Timestamp) -> bool {
        &&& self.acceleration matches Some((_, t)) ==> t.0 <= at.0
        &&& self.rate matches Some((_, t)) ==> t.0 <= at.0
        &&& self.angle matches Some((_, t)) ==> t.0 <= at.0
    }
}

/// A little-endian word in two's complement.
pub open spec fn word(low: u8, high: u8) -> i64 {
    let unsigned = low + 256 * high;
    (if unsigned >= 32768 {
        unsigned - 65536
    } else {
        unsigned
    }) as i64
}

/// The physical value of one step of a word, by the kind of the frame: an
/// acceleration, a rate or an angle.
pub open spec fn step_of(kind: u8) -> Binary64 {
    (if kind == 0x51 {
        Binary64::of(SIXTEEN).times(Binary64::of(GRAVITY))
    } else if kind == 0x52 {
        Binary64::of(TWO_THOUSAND).times(Binary64::of(PI)).over(Binary64::of(HALF_TURN_DEG))
    } else {
        Binary64::of(PI)
    }).over(Binary64::of(FULL_SCALE))
}

pub open spec fn no_bias() -> Vec3 {
    Vec3 { x: Binary64::of(ZERO), y: Binary64::of(ZERO), z: Binary64::of(ZERO) }
}

impl ImuConfig {
    /// What is wrong with a configuration.
    pub open spec fn fault(&self) -> Option<Seq<char>> {
        if sensors::frame_fault(self.frame_id@) is Some {
            sensors::frame_fault(self.frame_id@)
        } else if self.max_component_age_ms == 0 || self.max_component_skew_ms == 0
            || self.max_component_skew_ms > self.max_component_age_ms
            || !self.acceleration_bias_mps2.all_finite() || !self.gyro_bias_radps.all_finite() {
            Some("invalid IMU timing or calibration"@)
        } else {
            None
        }
    }

    pub open spec fn bias(&self, kind: u8) -> Vec3 {
        if kind == 0x51 {
            self.acceleration_bias_mps2
        } else if kind == 0x52 {
            self.gyro_bias_radps
        } else {
            no_bias()
        }
    }

    /// The vector of a frame: three scaled words, less the bias.
    pub open spec fn vector(&self, frame: Seq<(u8, Timestamp)>) -> Vec3 {
        let step = step_of(frame[1].0);
        let bias = self.bias(frame[1].0);
        Vec3 {
            x: Binary64::from_integer(word(frame[2].0, frame[3].0)).times(step).minus(bias.x),
            y: Binary64::from_integer(word(frame[4].0, frame[5].0)).times(step).minus(bias.y),
            z: Binary64::from_integer(word(frame[6].0, frame[7].0)).times(step).minus(bias.z),
        }
    }

    /// The sample of three components.
    pub open spec fn sample(
        &self,
        m: spec_fn(Elementary) -> Binary64,
        parts: Components,
    ) -> ImuSample {
        ImuSample {
            captured_at: parts.oldest(),
            frame_id: self.frame_id,
            acceleration_mps2: (parts.acceleration->0).0,
            angular_velocity_radps: (parts.rate->0).0,
            orientation_xyzw: orientation(m, (parts.angle->0).0),
        }
    }
}

/// The rotation by roll, pitch and yaw angles.
pub open spec fn orientation(m: spec_fn(Elementary) -> Binary64, angle: Vec3) -> Quaternion {
    let x = angle.x.over(Binary64::of(TWO));
    let y = angle.y.over(Binary64::of(TWO));
    let z = angle.z.over(Binary64::of(TWO));
    let sr = m(Elementary::Sine(x));
    let cr = m(Elementary::Cosine(x));
    let sp = m(Elementary::Sine(y));
    let cp = m(Elementary::Cosine(y));
    let sy = m(Elementary::Sine(z));
    let cy = m(Elementary::Cosine(z));
    rotation(sr, cr, sp, cp, sy, cy)
}

/// The rotation by the sines and cosines of half the roll, pitch and yaw.
pub open spec fn rotation(
    sr: Binary64,
    cr: Binary64,
    sp: Binary64,
    cp: Binary64,
    sy: Binary64,
    cy: Binary64,
) -> Quaternion {
    Quaternion {
        x: sr.times(cp).times(cy).minus(cr.times(sp).times(sy)),
        y: cr.times(sp).times(cy).plus(sr.times(cp).times(sy)),
        z: cr.times(cp).times(sy).minus(sr.times(sp).times(cy)),
        w: cr.times(cp).times(cy).plus(sr.times(sp).times(sy)),
    }
}

/// A host that answers zero to everything.
pub open spec fn mute() -> spec_fn(Elementary) -> Binary64 {
    |e: Elementary| Binary64::of(ZERO)
}

/// A sample with the orientation of a mute host, and so with all of it that no
/// host decides.
pub open spec fn unturned(sample: ImuSample) -> ImuSample {
    let zero = Binary64::of(ZERO);
    ImuSample { orientation_xyzw: rotation(zero, zero, zero, zero, zero, zero), ..sample }
}

impl Batch {
    /// The batch but for its orientations.
    pub open spec fn unturned(self) -> Self {
        Batch { samples: self.samples.map_values(|s: ImuSample| unturned(s)), ..self }
    }
}

impl Decode {
    /// The decoder but for the orientations of its batch.
    pub open spec fn unturned(self) -> Self {
        Decode { batch: self.batch.unturned(), ..self }
    }
}

/// A decoder in the middle of a read.
pub struct Decode {
    pub pending: Seq<(u8, Timestamp)>,
    pub parts: Components,
    pub batch: Batch,
}

impl Decode {
    /// What a frame with a right checksum does: an unknown kind is skipped; a
    /// component that completes the three gives a sample where they are not
    /// too far apart, else the older ones expire.
    pub open spec fn accepted(
        self,
        m: spec_fn(Elementary) -> Binary64,
        config: ImuConfig,
        frame: Seq<(u8, Timestamp)>,
    ) -> Self {
        let kind = frame[1].0;
        let part = Some((config.vector(frame), frame[0].1));
        let parts = if kind == 0x51 {
            Components { acceleration: part, ..self.parts }
        } else if kind == 0x52 {
            Components { rate: part, ..self.parts }
        } else {
            Components { angle: part, ..self.parts }
        };
        if !(0x51 <= kind <= 0x53) {
            self
        } else if !parts.complete() {
            Decode { parts, ..self }
        } else if parts.newest().0 - parts.oldest().0 > config.max_component_skew_ms {
            let left = parts.pruned(
                parts.newest(),
                |age: int| age <= config.max_component_skew_ms,
            );
            Decode {
                parts: left,
                batch: Batch {
                    expired_components: self.batch.expired_components + parts.lost(left),
                    ..self.batch
                },
                ..self
            }
        } else {
            Decode {
                parts: Components::none(),
                batch: Batch {
                    samples: self.batch.samples.push(config.sample(m, parts)),
                    ..self.batch
                },
                ..self
            }
        }
    }

    /// The decoder once every complete frame has been taken. A byte that does
    /// not start a valid frame is discarded, and corruption also discards the
    /// components seen before it.
    pub open spec fn settled(self, m: spec_fn(Elementary) -> Binary64, config: ImuConfig) -> Self
        decreases self.pending.len(),
    {
        if self.pending.len() == 0 {
            self
        } else if self.pending[0].0 != 0x55 {
            Decode {
                pending: self.pending.drop_first(),
                batch: Batch { discarded_bytes: self.batch.discarded_bytes + 1, ..self.batch },
                ..self
            }.settled(m, config)
        } else if self.pending.len() < 11 {
            self
        } else if framing::byte_sum(self.pending, 10) % 256 != self.pending[10].0 {
            Decode {
                pending: self.pending.drop_first(),
                parts: Components::none(),
                batch: Batch {
                    discarded_bytes: self.batch.discarded_bytes + 1,
                    checksum_errors: self.batch.checksum_errors + 1,
                    ..self.batch
                },
            }.settled(m, config)
        } else {
            let taken = Decode { pending: self.pending.skip(11), ..self }.accepted(
                m,
                config,
                self.pending.take(11),
            );
            Decode { pending: self.pending.skip(11), ..taken }.settled(m, config)
        }
    }

    /// The decoder after each of some bytes.
    pub open spec fn consumed(
        self,
        m: spec_fn(Elementary) -> Binary64,
        config: ImuConfig,
        bytes: Seq<u8>,
        at: Timestamp,
    ) -> Self
        decreases bytes.len(),
    {
        if bytes.len() == 0 {
            self
        } else {
            Decode { pending: self.pending.push((bytes[0], at)), ..self }.settled(
                m,
                config,
            ).consumed(m, config, bytes.drop_first(), at)
        }
    }
}

/// The state of a decoder between reads.
pub struct Receiver {
    pub config: ImuConfig,
    pub pending: Seq<(u8, Timestamp)>,
    pub parts: Components,
    pub last_received: Option<Timestamp>,
}

impl Receiver {
    pub open spec fn initial(config: ImuConfig) -> Self {
        Receiver {
            config,
            pending: Seq::empty(),
            parts: Components::none(),
            last_received: None,
        }
    }

    /// Why a read is refused.
    pub open spec fn refuses(self, bytes: Seq<u8>, at: Timestamp) -> bool {
        bytes.len() > 4096 || (self.last_received is Some && at.0 < (self.last_received->0).0)
    }

    /// What is left at the time of a read: components and an unfinished frame
    /// that have become too old are discarded.
    pub open spec fn aged(self, at: Timestamp) -> Decode {
        let left = self.parts.pruned(at, |age: int| age < self.config.max_component_age_ms);
        let stale = self.pending.len() > 0 && at.0 - self.pending[0].1.0
            >= self.config.max_component_age_ms;
        Decode {
            pending: if stale {
                Seq::empty()
            } else {
                self.pending
            },
            parts: left,
            batch: Batch {
                expired_components: self.parts.lost(left),
                discarded_bytes: if stale {
                    self.pending.len()
                } else {
                    0
                },
                ..Batch::empty()
            },
        }
    }

    pub open spec fn fed(
        self,
        m: spec_fn(Elementary) -> Binary64,
        bytes: Seq<u8>,
        at: Timestamp,
    ) -> (Self, Batch) {
        let end = self.aged(at).consumed(m, self.config, bytes, at);
        (
            Receiver {
                config: self.config,
                pending: end.pending,
                parts: end.parts,
                last_received: Some(at),
            },
            end.batch,
        )
    }

    /// What every reachable state satisfies.
    pub open spec fn sound(self) -> bool {
        &&& self.config.fault() is None
        &&& self.pending.len() < 11
        &&& self.pending.len() > 0 ==> self.pending[0].0 == 0x55
        &&& framing::ordered(self.pending)
        &&& match self.last_received {
            None => self.pending.len() == 0 && self.parts == Components::none(),
            Some(last) => {
                &&& self.parts.received_by(last)
                &&& forall|i: int|
                    0 <= i < self.pending.len() ==> (#[trigger] self.pending[i]).1.0 <= last.0
            },
        }
    }
}

pub struct ImuDecoder {
    config: ImuConfig,
    // Fewer than eleven bytes between reads, each with its receive time.
    pending: Vec<(u8, Timestamp)>,
    parts: Components,
    last_received: Option<Timestamp>,
}

impl View for ImuDecoder {
    type V = Receiver;

    closed spec fn view(&self) -> Receiver {
        Receiver {
            config: self.config,
            pending: self.pending@,
            parts: self.parts,
            last_received: self.last_received,
        }
    }
}

/// Drops a component that is too old at a time.
fn keep_if(
    part: Option<(Vec3, Timestamp)>,
    newest: Timestamp,
    limit: u64,
    inclusive: bool,
    lost: &mut usize,
) -> (r: Option<(Vec3, Timestamp)>)
    requires
        part matches Some((_, t)) ==> t.0 <= newest.0,
        *old(lost) < 100_000,
    ensures
        r == kept(
            part,
            newest,
            |age: int|
                if inclusive {
                    age <= limit
                } else {
                    age < limit
                },
        ),
        *final(lost) == *old(lost) + dropped(part, r),
{
    match part {
        None => None,
        Some((v, at)) => {
            let age: u64 = newest.0 - at.0;
            if age < limit || (inclusive && age == limit) {
                Some((v, at))
            } else {
                *lost = *lost + 1;
                None
            }
        },
    }
}

fn signed_word(low: u8, high: u8) -> (r: i64)
    ensures
        r == word(low, high),
{
    let unsigned: i64 = low as i64 + 256 * (high as i64);
    if unsigned >= 32768 {
        unsigned - 65536
    } else {
        unsigned
    }
}

fn rotation_of(
    sr: Binary64,
    cr: Binary64,
    sp: Binary64,
    cp: Binary64,
    sy: Binary64,
    cy: Binary64,
) -> (r: Quaternion)
    ensures
        r == rotation(sr, cr, sp, cp, sy, cy),
{
    Quaternion {
        x: sr.times(cp).times(cy).minus(cr.times(sp).times(sy)),
        y: cr.times(sp).times(cy).plus(sr.times(cp).times(sy)),
        z: cr.times(cp).times(sy).minus(sr.times(sp).times(cy)),
        w: cr.times(cp).times(cy).plus(sr.times(sp).times(sy)),
    }
}

fn orientation_of<F: Fn(Elementary) -> Binary64>(angle: Vec3, host: &F) -> (r: Quaternion)
    requires
        elementary::total(*host),
    ensures
        forall|m: spec_fn(Elementary) -> Binary64| #[trigger]
            elementary::models(*host, m) ==> r == orientation(m, angle),
{
    let x: Binary64 = angle.x.over(Binary64::of(TWO));
    let y: Binary64 = angle.y.over(Binary64::of(TWO));
    let z: Binary64 = angle.z.over(Binary64::of(TWO));
    let sr: Binary64 = host(Elementary::Sine(x));
    let cr: Binary64 = host(Elementary::Cosine(x));
    let sp: Binary64 = host(Elementary::Sine(y));
    let cp: Binary64 = host(Elementary::Cosine(y));
    let sy: Binary64 = host(Elementary::Sine(z));
    let cy: Binary64 = host(Elementary::Cosine(z));
    rotation_of(sr, cr, sp, cp, sy, cy)
}

impl ImuDecoder {
    pub fn new(config: ImuConfig) -> (r: Result<Self, ValidationError>)
        ensures
            sensors::refusal(r) == config.fault(),
            r matches Ok(decoder) ==> decoder@ == Receiver::initial(config) && decoder@.sound(),
    {
        config.frame_id.validate()?;
        if config.max_component_age_ms == 0 || config.max_component_skew_ms == 0
            || config.max_component_skew_ms > config.max_component_age_ms
            || !config.acceleration_bias_mps2.finite() || !config.gyro_bias_radps.finite() {
            return Err(ValidationError::new("invalid IMU timing or calibration"));
        }
        let r: ImuDecoder = ImuDecoder {
            config,
            pending: Vec::new(),
            parts: Components::none(),
            last_received: None,
        };
        assert(r@.pending =~= Seq::empty());
        Ok(r)
    }

    /// The decoder and its batch in the middle of a read.
    spec fn midway(&self, batch: DecodeBatch) -> Decode {
        Decode { pending: self.pending@, parts: self.parts, batch: batch@ }
    }

    /// Room for counting every byte of a read.
    spec fn counted(&self, batch: DecodeBatch) -> bool {
        &&& self.pending@.len() <= 11
        &&& batch.checksum_errors + self.pending@.len() <= 50_000
        &&& batch.discarded_bytes + self.pending@.len() <= 50_000
        &&& batch.expired_components + self.pending@.len() <= 50_000
    }

    /// Decodes the bytes of one read. A refused read changes nothing.
    pub fn feed<F: Fn(Elementary) -> Binary64>(
        &mut self,
        bytes: &[u8],
        at: Timestamp,
        host: &F,
    ) -> (r: Result<DecodeBatch, ValidationError>)
        requires
            old(self)@.sound(),
            elementary::total(*host),
        ensures
            final(self)@.sound(),
            r is Err <==> old(self)@.refuses(bytes@, at),
            r matches Err(e) ==> e.0@
                == "IMU chunk exceeds 4096 bytes or receive time regresses"@ && final(self)@
                == old(self)@,
            r matches Ok(batch) ==> (final(self)@, batch@.unturned()) == old(self)@.fed(
                mute(),
                bytes@,
                at,
            ),
            r matches Ok(batch) ==> forall|m: spec_fn(Elementary) -> Binary64| #[trigger]
                elementary::models(*host, m) ==> (final(self)@, batch@) == old(self)@.fed(
                    m,
                    bytes@,
                    at,
                ),
    {
        let regresses: bool = match self.last_received {
            None => false,
            Some(last) => at.0 < last.0,
        };
        if bytes.len() > 4096 || regresses {
            return Err(
                ValidationError::new("IMU chunk exceeds 4096 bytes or receive time regresses"),
            );
        }
        let ghost before = self@;
        self.last_received = Some(at);
        let mut batch: DecodeBatch = DecodeBatch::default();
        self.age(at, &mut batch, Ghost(before));
        let ghost start = self.midway(batch);
        let ghost config = self.config;
        assert(start.unturned() == start) by {
            assert(start.batch.unturned().samples =~= start.batch.samples);
        }
        let mut i: usize = 0;
        assert(bytes@.skip(0) =~= bytes@);
        while i < bytes.len()
            invariant
                i <= bytes@.len() <= 4096,
                elementary::total(*host),
                self.config == config,
                config.fault() is None,
                self.last_received == Some(at),
                self.parts.received_by(at),
                self.pending@.len() < 11,
                self.pending@.len() > 0 ==> self.pending@[0].0 == 0x55,
                framing::ordered(self.pending@),
                forall|j: int|
                    0 <= j < self.pending@.len() ==> (#[trigger] self.pending@[j]).1.0 <= at.0,
                batch.checksum_errors + self.pending@.len() <= 11 + i,
                batch.discarded_bytes + self.pending@.len() <= 11 + i,
                batch.expired_components + self.pending@.len() <= 14 + i,
                start.consumed(mute(), config, bytes@, at) == self.midway(
                    batch,
                ).unturned().consumed(mute(), config, bytes@.skip(i as int), at),
                forall|m: spec_fn(Elementary) -> Binary64| #[trigger]
                    elementary::models(*host, m) ==> start.consumed(m, config, bytes@, at)
                        == self.midway(batch).consumed(m, config, bytes@.skip(i as int), at),
            decreases bytes@.len() - i,
        {
            let byte: u8 = bytes[i];
            self.pending.push((byte, at));
            assert(bytes@.skip(i as int)[0] == byte);
            assert(bytes@.skip(i as int).drop_first() =~= bytes@.skip(i + 1));
            self.settle(&mut batch, at, host);
            i += 1;
        }
        assert(bytes@.skip(i as int).len() == 0);
        Ok(batch)
    }

    /// Drops what is too old at the time of a read.
    fn age(&mut self, at: Timestamp, batch: &mut DecodeBatch, Ghost(before): Ghost<Receiver>)
        requires
            before.sound(),
            !before.refuses(Seq::empty(), at),
            before.config == old(self).config,
            before.pending == old(self).pending@,
            before.parts == old(self).parts,
            old(batch)@ == Batch::empty(),
        ensures
            final(self).midway(*final(batch)) == before.aged(at),
            final(self).config == before.config,
            final(self).last_received == old(self).last_received,
            final(self).parts.received_by(at),
            final(self).pending@.len() < 11,
            final(self).pending@.len() > 0 ==> final(self).pending@[0].0 == 0x55,
            framing::ordered(final(self).pending@),
            forall|j: int|
                0 <= j < final(self).pending@.len() ==> (#[trigger] final(self).pending@[j]).1.0
                    <= at.0,
            final(batch).checksum_errors == 0,
            final(batch).discarded_bytes + final(self).pending@.len() <= 11,
            final(batch).expired_components <= 3,
    {
        let limit: u64 = self.config.max_component_age_ms;
        let mut lost: usize = 0;
        self.parts = Components {
            acceleration: keep_if(self.parts.acceleration, at, limit, false, &mut lost),
            rate: keep_if(self.parts.rate, at, limit, false, &mut lost),
            angle: keep_if(self.parts.angle, at, limit, false, &mut lost),
        };
        assert(self.parts == before.aged(at).parts);
        batch.expired_components = lost;
        if self.pending.len() > 0 && at.0 - self.pending[0].1.0 >= limit {
            batch.discarded_bytes = self.pending.len();
            self.pending.clear();
        }
    }

    /// Takes every complete frame.
    fn settle<F: Fn(Elementary) -> Binary64>(
        &mut self,
        batch: &mut DecodeBatch,
        at: Timestamp,
        host: &F,
    )
        requires
            elementary::total(*host),
            old(self).counted(*old(batch)),
            framing::ordered(old(self).pending@),
            old(self).parts.received_by(at),
            forall|j: int|
                0 <= j < old(self).pending@.len() ==> (#[trigger] old(self).pending@[j]).1.0
                    <= at.0,
        ensures
            final(self).midway(*final(batch)).unturned() == old(self).midway(
                *old(batch),
            ).unturned().settled(mute(), old(self).config),
            forall|m: spec_fn(Elementary) -> Binary64| #[trigger]
                elementary::models(*host, m) ==> final(self).midway(*final(batch)) == old(
                    self,
                ).midway(*old(batch)).settled(m, old(self).config),
            final(self).config == old(self).config,
            final(self).last_received == old(self).last_received,
            final(self).parts.received_by(at),
            final(self).pending@.len() < 11,
            final(self).pending@.len() > 0 ==> final(self).pending@[0].0 == 0x55,
            framing::ordered(final(self).pending@),
            forall|j: int|
                0 <= j < final(self).pending@.len() ==> (#[trigger] final(self).pending@[j]).1.0
                    <= at.0,
            final(batch).checksum_errors + final(self).pending@.len() <= old(batch).checksum_errors
                + old(self).pending@.len(),
            final(batch).discarded_bytes + final(self).pending@.len() <= old(batch).discarded_bytes
                + old(self).pending@.len(),
            final(batch).expired_components + final(self).pending@.len() <= old(
                batch,
            ).expired_components + old(self).pending@.len(),
    {
        let ghost start = self.midway(*batch);
        let ghost config = self.config;
        while self.pending.len() > 0 && (self.pending[0].0 != 0x55 || self.pending.len() >= 11)
            invariant
                elementary::total(*host),
                self.config == config,
                config == old(self).config,
                self.last_received == old(self).last_received,
                self.counted(*batch),
                framing::ordered(self.pending@),
                self.parts.received_by(at),
                forall|j: int|
                    0 <= j < self.pending@.len() ==> (#[trigger] self.pending@[j]).1.0 <= at.0,
                batch.checksum_errors + self.pending@.len() <= old(batch).checksum_errors + old(
                    self,
                ).pending@.len(),
                batch.discarded_bytes + self.pending@.len() <= old(batch).discarded_bytes + old(
                    self,
                ).pending@.len(),
                batch.expired_components + self.pending@.len() <= old(batch).expired_components
                    + old(self).pending@.len(),
                start.unturned().settled(mute(), config) == self.midway(*batch).unturned().settled(
                    mute(),
                    config,
                ),
                forall|m: spec_fn(Elementary) -> Binary64| #[trigger]
                    elementary::models(*host, m) ==> start.settled(m, config) == self.midway(
                        *batch,
                    ).settled(m, config),
            decreases self.pending@.len(),
        {
            let ghost here = self.midway(*batch);
            if self.pending[0].0 != 0x55 {
                self.pending.remove(0);
                batch.discarded_bytes = batch.discarded_bytes + 1;
                assert(self.pending@ =~= here.pending.drop_first());
                continue ;
            }
            let mut sum: u8 = 0;
            let mut k: usize = 0;
            while k < 10
                invariant
                    k <= 10,
                    self.pending@.len() >= 11,
                    sum == framing::byte_sum(self.pending@, k as nat) % 256,
                decreases 10 - k,
            {
                sum = sum.wrapping_add(self.pending[k].0);
                k += 1;
            }
            if sum != self.pending[10].0 {
                self.pending.remove(0);
                batch.checksum_errors = batch.checksum_errors + 1;
                batch.discarded_bytes = batch.discarded_bytes + 1;
                self.parts = Components::none();
                assert(self.pending@ =~= here.pending.drop_first());
                continue ;
            }
            let mut frame: Vec<(u8, Timestamp)> = Vec::new();
            std::mem::swap(&mut frame, &mut self.pending);
            assert(frame@ =~= here.pending.take(11));
            assert(self.pending@ =~= here.pending.skip(11));
            self.accept(&frame, batch, at, host);
        }
    }

    /// Takes a frame with a right checksum.
    fn accept<F: Fn(Elementary) -> Binary64>(
        &mut self,
        frame: &Vec<(u8, Timestamp)>,
        batch: &mut DecodeBatch,
        at: Timestamp,
        host: &F,
    )
        requires
            elementary::total(*host),
            frame@.len() == 11,
            forall|j: int| 0 <= j < 11 ==> (#[trigger] frame@[j]).1.0 <= at.0,
            old(self).pending@.len() == 0,
            old(self).parts.received_by(at),
            old(batch).expired_components <= 50_000,
        ensures
            final(self).config == old(self).config,
            final(self).last_received == old(self).last_received,
            final(self).pending@ == old(self).pending@,
            final(self).parts.received_by(at),
            final(batch).checksum_errors == old(batch).checksum_errors,
            final(batch).discarded_bytes == old(batch).discarded_bytes,
            final(batch).expired_components <= old(batch).expired_components + 3,
            final(self).midway(*final(batch)).unturned() == old(self).midway(
                *old(batch),
            ).unturned().accepted(mute(), old(self).config, frame@),
            forall|m: spec_fn(Elementary) -> Binary64| #[trigger]
                elementary::models(*host, m) ==> final(self).midway(*final(batch)) == old(
                    self,
                ).midway(*old(batch)).accepted(m, old(self).config, frame@),
    {
        let kind: u8 = frame[1].0;
        if !(0x51 <= kind && kind <= 0x53) {
            return ;
        }
        let step: Binary64 = (if kind == 0x51 {
            Binary64::of(SIXTEEN).times(Binary64::of(GRAVITY))
        } else if kind == 0x52 {
            Binary64::of(TWO_THOUSAND).times(Binary64::of(PI)).over(Binary64::of(HALF_TURN_DEG))
        } else {
            Binary64::of(PI)
        }).over(Binary64::of(FULL_SCALE));
        let bias: Vec3 = if kind == 0x51 {
            self.config.acceleration_bias_mps2
        } else if kind == 0x52 {
            self.config.gyro_bias_radps
        } else {
            Vec3 { x: Binary64::of(ZERO), y: Binary64::of(ZERO), z: Binary64::of(ZERO) }
        };
        let v: Vec3 = Vec3 {
            x: Binary64::from_integer(signed_word(frame[2].0, frame[3].0)).times(step).minus(
                bias.x,
            ),
            y: Binary64::from_integer(signed_word(frame[4].0, frame[5].0)).times(step).minus(
                bias.y,
            ),
            z: Binary64::from_integer(signed_word(frame[6].0, frame[7].0)).times(step).minus(
                bias.z,
            ),
        };
        assert(v == self.config.vector(frame@));
        let part: Option<(Vec3, Timestamp)> = Some((v, frame[0].1));
        assert((#[trigger] frame@[0]).1.0 <= at.0);
        if kind == 0x51 {
            self.parts.acceleration = part;
        } else if kind == 0x52 {
            self.parts.rate = part;
        } else {
            self.parts.angle = part;
        }
        if let (Some((acc, ta)), Some((gyro, tg)), Some((angle, te))) = (
            self.parts.acceleration,
            self.parts.rate,
            self.parts.angle,
        ) {
            let first: Timestamp = if ta.0 <= tg.0 {
                ta
            } else {
                tg
            };
            let oldest: Timestamp = if first.0 <= te.0 {
                first
            } else {
                te
            };
            let last: Timestamp = if ta.0 <= tg.0 {
                tg
            } else {
                ta
            };
            let newest: Timestamp = if last.0 <= te.0 {
                te
            } else {
                last
            };
            let limit: u64 = self.config.max_component_skew_ms;
            if newest.0 - oldest.0 > limit {
                let mut lost: usize = batch.expired_components;
                let ghost whole = self.parts;
                let ghost fresh = |age: int| age <= limit;
                self.parts = Components {
                    acceleration: keep_if(self.parts.acceleration, newest, limit, true, &mut lost),
                    rate: keep_if(self.parts.rate, newest, limit, true, &mut lost),
                    angle: keep_if(self.parts.angle, newest, limit, true, &mut lost),
                };
                assert(self.parts == whole.pruned(newest, fresh));
                batch.expired_components = lost;
                return ;
            }
            let orientation_xyzw: Quaternion = orientation_of(angle, host);
            let sample: ImuSample = ImuSample {
                captured_at: oldest,
                frame_id: self.config.frame_id.clone(),
                acceleration_mps2: acc,
                angular_velocity_radps: gyro,
                orientation_xyzw,
            };
            let ghost earlier_samples = batch.samples@;
            batch.samples.push(sample);
            assert(batch@.unturned().samples =~= earlier_samples.map_values(
                |s: ImuSample| unturned(s),
            ).push(unturned(sample)));
            // The next sample takes three fresh components.
            self.parts = Components::none();
        }
    }
}

impl Decode {
    /// Whether nothing held is too old at a time.
    pub open spec fn young(self, config: ImuConfig, at: Timestamp) -> bool {
        &&& self.parts.received_by(at)
        &&& self.parts == self.parts.pruned(at, |age: int| age < config.max_component_age_ms)
        &&& forall|i: int|
            0 <= i < self.pending.len() ==> 0 <= at.0 - (#[trigger] self.pending[i]).1.0
                < config.max_component_age_ms
    }

    /// The same decoder with an earlier batch before its own.
    pub open spec fn preceded(self, prior: Batch) -> Self {
        Decode { batch: prior.followed_by(self.batch), ..self }
    }
}

proof fn lemma_accepted_preceded(
    d: Decode,
    m: spec_fn(Elementary) -> Binary64,
    config: ImuConfig,
    frame: Seq<(u8, Timestamp)>,
    prior: Batch,
)
    ensures
        d.preceded(prior).accepted(m, config, frame) == d.accepted(m, config, frame).preceded(
            prior,
        ),
{
    let x = d.preceded(prior).accepted(m, config, frame);
    let y = d.accepted(m, config, frame).preceded(prior);
    assert(x.batch.samples =~= y.batch.samples);
}

proof fn lemma_settled_preceded(
    d: Decode,
    m: spec_fn(Elementary) -> Binary64,
    config: ImuConfig,
    prior: Batch,
)
    ensures
        d.preceded(prior).settled(m, config) == d.settled(m, config).preceded(prior),
    decreases d.pending.len(),
{
    if d.pending.len() == 0 {
    } else if d.pending[0].0 != 0x55 {
        lemma_settled_preceded(
            Decode {
                pending: d.pending.drop_first(),
                batch: Batch { discarded_bytes: d.batch.discarded_bytes + 1, ..d.batch },
                ..d
            },
            m,
            config,
            prior,
        );
    } else if d.pending.len() < 11 {
    } else if framing::byte_sum(d.pending, 10) % 256 != d.pending[10].0 {
        lemma_settled_preceded(
            Decode {
                pending: d.pending.drop_first(),
                parts: Components::none(),
                batch: Batch {
                    discarded_bytes: d.batch.discarded_bytes + 1,
                    checksum_errors: d.batch.checksum_errors + 1,
                    ..d.batch
                },
            },
            m,
            config,
            prior,
        );
    } else {
        let rest = Decode { pending: d.pending.skip(11), ..d };
        lemma_accepted_preceded(rest, m, config, d.pending.take(11), prior);
        let taken = rest.accepted(m, config, d.pending.take(11));
        lemma_settled_preceded(
            Decode { pending: d.pending.skip(11), ..taken },
            m,
            config,
            prior,
        );
    }
}

proof fn lemma_consumed_preceded(
    d: Decode,
    m: spec_fn(Elementary) -> Binary64,
    config: ImuConfig,
    bytes: Seq<u8>,
    at: Timestamp,
    prior: Batch,
)
    ensures
        d.preceded(prior).consumed(m, config, bytes, at) == d.consumed(
            m,
            config,
            bytes,
            at,
        ).preceded(prior),
    decreases bytes.len(),
{
    if bytes.len() > 0 {
        let pushed = Decode { pending: d.pending.push((bytes[0], at)), ..d };
        lemma_settled_preceded(pushed, m, config, prior);
        lemma_consumed_preceded(
            pushed.settled(m, config),
            m,
            config,
            bytes.drop_first(),
            at,
            prior,
        );
    }
}

proof fn lemma_consumed_in_parts(
    d: Decode,
    m: spec_fn(Elementary) -> Binary64,
    config: ImuConfig,
    a: Seq<u8>,
    b: Seq<u8>,
    at: Timestamp,
)
    ensures
        d.consumed(m, config, a + b, at) == d.consumed(m, config, a, at).consumed(
            m,
            config,
            b,
            at,
        ),
    decreases a.len(),
{
    if a.len() == 0 {
        assert(a + b =~= b);
    } else {
        assert((a + b)[0] == a[0]);
        assert((a + b).drop_first() =~= a.drop_first() + b);
        lemma_consumed_in_parts(
            Decode { pending: d.pending.push((a[0], at)), ..d }.settled(m, config),
            m,
            config,
            a.drop_first(),
            b,
            at,
        );
    }
}

proof fn lemma_settled_young(
    d: Decode,
    m: spec_fn(Elementary) -> Binary64,
    config: ImuConfig,
    at: Timestamp,
)
    requires
        d.young(config, at),
    ensures
        d.settled(m, config).young(config, at),
    decreases d.pending.len(),
{
    if d.pending.len() == 0 {
    } else if d.pending[0].0 != 0x55 {
        lemma_settled_young(
            Decode {
                pending: d.pending.drop_first(),
                batch: Batch { discarded_bytes: d.batch.discarded_bytes + 1, ..d.batch },
                ..d
            },
            m,
            config,
            at,
        );
    } else if d.pending.len() < 11 {
    } else if framing::byte_sum(d.pending, 10) % 256 != d.pending[10].0 {
        lemma_settled_young(
            Decode {
                pending: d.pending.drop_first(),
                parts: Components::none(),
                batch: Batch {
                    discarded_bytes: d.batch.discarded_bytes + 1,
                    checksum_errors: d.batch.checksum_errors + 1,
                    ..d.batch
                },
            },
            m,
            config,
            at,
        );
    } else {
        let rest = Decode { pending: d.pending.skip(11), ..d };
        let taken = rest.accepted(m, config, d.pending.take(11));
        let next = Decode { pending: d.pending.skip(11), ..taken };
        assert(d.pending.take(11)[0] == d.pending[0]);
        assert(next.young(config, at));
        lemma_settled_young(next, m, config, at);
    }
}

proof fn lemma_consumed_young(
    d: Decode,
    m: spec_fn(Elementary) -> Binary64,
    config: ImuConfig,
    bytes: Seq<u8>,
    at: Timestamp,
)
    requires
        d.young(config, at),
        config.max_component_age_ms > 0,
    ensures
        d.consumed(m, config, bytes, at).young(config, at),
    decreases bytes.len(),
{
    if bytes.len() > 0 {
        let pushed = Decode { pending: d.pending.push((bytes[0], at)), ..d };
        lemma_settled_young(pushed, m, config, at);
        lemma_consumed_young(pushed.settled(m, config), m, config, bytes.drop_first(), at);
    }
}

/// How many components are held.
pub open spec fn held(parts: Components) -> nat {
    parts.lost(Components::none())
}

/// What the bytes and components held, and the samples given, are worth in
/// bytes: eleven a component, three components a sample.
spec fn worth(d: Decode) -> nat {
    33 * d.batch.samples.len() + 11 * held(d.parts) + d.pending.len()
}

proof fn lemma_settled_worth(d: Decode, m: spec_fn(Elementary) -> Binary64, config: ImuConfig)
    ensures
        worth(d.settled(m, config)) <= worth(d),
    decreases d.pending.len(),
{
    if d.pending.len() == 0 {
    } else if d.pending[0].0 != 0x55 {
        let next = Decode {
            pending: d.pending.drop_first(),
            batch: Batch { discarded_bytes: d.batch.discarded_bytes + 1, ..d.batch },
            ..d
        };
        lemma_settled_worth(next, m, config);
    } else if d.pending.len() < 11 {
    } else if framing::byte_sum(d.pending, 10) % 256 != d.pending[10].0 {
        let next = Decode {
            pending: d.pending.drop_first(),
            parts: Components::none(),
            batch: Batch {
                discarded_bytes: d.batch.discarded_bytes + 1,
                checksum_errors: d.batch.checksum_errors + 1,
                ..d.batch
            },
        };
        lemma_settled_worth(next, m, config);
    } else {
        let taken = Decode { pending: d.pending.skip(11), ..d }.accepted(
            m,
            config,
            d.pending.take(11),
        );
        lemma_settled_worth(Decode { pending: d.pending.skip(11), ..taken }, m, config);
    }
}

proof fn lemma_consumed_worth(
    d: Decode,
    m: spec_fn(Elementary) -> Binary64,
    config: ImuConfig,
    bytes: Seq<u8>,
    at: Timestamp,
)
    ensures
        worth(d.consumed(m, config, bytes, at)) <= worth(d) + bytes.len(),
    decreases bytes.len(),
{
    if bytes.len() > 0 {
        let pushed = Decode { pending: d.pending.push((bytes[0], at)), ..d };
        lemma_settled_worth(pushed, m, config);
        lemma_consumed_worth(pushed.settled(m, config), m, config, bytes.drop_first(), at);
    }
}

/// Every sample takes three frames of its own: a component is used once, and
/// what is left over was received as well.
pub proof fn law_samples_take_three_frames(
    r: Receiver,
    m: spec_fn(Elementary) -> Binary64,
    bytes: Seq<u8>,
    at: Timestamp,
)
    ensures
        ({
            let (end, batch) = r.fed(m, bytes, at);
            33 * batch.samples.len() + 11 * held(end.parts) + end.pending.len() <= 11 * held(
                r.parts,
            ) + r.pending.len() + bytes.len()
        }),
{
    lemma_consumed_worth(r.aged(at), m, r.config, bytes, at);
}

/// Components received before corruption are combined with nothing after it:
/// what follows does not depend on them.
pub proof fn law_corruption_forgets_components(
    d: Decode,
    other: Components,
    m: spec_fn(Elementary) -> Binary64,
    config: ImuConfig,
)
    requires
        d.pending.len() >= 11,
        d.pending[0].0 == 0x55,
        framing::byte_sum(d.pending, 10) % 256 != d.pending[10].0,
    ensures
        d.settled(m, config) == (Decode { parts: other, ..d }).settled(m, config),
{
}

/// How a read is cut into chunks does not matter: two reads at one time decode
/// what the read of both together decodes, and leave the same state.
pub proof fn law_fragmentation_does_not_matter(
    r: Receiver,
    m: spec_fn(Elementary) -> Binary64,
    a: Seq<u8>,
    b: Seq<u8>,
    at: Timestamp,
)
    requires
        r.sound(),
        r.last_received matches Some(last) ==> last.0 <= at.0,
    ensures
        ({
            let (middle, first) = r.fed(m, a, at);
            let (end, second) = middle.fed(m, b, at);
            r.fed(m, a + b, at) == (end, first.followed_by(second))
        }),
{
    let config = r.config;
    let start = r.aged(at);
    let (middle, first) = r.fed(m, a, at);
    let after_a = start.consumed(m, config, a, at);
    assert(start.young(config, at)) by {
        assert(start.parts =~= start.parts.pruned(
            at,
            |age: int| age < config.max_component_age_ms,
        ));
    }
    lemma_consumed_young(start, m, config, a, at);
    lemma_consumed_in_parts(start, m, config, a, b, at);
    let again = middle.aged(at);
    assert(again.parts == after_a.parts);
    assert(again.pending == after_a.pending);
    assert(again.batch.samples =~= Batch::empty().samples);
    assert(again.batch == Batch::empty());
    assert(first.followed_by(Batch::empty()).samples =~= first.samples);
    assert(again.preceded(first) == after_a);
    lemma_consumed_preceded(again, m, config, b, at, first);
}

proof fn lemma_settled_unturned(d: Decode, m: spec_fn(Elementary) -> Binary64, config: ImuConfig)
    ensures
        d.settled(m, config).unturned() == d.unturned().settled(mute(), config),
    decreases d.pending.len(),
{
    if d.pending.len() == 0 {
    } else if d.pending[0].0 != 0x55 {
        let next = Decode {
            pending: d.pending.drop_first(),
            batch: Batch { discarded_bytes: d.batch.discarded_bytes + 1, ..d.batch },
            ..d
        };
        lemma_settled_unturned(next, m, config);
    } else if d.pending.len() < 11 {
    } else if framing::byte_sum(d.pending, 10) % 256 != d.pending[10].0 {
        let next = Decode {
            pending: d.pending.drop_first(),
            parts: Components::none(),
            batch: Batch {
                discarded_bytes: d.batch.discarded_bytes + 1,
                checksum_errors: d.batch.checksum_errors + 1,
                ..d.batch
            },
        };
        lemma_settled_unturned(next, m, config);
    } else {
        let rest = Decode { pending: d.pending.skip(11), ..d };
        let frame = d.pending.take(11);
        let taken = rest.accepted(m, config, frame);
        assert(taken.unturned() == rest.unturned().accepted(mute(), config, frame)) by {
            assert(taken.unturned().batch.samples =~= rest.unturned().accepted(
                mute(),
                config,
                frame,
            ).batch.samples);
        }
        lemma_settled_unturned(Decode { pending: d.pending.skip(11), ..taken }, m, config);
    }
}

proof fn lemma_consumed_unturned(
    d: Decode,
    m: spec_fn(Elementary) -> Binary64,
    config: ImuConfig,
    bytes: Seq<u8>,
    at: Timestamp,
)
    ensures
        d.consumed(m, config, bytes, at).unturned() == d.unturned().consumed(
            mute(),
            config,
            bytes,
            at,
        ),
    decreases bytes.len(),
{
    if bytes.len() > 0 {
        let pushed = Decode { pending: d.pending.push((bytes[0], at)), ..d };
        lemma_settled_unturned(pushed, m, config);
        lemma_consumed_unturned(pushed.settled(m, config), m, config, bytes.drop_first(), at);
    }
}

/// A host decides nothing but the orientations: the state, the counts and the
/// rest of every sample are the same with any host.
pub proof fn law_hosts_decide_only_orientations(
    r: Receiver,
    m: spec_fn(Elementary) -> Binary64,
    bytes: Seq<u8>,
    at: Timestamp,
)
    ensures
        r.fed(m, bytes, at).0 == r.fed(mute(), bytes, at).0,
        r.fed(m, bytes, at).1.unturned() == r.fed(mute(), bytes, at).1,
{
    let start = r.aged(at);
    assert(start.unturned() == start) by {
        assert(start.batch.unturned().samples =~= start.batch.samples);
    }
    lemma_consumed_unturned(start, m, r.config, bytes, at);
}

} // verus!
