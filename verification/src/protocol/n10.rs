//! The scanner's 58-byte packets of sixteen returns.
//!
//! The decoder opens no device and assembles no revolution. Time stamps are
//! receive times of the host. Two header bytes stay opaque: neither a motor
//! speed nor a measurement time is inferred from them.
use super::framing;
use crate::binary64::values::{DEGREE, FIFTEEN, HUNDRED, THOUSAND, ZERO};
use crate::binary64::Binary64;
use crate::sensors::{FrameId, LidarSample, LidarScan, Timestamp, ValidationError};
use crate::sensors;
use vstd::prelude::*;

verus! {

pub const PACKET_BYTES: usize = 58;

pub const POINTS_PER_PACKET: usize = 16;

pub const MAX_CHUNK_BYTES: usize = 4096;

#[derive(Clone, Debug)]
pub struct N10Config {
    pub frame_id: FrameId,
    pub range_min_m: Binary64,
    pub range_max_m: Binary64,
    pub max_packet_age_ms: u64,
}

#[derive(Clone, Copy, Debug)]
pub struct N10Point {
    /// The distance word as received, also the one that means "invalid".
    pub raw_distance_mm: u16,
    /// `None` means invalid, zero, or outside the configured range.
    pub range_m: Option<Binary64>,
    pub intensity: u8,
}

#[derive(Clone, Debug)]
pub struct N10Packet {
    pub first_received_at: Timestamp,
    pub received_at: Timestamp,
    pub frame_id: FrameId,
    /// The two bytes after the length, with no meaning here.
    pub header_bytes: [u8; 2],
    pub start_angle_cdeg: u16,
    pub end_angle_cdeg: u16,
    pub points: [N10Point; 16],
    pub range_min_m: Binary64,
    pub range_max_m: Binary64,
}

/// A packet with its arrays as sequences.
pub struct Packet {
    pub first_received_at: Timestamp,
    pub received_at: Timestamp,
    pub frame_id: FrameId,
    pub header_bytes: Seq<u8>,
    pub start_angle_cdeg: u16,
    pub end_angle_cdeg: u16,
    pub points: Seq<N10Point>,
    pub range_min_m: Binary64,
    pub range_max_m: Binary64,
}

impl View for N10Packet {
    type V = Packet;

    open spec fn view(&self) -> Packet {
        Packet {
            first_received_at: self.first_received_at,
            received_at: self.received_at,
            frame_id: self.frame_id,
            header_bytes: self.header_bytes@,
            start_angle_cdeg: self.start_angle_cdeg,
            end_angle_cdeg: self.end_angle_cdeg,
            points: self.points@,
            range_min_m: self.range_min_m,
            range_max_m: self.range_max_m,
        }
    }
}

impl Packet {
    /// The angle from the first to the last return, in hundredths of a degree,
    /// within a turn.
    pub open spec fn span_cdeg(self) -> int {
        (self.end_angle_cdeg - self.start_angle_cdeg) % 36_000
    }

    /// The packet as a partial scan, where anything was returned and the
    /// returns span an angle. Missing returns keep their slots.
    pub open spec fn sample(self) -> Option<LidarScan> {
        if self.span_cdeg() == 0 || forall|i: int|
            0 <= i < self.points.len() ==> (#[trigger] self.points[i]).range_m is None {
            None
        } else {
            Some(
                LidarScan {
                    captured_at: self.first_received_at,
                    frame_id: self.frame_id,
                    angle_min_rad: radians(
                        Binary64::from_natural(self.start_angle_cdeg as u64).over(
                            Binary64::of(HUNDRED),
                        ),
                    ).negated(),
                    angle_increment_rad: radians(
                        Binary64::from_natural(self.span_cdeg() as u64).over(
                            Binary64::of(HUNDRED),
                        ).over(Binary64::of(FIFTEEN)),
                    ).negated(),
                    range_min_m: self.range_min_m,
                    range_max_m: self.range_max_m,
                    ranges_m: self.points.map_values(|p: N10Point| p.range_m),
                },
            )
        }
    }
}

pub open spec fn radians(degrees: Binary64) -> Binary64 {
    degrees.times(Binary64::of(DEGREE))
}

impl N10Packet {
    /// The packet as a partial scan, in coordinates whose angles increase
    /// counterclockwise. It is evidence of reception only, not of coverage.
    pub fn packet_sample(&self) -> (r: Option<LidarSample>)
        ensures
            match r {
                None => self@.sample() is None,
                Some(sample) => self@.sample() == Some(sample@),
            },
    {
        let span_cdeg: u32 = (self.end_angle_cdeg as u32 + 72_000 - self.start_angle_cdeg as u32)
            % 36_000;
        assert(span_cdeg == self@.span_cdeg());
        let mut ranges_m: Vec<Option<Binary64>> = Vec::new();
        let mut any: bool = false;
        let mut i: usize = 0;
        while i < 16
            invariant
                i <= 16,
                ranges_m@.len() == i,
                forall|j: int| 0 <= j < i ==> ranges_m@[j] == (#[trigger] self.points@[j]).range_m,
                any == exists|j: int| 0 <= j < i && (#[trigger] self.points@[j]).range_m is Some,
            decreases 16 - i,
        {
            let range: Option<Binary64> = self.points[i].range_m;
            if range.is_some() {
                any = true;
            }
            ranges_m.push(range);
            i += 1;
        }
        if span_cdeg == 0 || !any {
            return None;
        }
        let angle_min_rad: Binary64 = Binary64::from_natural(self.start_angle_cdeg as u64).over(
            Binary64::of(HUNDRED),
        ).times(Binary64::of(DEGREE)).negated();
        let angle_increment_rad: Binary64 = Binary64::from_natural(span_cdeg as u64).over(
            Binary64::of(HUNDRED),
        ).over(Binary64::of(FIFTEEN)).times(Binary64::of(DEGREE)).negated();
        let r: LidarSample = LidarSample {
            captured_at: self.first_received_at,
            frame_id: self.frame_id.clone(),
            angle_min_rad,
            angle_increment_rad,
            range_min_m: self.range_min_m,
            range_max_m: self.range_max_m,
            ranges_m,
        };
        assert(r@.ranges_m =~= self@.points.map_values(|p: N10Point| p.range_m));
        Some(r)
    }
}

/// What one read decoded.
#[derive(Debug)]
pub struct N10DecodeBatch {
    pub packets: Vec<N10Packet>,
    pub checksum_errors: usize,
    pub length_errors: usize,
    pub angle_errors: usize,
    pub discarded_bytes: usize,
    pub expired_packets: usize,
}

/// A batch with its packets as a sequence.
pub struct PacketBatch {
    pub packets: Seq<Packet>,
    pub checksum_errors: nat,
    pub length_errors: nat,
    pub angle_errors: nat,
    pub discarded_bytes: nat,
    pub expired_packets: nat,
}

impl View for N10DecodeBatch {
    type V = PacketBatch;

    open spec fn view(&self) -> PacketBatch {
        PacketBatch {
            packets: self.packets@.map_values(|p: N10Packet| p@),
            checksum_errors: self.checksum_errors as nat,
            length_errors: self.length_errors as nat,
            angle_errors: self.angle_errors as nat,
            discarded_bytes: self.discarded_bytes as nat,
            expired_packets: self.expired_packets as nat,
        }
    }
}

impl PacketBatch {
    pub open spec fn empty() -> Self {
        PacketBatch {
            packets: Seq::empty(),
            checksum_errors: 0,
            length_errors: 0,
            angle_errors: 0,
            discarded_bytes: 0,
            expired_packets: 0,
        }
    }

    /// Two batches, one after the other.
    pub open spec fn followed_by(self, later: PacketBatch) -> Self {
        PacketBatch {
            packets: self.packets + later.packets,
            checksum_errors: self.checksum_errors + later.checksum_errors,
            length_errors: self.length_errors + later.length_errors,
            angle_errors: self.angle_errors + later.angle_errors,
            discarded_bytes: self.discarded_bytes + later.discarded_bytes,
            expired_packets: self.expired_packets + later.expired_packets,
        }
    }

    pub open spec fn discarding_one(self) -> Self {
        PacketBatch { discarded_bytes: self.discarded_bytes + 1, ..self }
    }
}

impl Default for N10DecodeBatch {
    fn default() -> (r: Self)
        ensures
            r@ == PacketBatch::empty(),
    {
        let r: N10DecodeBatch = N10DecodeBatch {
            packets: Vec::new(),
            checksum_errors: 0,
            length_errors: 0,
            angle_errors: 0,
            discarded_bytes: 0,
            expired_packets: 0,
        };
        assert(r@.packets =~= PacketBatch::empty().packets);
        r
    }
}

/// A big-endian word.
pub open spec fn word(high: u8, low: u8) -> u16 {
    (high * 256 + low) as u16
}

impl N10Config {
    /// What is wrong with a configuration.
    pub open spec fn fault(&self) -> Option<Seq<char>> {
        if sensors::frame_fault(self.frame_id@) is Some {
            sensors::frame_fault(self.frame_id@)
        } else if !self.range_min_m.finite() || !self.range_max_m.finite() || self.range_min_m.lt(
            Binary64::of(ZERO),
        ) || self.range_max_m.le(self.range_min_m) || self.max_packet_age_ms == 0 {
            Some("invalid N10 ranges or packet age"@)
        } else {
            None
        }
    }

    /// The return in a slot of a packet.
    pub open spec fn point(&self, frame: Seq<(u8, Timestamp)>, slot: int) -> N10Point {
        let offset = 7 + 3 * slot;
        let raw = word(frame[offset].0, frame[offset + 1].0);
        let metres = Binary64::from_natural(raw as u64).over(Binary64::of(THOUSAND));
        N10Point {
            raw_distance_mm: raw,
            range_m: if raw != 0 && raw != 0xffff && self.range_min_m.le(metres) && metres.le(
                self.range_max_m,
            ) {
                Some(metres)
            } else {
                None
            },
            intensity: frame[offset + 2].0,
        }
    }

    /// The packet in 58 bytes.
    pub open spec fn packet(&self, frame: Seq<(u8, Timestamp)>) -> Packet {
        Packet {
            first_received_at: frame[0].1,
            received_at: frame[57].1,
            frame_id: self.frame_id,
            header_bytes: seq![frame[3].0, frame[4].0],
            start_angle_cdeg: word(frame[5].0, frame[6].0),
            end_angle_cdeg: word(frame[55].0, frame[56].0),
            points: Seq::new(16, |slot: int| self.point(frame, slot)),
            range_min_m: self.range_min_m,
            range_max_m: self.range_max_m,
        }
    }
}

/// Whether some bytes cannot start a packet by their head alone.
pub open spec fn misheaded(pending: Seq<(u8, Timestamp)>) -> bool {
    pending[0].0 != 0xa5 || (pending.len() > 1 && pending[1].0 != 0x5a)
}

/// A decoder in the middle of a read.
pub struct Decode {
    pub pending: Seq<(u8, Timestamp)>,
    pub batch: PacketBatch,
}

impl Decode {
    /// The decoder once every complete packet has been taken. A byte that does
    /// not start a valid packet is discarded.
    pub open spec fn settled(self, config: N10Config) -> Self
        decreases self.pending.len(),
    {
        let rest = self.pending.drop_first();
        if self.pending.len() == 0 {
            self
        } else if misheaded(self.pending) {
            Decode { pending: rest, batch: self.batch.discarding_one() }.settled(config)
        } else if self.pending.len() > 2 && self.pending[2].0 != 58 {
            Decode {
                pending: rest,
                batch: PacketBatch {
                    length_errors: self.batch.length_errors + 1,
                    ..self.batch.discarding_one()
                },
            }.settled(config)
        } else if self.pending.len() < 58 {
            self
        } else if framing::byte_sum(self.pending, 57) % 256 != self.pending[57].0 {
            Decode {
                pending: rest,
                batch: PacketBatch {
                    checksum_errors: self.batch.checksum_errors + 1,
                    ..self.batch.discarding_one()
                },
            }.settled(config)
        } else if word(self.pending[5].0, self.pending[6].0) > 36_000 || word(
            self.pending[55].0,
            self.pending[56].0,
        ) > 36_000 {
            Decode {
                pending: rest,
                batch: PacketBatch {
                    angle_errors: self.batch.angle_errors + 1,
                    ..self.batch.discarding_one()
                },
            }.settled(config)
        } else {
            Decode {
                pending: Seq::empty(),
                batch: PacketBatch {
                    packets: self.batch.packets.push(config.packet(self.pending)),
                    ..self.batch
                },
            }
        }
    }

    /// The decoder after each of some bytes.
    pub open spec fn consumed(self, config: N10Config, bytes: Seq<u8>, at: Timestamp) -> Self
        decreases bytes.len(),
    {
        if bytes.len() == 0 {
            self
        } else {
            Decode { pending: self.pending.push((bytes[0], at)), ..self }.settled(config).consumed(
                config,
                bytes.drop_first(),
                at,
            )
        }
    }
}

/// The state of a decoder between reads.
pub struct Receiver {
    pub config: N10Config,
    pub pending: Seq<(u8, Timestamp)>,
    pub last_received: Option<Timestamp>,
}

impl Receiver {
    pub open spec fn initial(config: N10Config) -> Self {
        Receiver { config, pending: Seq::empty(), last_received: None }
    }

    /// Whether a read is refused.
    pub open spec fn refuses(self, bytes: Seq<u8>, at: Timestamp) -> bool {
        bytes.len() > 4096 || (self.last_received is Some && at.0 < (self.last_received->0).0)
    }

    /// What is left at the time of a read: an unfinished packet that has become
    /// too old is discarded.
    pub open spec fn aged(self, at: Timestamp) -> Decode {
        if self.pending.len() > 0 && at.0 - self.pending[0].1.0 >= self.config.max_packet_age_ms {
            Decode {
                pending: Seq::empty(),
                batch: PacketBatch {
                    expired_packets: 1,
                    discarded_bytes: self.pending.len(),
                    ..PacketBatch::empty()
                },
            }
        } else {
            Decode { pending: self.pending, batch: PacketBatch::empty() }
        }
    }

    pub open spec fn fed(self, bytes: Seq<u8>, at: Timestamp) -> (Self, PacketBatch) {
        let end = self.aged(at).consumed(self.config, bytes, at);
        (
            Receiver { config: self.config, pending: end.pending, last_received: Some(at) },
            end.batch,
        )
    }

    /// What every reachable state satisfies.
    pub open spec fn sound(self) -> bool {
        &&& self.config.fault() is None
        &&& self.pending.len() < 58
        &&& framing::ordered(self.pending)
        &&& match self.last_received {
            None => self.pending.len() == 0,
            Some(last) => forall|i: int|
                0 <= i < self.pending.len() ==> (#[trigger] self.pending[i]).1.0 <= last.0,
        }
    }
}

pub struct N10Decoder {
    config: N10Config,
    // Less than one packet between reads, each byte with its receive time.
    pending: Vec<(u8, Timestamp)>,
    last_received: Option<Timestamp>,
}

impl View for N10Decoder {
    type V = Receiver;

    closed spec fn view(&self) -> Receiver {
        Receiver {
            config: self.config,
            pending: self.pending@,
            last_received: self.last_received,
        }
    }
}

fn join(high: u8, low: u8) -> (r: u16)
    ensures
        r == word(high, low),
{
    (high as u16) * 256 + low as u16
}

fn point_of(config: &N10Config, frame: &Vec<(u8, Timestamp)>, slot: usize) -> (r: N10Point)
    requires
        frame@.len() == 58,
        slot < 16,
    ensures
        r == config.point(frame@, slot as int),
{
    let offset: usize = 7 + 3 * slot;
    let raw: u16 = join(frame[offset].0, frame[offset + 1].0);
    let metres: Binary64 = Binary64::from_natural(raw as u64).over(Binary64::of(THOUSAND));
    let valid: bool = raw != 0 && raw != 0xffff && config.range_min_m.at_most(metres)
        && metres.at_most(config.range_max_m);
    N10Point {
        raw_distance_mm: raw,
        range_m: if valid {
            Some(metres)
        } else {
            None
        },
        intensity: frame[offset + 2].0,
    }
}

fn packet_of(config: &N10Config, frame: &Vec<(u8, Timestamp)>) -> (r: N10Packet)
    requires
        frame@.len() == 58,
    ensures
        r@ == config.packet(frame@),
{
    let r: N10Packet = N10Packet {
        first_received_at: frame[0].1,
        received_at: frame[57].1,
        frame_id: config.frame_id.clone(),
        header_bytes: [frame[3].0, frame[4].0],
        start_angle_cdeg: join(frame[5].0, frame[6].0),
        end_angle_cdeg: join(frame[55].0, frame[56].0),
        points: [
            point_of(config, frame, 0),
            point_of(config, frame, 1),
            point_of(config, frame, 2),
            point_of(config, frame, 3),
            point_of(config, frame, 4),
            point_of(config, frame, 5),
            point_of(config, frame, 6),
            point_of(config, frame, 7),
            point_of(config, frame, 8),
            point_of(config, frame, 9),
            point_of(config, frame, 10),
            point_of(config, frame, 11),
            point_of(config, frame, 12),
            point_of(config, frame, 13),
            point_of(config, frame, 14),
            point_of(config, frame, 15),
        ],
        range_min_m: config.range_min_m,
        range_max_m: config.range_max_m,
    };
    assert(r@.points =~= config.packet(frame@).points);
    assert(r@.header_bytes =~= config.packet(frame@).header_bytes);
    r
}

impl N10Decoder {
    pub fn new(config: N10Config) -> (r: Result<Self, ValidationError>)
        ensures
            sensors::refusal(r) == config.fault(),
            r matches Ok(decoder) ==> decoder@ == Receiver::initial(config) && decoder@.sound(),
    {
        config.frame_id.validate()?;
        if !config.range_min_m.is_finite() || !config.range_max_m.is_finite()
            || config.range_min_m.less(Binary64::of(ZERO)) || config.range_max_m.at_most(
            config.range_min_m,
        ) || config.max_packet_age_ms == 0 {
            return Err(ValidationError::new("invalid N10 ranges or packet age"));
        }
        let r: N10Decoder = N10Decoder { config, pending: Vec::new(), last_received: None };
        assert(r@.pending =~= Seq::empty());
        Ok(r)
    }

    pub fn buffered_len(&self) -> (r: usize)
        ensures
            r == self@.pending.len(),
    {
        self.pending.len()
    }

    /// The decoder and its batch in the middle of a read.
    spec fn midway(&self, batch: N10DecodeBatch) -> Decode {
        Decode { pending: self.pending@, batch: batch@ }
    }

    /// Decodes the bytes of one read. A refused read changes nothing.
    pub fn feed(&mut self, bytes: &[u8], at: Timestamp) -> (r: Result<
        N10DecodeBatch,
        ValidationError,
    >)
        requires
            old(self)@.sound(),
        ensures
            final(self)@.sound(),
            r is Err <==> old(self)@.refuses(bytes@, at),
            r matches Err(e) ==> e.0@
                == "N10 chunk exceeds 4096 bytes or receive time regresses"@ && final(self)@
                == old(self)@,
            r matches Ok(batch) ==> (final(self)@, batch@) == old(self)@.fed(bytes@, at),
    {
        let regresses: bool = match self.last_received {
            None => false,
            Some(last) => at.0 < last.0,
        };
        if bytes.len() > MAX_CHUNK_BYTES || regresses {
            return Err(
                ValidationError::new("N10 chunk exceeds 4096 bytes or receive time regresses"),
            );
        }
        let ghost before = self@;
        self.last_received = Some(at);
        let mut batch: N10DecodeBatch = N10DecodeBatch::default();
        if self.pending.len() > 0 && at.0 - self.pending[0].1.0 >= self.config.max_packet_age_ms {
            batch.expired_packets = 1;
            batch.discarded_bytes = self.pending.len();
            self.pending.clear();
        }
        let ghost start = self.midway(batch);
        assert(start == before.aged(at));
        let ghost config = self.config;
        let mut i: usize = 0;
        assert(bytes@.skip(0) =~= bytes@);
        while i < bytes.len()
            invariant
                i <= bytes@.len() <= 4096,
                self.config == config,
                config.fault() is None,
                self.last_received == Some(at),
                self.pending@.len() < 58,
                framing::ordered(self.pending@),
                forall|j: int|
                    0 <= j < self.pending@.len() ==> (#[trigger] self.pending@[j]).1.0 <= at.0,
                batch.discarded_bytes + self.pending@.len() <= 58 + i,
                batch.checksum_errors <= batch.discarded_bytes,
                batch.length_errors <= batch.discarded_bytes,
                batch.angle_errors <= batch.discarded_bytes,
                start.consumed(config, bytes@, at) == self.midway(batch).consumed(
                    config,
                    bytes@.skip(i as int),
                    at,
                ),
            decreases bytes@.len() - i,
        {
            let byte: u8 = bytes[i];
            self.pending.push((byte, at));
            assert(bytes@.skip(i as int)[0] == byte);
            assert(bytes@.skip(i as int).drop_first() =~= bytes@.skip(i + 1));
            self.settle(&mut batch, at);
            i += 1;
        }
        assert(bytes@.skip(i as int).len() == 0);
        Ok(batch)
    }

    /// Takes every complete packet.
    fn settle(&mut self, batch: &mut N10DecodeBatch, at: Timestamp)
        requires
            old(self).pending@.len() <= 58,
            framing::ordered(old(self).pending@),
            old(batch).discarded_bytes <= 50_000,
            old(batch).checksum_errors <= old(batch).discarded_bytes,
            old(batch).length_errors <= old(batch).discarded_bytes,
            old(batch).angle_errors <= old(batch).discarded_bytes,
            forall|j: int|
                0 <= j < old(self).pending@.len() ==> (#[trigger] old(self).pending@[j]).1.0
                    <= at.0,
        ensures
            final(self).midway(*final(batch)) == old(self).midway(*old(batch)).settled(
                old(self).config,
            ),
            final(self).config == old(self).config,
            final(self).last_received == old(self).last_received,
            final(self).pending@.len() < 58,
            framing::ordered(final(self).pending@),
            forall|j: int|
                0 <= j < final(self).pending@.len() ==> (#[trigger] final(self).pending@[j]).1.0
                    <= at.0,
            final(batch).discarded_bytes + final(self).pending@.len() <= old(batch).discarded_bytes
                + old(self).pending@.len(),
            final(batch).checksum_errors <= final(batch).discarded_bytes,
            final(batch).length_errors <= final(batch).discarded_bytes,
            final(batch).angle_errors <= final(batch).discarded_bytes,
    {
        let ghost start = self.midway(*batch);
        let ghost config = self.config;
        while self.pending.len() > 0
            invariant_except_break
                self.midway(*batch).settled(config) == start.settled(config),
                self.pending@.len() <= 58,
            invariant
                self.config == config,
                config == old(self).config,
                self.last_received == old(self).last_received,
                framing::ordered(self.pending@),
                old(batch).discarded_bytes <= 50_000,
                old(self).pending@.len() <= 58,
                forall|j: int|
                    0 <= j < self.pending@.len() ==> (#[trigger] self.pending@[j]).1.0 <= at.0,
                batch.discarded_bytes + self.pending@.len() <= old(batch).discarded_bytes + old(
                    self,
                ).pending@.len(),
                batch.checksum_errors <= batch.discarded_bytes,
                batch.length_errors <= batch.discarded_bytes,
                batch.angle_errors <= batch.discarded_bytes,
            ensures
                self.midway(*batch) == start.settled(config),
                self.pending@.len() < 58,
            decreases self.pending@.len(),
        {
            let ghost here = self.midway(*batch);
            if self.pending[0].0 != 0xa5 || (self.pending.len() > 1 && self.pending[1].0 != 0x5a) {
                self.discard_one(batch);
                continue ;
            }
            if self.pending.len() > 2 && self.pending[2].0 != 58 {
                self.discard_one(batch);
                batch.length_errors = batch.length_errors + 1;
                continue ;
            }
            if self.pending.len() < PACKET_BYTES {
                break ;
            }
            let mut sum: u8 = 0;
            let mut k: usize = 0;
            while k < 57
                invariant
                    k <= 57,
                    self.pending@.len() >= 58,
                    sum == framing::byte_sum(self.pending@, k as nat) % 256,
                decreases 57 - k,
            {
                sum = sum.wrapping_add(self.pending[k].0);
                k += 1;
            }
            if sum != self.pending[57].0 {
                self.discard_one(batch);
                batch.checksum_errors = batch.checksum_errors + 1;
                continue ;
            }
            if join(self.pending[5].0, self.pending[6].0) > 36_000 || join(
                self.pending[55].0,
                self.pending[56].0,
            ) > 36_000 {
                self.discard_one(batch);
                batch.angle_errors = batch.angle_errors + 1;
                continue ;
            }
            let packet: N10Packet = packet_of(&self.config, &self.pending);
            let ghost packets = batch.packets@;
            batch.packets.push(packet);
            assert(batch@.packets =~= here.batch.packets.push(packet@));
            self.pending.clear();
            assert(self.pending@ =~= Seq::empty());
        }
    }

    fn discard_one(&mut self, batch: &mut N10DecodeBatch)
        requires
            old(self).pending@.len() > 0,
            old(batch).discarded_bytes < usize::MAX,
        ensures
            final(self).pending@ == old(self).pending@.drop_first(),
            final(self).config == old(self).config,
            final(self).last_received == old(self).last_received,
            final(batch)@ == old(batch)@.discarding_one(),
    {
        self.pending.remove(0);
        assert(self.pending@ =~= old(self).pending@.drop_first());
        batch.discarded_bytes = batch.discarded_bytes + 1;
    }
}

impl Decode {
    /// Whether no byte held is too old at a time.
    pub open spec fn young(self, config: N10Config, at: Timestamp) -> bool {
        forall|i: int|
            0 <= i < self.pending.len() ==> at.0 - (#[trigger] self.pending[i]).1.0
                < config.max_packet_age_ms
    }

    /// The same decoder with an earlier batch before its own.
    pub open spec fn preceded(self, prior: PacketBatch) -> Self {
        Decode { batch: prior.followed_by(self.batch), ..self }
    }

    /// The decoder after discarding one byte for a counted reason.
    spec fn dropping(self, batch: PacketBatch) -> Self {
        Decode { pending: self.pending.drop_first(), batch }
    }
}

proof fn lemma_settled_preceded(d: Decode, config: N10Config, prior: PacketBatch)
    ensures
        d.preceded(prior).settled(config) == d.settled(config).preceded(prior),
    decreases d.pending.len(),
{
    let one = d.batch.discarding_one();
    if d.pending.len() == 0 {
    } else if misheaded(d.pending) {
        lemma_settled_preceded(d.dropping(one), config, prior);
    } else if d.pending.len() > 2 && d.pending[2].0 != 58 {
        lemma_settled_preceded(
            d.dropping(PacketBatch { length_errors: d.batch.length_errors + 1, ..one }),
            config,
            prior,
        );
    } else if d.pending.len() < 58 {
    } else if framing::byte_sum(d.pending, 57) % 256 != d.pending[57].0 {
        lemma_settled_preceded(
            d.dropping(PacketBatch { checksum_errors: d.batch.checksum_errors + 1, ..one }),
            config,
            prior,
        );
    } else if word(d.pending[5].0, d.pending[6].0) > 36_000 || word(
        d.pending[55].0,
        d.pending[56].0,
    ) > 36_000 {
        lemma_settled_preceded(
            d.dropping(PacketBatch { angle_errors: d.batch.angle_errors + 1, ..one }),
            config,
            prior,
        );
    } else {
        let x = d.preceded(prior).settled(config);
        let y = d.settled(config).preceded(prior);
        assert(x.batch.packets =~= y.batch.packets);
    }
}

proof fn lemma_consumed_preceded(
    d: Decode,
    config: N10Config,
    bytes: Seq<u8>,
    at: Timestamp,
    prior: PacketBatch,
)
    ensures
        d.preceded(prior).consumed(config, bytes, at) == d.consumed(config, bytes, at).preceded(
            prior,
        ),
    decreases bytes.len(),
{
    if bytes.len() > 0 {
        let pushed = Decode { pending: d.pending.push((bytes[0], at)), ..d };
        lemma_settled_preceded(pushed, config, prior);
        lemma_consumed_preceded(pushed.settled(config), config, bytes.drop_first(), at, prior);
    }
}

proof fn lemma_consumed_in_parts(
    d: Decode,
    config: N10Config,
    a: Seq<u8>,
    b: Seq<u8>,
    at: Timestamp,
)
    ensures
        d.consumed(config, a + b, at) == d.consumed(config, a, at).consumed(config, b, at),
    decreases a.len(),
{
    if a.len() == 0 {
        assert(a + b =~= b);
    } else {
        assert((a + b)[0] == a[0]);
        assert((a + b).drop_first() =~= a.drop_first() + b);
        lemma_consumed_in_parts(
            Decode { pending: d.pending.push((a[0], at)), ..d }.settled(config),
            config,
            a.drop_first(),
            b,
            at,
        );
    }
}

proof fn lemma_settled_young(d: Decode, config: N10Config, at: Timestamp)
    requires
        d.young(config, at),
    ensures
        d.settled(config).young(config, at),
    decreases d.pending.len(),
{
    let one = d.batch.discarding_one();
    if d.pending.len() > 0 {
        lemma_settled_young(d.dropping(one), config, at);
        lemma_settled_young(
            d.dropping(PacketBatch { length_errors: d.batch.length_errors + 1, ..one }),
            config,
            at,
        );
        lemma_settled_young(
            d.dropping(PacketBatch { checksum_errors: d.batch.checksum_errors + 1, ..one }),
            config,
            at,
        );
        lemma_settled_young(
            d.dropping(PacketBatch { angle_errors: d.batch.angle_errors + 1, ..one }),
            config,
            at,
        );
    }
}

proof fn lemma_consumed_young(d: Decode, config: N10Config, bytes: Seq<u8>, at: Timestamp)
    requires
        d.young(config, at),
        config.max_packet_age_ms > 0,
    ensures
        d.consumed(config, bytes, at).young(config, at),
    decreases bytes.len(),
{
    if bytes.len() > 0 {
        let pushed = Decode { pending: d.pending.push((bytes[0], at)), ..d };
        lemma_settled_young(pushed, config, at);
        lemma_consumed_young(pushed.settled(config), config, bytes.drop_first(), at);
    }
}

/// How a read is cut into chunks does not matter: two reads at one time decode
/// what the read of both together decodes, and leave the same state.
pub proof fn law_fragmentation_does_not_matter(
    r: Receiver,
    a: Seq<u8>,
    b: Seq<u8>,
    at: Timestamp,
)
    requires
        r.sound(),
        r.last_received matches Some(last) ==> last.0 <= at.0,
    ensures
        ({
            let (middle, first) = r.fed(a, at);
            let (end, second) = middle.fed(b, at);
            r.fed(a + b, at) == (end, first.followed_by(second))
        }),
{
    let config = r.config;
    let start = r.aged(at);
    let (middle, first) = r.fed(a, at);
    let after_a = start.consumed(config, a, at);
    assert(start.young(config, at));
    lemma_consumed_young(start, config, a, at);
    lemma_consumed_in_parts(start, config, a, b, at);
    let again = middle.aged(at);
    assert(again == (Decode { pending: after_a.pending, batch: PacketBatch::empty() }));
    assert(first.followed_by(PacketBatch::empty()).packets =~= first.packets);
    assert(again.preceded(first) == after_a);
    lemma_consumed_preceded(again, config, b, at, first);
}

/// What became of bytes: each is in a packet, discarded, or still held.
spec fn accounted(d: Decode) -> nat {
    58 * d.batch.packets.len() + d.batch.discarded_bytes + d.pending.len()
}

proof fn lemma_settled_accounts(d: Decode, config: N10Config)
    requires
        d.pending.len() <= 58,
    ensures
        accounted(d.settled(config)) == accounted(d),
        d.settled(config).pending.len() < 58,
    decreases d.pending.len(),
{
    let one = d.batch.discarding_one();
    if d.pending.len() == 0 {
    } else if misheaded(d.pending) {
        lemma_settled_accounts(d.dropping(one), config);
    } else if d.pending.len() > 2 && d.pending[2].0 != 58 {
        lemma_settled_accounts(
            d.dropping(PacketBatch { length_errors: d.batch.length_errors + 1, ..one }),
            config,
        );
    } else if d.pending.len() < 58 {
    } else if framing::byte_sum(d.pending, 57) % 256 != d.pending[57].0 {
        lemma_settled_accounts(
            d.dropping(PacketBatch { checksum_errors: d.batch.checksum_errors + 1, ..one }),
            config,
        );
    } else if word(d.pending[5].0, d.pending[6].0) > 36_000 || word(
        d.pending[55].0,
        d.pending[56].0,
    ) > 36_000 {
        lemma_settled_accounts(
            d.dropping(PacketBatch { angle_errors: d.batch.angle_errors + 1, ..one }),
            config,
        );
    }
}

proof fn lemma_consumed_accounts(d: Decode, config: N10Config, bytes: Seq<u8>, at: Timestamp)
    requires
        d.pending.len() < 58,
    ensures
        accounted(d.consumed(config, bytes, at)) == accounted(d) + bytes.len(),
    decreases bytes.len(),
{
    if bytes.len() > 0 {
        let pushed = Decode { pending: d.pending.push((bytes[0], at)), ..d };
        lemma_settled_accounts(pushed, config);
        lemma_consumed_accounts(pushed.settled(config), config, bytes.drop_first(), at);
    }
}

/// Every byte fed is in a packet, discarded, or still held, and so is every byte
/// that was held before.
pub proof fn law_every_byte_is_accounted_for(r: Receiver, bytes: Seq<u8>, at: Timestamp)
    requires
        r.sound(),
    ensures
        ({
            let (end, batch) = r.fed(bytes, at);
            58 * batch.packets.len() + batch.discarded_bytes + end.pending.len()
                == r.pending.len() + bytes.len()
        }),
{
    lemma_consumed_accounts(r.aged(at), r.config, bytes, at);
}

} // verus!
