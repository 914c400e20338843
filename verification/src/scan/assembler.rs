//! Revolutions out of packets.
use super::{FullScan, Revolution, ScanConfig};
use crate::binary64::values::{TAU, ZERO};
use crate::binary64::Binary64;
use crate::protocol::n10::{N10Packet, Packet};
use crate::sensors::{LidarSample, LidarScan, Timestamp, ValidationError};
use crate::sensors;
use vstd::prelude::*;

verus! {

/// A revolution in progress.
pub struct Assembly {
    pub config: ScanConfig,
    pub observed: Seq<bool>,
    pub ranges: Seq<Option<Binary64>>,
    pub first: Option<Timestamp>,
    pub last: Option<Timestamp>,
    pub previous_start: Option<u16>,
    pub synchronized: bool,
    pub range_bounds: Option<(Binary64, Binary64)>,
    pub rejected_revolutions: u64,
}

/// What a packet gives.
pub enum Outcome {
    Refused(Seq<char>),
    Accepted(Option<Revolution>),
}

/// The bearing of a beam of a packet, counterclockwise from straight ahead.
pub open spec fn bearing(sample: LidarScan, index: int) -> Binary64 {
    sample.angle_min_rad.plus(super::number(index).times(sample.angle_increment_rad)).negated()
}

/// The bin nearest to a bearing, of so many bins around the circle.
pub open spec fn bin_of(bearing: Binary64, bins: usize) -> int {
    let tau = Binary64::of(TAU);
    let nearest = bearing.rem_euclid(tau).over(tau).times(super::number(bins as int)).round();
    nearest.truncated(usize::MAX as u64) as int % bins as int
}

impl Assembly {
    pub open spec fn initial(config: ScanConfig) -> Self {
        Assembly {
            config,
            observed: Seq::new(config.bins as nat, |i: int| false),
            ranges: Seq::new(config.bins as nat, |i: int| None::<Binary64>),
            first: None,
            last: None,
            previous_start: None,
            synchronized: false,
            range_bounds: None,
            rejected_revolutions: 0,
        }
    }

    /// The assembly with nothing of the current revolution.
    pub open spec fn cleared(self) -> Self {
        Assembly {
            observed: Seq::new(self.observed.len(), |i: int| false),
            ranges: Seq::new(self.ranges.len(), |i: int| None::<Binary64>),
            first: None,
            range_bounds: None,
            ..self
        }
    }

    /// The assembly waiting for the start of another revolution.
    pub open spec fn unsynchronized(self) -> Self {
        Assembly { synchronized: false, previous_start: None, ..self.cleared() }
    }

    pub open spec fn rejecting(self) -> Self {
        Assembly { rejected_revolutions: (self.rejected_revolutions + 1) as u64, ..self }
    }

    /// The share of bins that were seen.
    pub open spec fn coverage(self) -> Binary64 {
        super::number(super::seen_count(self.observed) as int).over(
            super::number(self.config.bins as int),
        )
    }

    /// The share of bins with a known range.
    pub open spec fn validity(self) -> Binary64 {
        super::number(super::known_count(self.ranges) as int).over(
            super::number(self.config.bins as int),
        )
    }

    pub open spec fn scan(self) -> LidarScan {
        LidarScan {
            captured_at: self.first->0,
            frame_id: self.config.frame_id,
            angle_min_rad: Binary64::of(ZERO),
            angle_increment_rad: Binary64::of(TAU).negated().over(
                super::number(self.config.bins as int),
            ),
            range_min_m: (self.range_bounds->0).0,
            range_max_m: (self.range_bounds->0).1,
            ranges_m: self.ranges,
        }
    }

    /// Whether the revolution in progress makes a full scan.
    pub open spec fn sufficient(self, completed_at: Timestamp) -> bool {
        &&& self.synchronized
        &&& completed_at.0 - (self.first->0).0 <= self.config.max_revolution_ms
        &&& !self.coverage().lt(self.config.min_coverage_fraction)
        &&& super::scan_fault(self.scan(), self.config) is None
    }

    /// The end of a revolution: the scan where it suffices, else a rejection.
    /// Nothing ends where nothing was received.
    pub open spec fn finished(self, completed_at: Timestamp) -> (Self, Option<Revolution>) {
        if self.first is None || self.range_bounds is None {
            (self, None)
        } else if self.sufficient(completed_at) {
            (
                self,
                Some(
                    Revolution {
                        sample: self.scan(),
                        completed_at,
                        coverage_fraction: self.coverage(),
                        valid_fraction: self.validity(),
                    },
                ),
            )
        } else {
            (self.rejecting(), None)
        }
    }

    /// The assembly after the first `n` beams of a packet. Of several ranges in
    /// one bin the nearest stays.
    pub open spec fn placed(self, sample: LidarScan, n: nat) -> Self
        decreases n,
    {
        if n == 0 {
            self
        } else {
            let before = self.placed(sample, (n - 1) as nat);
            let bin = bin_of(bearing(sample, n - 1), self.config.bins);
            Assembly {
                observed: before.observed.update(bin, true),
                ranges: match sample.ranges_m[n - 1] {
                    None => before.ranges,
                    Some(value) => before.ranges.update(
                        bin,
                        Some(
                            match before.ranges[bin] {
                                None => value,
                                Some(nearest) => nearest.min(value),
                            },
                        ),
                    ),
                },
                ..before
            }
        }
    }

    /// Whether a packet comes from another frame or out of time order.
    pub open spec fn mismatched(self, packet: Packet) -> bool {
        ||| packet.frame_id@ != self.config.frame_id@
        ||| packet.first_received_at.0 > packet.received_at.0
        ||| self.last is Some && packet.received_at.0 < (self.last->0).0
    }

    /// The assembly at the time of a packet: a gap between packets loses the
    /// revolution.
    pub open spec fn resumed(self, packet: Packet) -> Self {
        if self.last is Some && packet.received_at.0 - (self.last->0).0
            > self.config.max_packet_gap_ms {
            self.unsynchronized().rejecting()
        } else {
            self
        }
    }

    /// Whether a packet starts another revolution.
    pub open spec fn wraps(self, packet: Packet) -> bool {
        self.previous_start is Some && self.previous_start->0 > 27_000 && packet.start_angle_cdeg
            < 9_000
    }

    /// Whether the angles of a packet go back within a revolution.
    pub open spec fn regresses(self, packet: Packet) -> bool {
        self.previous_start is Some && packet.start_angle_cdeg < self.previous_start->0
            && !self.wraps(packet)
    }

    /// Whether a packet's range bounds differ from those of the revolution.
    pub open spec fn rebounded(self, sample: LidarScan) -> bool {
        self.range_bounds matches Some(bounds) && !(bounds.0.same(sample.range_min_m)
            && bounds.1.same(sample.range_max_m))
    }

    /// The assembly with a packet of the revolution in progress.
    pub open spec fn extended(self, packet: Packet, completed: Option<Revolution>) -> (
        Self,
        Outcome,
    ) {
        let marked = Assembly {
            last: Some(packet.received_at),
            previous_start: Some(packet.start_angle_cdeg),
            synchronized: self.synchronized || (self.previous_start is None
                && packet.start_angle_cdeg == 0),
            ..self
        };
        if !marked.synchronized {
            (marked, Outcome::Accepted(completed))
        } else {
            let begun = Assembly {
                first: if marked.first is Some {
                    marked.first
                } else {
                    Some(packet.first_received_at)
                },
                ..marked
            };
            match packet.sample() {
                None => (begun, Outcome::Accepted(completed)),
                Some(sample) => if begun.rebounded(sample) {
                    (begun, Outcome::Refused("N10 range bounds changed within a revolution"@))
                } else {
                    (
                        Assembly {
                            range_bounds: Some((sample.range_min_m, sample.range_max_m)),
                            ..begun
                        }.placed(sample, sample.ranges_m.len()),
                        Outcome::Accepted(completed),
                    )
                },
            }
        }
    }

    /// The assembly after a packet.
    pub open spec fn pushed(self, packet: Packet) -> (Self, Outcome) {
        let here = self.resumed(packet);
        if self.mismatched(packet) {
            (self, Outcome::Refused("N10 scan frame/time mismatch"@))
        } else if here.regresses(packet) {
            (
                here.unsynchronized(),
                Outcome::Refused("N10 packet angles regressed without a revolution boundary"@),
            )
        } else if here.wraps(packet) {
            let (ended, completed) = here.finished(packet.received_at);
            Assembly { synchronized: true, ..ended.cleared() }.extended(packet, completed)
        } else {
            here.extended(packet, None)
        }
    }

    /// Whether there is a place for every bin.
    pub open spec fn sized(self) -> bool {
        &&& self.config.bins > 0
        &&& self.observed.len() == self.config.bins
        &&& self.ranges.len() == self.config.bins
    }

    /// What every reachable assembly satisfies.
    pub open spec fn sound(self) -> bool {
        &&& self.config.fault() is None
        &&& self.sized()
        &&& self.first is Some ==> self.last is Some && (self.first->0).0 <= (self.last->0).0
    }
}

pub open spec fn outcome(r: Result<Option<FullScan>, ValidationError>) -> Outcome {
    match r {
        Err(e) => Outcome::Refused(e.0@),
        Ok(None) => Outcome::Accepted(None),
        Ok(Some(scan)) => Outcome::Accepted(Some(scan@)),
    }
}

pub struct N10RevolutionAssembler {
    config: ScanConfig,
    observed: Vec<bool>,
    ranges: Vec<Option<Binary64>>,
    first: Option<Timestamp>,
    last: Option<Timestamp>,
    previous_start: Option<u16>,
    synchronized: bool,
    range_bounds: Option<(Binary64, Binary64)>,
    pub rejected_revolutions: u64,
}

impl View for N10RevolutionAssembler {
    type V = Assembly;

    closed spec fn view(&self) -> Assembly {
        Assembly {
            config: self.config,
            observed: self.observed@,
            ranges: self.ranges@,
            first: self.first,
            last: self.last,
            previous_start: self.previous_start,
            synchronized: self.synchronized,
            range_bounds: self.range_bounds,
            rejected_revolutions: self.rejected_revolutions,
        }
    }
}

fn all_false(n: usize) -> (r: Vec<bool>)
    ensures
        r@ == Seq::new(n as nat, |i: int| false),
{
    let mut r: Vec<bool> = Vec::new();
    while r.len() < n
        invariant
            r@.len() <= n,
            forall|i: int| 0 <= i < r@.len() ==> !r@[i],
        decreases n - r@.len(),
    {
        r.push(false);
    }
    assert(r@ =~= Seq::new(n as nat, |i: int| false));
    r
}

fn all_unknown(n: usize) -> (r: Vec<Option<Binary64>>)
    ensures
        r@ == Seq::new(n as nat, |i: int| None::<Binary64>),
{
    let mut r: Vec<Option<Binary64>> = Vec::new();
    while r.len() < n
        invariant
            r@.len() <= n,
            forall|i: int| 0 <= i < r@.len() ==> r@[i] is None,
        decreases n - r@.len(),
    {
        r.push(None);
    }
    assert(r@ =~= Seq::new(n as nat, |i: int| None::<Binary64>));
    r
}

fn copied(ranges: &Vec<Option<Binary64>>) -> (r: Vec<Option<Binary64>>)
    ensures
        r@ == ranges@,
{
    let mut r: Vec<Option<Binary64>> = Vec::new();
    while r.len() < ranges.len()
        invariant
            r@.len() <= ranges@.len(),
            forall|i: int| 0 <= i < r@.len() ==> r@[i] == ranges@[i],
        decreases ranges@.len() - r@.len(),
    {
        let range: Option<Binary64> = ranges[r.len()];
        r.push(range);
    }
    assert(r@ =~= ranges@);
    r
}

fn count_seen(observed: &Vec<bool>) -> (r: usize)
    ensures
        r == super::seen_count(observed@),
{
    let mut r: usize = 0;
    let mut i: usize = 0;
    while i < observed.len()
        invariant
            r <= i <= observed@.len(),
            r == super::seen_count(observed@.take(i as int)),
        decreases observed@.len() - i,
    {
        assert(observed@.take(i + 1).drop_last() =~= observed@.take(i as int));
        if observed[i] {
            r += 1;
        }
        i += 1;
    }
    assert(observed@.take(i as int) =~= observed@);
    r
}

fn count_ranges(ranges: &Vec<Option<Binary64>>) -> (r: usize)
    ensures
        r == super::known_count(ranges@),
{
    let mut r: usize = 0;
    let mut i: usize = 0;
    while i < ranges.len()
        invariant
            r <= i <= ranges@.len(),
            r == super::known_count(ranges@.take(i as int)),
        decreases ranges@.len() - i,
    {
        assert(ranges@.take(i + 1).drop_last() =~= ranges@.take(i as int));
        if ranges[i].is_some() {
            r += 1;
        }
        i += 1;
    }
    assert(ranges@.take(i as int) =~= ranges@);
    r
}

impl N10RevolutionAssembler {
    pub fn new(config: ScanConfig) -> (r: Result<Self, ValidationError>)
        ensures
            sensors::refusal(r) == config.fault(),
            r matches Ok(assembler) ==> assembler@ == Assembly::initial(config)
                && assembler@.sound(),
    {
        config.validate()?;
        let observed: Vec<bool> = all_false(config.bins);
        let ranges: Vec<Option<Binary64>> = all_unknown(config.bins);
        Ok(
            N10RevolutionAssembler {
                config,
                observed,
                ranges,
                first: None,
                last: None,
                previous_start: None,
                synchronized: false,
                range_bounds: None,
                rejected_revolutions: 0,
            },
        )
    }

    fn clear(&mut self)
        ensures
            final(self)@ == old(self)@.cleared(),
    {
        self.observed = all_false(self.observed.len());
        self.ranges = all_unknown(self.ranges.len());
        self.first = None;
        self.range_bounds = None;
    }

    /// Takes a packet, and hands out the scan of the revolution that it ends.
    pub fn push(&mut self, packet: &N10Packet) -> (r: Result<Option<FullScan>, ValidationError>)
        requires
            old(self)@.sound(),
            old(self)@.rejected_revolutions < u64::MAX,
        ensures
            final(self)@.sound(),
            (final(self)@, outcome(r)) == old(self)@.pushed(packet@),
    {
        let early: bool = match self.last {
            None => false,
            Some(last) => packet.received_at.0 < last.0,
        };
        if !packet.frame_id.same_as(&self.config.frame_id) || packet.first_received_at.0
            > packet.received_at.0 || early {
            return Err(ValidationError::new("N10 scan frame/time mismatch"));
        }
        if let Some(last) = self.last {
            if packet.received_at.0 - last.0 > self.config.max_packet_gap_ms {
                self.clear();
                self.synchronized = false;
                self.previous_start = None;
                self.rejected_revolutions = self.rejected_revolutions + 1;
            }
        }
        let ghost here = self@;
        assert(here == old(self)@.resumed(packet@));
        let mut wraps: bool = false;
        let mut back: bool = false;
        if let Some(previous) = self.previous_start {
            wraps = previous > 27_000 && packet.start_angle_cdeg < 9_000;
            back = packet.start_angle_cdeg < previous;
        }
        if back && !wraps {
            self.clear();
            self.synchronized = false;
            self.previous_start = None;
            return Err(
                ValidationError::new("N10 packet angles regressed without a revolution boundary"),
            );
        }
        let completed: Option<FullScan> = if wraps {
            let completed: Option<FullScan> = self.finish(packet.received_at);
            self.clear();
            self.synchronized = true;
            completed
        } else {
            None
        };
        self.extend(packet, completed)
    }

    fn finish(&mut self, completed_at: Timestamp) -> (r: Option<FullScan>)
        requires
            old(self)@.sound(),
            old(self)@.rejected_revolutions < u64::MAX,
            old(self)@.last matches Some(last) ==> last.0 <= completed_at.0,
        ensures
            ({
                let (after, scan) = old(self)@.finished(completed_at);
                &&& final(self)@ == after
                &&& r is Some == scan is Some
                &&& r is Some ==> r->0@ == scan->0
            }),
    {
        let first: Timestamp = match self.first {
            None => {
                return None;
            },
            Some(first) => first,
        };
        let bounds: (Binary64, Binary64) = match self.range_bounds {
            None => {
                return None;
            },
            Some(bounds) => bounds,
        };
        let bins: Binary64 = Binary64::from_natural(self.config.bins as u64);
        let coverage: Binary64 = Binary64::from_natural(count_seen(&self.observed) as u64).over(
            bins,
        );
        let valid: Binary64 = Binary64::from_natural(count_ranges(&self.ranges) as u64).over(bins);
        let sample: LidarSample = LidarSample {
            captured_at: first,
            frame_id: self.config.frame_id.clone(),
            angle_min_rad: Binary64::of(ZERO),
            angle_increment_rad: Binary64::of(TAU).negated().over(bins),
            range_min_m: bounds.0,
            range_max_m: bounds.1,
            ranges_m: copied(&self.ranges),
        };
        assert(sample@ == self@.scan());
        if !self.synchronized || completed_at.0 - first.0 > self.config.max_revolution_ms
            || coverage.less(self.config.min_coverage_fraction) || super::validate_full_scan(
            &sample,
            &self.config,
        ).is_err() {
            self.rejected_revolutions = self.rejected_revolutions + 1;
            return None;
        }
        Some(
            FullScan { sample, completed_at, coverage_fraction: coverage, valid_fraction: valid },
        )
    }

    fn extend(&mut self, packet: &N10Packet, completed: Option<FullScan>) -> (r: Result<
        Option<FullScan>,
        ValidationError,
    >)
        requires
            old(self)@.sound(),
            packet.first_received_at.0 <= packet.received_at.0,
            old(self)@.last matches Some(last) ==> last.0 <= packet.received_at.0,
        ensures
            final(self)@.sound(),
            (final(self)@, outcome(r)) == old(self)@.extended(
                packet@,
                match completed {
                    None => None,
                    Some(scan) => Some(scan@),
                },
            ),
    {
        if self.previous_start.is_none() && packet.start_angle_cdeg == 0 {
            self.synchronized = true;
        }
        self.last = Some(packet.received_at);
        self.previous_start = Some(packet.start_angle_cdeg);
        if !self.synchronized {
            return Ok(completed);
        }
        if self.first.is_none() {
            self.first = Some(packet.first_received_at);
        }
        if let Some(sample) = packet.packet_sample() {
            if let Some(bounds) = self.range_bounds {
                if !(bounds.0.equals(sample.range_min_m) && bounds.1.equals(sample.range_max_m)) {
                    return Err(
                        ValidationError::new("N10 range bounds changed within a revolution"),
                    );
                }
            }
            self.range_bounds = Some((sample.range_min_m, sample.range_max_m));
            self.place(&sample);
        }
        Ok(completed)
    }

    fn place(&mut self, sample: &LidarSample)
        requires
            old(self)@.sound(),
        ensures
            final(self)@ == old(self)@.placed(sample@, sample@.ranges_m.len()),
            final(self)@.sound(),
    {
        let ghost start = self@;
        let tau: Binary64 = Binary64::of(TAU);
        let mut i: usize = 0;
        while i < sample.ranges_m.len()
            invariant
                i <= sample.ranges_m@.len(),
                self@.sound(),
                start == old(self)@,
                self@.config == start.config,
                self@ == start.placed(sample@, i as nat),
                tau == Binary64::of(TAU),
            decreases sample.ranges_m@.len() - i,
        {
            let toward: Binary64 = sample.angle_min_rad.plus(
                Binary64::from_natural(i as u64).times(sample.angle_increment_rad),
            ).negated();
            let bins: usize = self.config.bins;
            let bin: usize = toward.rem_euclid(tau).over(tau).times(
                Binary64::from_natural(bins as u64),
            ).round().to_size() % bins;
            assert(bin == bin_of(bearing(sample@, i as int), bins));
            self.observed.set(bin, true);
            if let Some(value) = sample.ranges_m[i] {
                let nearest: Binary64 = match self.ranges[bin] {
                    None => value,
                    Some(nearest) => nearest.min(value),
                };
                self.ranges.set(bin, Some(nearest));
            }
            i += 1;
        }
    }
}

/// A bearing falls into one of the bins.
pub proof fn lemma_bin_in_range(bearing: Binary64, bins: usize)
    requires
        bins > 0,
    ensures
        0 <= bin_of(bearing, bins) < bins,
{
}

/// Placing beams changes nothing but what was seen and measured, bin by bin.
pub proof fn lemma_placed_frame(a: Assembly, sample: LidarScan, n: nat)
    requires
        a.sized(),
    ensures
        a.placed(sample, n) == (Assembly {
            observed: a.placed(sample, n).observed,
            ranges: a.placed(sample, n).ranges,
            ..a
        }),
        a.placed(sample, n).observed.len() == a.observed.len(),
        a.placed(sample, n).ranges.len() == a.ranges.len(),
    decreases n,
{
    if n > 0 {
        lemma_placed_frame(a, sample, (n - 1) as nat);
        lemma_bin_in_range(bearing(sample, n - 1), a.config.bins);
    }
}

/// Every packet keeps soundness, refused ones included.
pub proof fn law_soundness_is_kept(before: Assembly, packet: Packet)
    requires
        before.sound(),
    ensures
        before.pushed(packet).0.sound(),
{
    if let Some(sample) = packet.sample() {
        let here = before.resumed(packet);
        let (ended, completed) = here.finished(packet.received_at);
        let a = Assembly { synchronized: true, ..ended.cleared() };
        let n = sample.ranges_m.len();
        assert forall|x: Assembly| x.sized() implies #[trigger] x.placed(sample, n).config
            == x.config
            && x.placed(sample, n).first == x.first && x.placed(sample, n).last == x.last
            && x.placed(sample, n).observed.len() == x.observed.len() && x.placed(
            sample,
            n,
        ).ranges.len() == x.ranges.len() by {
            lemma_placed_frame(x, sample, n);
        }
    }
}

/// A revolution is handed out only by a packet that starts another one, and
/// what is handed out is a full scan by every configured limit.
pub proof fn law_every_scan_is_full(before: Assembly, packet: Packet)
    requires
        before.sound(),
        before.pushed(packet).1 matches Outcome::Accepted(Some(_)),
    ensures
        ({
            let scan = before.pushed(packet).1->Accepted_0->0;
            &&& before.wraps(packet)
            &&& super::scan_fault(scan.sample, before.config) is None
            &&& !scan.coverage_fraction.lt(before.config.min_coverage_fraction)
            &&& scan.completed_at == packet.received_at
            &&& scan.completed_at.0 - scan.sample.captured_at.0 <= before.config.max_revolution_ms
        }),
{
}

/// A bin without a return stays unknown: it gets a range only from a beam into
/// that bin which had one.
pub proof fn law_missing_returns_stay_unknown(a: Assembly, sample: LidarScan, n: nat, bin: int)
    requires
        a.sized(),
        n <= sample.ranges_m.len(),
        0 <= bin < a.ranges.len(),
        a.ranges[bin] is None,
        forall|i: int|
            0 <= i < n && #[trigger] bin_of(bearing(sample, i), a.config.bins) == bin
                ==> sample.ranges_m[i] is None,
    ensures
        a.placed(sample, n).ranges[bin] is None,
    decreases n,
{
    if n > 0 {
        lemma_placed_frame(a, sample, (n - 1) as nat);
        law_missing_returns_stay_unknown(a, sample, (n - 1) as nat, bin);
        lemma_bin_in_range(bearing(sample, n - 1), a.config.bins);
    }
}

/// A refused packet never hands out a scan and, where it comes from another
/// frame or out of time order, changes nothing.
pub proof fn law_mismatch_changes_nothing(before: Assembly, packet: Packet)
    requires
        before.mismatched(packet),
    ensures
        before.pushed(packet).0 == before,
        before.pushed(packet).1 is Refused,
{
}

} // verus!
