//! Assembly of scanner packets to revolutions. Missing returns stay unknown,
//! never free space.
use crate::binary64::values::{MILLIONTH, ONE, TAU, ZERO};
use crate::binary64::Binary64;
use crate::sensors::{FrameId, LidarSample, LidarScan, Timestamp, ValidationError};
use crate::sensors;
use vstd::prelude::*;

pub mod assembler;
pub mod beams;

pub use assembler::N10RevolutionAssembler;

verus! {

#[derive(Clone, Debug)]
pub struct ScanConfig {
    pub frame_id: FrameId,
    pub bins: usize,
    pub min_coverage_fraction: Binary64,
    pub min_valid_fraction: Binary64,
    pub max_missing_arc_rad: Binary64,
    pub max_revolution_ms: u64,
    pub max_packet_gap_ms: u64,
}

/// Whether a number is a positive part of a whole.
pub open spec fn fraction(x: Binary64) -> bool {
    x.finite() && Binary64::of(ZERO).lt(x) && x.le(Binary64::of(ONE))
}

pub fn is_fraction(x: Binary64) -> (r: bool)
    ensures
        r == fraction(x),
{
    x.is_finite() && Binary64::of(ZERO).less(x) && x.at_most(Binary64::of(ONE))
}

impl ScanConfig {
    /// What is wrong with a configuration.
    pub open spec fn fault(&self) -> Option<Seq<char>> {
        if sensors::frame_fault(self.frame_id@) is Some {
            sensors::frame_fault(self.frame_id@)
        } else if !(64 <= self.bins <= 1440) || !fraction(self.min_coverage_fraction) || !fraction(
            self.min_valid_fraction,
        ) || !self.max_missing_arc_rad.finite() || !(Binary64::of(ZERO).le(self.max_missing_arc_rad)
            && self.max_missing_arc_rad.le(Binary64::of(TAU))) || self.max_revolution_ms == 0
            || self.max_revolution_ms > 10_000 || self.max_packet_gap_ms == 0
            || self.max_packet_gap_ms > self.max_revolution_ms {
            Some("invalid N10 scan coverage/time limits"@)
        } else {
            None
        }
    }

    pub fn validate(&self) -> (r: Result<(), ValidationError>)
        ensures
            sensors::refusal(r) == self.fault(),
    {
        self.frame_id.validate()?;
        if !(64 <= self.bins && self.bins <= 1440) || !is_fraction(self.min_coverage_fraction)
            || !is_fraction(self.min_valid_fraction) || !self.max_missing_arc_rad.is_finite()
            || !(Binary64::of(ZERO).at_most(self.max_missing_arc_rad)
            && self.max_missing_arc_rad.at_most(Binary64::of(TAU))) || self.max_revolution_ms == 0
            || self.max_revolution_ms > 10_000 || self.max_packet_gap_ms == 0
            || self.max_packet_gap_ms > self.max_revolution_ms {
            return Err(ValidationError::new("invalid N10 scan coverage/time limits"));
        }
        Ok(())
    }
}

#[derive(Clone, Debug)]
pub struct FullScan {
    pub sample: LidarSample,
    pub completed_at: Timestamp,
    pub coverage_fraction: Binary64,
    pub valid_fraction: Binary64,
}

/// A full scan with its ranges as a sequence.
pub struct Revolution {
    pub sample: LidarScan,
    pub completed_at: Timestamp,
    pub coverage_fraction: Binary64,
    pub valid_fraction: Binary64,
}

impl View for FullScan {
    type V = Revolution;

    open spec fn view(&self) -> Revolution {
        Revolution {
            sample: self.sample@,
            completed_at: self.completed_at,
            coverage_fraction: self.coverage_fraction,
            valid_fraction: self.valid_fraction,
        }
    }
}

/// How many ranges are known.
pub open spec fn known_count(ranges: Seq<Option<Binary64>>) -> nat
    decreases ranges.len(),
{
    if ranges.len() == 0 {
        0
    } else {
        known_count(ranges.drop_last()) + if ranges.last() is Some {
            1nat
        } else {
            0
        }
    }
}

/// How many sectors were seen.
pub open spec fn seen_count(observed: Seq<bool>) -> nat
    decreases observed.len(),
{
    if observed.len() == 0 {
        0
    } else {
        seen_count(observed.drop_last()) + if observed.last() {
            1nat
        } else {
            0
        }
    }
}

/// The position on the circle after a count of steps below two turns.
pub open spec fn around(n: nat, i: int) -> int {
    if i < n {
        i
    } else {
        i - n
    }
}

/// Whether the `k` ranges from `start` on, around the circle, are all unknown.
pub open spec fn blind_from(ranges: Seq<Option<Binary64>>, start: int, k: int) -> bool {
    forall|i: int| start <= i < start + k ==> ranges[#[trigger] around(ranges.len(), i)] is None
}

/// Whether some `k` neighbouring ranges, around the circle, are all unknown.
pub open spec fn blind(ranges: Seq<Option<Binary64>>, k: int) -> bool {
    exists|start: int| 0 <= start < ranges.len() && #[trigger] blind_from(ranges, start, k)
}

/// The size of the largest blind sector of at most `k` ranges.
pub open spec fn largest_blind(ranges: Seq<Option<Binary64>>, k: nat) -> nat
    decreases k,
{
    if k == 0 || blind(ranges, k as int) {
        k
    } else {
        largest_blind(ranges, (k - 1) as nat)
    }
}

pub open spec fn number(n: int) -> Binary64 {
    Binary64::from_natural(n as u64)
}

/// What is wrong with a scan that should be a full revolution.
pub open spec fn scan_fault(sample: LidarScan, config: ScanConfig) -> Option<Seq<char>> {
    let n = sample.ranges_m.len();
    let step = sample.angle_increment_rad.abs();
    if config.fault() is Some {
        config.fault()
    } else if sample.frame_id@ != config.frame_id@ || n != config.bins
        || !sample.angle_min_rad.finite() || !sample.angle_increment_rad.finite() || Binary64::of(
        MILLIONTH,
    ).lt(step.times(number(n as int)).minus(Binary64::of(TAU)).abs()) || !sample.range_min_m.finite()
        || sample.range_min_m.lt(Binary64::of(ZERO)) || !sample.range_max_m.finite()
        || sample.range_max_m.le(sample.range_min_m) {
        Some("scan must have the configured frame and one full uniform revolution"@)
    } else if exists|i: int|
        0 <= i < n && !range_ok(sample, #[trigger] sample.ranges_m[i]) {
        Some("invalid laser range"@)
    } else if number(known_count(sample.ranges_m) as int).over(number(n as int)).lt(
        config.min_valid_fraction,
    ) || config.max_missing_arc_rad.lt(
        number(largest_blind(sample.ranges_m, n) as int).times(step),
    ) {
        Some("laser coverage has too many unknown returns or an excessive blind sector"@)
    } else {
        None
    }
}

pub open spec fn range_ok(sample: LidarScan, range: Option<Binary64>) -> bool {
    match range {
        None => true,
        Some(r) => r.finite() && !r.lt(sample.range_min_m) && !sample.range_max_m.lt(r),
    }
}

/// Asks for one full turn, finite valid ranges and bounded unknown sectors. It
/// judges observations and infers no free space from rays without a return.
pub fn validate_full_scan(sample: &LidarSample, config: &ScanConfig) -> (r: Result<
    (),
    ValidationError,
>)
    ensures
        sensors::refusal(r) == scan_fault(sample@, *config),
{
    config.validate()?;
    let n: usize = sample.ranges_m.len();
    let step: Binary64 = sample.angle_increment_rad.abs();
    if !sample.frame_id.same_as(&config.frame_id) || n != config.bins
        || !sample.angle_min_rad.is_finite() || !sample.angle_increment_rad.is_finite()
        || Binary64::of(MILLIONTH).less(
        step.times(Binary64::from_natural(n as u64)).minus(Binary64::of(TAU)).abs(),
    ) || !sample.range_min_m.is_finite() || sample.range_min_m.less(Binary64::of(ZERO))
        || !sample.range_max_m.is_finite() || sample.range_max_m.at_most(sample.range_min_m) {
        return Err(
            ValidationError::new(
                "scan must have the configured frame and one full uniform revolution",
            ),
        );
    }
    let known: usize = match count_known(sample) {
        None => {
            return Err(ValidationError::new("invalid laser range"));
        },
        Some(known) => known,
    };
    let longest: usize = longest_gap(&sample.ranges_m);
    if Binary64::from_natural(known as u64).over(Binary64::from_natural(n as u64)).less(
        config.min_valid_fraction,
    ) || config.max_missing_arc_rad.less(Binary64::from_natural(longest as u64).times(step)) {
        return Err(
            ValidationError::new(
                "laser coverage has too many unknown returns or an excessive blind sector",
            ),
        );
    }
    Ok(())
}

/// How many ranges are known, where every known one is valid.
fn count_known(sample: &LidarSample) -> (r: Option<usize>)
    ensures
        r is None <==> exists|i: int|
            0 <= i < sample@.ranges_m.len() && !range_ok(sample@, #[trigger] sample@.ranges_m[i]),
        r matches Some(known) ==> known == known_count(sample@.ranges_m),
{
    let n: usize = sample.ranges_m.len();
    let ghost ranges = sample.ranges_m@;
    let mut known: usize = 0;
    let mut i: usize = 0;
    while i < n
        invariant
            i <= n,
            n == ranges.len(),
            ranges == sample.ranges_m@,
            known <= i,
            known == known_count(ranges.take(i as int)),
            forall|j: int| 0 <= j < i ==> range_ok(sample@, #[trigger] ranges[j]),
        decreases n - i,
    {
        assert(ranges.take(i + 1).drop_last() =~= ranges.take(i as int));
        assert(ranges.take(i + 1).last() == ranges[i as int]);
        if let Some(range) = sample.ranges_m[i] {
            if !range.is_finite() || range.less(sample.range_min_m) || sample.range_max_m.less(
                range,
            ) {
                assert(!range_ok(sample@, sample@.ranges_m[i as int]));
                return None;
            }
            known += 1;
        }
        i += 1;
    }
    assert(ranges.take(n as int) =~= ranges);
    Some(known)
}

/// The size of the largest blind sector.
fn longest_gap(ranges: &Vec<Option<Binary64>>) -> (r: usize)
    requires
        1 <= ranges@.len() <= 1440,
    ensures
        r == largest_blind(ranges@, ranges@.len()),
{
    let n: usize = ranges.len();
    let ghost s = ranges@;
    let mut longest: usize = 0;
    let mut run: usize = 0;
    let mut i: usize = 0;
    assert(blind_from(s, 0, 0));
    while i < 2 * n
        invariant
            i <= 2 * n,
            1 <= n <= 1440,
            n == s.len(),
            s == ranges@,
            run <= i,
            longest <= n,
            blind(s, longest as int),
            (if run < n {
                run
            } else {
                n
            }) <= longest,
            forall|j: int| i - run <= j < i ==> s[#[trigger] around(n as nat, j)] is None,
            run < i ==> s[around(n as nat, i - run - 1)] is Some,
            forall|start: int, k: int|
                0 <= start < n && 0 <= k <= n && start + k <= i && #[trigger] blind_from(s, start, k)
                    ==> k <= longest,
        decreases 2 * n - i,
    {
        let at: usize = if i < n {
            i
        } else {
            i - n
        };
        assert(at == around(n as nat, i as int));
        if ranges[at].is_none() {
            run += 1;
            let capped: usize = if run < n {
                run
            } else {
                n
            };
            if capped > longest {
                longest = capped;
                proof {
                    // The latest `capped` steps are blind; their start lies on
                    // the first turn.
                    let start = around(n as nat, i + 1 - capped);
                    assert forall|j: int| start <= j < start + capped implies s[#[trigger] around(
                        s.len(),
                        j,
                    )] is None by {
                        let step = j - start + i + 1 - capped;
                        assert(s[around(n as nat, step)] is None);
                    }
                    assert(blind_from(s, start, capped as int));
                }
            }
        } else {
            run = 0;
        }
        proof {
            assert forall|start: int, k: int|
                0 <= start < n && 0 <= k <= n && start + k <= i + 1 && #[trigger] blind_from(
                    s,
                    start,
                    k,
                ) implies k <= longest by {
                if start + k == i + 1 && k > 0 {
                    // Every step of this sector is unknown, so it lies within
                    // the current run.
                    if k > run {
                        let gap = i + 1 - run - 1;
                        assert(s[around(n as nat, gap)] is Some);
                    }
                }
            }
        }
        i += 1;
    }
    proof {
        lemma_largest(s, longest as nat, n as nat);
    }
    longest
}

/// The largest blind sector is one that is blind where no larger one is.
proof fn lemma_largest(ranges: Seq<Option<Binary64>>, size: nat, k: nat)
    requires
        size <= k <= ranges.len(),
        blind(ranges, size as int),
        forall|start: int, j: int|
            0 <= start < ranges.len() && 0 <= j <= ranges.len() && start + j <= 2 * ranges.len()
                && #[trigger] blind_from(ranges, start, j) ==> j <= size,
    ensures
        largest_blind(ranges, k) == size,
    decreases k,
{
    if k > size {
        if blind(ranges, k as int) {
            let start = choose|start: int|
                0 <= start < ranges.len() && #[trigger] blind_from(ranges, start, k as int);
            assert(blind_from(ranges, start, k as int));
        }
        lemma_largest(ranges, size, (k - 1) as nat);
    }
}

} // verus!
