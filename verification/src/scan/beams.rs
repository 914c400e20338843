//! Which returns a scan keeps.
use super::assembler::{Assembly, Outcome};
use super::assembler;
use crate::binary64::conversion;
use crate::binary64::laws;
use crate::binary64::signs;
use crate::binary64::values::{MILLIONTH, TAU, ZERO};
use crate::binary64::Binary64;
use crate::protocol::n10::Packet;
use crate::sensors::LidarScan;
use vstd::prelude::*;

verus! {

/// The nearest return of a bin stays: the bin of a beam has been seen, and where
/// the beam had a return the bin's range is not beyond it, whatever beams come
/// after.
pub proof fn law_the_nearest_return_stays(a: Assembly, sample: LidarScan, n: nat, i: int)
    requires
        a.sized(),
        0 <= i < n <= sample.ranges_m.len(),
    ensures
        ({
            let bin = assembler::bin_of(assembler::bearing(sample, i), a.config.bins);
            let after = a.placed(sample, n);
            &&& 0 <= bin < a.config.bins
            &&& after.observed[bin]
            &&& sample.ranges_m[i] matches Some(value) ==> (!value.nan() ==> (
            after.ranges[bin] matches Some(r) && r.le(value)))
        }),
    decreases n,
{
    let bin = assembler::bin_of(assembler::bearing(sample, i), a.config.bins);
    assembler::lemma_placed_frame(a, sample, (n - 1) as nat);
    assembler::lemma_bin_in_range(assembler::bearing(sample, i), a.config.bins);
    assembler::lemma_bin_in_range(assembler::bearing(sample, n - 1), a.config.bins);
    if i < n - 1 {
        law_the_nearest_return_stays(a, sample, (n - 1) as nat, i);
    }
}

/// A range comes of a beam into its bin, or was there before.
pub proof fn law_ranges_come_of_beams(a: Assembly, sample: LidarScan, n: nat, bin: int)
    requires
        a.sized(),
        n <= sample.ranges_m.len(),
        0 <= bin < a.config.bins,
        a.placed(sample, n).ranges[bin] is Some,
    ensures
        a.placed(sample, n).ranges[bin] == a.ranges[bin] || exists|i: int|
            {
                &&& 0 <= i < n
                &&& #[trigger] assembler::bin_of(assembler::bearing(sample, i), a.config.bins) == bin
                &&& sample.ranges_m[i] == a.placed(sample, n).ranges[bin]
            },
    decreases n,
{
    if n > 0 {
        let before = a.placed(sample, (n - 1) as nat);
        assembler::lemma_placed_frame(a, sample, (n - 1) as nat);
        assembler::lemma_bin_in_range(assembler::bearing(sample, n - 1), a.config.bins);
        let after = a.placed(sample, n);
        if after.ranges[bin] == before.ranges[bin] {
            law_ranges_come_of_beams(a, sample, (n - 1) as nat, bin);
        } else {
            assert(assembler::bin_of(assembler::bearing(sample, n - 1), a.config.bins) == bin);
        }
    }
}

/// No blind sector is larger than the one that counts.
pub proof fn law_no_blind_sector_is_larger(ranges: Seq<Option<Binary64>>, k: nat, j: nat)
    requires
        j <= k,
        super::blind(ranges, j as int),
    ensures
        j <= super::largest_blind(ranges, k),
        super::largest_blind(ranges, k) == 0 || super::blind(
            ranges,
            super::largest_blind(ranges, k) as int,
        ),
    decreases k,
{
    if k > 0 && !super::blind(ranges, k as int) {
        law_no_blind_sector_is_larger(ranges, (k - 1) as nat, j);
    }
}

/// A full scan ends where the angles start over: the last packet began in the
/// last quarter of a turn and this one begins in the first. It goes clockwise
/// from straight ahead in even steps that make up one turn, to either side of it
/// within a millionth, and every range is within the bounds of the sensor.
pub proof fn law_full_scans_are_one_turn(before: Assembly, packet: Packet)
    requires
        before.sound(),
        before.pushed(packet).1 matches Outcome::Accepted(Some(_)),
    ensures
        ({
            let scan = before.pushed(packet).1->Accepted_0->0;
            let s = scan.sample;
            let bins = before.config.bins;
            let turn = Binary64::of(TAU);
            let whole = s.angle_increment_rad.abs().times(Binary64::from_natural(bins as u64));
            let off = whole.minus(turn);
            &&& before.previous_start matches Some(last) && last > 27_000
            &&& packet.start_angle_cdeg < 9_000
            &&& scan.completed_at == packet.received_at
            &&& packet.received_at.0 <= s.captured_at.0 + before.config.max_revolution_ms
            &&& s.angle_min_rad == Binary64::of(ZERO)
            &&& s.angle_increment_rad == turn.negated().over(Binary64::from_natural(bins as u64))
            &&& s.ranges_m.len() == bins
            &&& !Binary64::of(MILLIONTH).lt(off) && !Binary64::of(MILLIONTH).lt(off.negated())
            &&& forall|i: int|
                0 <= i < bins ==> (#[trigger] s.ranges_m[i] matches Some(r) ==> r.finite()
                    && s.range_min_m.le(r) && r.le(s.range_max_m))
        }),
{
    let scan = before.pushed(packet).1->Accepted_0->0;
    let s = scan.sample;
    assembler::law_every_scan_is_full(before, packet);
    assert forall|i: int| 0 <= i < before.config.bins implies (#[trigger] s.ranges_m[i] matches Some(
        r,
    ) ==> r.finite() && s.range_min_m.le(r) && r.le(s.range_max_m)) by {
        assert(super::range_ok(s, s.ranges_m[i]));
    }
}

/// The beams of a packet that sweeps clockwise lie at bearings that do not fall:
/// a bearing is the opposite of the beam's angle.
pub proof fn law_later_beams_lie_further_on(sample: LidarScan, i: u16, j: u16)
    requires
        i <= j,
        sample.angle_min_rad.finite(),
        sample.angle_increment_rad.finite(),
        sample.angle_increment_rad.le(Binary64::of(ZERO)),
        assembler::bearing(sample, i as int).finite(),
        assembler::bearing(sample, j as int).finite(),
    ensures
        assembler::bearing(sample, i as int).le(assembler::bearing(sample, j as int)),
        assembler::bearing(sample, 0).finite() ==> assembler::bearing(sample, 0).same(
            sample.angle_min_rad.negated(),
        ),
{
    let (p, q) = (Binary64::from_natural(i as u64), Binary64::from_natural(j as u64));
    let none = Binary64::from_natural(0);
    let step = sample.angle_increment_rad;
    let back = step.negated();
    let start = sample.angle_min_rad;
    laws::law_small_naturals_are_exact(i as u64);
    laws::law_small_naturals_are_exact(j as u64);
    laws::law_small_naturals_are_exact(0);
    let u = conversion::one();
    assert(i * u <= j * u) by (nonlinear_arith)
        requires i <= j, u >= 0;
    laws::law_order_is_that_of_the_values(p, q);
    signs::law_negation_mirrors(step, step);
    signs::law_products_are_monotone(p, q, back);
    signs::law_products_are_mirrored(p, step);
    signs::law_products_are_mirrored(q, step);
    let (x, y) = (p.times(step), q.times(step));
    signs::law_negation_mirrors(x, y);
    signs::law_negation_mirrors(start.plus(x), start.plus(x));
    signs::law_negation_mirrors(start.plus(y), start.plus(x));
    laws::law_infinite_sum(start, x);
    laws::law_infinite_sum(start, y);
    laws::law_sums_are_monotone(y, x, start);
    signs::law_products_commute(start, x);
    signs::law_products_commute(start, y);
    assert(0 * u == 0);
    laws::lemma_zero_magnitude(none);
    signs::law_zero_makes_zero(step, none);
    signs::law_zero_adds_nothing(start, none.times(step));
    signs::law_negation_mirrors(start.plus(none.times(step)), start);
    signs::law_negation_mirrors(start, start.plus(none.times(step)));
}

} // verus!
