use robot_core::binary64::Binary64;
use robot_core::protocol::n10::{N10Config, N10Decoder, N10Packet};
use robot_core::scan::assembler::N10RevolutionAssembler;
use robot_core::scan::{validate_full_scan, FullScan, ScanConfig};
use robot_core::sensors::{FrameId, LidarSample, Timestamp};
use std::f64::consts::TAU;

fn b(x: f64) -> Binary64 {
    Binary64 { bits: x.to_bits() }
}

fn f(x: Binary64) -> f64 {
    f64::from_bits(x.bits)
}

fn config() -> ScanConfig {
    ScanConfig {
        frame_id: FrameId("laser".into()),
        bins: 64,
        min_coverage_fraction: b(0.9),
        min_valid_fraction: b(0.5),
        max_missing_arc_rad: b(1.0),
        max_revolution_ms: 200,
        max_packet_gap_ms: 50,
    }
}

fn sample(ranges_m: Vec<Option<Binary64>>) -> LidarSample {
    LidarSample {
        captured_at: Timestamp(0),
        frame_id: FrameId("laser".into()),
        angle_min_rad: b(0.0),
        angle_increment_rad: b(-TAU / 64.0),
        range_min_m: b(0.1),
        range_max_m: b(10.0),
        ranges_m,
    }
}

#[test]
fn a_full_scan_has_few_unknown_returns_and_no_wide_blind_sector() {
    let mut ranges = vec![Some(b(1.0)); 64];
    assert!(validate_full_scan(&sample(ranges.clone()), &config()).is_ok());
    // Ten of 64 bins span less than one radian, across the seam too.
    for i in [59, 60, 61, 62, 63, 0, 1, 2, 3, 4] {
        ranges[i] = None;
    }
    assert!(validate_full_scan(&sample(ranges.clone()), &config()).is_ok());
    ranges[5] = None;
    assert_eq!(
        validate_full_scan(&sample(ranges), &config())
            .unwrap_err()
            .message(),
        "laser coverage has too many unknown returns or an excessive blind sector"
    );
    let sparse: Vec<Option<Binary64>> = (0..64)
        .map(|i| if i % 2 == 0 || i == 1 { None } else { Some(b(1.0)) })
        .collect();
    assert!(validate_full_scan(&sample(sparse), &config()).is_err());
    assert!(validate_full_scan(&sample(vec![None; 64]), &config()).is_err());
}

#[test]
fn a_scan_matches_its_configuration() {
    let message = "scan must have the configured frame and one full uniform revolution";
    let mut short = sample(vec![Some(b(1.0)); 63]);
    assert_eq!(
        validate_full_scan(&short, &config()).unwrap_err().message(),
        message
    );
    short = sample(vec![Some(b(1.0)); 64]);
    short.angle_increment_rad = b(0.09);
    assert_eq!(
        validate_full_scan(&short, &config()).unwrap_err().message(),
        message
    );
    let mut far = sample(vec![Some(b(1.0)); 64]);
    far.ranges_m[7] = Some(b(10.5));
    assert_eq!(
        validate_full_scan(&far, &config()).unwrap_err().message(),
        "invalid laser range"
    );
    let mut few = config();
    few.bins = 63;
    assert_eq!(
        few.validate().unwrap_err().message(),
        "invalid N10 scan coverage/time limits"
    );
}

/// The packets of one revolution, each of ten degrees, with a range or none.
fn packets(decoder: &mut N10Decoder, at: u64, distance: u16) -> Vec<N10Packet> {
    (0..36u16)
        .map(|i| {
            let mut bytes = vec![0xa5, 0x5a, 58, 0, 0];
            bytes.extend((i * 1000).to_be_bytes());
            for _ in 0..16 {
                bytes.extend(distance.to_be_bytes());
                bytes.push(9);
            }
            bytes.extend(((i + 1) * 1000 % 36_000).to_be_bytes());
            let sum = bytes.iter().fold(0u8, |sum, v| sum.wrapping_add(*v));
            bytes.push(sum);
            let mut batch = decoder.feed(&bytes, Timestamp(at + u64::from(i) * 2)).unwrap();
            batch.packets.remove(0)
        })
        .collect()
}

fn decoder() -> N10Decoder {
    N10Decoder::new(N10Config {
        frame_id: FrameId("laser".into()),
        range_min_m: b(0.1),
        range_max_m: b(10.0),
        max_packet_age_ms: 100,
    })
    .unwrap()
}

#[test]
fn a_revolution_becomes_a_full_scan_at_the_wrap() {
    let mut decoder = decoder();
    let mut assembler = N10RevolutionAssembler::new(config()).unwrap();
    let mut scans: Vec<FullScan> = Vec::new();
    let first = packets(&mut decoder, 0, 2000);
    let second = packets(&mut decoder, 72, 3000);
    for packet in first.iter().chain(&second) {
        scans.extend(assembler.push(packet).unwrap());
    }
    assert_eq!(scans.len(), 1);
    let scan = &scans[0];
    assert_eq!(scan.sample.captured_at, Timestamp(0));
    assert_eq!(scan.completed_at, Timestamp(72));
    assert_eq!(f(scan.coverage_fraction), 1.0);
    assert_eq!(f(scan.valid_fraction), 1.0);
    assert!(scan.sample.ranges_m.iter().all(|r| *r == Some(b(2.0))));
    assert_eq!(f(scan.sample.angle_increment_rad), -TAU / 64.0);
    assert!(validate_full_scan(&scan.sample, &config()).is_ok());
    assert_eq!(assembler.rejected_revolutions, 0);
}

#[test]
fn unknown_revolutions_and_gaps_are_rejected() {
    let mut decoder = decoder();
    let mut assembler = N10RevolutionAssembler::new(config()).unwrap();
    let blank = packets(&mut decoder, 0, 0xffff);
    let next = packets(&mut decoder, 72, 2000);
    for packet in blank.iter().chain(&next) {
        assert!(assembler.push(packet).unwrap().is_none());
    }
    let late = packets(&mut decoder, 1000, 2000);
    assembler.push(&late[0]).unwrap();
    assert_eq!(assembler.rejected_revolutions, 1);
}

#[test]
fn mismatched_packets_change_nothing() {
    let mut decoder = decoder();
    let mut assembler = N10RevolutionAssembler::new(config()).unwrap();
    let revolution = packets(&mut decoder, 0, 2000);
    for packet in &revolution {
        assembler.push(packet).unwrap();
    }
    let mut strange = revolution[35].clone();
    strange.frame_id = FrameId("other".into());
    assert_eq!(
        assembler.push(&strange).err().unwrap().message(),
        "N10 scan frame/time mismatch"
    );
    assert_eq!(
        assembler.push(&revolution[3]).err().unwrap().message(),
        "N10 scan frame/time mismatch"
    );
    let mut narrow = revolution[35].clone();
    narrow.range_min_m = b(0.2);
    assert_eq!(
        assembler.push(&narrow).err().unwrap().message(),
        "N10 range bounds changed within a revolution"
    );
    let mut backward = revolution[20].clone();
    backward.first_received_at = Timestamp(80);
    backward.received_at = Timestamp(80);
    assert_eq!(
        assembler.push(&backward).err().unwrap().message(),
        "N10 packet angles regressed without a revolution boundary"
    );
}
