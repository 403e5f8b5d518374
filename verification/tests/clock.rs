//! SD bus clock divisors.

use imxrt_usdhc::compute_clock_divisors;

fn actual_clock(source_hz: u32, sdclkfs: u32, dvs: u32) -> u32 {
    source_hz / (2 * sdclkfs * (dvs + 1))
}

#[test]
fn clock_teensy_slow() {
    let (sdclkfs, dvs) = compute_clock_divisors(198_000_000, 400_000);
    assert!(
        actual_clock(198_000_000, sdclkfs, dvs) <= 400_000,
        "clock exceeds 400 kHz"
    );
    // First valid combination found: sdclkfs=16, dvs=15, total divisor=512
    assert_eq!((sdclkfs, dvs), (16, 15));
    assert_eq!(actual_clock(198_000_000, sdclkfs, dvs), 386_718);
}

#[test]
fn clock_teensy_fast() {
    let (sdclkfs, dvs) = compute_clock_divisors(198_000_000, 25_000_000);
    assert!(
        actual_clock(198_000_000, sdclkfs, dvs) <= 25_000_000,
        "clock exceeds 25 MHz"
    );
    // sdclkfs=1, dvs=3: 198 MHz / (2*1*4) = 24.75 MHz
    assert_eq!((sdclkfs, dvs), (1, 3));
    assert_eq!(actual_clock(198_000_000, sdclkfs, dvs), 24_750_000);
}

#[test]
fn clock_exact_divider() {
    let (sdclkfs, dvs) = compute_clock_divisors(50_000_000, 25_000_000);
    // sdclkfs=1, dvs=0: 50 MHz / 2 = 25 MHz exactly
    assert_eq!((sdclkfs, dvs), (1, 0));
    assert_eq!(actual_clock(50_000_000, sdclkfs, dvs), 25_000_000);
}

#[test]
fn clock_evk_slow() {
    let (sdclkfs, dvs) = compute_clock_divisors(400_000_000, 400_000);
    assert!(
        actual_clock(400_000_000, sdclkfs, dvs) <= 400_000,
        "clock exceeds 400 kHz"
    );
    // First valid: sdclkfs=32, dvs=15, total=1024, clock=390625
    assert_eq!((sdclkfs, dvs), (32, 15));
    assert_eq!(actual_clock(400_000_000, sdclkfs, dvs), 390_625);
}

#[test]
fn clock_no_valid_combination() {
    // target=1 Hz: no SDCLKFS/DVS combination can reach it;
    // fall-through defaults are returned.
    let (sdclkfs, dvs) = compute_clock_divisors(198_000_000, 1);
    assert_eq!((sdclkfs, dvs), (128, 15));
}

#[test]
fn clock_is_taken_in_whole_hertz() {
    assert_eq!(compute_clock_divisors(50_000_001, 25_000_000), (1, 0));
    assert_eq!(actual_clock(50_000_001, 1, 0), 25_000_000);
    assert_eq!(compute_clock_divisors(50_000_002, 25_000_000), (1, 1));
    assert_eq!(compute_clock_divisors(25, 2), (1, 5));
}

#[test]
fn clock_slow_sources() {
    // Every choice stays below the target: the smallest total divisor is 2.
    assert_eq!(compute_clock_divisors(0, 400_000), (1, 0));
    assert_eq!(compute_clock_divisors(1, 400_000), (1, 0));
    assert_eq!(compute_clock_divisors(1, 1), (1, 0));
    assert_eq!(compute_clock_divisors(2, 400_000), (1, 0));
    assert_eq!(compute_clock_divisors(100, 400_000), (1, 0));
}

#[test]
fn clock_extreme_arguments() {
    assert_eq!(compute_clock_divisors(u32::MAX, u32::MAX), (1, 0));
    assert_eq!(compute_clock_divisors(u32::MAX, 1), (128, 15));
    assert_eq!(compute_clock_divisors(4096, 1), (128, 15));
    assert_eq!(compute_clock_divisors(4097, 1), (128, 15));
}

/// The choice by exhaustive search.
fn best_of_all(source_hz: u64, target_hz: u64) -> Option<(u32, u32)> {
    let mut best: Option<(u64, u32, u32)> = None;
    for shift in 0..8u32 {
        for dvs in 0..16u32 {
            let sdclkfs = 1u32 << shift;
            let total = 2 * sdclkfs as u64 * (dvs as u64 + 1);
            let prescaled = source_hz / (2 * sdclkfs as u64);
            if prescaled <= target_hz * (dvs as u64 + 1) && (best.is_none() || total < best.unwrap().0) {
                best = Some((total, sdclkfs, dvs));
            }
        }
    }
    best.map(|(_, sdclkfs, dvs)| (sdclkfs, dvs))
}

#[test]
fn clock_is_the_fastest_that_does_not_exceed_the_target() {
    for source_hz in 0..3000u32 {
        for target_hz in [1, 2, 3, 7, 10, 64, 100, 999, 5000] {
            let expected = best_of_all(source_hz as u64, target_hz as u64).unwrap_or((128, 15));
            let chosen = compute_clock_divisors(source_hz, target_hz);
            assert_eq!(chosen, expected, "source {source_hz}, target {target_hz}");
            let total = 2 * chosen.0 * (chosen.1 + 1);
            if best_of_all(source_hz as u64, target_hz as u64).is_some() {
                assert!(actual_clock(source_hz, chosen.0, chosen.1) <= target_hz);
                // Whatever divides by less exceeds the target.
                for shift in 0..8u32 {
                    for dvs in 0..16u32 {
                        let less = 2 * (1u32 << shift) * (dvs + 1);
                        assert!(less >= total || source_hz > target_hz * less);
                    }
                }
            }
        }
    }
}

#[test]
fn clock_unreachable_target_is_exceeded_by_every_choice() {
    // 4352 / 256 is 17, one more than the largest DVS + 1.
    assert_eq!(best_of_all(4352, 1), None);
    assert_eq!(compute_clock_divisors(4352, 1), (128, 15));
    assert_eq!(best_of_all(4351, 1), Some((128, 15)));
}
