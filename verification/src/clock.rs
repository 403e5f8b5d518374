//! SD bus clock divisors.

use vstd::prelude::*;

verus! {

/// The values SDCLKFS can take: the powers of two from 1 to 128.
pub open spec fn is_prescaler(sdclkfs: int) -> bool {
    ||| sdclkfs == 1
    ||| sdclkfs == 2
    ||| sdclkfs == 4
    ||| sdclkfs == 8
    ||| sdclkfs == 16
    ||| sdclkfs == 32
    ||| sdclkfs == 64
    ||| sdclkfs == 128
}

/// The number the source clock is divided by.
pub open spec fn total_divisor(sdclkfs: int, dvs: int) -> int {
    2 * sdclkfs * (dvs + 1)
}

/// The SD bus clock in whole Hz.
pub open spec fn bus_clock(source_hz: int, sdclkfs: int, dvs: int) -> int {
    source_hz / total_divisor(sdclkfs, dvs)
}

/// Whether the divisors are valid and bring the clock down to `target_hz`: the
/// prescaled clock, in whole Hz, is at most `target_hz` for each of its DVS + 1
/// parts.
pub open spec fn reaches(source_hz: int, target_hz: int, sdclkfs: int, dvs: int) -> bool {
    &&& is_prescaler(sdclkfs)
    &&& 0 <= dvs <= 15
    &&& source_hz / (2 * sdclkfs) <= target_hz * (dvs + 1)
}

/// Whether some divisors reach `target_hz`.
pub open spec fn reachable(source_hz: int, target_hz: int) -> bool {
    exists|sdclkfs: int, dvs: int| reaches(source_hz, target_hz, sdclkfs, dvs)
}

/// Whether `(f, d)` is the best choice: it divides by the least, and prescales
/// by the least among those that divide by as much.
pub open spec fn is_best(source_hz: int, target_hz: int, f: int, d: int) -> bool {
    &&& reaches(source_hz, target_hz, f, d)
    &&& forall|f2: int, d2: int| #[trigger]
        reaches(source_hz, target_hz, f2, d2) ==> no_worse(f, d, f2, d2)
}

/// Whether `(f, d)` divides by less than `(f2, d2)`, or prescales by no more where
/// both divide by as much.
pub open spec fn no_worse(f: int, d: int, f2: int, d2: int) -> bool {
    ||| total_divisor(f, d) < total_divisor(f2, d2)
    ||| total_divisor(f, d) == total_divisor(f2, d2) && f <= f2
}

/// The divisors that are chosen: the best ones, or those of the slowest clock where
/// none reach the target.
pub open spec fn is_chosen(source_hz: int, target_hz: int, f: int, d: int) -> bool {
    if reachable(source_hz, target_hz) {
        is_best(source_hz, target_hz, f, d)
    } else {
        f == 128 && d == 15
    }
}

/// Compute SDCLKFS and DVS divisors so that the SD bus clock is at most
/// `target_hz`.
///
/// The SD bus clock is `source_hz / (2 * SDCLKFS * (DVS + 1))`, where SDCLKFS is
/// a power of two from 1 to 128 and DVS is from 0 to 15. The smallest total
/// divisor is found, that is the clock closest to `target_hz` without exceeding
/// it. Clocks are taken in whole Hz. Where no choice reaches `target_hz`, SDCLKFS
/// is 128 and DVS is 15: the slowest clock there is.
pub fn compute_clock_divisors(source_hz: u32, target_hz: u32) -> (divisors: (u32, u32))
    requires
        target_hz > 0,
    ensures
        is_chosen(
            source_hz as int,
            target_hz as int,
            divisors.0 as int,
            divisors.1 as int,
        ),
{
    let ghost source = source_hz as int;
    let ghost target = target_hz as int;
    let mut best_sdclkfs: u32 = 128;
    let mut best_dvs: u32 = 15;
    let mut shift: u32 = 0;
    let ghost mut found = false;
    while shift < 8
        invariant
            source == source_hz,
            target == target_hz,
            shift <= 8,
            target_hz > 0,
            is_prescaler(best_sdclkfs as int),
            best_dvs <= 15,
            !found ==> best_sdclkfs == 128 && best_dvs == 15,
            found ==> {
                &&& reaches(source, target, best_sdclkfs as int, best_dvs as int)
                &&& log2(best_sdclkfs as int) < shift
            },
            forall|f: int, d: int| #[trigger]
                reaches(source, target, f, d) && log2(f) < shift ==> found && no_worse(
                    best_sdclkfs as int,
                    best_dvs as int,
                    f,
                    d,
                ),
        decreases 8 - shift,
    {
        let sdclkfs: u32 = 1u32 << shift;
        proof {
            lemma_power(shift);
        }
        let prescaled: u32 = source_hz / (2 * sdclkfs);
        // Where less than 1 Hz is left nothing is to be divided, but no divisor is
        // below 1.
        let dvs_plus_1: u64 = if prescaled == 0 {
            1
        } else {
            ((prescaled as u64) + (target_hz as u64) - 1) / (target_hz as u64)
        };
        proof {
            if prescaled > 0 {
                lemma_ceil(prescaled as int, target, dvs_plus_1 as int);
            }
            assert forall|f: int, d: int| #[trigger]
                reaches(source, target, f, d) && log2(f) == shift implies d + 1 >= dvs_plus_1 && f
                == sdclkfs by {
                if prescaled > 0 {
                    lemma_ceil_least(prescaled as int, target, dvs_plus_1 as int, d + 1);
                }
            }
        }
        if dvs_plus_1 <= 16 {
            let dvs: u32 = dvs_plus_1 as u32 - 1;
            assert(2 * sdclkfs * (dvs + 1) <= 4096) by (nonlinear_arith)
                requires
                    sdclkfs <= 128,
                    dvs <= 15,
            ;
            assert(2 * best_sdclkfs * (best_dvs + 1) <= 4096) by (nonlinear_arith)
                requires
                    best_sdclkfs <= 128,
                    best_dvs <= 15,
            ;
            let total: u32 = 2 * sdclkfs * (dvs + 1);
            let best_total: u32 = 2 * best_sdclkfs * (best_dvs + 1);
            proof {
                assert(reaches(source, target, sdclkfs as int, dvs as int));
                // A choice that is no improvement on the slowest is the slowest.
                if !found && total >= best_total {
                    assert(best_total == 4096);
                    lemma_slowest(sdclkfs as int, dvs as int);
                }
                assert forall|f: int, d: int| #[trigger]
                    reaches(source, target, f, d) && log2(f) == shift implies total
                    <= total_divisor(f, d) by {
                    assert(2 * sdclkfs * (dvs + 1) <= 2 * sdclkfs * (d + 1)) by (nonlinear_arith)
                        requires
                            dvs + 1 <= d + 1,
                            sdclkfs >= 1,
                    ;
                }
                if found {
                    lemma_log2_monotone(best_sdclkfs as int, sdclkfs as int);
                }
                found = true;
            }
            if total < best_total {
                best_sdclkfs = sdclkfs;
                best_dvs = dvs;
            }
        }
        shift = shift + 1;
    }
    proof {
        if reachable(source, target) {
            let (f, d) = choose|f: int, d: int| reaches(source, target, f, d);
            assert(log2(f) < 8);
            assert(found);
        } else {
            assert(!found);
        }
    }
    (best_sdclkfs, best_dvs)
}

/// The exponent of a prescaler.
spec fn log2(f: int) -> int {
    if f == 1 {
        0
    } else if f == 2 {
        1
    } else if f == 4 {
        2
    } else if f == 8 {
        3
    } else if f == 16 {
        4
    } else if f == 32 {
        5
    } else if f == 64 {
        6
    } else {
        7
    }
}

proof fn lemma_power(shift: u32)
    requires
        shift < 8,
    ensures
        is_prescaler((1u32 << shift) as int),
        log2((1u32 << shift) as int) == shift,
        forall|f: int| #[trigger] is_prescaler(f) && log2(f) == shift ==> f == 1u32 << shift,
{
    assert(1u32 << 0u32 == 1 && 1u32 << 1u32 == 2 && 1u32 << 2u32 == 4 && 1u32 << 3u32 == 8 && 1u32
        << 4u32 == 16 && 1u32 << 5u32 == 32 && 1u32 << 6u32 == 64 && 1u32 << 7u32 == 128)
        by (bit_vector);
}

proof fn lemma_log2_monotone(f: int, g: int)
    requires
        is_prescaler(f),
        is_prescaler(g),
        log2(f) < log2(g),
    ensures
        f < g,
{
}

proof fn lemma_slowest(f: int, d: int)
    requires
        is_prescaler(f),
        0 <= d <= 15,
        total_divisor(f, d) >= 4096,
    ensures
        f == 128,
        d == 15,
{
    assert(f == 128 && d == 15) by (nonlinear_arith)
        requires
            2 * f * (d + 1) >= 4096,
            0 <= d <= 15,
            f <= 64 || f == 128,
            f >= 1,
    ;
}

/// `q` is `p / t` rounded up.
proof fn lemma_ceil(p: int, t: int, q: int)
    requires
        p > 0,
        t > 0,
        q == (p + t - 1) / t,
    ensures
        p <= t * q,
        q >= 1,
{
    assert(p <= t * q && q >= 1) by (nonlinear_arith)
        requires
            p > 0,
            t > 0,
            q == (p + t - 1) / t,
    ;
}

proof fn lemma_ceil_least(p: int, t: int, q: int, other: int)
    requires
        t > 0,
        q == (p + t - 1) / t,
        p <= t * other,
    ensures
        q <= other,
{
    assert(q <= other) by (nonlinear_arith)
        requires
            t > 0,
            q == (p + t - 1) / t,
            p <= t * other,
    ;
}

/// Where the target can be reached at all, the SD bus clock that the chosen
/// divisors give does not exceed it, in whole Hz. What the prescaler's rounding
/// leaves out is less than one of its periods.
pub proof fn law_clock_at_most_target(source_hz: int, target_hz: int, f: int, d: int)
    requires
        source_hz >= 0,
        target_hz > 0,
        reachable(source_hz, target_hz),
        is_chosen(source_hz, target_hz, f, d),
    ensures
        bus_clock(source_hz, f, d) <= target_hz,
        source_hz < target_hz * total_divisor(f, d) + 2 * f,
{
    let n = total_divisor(f, d);
    let p = source_hz / (2 * f);
    assert(source_hz < (p + 1) * (2 * f)) by (nonlinear_arith)
        requires
            p == source_hz / (2 * f),
            f > 0,
    ;
    assert(source_hz < target_hz * n + 2 * f && source_hz < (target_hz + 1) * n && n > 0)
        by (nonlinear_arith)
        requires
            source_hz < (p + 1) * (2 * f),
            p <= target_hz * (d + 1),
            n == 2 * f * (d + 1),
            f > 0,
            d >= 0,
    ;
    assert(source_hz / n <= target_hz) by (nonlinear_arith)
        requires
            source_hz < (target_hz + 1) * n,
            n > 0,
    ;
}

/// Divisors that do not reach the target leave the clock above it.
proof fn lemma_exceeds(source_hz: int, target_hz: int, f: int, d: int)
    requires
        is_prescaler(f),
        0 <= d <= 15,
        !reaches(source_hz, target_hz, f, d),
    ensures
        source_hz > target_hz * total_divisor(f, d),
{
    let p = source_hz / (2 * f);
    assert(source_hz > target_hz * total_divisor(f, d)) by (nonlinear_arith)
        requires
            p == source_hz / (2 * f),
            p > target_hz * (d + 1),
            total_divisor(f, d) == 2 * f * (d + 1),
            f > 0,
    ;
}

/// No valid divisors give a clock that is faster than the chosen one and does not
/// exceed the target.
pub proof fn law_no_faster_clock(
    source_hz: int,
    target_hz: int,
    f: int,
    d: int,
    f2: int,
    d2: int,
)
    requires
        target_hz > 0,
        is_chosen(source_hz, target_hz, f, d),
        is_prescaler(f2),
        0 <= d2 <= 15,
        total_divisor(f2, d2) < total_divisor(f, d),
    ensures
        source_hz > target_hz * total_divisor(f2, d2),
{
    lemma_exceeds(source_hz, target_hz, f2, d2);
}

/// Where the target cannot be reached, every clock exceeds it, and the chosen one
/// is the slowest.
pub proof fn law_unreachable_is_slowest(
    source_hz: int,
    target_hz: int,
    f: int,
    d: int,
    f2: int,
    d2: int,
)
    requires
        target_hz > 0,
        !reachable(source_hz, target_hz),
        is_chosen(source_hz, target_hz, f, d),
        is_prescaler(f2),
        0 <= d2 <= 15,
    ensures
        source_hz > target_hz * total_divisor(f2, d2),
        total_divisor(f2, d2) <= total_divisor(f, d),
{
    lemma_exceeds(source_hz, target_hz, f2, d2);
    assert(total_divisor(f2, d2) <= 4096) by (nonlinear_arith)
        requires
            total_divisor(f2, d2) == 2 * f2 * (d2 + 1),
            1 <= f2 <= 128,
            0 <= d2 <= 15,
    ;
}

/// The source and the target leave no choice of divisors.
pub proof fn law_divisors_unique(
    source_hz: int,
    target_hz: int,
    f: int,
    d: int,
    f2: int,
    d2: int,
)
    requires
        is_chosen(source_hz, target_hz, f, d),
        is_chosen(source_hz, target_hz, f2, d2),
    ensures
        f == f2,
        d == d2,
{
    if reachable(source_hz, target_hz) {
        assert(no_worse(f, d, f2, d2) && no_worse(f2, d2, f, d));
        assert(d == d2) by (nonlinear_arith)
            requires
                2 * f * (d + 1) == 2 * f * (d2 + 1),
                f > 0,
        ;
    }
}

/// The chosen divisors, in numbers alone. SDCLKFS is a power of two up to 128 and DVS
/// at most 15. Whatever divides by less, or by as much with a smaller SDCLKFS, leaves
/// a prescaled clock, in whole Hz, of more than `target_hz` for each of its DVS + 1
/// parts, and so a clock above the target. The chosen clock does not exceed the
/// target, in whole Hz, unless every other does too, and then it is the slowest.
pub proof fn law_divisors_in_numbers(
    source_hz: int,
    target_hz: int,
    f: int,
    d: int,
    shift: nat,
    d2: int,
)
    requires
        source_hz >= 0,
        target_hz > 0,
        is_chosen(source_hz, target_hz, f, d),
        shift <= 7,
        0 <= d2 <= 15,
    ensures
        f == 1 || f == 2 || f == 4 || f == 8 || f == 16 || f == 32 || f == 64 || f == 128,
        0 <= d <= 15,
        ({
            let f2 = vstd::arithmetic::power2::pow2(shift) as int;
            let n = 2 * f * (d + 1);
            let n2 = 2 * f2 * (d2 + 1);
            &&& n2 < n ==> source_hz > target_hz * n2
            &&& n2 < n ==> source_hz / (2 * f2) > target_hz * (d2 + 1)
            &&& n2 == n && f2 < f ==> source_hz / (2 * f2) > target_hz * (d2 + 1)
            &&& source_hz / n > target_hz ==> source_hz > target_hz * n2 && f == 128 && d == 15
            &&& source_hz / (2 * f) > target_hz * (d + 1) ==> source_hz / (2 * f2) > target_hz * (d2
                + 1) && f == 128 && d == 15
        }),
{
    vstd::arithmetic::power2::lemma2_to64();
    let f2 = vstd::arithmetic::power2::pow2(shift) as int;
    assert(is_prescaler(f2));
    assert(total_divisor(f, d) == 2 * f * (d + 1));
    assert(total_divisor(f2, d2) == 2 * f2 * (d2 + 1));
    if reachable(source_hz, target_hz) {
        law_clock_at_most_target(source_hz, target_hz, f, d);
        if !reaches(source_hz, target_hz, f2, d2) {
            lemma_exceeds(source_hz, target_hz, f2, d2);
        }
    } else {
        assert(!reaches(source_hz, target_hz, f2, d2));
        lemma_exceeds(source_hz, target_hz, f2, d2);
    }
}

/// What `compute_clock_divisors` returns: a clock of at most `target_hz`, in whole Hz, or
/// the slowest there is; and divisors by less, whichever, exceed `target_hz`.
pub proof fn law_computed_divisors(
    source_hz: u32,
    target_hz: u32,
    divisors: (u32, u32),
    shift: nat,
    dvs: int,
)
    requires
        target_hz > 0,
        call_ensures(compute_clock_divisors, (source_hz, target_hz), divisors),
        shift <= 7,
        0 <= dvs <= 15,
    ensures
        ({
            let (f, d) = divisors;
            let n = 2 * f * (d + 1);
            let other = 2 * vstd::arithmetic::power2::pow2(shift) * (dvs + 1);
            &&& f == 1 || f == 2 || f == 4 || f == 8 || f == 16 || f == 32 || f == 64 || f == 128
            &&& d <= 15
            &&& source_hz as int / n <= target_hz || f == 128 && d == 15
            &&& other < n ==> source_hz > target_hz * other
        }),
{
    law_divisors_in_numbers(
        source_hz as int,
        target_hz as int,
        divisors.0 as int,
        divisors.1 as int,
        shift,
        dvs,
    );
}

} // verus!
