//! Display accuracy and accuracy-rating from judgement counts.
//!
//! The six judgement tiers are ordered best to worst: marvelous, perfect,
//! great, good, bad, miss.  Display accuracy uses the 300-weighting, or the
//! 305-weighting when the score-v2 modifier is present; the accuracy-rating
//! fed to the rating curve always uses the 310-weighting.  All results are
//! percentages scaled by `SCALE`; an empty play (zero judgements) yields 0
//! rather than an error.

use crate::mods::Mods;
use crate::rating::{ACC_FULL, SCALE};
use vstd::prelude::*;

verus! {

/// Sum of the six judgement counts.
pub open spec fn total_spec(c: [u32; 6]) -> int {
    c[0] + c[1] + c[2] + c[3] + c[4] + c[5]
}

/// Accuracy-rating: `(310 marv + 300 perf + 200 great + 100 good + 50 bad)
/// / (3.1 total)`, or 0 when there are no judgements.
pub open spec fn acc_rating_spec(c: [u32; 6]) -> int {
    if total_spec(c) == 0 {
        0
    } else {
        (310 * c[0] + 300 * c[1] + 200 * c[2] + 100 * c[3] + 50 * c[4]) * 10 * SCALE / (31
            * total_spec(c))
    }
}

/// Display accuracy without score v2: `(300 (marv + perf) + 200 great +
/// 100 good + 50 bad) / (3 total)`, or 0 when there are no judgements.
pub open spec fn display_acc_v1_spec(c: [u32; 6]) -> int {
    if total_spec(c) == 0 {
        0
    } else {
        (300 * (c[0] + c[1]) + 200 * c[2] + 100 * c[3] + 50 * c[4]) * SCALE / (3 * total_spec(c))
    }
}

/// Display accuracy under score v2: `(305 marv + 300 perf + 200 great +
/// 100 good + 50 bad) / (3.05 total)`, or 0 when there are no judgements.
pub open spec fn display_acc_v2_spec(c: [u32; 6]) -> int {
    if total_spec(c) == 0 {
        0
    } else {
        (305 * c[0] + 300 * c[1] + 200 * c[2] + 100 * c[3] + 50 * c[4]) * 100 * SCALE / (305
            * total_spec(c))
    }
}

/// Display accuracy with the weighting selected by the score-v2 bit alone.
pub open spec fn display_acc_spec(c: [u32; 6], score_v2: bool) -> int {
    if score_v2 {
        display_acc_v2_spec(c)
    } else {
        display_acc_v1_spec(c)
    }
}

/// Computes the accuracy-rating (always the 310-weighting, whatever the
/// modifiers say).
pub fn accuracy_rating(counts: &[u32; 6]) -> (r: i64)
    ensures
        r == acc_rating_spec(*counts),
        0 <= r <= ACC_FULL,
{
    let total: u64 = counts[0] as u64 + counts[1] as u64 + counts[2] as u64 + counts[3] as u64
        + counts[4] as u64 + counts[5] as u64;
    if total == 0 {
        return 0;
    }
    let w: u128 = 310 * counts[0] as u128 + 300 * counts[1] as u128 + 200 * counts[2] as u128 + 100
        * counts[3] as u128 + 50 * counts[4] as u128;
    assert(w <= 0x4000_0000_0000u128);
    let num: u128 = w * 10_000_000;
    let den: u128 = 31 * total as u128;
    proof {
        let c = *counts;
        let weighted = 310 * c[0] + 300 * c[1] + 200 * c[2] + 100 * c[3] + 50 * c[4];
        assert(weighted * 10 * SCALE <= (31 * total_spec(c)) * (100 * SCALE)) by (nonlinear_arith)
            requires
                0 <= weighted <= 310 * total_spec(c),
                0 < total_spec(c),
        ;
        crate::rating::lemma_ratio_bounds(weighted * 10 * SCALE, 31 * total_spec(c), 100 * SCALE);
    }
    (num / den) as i64
}

/// Computes the display accuracy, with the weighting picked by the score-v2
/// bit of the modifier set.
pub fn display_accuracy(counts: &[u32; 6], mods: Mods) -> (r: i64)
    ensures
        r == display_acc_spec(*counts, mods.is_score_v2()),
        0 <= r <= ACC_FULL,
{
    let total: u64 = counts[0] as u64 + counts[1] as u64 + counts[2] as u64 + counts[3] as u64
        + counts[4] as u64 + counts[5] as u64;
    if total == 0 {
        return 0;
    }
    if mods.score_v2() {
        let w: u128 = 305 * counts[0] as u128 + 300 * counts[1] as u128 + 200 * counts[2] as u128
            + 100 * counts[3] as u128 + 50 * counts[4] as u128;
        assert(w <= 0x4000_0000_0000u128);
        let num: u128 = w * 100_000_000;
        let den: u128 = 305 * total as u128;
        proof {
            let c = *counts;
            let weighted = 305 * c[0] + 300 * c[1] + 200 * c[2] + 100 * c[3] + 50 * c[4];
            assert(weighted * 100 * SCALE <= (305 * total_spec(c)) * (100 * SCALE))
                by (nonlinear_arith)
                requires
                    0 <= weighted <= 305 * total_spec(c),
                    0 < total_spec(c),
            ;
            crate::rating::lemma_ratio_bounds(
                weighted * 100 * SCALE,
                305 * total_spec(c),
                100 * SCALE,
            );
        }
        (num / den) as i64
    } else {
        let w: u128 = 300 * (counts[0] as u128 + counts[1] as u128) + 200 * counts[2] as u128 + 100
            * counts[3] as u128 + 50 * counts[4] as u128;
        assert(w <= 0x4000_0000_0000u128);
        let num: u128 = w * 1_000_000;
        let den: u128 = 3 * total as u128;
        proof {
            let c = *counts;
            let weighted = 300 * (c[0] + c[1]) + 200 * c[2] + 100 * c[3] + 50 * c[4];
            assert(weighted * SCALE <= (3 * total_spec(c)) * (100 * SCALE)) by (nonlinear_arith)
                requires
                    0 <= weighted <= 300 * total_spec(c),
                    0 < total_spec(c),
            ;
            crate::rating::lemma_ratio_bounds(weighted * SCALE, 3 * total_spec(c), 100 * SCALE);
        }
        (num / den) as i64
    }
}

/// Computes the pair `(display accuracy, accuracy-rating)` for one play, as
/// stored on every play record.
pub fn accuracy_pair(counts: &[u32; 6], mods: Mods) -> (r: (i64, i64))
    ensures
        r.0 == display_acc_spec(*counts, mods.is_score_v2()),
        r.1 == acc_rating_spec(*counts),
        0 <= r.0 <= ACC_FULL,
        0 <= r.1 <= ACC_FULL,
{
    (display_accuracy(counts, mods), accuracy_rating(counts))
}

} // verus!
