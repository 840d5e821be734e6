//! The accuracy-to-rating curve and the mod-aware difficulty constant.
//!
//! Accuracies are percentages scaled by `SCALE` (so `100 * SCALE` is 100%),
//! star ratings and difficulty constants are scaled the same way.  The curve
//! has five pieces above the dead zone at 80%; the pieces agree exactly at
//! their shared boundaries and the whole curve is non-decreasing in the
//! accuracy, which `lemma_rating_continuous` and `lemma_rating_monotonic`
//! prove.

use crate::mods::Mods;
use vstd::arithmetic::div_mod::{
    lemma_div_is_ordered, lemma_div_is_ordered_by_denominator, lemma_div_multiples_vanish,
};
use vstd::prelude::*;

verus! {

/// Fixed-point scale: one unit (one percentage point, one star) is
/// `SCALE` ticks.  Kept even so that the half-unit curve constants are exact.
pub const SCALE: i64 = 1_000_000;

/// Accuracy value of 80%, the top of the dead zone.
pub const ACC_LOW: i64 = 80_000_000;

/// Accuracy value of 93%.
pub const ACC_MID: i64 = 93_000_000;

/// Accuracy value of 96%.
pub const ACC_HIGH: i64 = 96_000_000;

/// Accuracy value of 98%.
pub const ACC_PEAK: i64 = 98_000_000;

/// Accuracy value of 99.5%.
pub const ACC_TOP: i64 = 99_500_000;

/// Accuracy value of 100%.
pub const ACC_FULL: i64 = 100_000_000;

/// Largest difficulty constant the executable entry points accept; far above
/// anything a real beatmap produces, and small enough that every intermediate
/// value of the curve fits comfortably in 64 bits.
pub const MAX_DIFF_CONST: i64 = 4_000_000_000_000;

/// Largest (scaled) star rating the executable entry points accept; a million
/// stars, far beyond any chart, and small enough that the derived difficulty
/// constant stays below `MAX_DIFF_CONST`.
pub const MAX_STAR_RATING: i64 = 1_000_000_000_000;

/// `max(dc - 3, 0)`: the rating the curve approaches at 93% from below.
pub open spec fn lower_bound_spec(dc: int) -> int {
    if dc - 3 * SCALE > 0 {
        dc - 3 * SCALE
    } else {
        0
    }
}

/// Curve piece for 80% < acc <= 93%: `lowerBound * (acc - 80) / 13`.
pub open spec fn piece_low(dc: int, acc: int) -> int {
    lower_bound_spec(dc) * (acc - ACC_LOW) / (13 * SCALE)
}

/// Curve piece for 93% < acc <= 96%:
/// `(dc - lowerBound) * (acc - 93) / 3 + lowerBound`.
pub open spec fn piece_mid(dc: int, acc: int) -> int {
    (dc - lower_bound_spec(dc)) * (acc - ACC_MID) / (3 * SCALE) + lower_bound_spec(dc)
}

/// Curve piece for 96% < acc <= 98%: with `x = acc - 96`,
/// `1.5 * x / (3 - x / 2) + dc`, written over integers as `3x / (6 - x) + dc`.
pub open spec fn piece_high(dc: int, acc: int) -> int {
    3 * (acc - ACC_HIGH) * SCALE / (6 * SCALE - (acc - ACC_HIGH)) + dc
}

/// Curve piece for 98% < acc <= 99.5%: with `x = (acc - 98) / 1.5`,
/// `2 * x * 2 / (3 - x) + dc + 1.5`, written over integers with `u = acc - 98`
/// as `8u / (9 - 2u) + dc + 1.5`.
pub open spec fn piece_peak(dc: int, acc: int) -> int {
    8 * (acc - ACC_PEAK) * SCALE / (9 * SCALE - 2 * (acc - ACC_PEAK)) + dc + 3 * SCALE / 2
}

/// Curve piece for acc > 99.5%: with `x = (acc - 99.5) * 2`,
/// `x * 2 / (3 - x) + dc + 3.5`, written over integers with `v = acc - 99.5`
/// as `4v / (3 - 2v) + dc + 3.5`.
pub open spec fn piece_top(dc: int, acc: int) -> int {
    4 * (acc - ACC_TOP) * SCALE / (3 * SCALE - 2 * (acc - ACC_TOP)) + dc + 7 * SCALE / 2
}

/// The full curve: zero outside [0%, 100%] and below 80%, otherwise the
/// matching piece.
pub open spec fn rating_spec(dc: int, acc: int) -> int {
    if acc < 0 || acc > ACC_FULL {
        0
    } else if acc <= ACC_LOW {
        0
    } else if acc <= ACC_MID {
        piece_low(dc, acc)
    } else if acc <= ACC_HIGH {
        piece_mid(dc, acc)
    } else if acc <= ACC_PEAK {
        piece_high(dc, acc)
    } else if acc <= ACC_TOP {
        piece_peak(dc, acc)
    } else {
        piece_top(dc, acc)
    }
}

/// The star rating that the modifier set selects from the `(half-time,
/// normal, double-time)` triple: half-time wins, then double-time or
/// nightcore, otherwise normal speed.
pub open spec fn selected_sr_spec(mods: Mods, sr_ht: int, sr_nm: int, sr_dt: int) -> int {
    if mods.is_half_time() {
        sr_ht
    } else if mods.is_double_time() {
        sr_dt
    } else {
        sr_nm
    }
}

/// The difficulty constant derived from a (scaled) star rating:
/// `sr * 200 / 81 + 7 / 6`, as one exact quotient `(1200 sr + 567) / 486`.
pub open spec fn diff_const_spec(sr: int) -> int {
    (1200 * sr + 567 * SCALE) / 486
}

/// Computes `rating_spec` exactly, using 128-bit intermediates so that no
/// product can overflow.
pub fn calc_rating(dc: i64, acc: i64) -> (r: i64)
    requires
        0 <= dc <= MAX_DIFF_CONST,
    ensures
        r == rating_spec(dc as int, acc as int),
        0 <= r <= dc + 5 * SCALE,
{
    proof {
        lemma_rating_bounds(dc as int, acc as int);
    }
    if acc < 0 || acc > ACC_FULL {
        return 0;
    }
    let lb: i64 = if dc - 3 * SCALE > 0 {
        dc - 3 * SCALE
    } else {
        0
    };
    if acc <= ACC_LOW {
        0
    } else if acc <= ACC_MID {
        ((lb as i128) * ((acc - ACC_LOW) as i128) / ((13 * SCALE) as i128)) as i64
    } else if acc <= ACC_HIGH {
        (((dc - lb) as i128) * ((acc - ACC_MID) as i128) / ((3 * SCALE) as i128)) as i64 + lb
    } else if acc <= ACC_PEAK {
        let x: i128 = (acc - ACC_HIGH) as i128;
        (3 * x * (SCALE as i128) / (6 * (SCALE as i128) - x)) as i64 + dc
    } else if acc <= ACC_TOP {
        let u: i128 = (acc - ACC_PEAK) as i128;
        (8 * u * (SCALE as i128) / (9 * (SCALE as i128) - 2 * u)) as i64 + dc + 3 * SCALE / 2
    } else {
        let v: i128 = (acc - ACC_TOP) as i128;
        (4 * v * (SCALE as i128) / (3 * (SCALE as i128) - 2 * v)) as i64 + dc + 7 * SCALE / 2
    }
}

/// Computes the difficulty constant for a (scaled) star rating.
pub fn calc_diff_const(sr: i64) -> (r: i64)
    requires
        0 <= sr <= MAX_STAR_RATING,
    ensures
        r == diff_const_spec(sr as int),
        0 <= r <= MAX_DIFF_CONST,
{
    proof {
        lemma_ratio_bounds(1200 * sr + 567 * SCALE, 486, MAX_DIFF_CONST as int);
    }
    ((1200 * (sr as i128) + 567 * (SCALE as i128)) / 486) as i64
}

/// Selects the star rating for the modifier set, derives the difficulty
/// constant and rates the given accuracy with it, returning both.
pub fn calc_mod_rating(mods: Mods, srs: (i64, i64, i64), acc: i64) -> (r: (i64, i64))
    requires
        0 <= srs.0 <= MAX_STAR_RATING,
        0 <= srs.1 <= MAX_STAR_RATING,
        0 <= srs.2 <= MAX_STAR_RATING,
    ensures
        r.0 == diff_const_spec(selected_sr_spec(mods, srs.0 as int, srs.1 as int, srs.2 as int)),
        r.1 == rating_spec(r.0 as int, acc as int),
        0 <= r.0 <= MAX_DIFF_CONST,
        0 <= r.1 <= r.0 + 5 * SCALE,
{
    let sr_mod: i64 = if mods.half_time() {
        srs.0
    } else if mods.double_time() {
        srs.2
    } else {
        srs.1
    };
    let diff_const = calc_diff_const(sr_mod);
    let rating = calc_rating(diff_const, acc);
    (diff_const, rating)
}

/// The curve is identically zero on the dead zone up to 80%.
pub proof fn lemma_rating_zero_low(dc: int, acc: int)
    requires
        acc <= ACC_LOW,
    ensures
        rating_spec(dc, acc) == 0,
{
}

/// The whole curve stays between 0 and `dc + 5` for any accuracy.
pub proof fn lemma_rating_bounds(dc: int, acc: int)
    requires
        0 <= dc,
    ensures
        0 <= rating_spec(dc, acc) <= dc + 5 * SCALE,
{
    lemma_piece_bounds(dc, acc);
}

/// Adjacent curve pieces take the same value at their shared boundary, so the
/// five-piece formula is continuous there; the boundary values themselves
/// are pinned as well.
pub proof fn lemma_rating_continuous(dc: int)
    requires
        0 <= dc,
    ensures
        piece_low(dc, ACC_LOW as int) == 0,
        piece_low(dc, ACC_MID as int) == piece_mid(dc, ACC_MID as int),
        piece_mid(dc, ACC_HIGH as int) == piece_high(dc, ACC_HIGH as int),
        piece_high(dc, ACC_PEAK as int) == piece_peak(dc, ACC_PEAK as int),
        piece_peak(dc, ACC_TOP as int) == piece_top(dc, ACC_TOP as int),
        piece_low(dc, ACC_MID as int) == lower_bound_spec(dc),
        piece_mid(dc, ACC_HIGH as int) == dc,
        piece_high(dc, ACC_PEAK as int) == dc + 3 * SCALE / 2,
        piece_peak(dc, ACC_TOP as int) == dc + 7 * SCALE / 2,
        piece_top(dc, ACC_FULL as int) == dc + 9 * SCALE / 2,
{
    let lb = lower_bound_spec(dc);
    assert(piece_low(dc, ACC_MID as int) == lb) by {
        lemma_div_multiples_vanish(lb, 13 * SCALE);
        assert(lb * (ACC_MID - ACC_LOW) == (13 * SCALE) * lb) by (nonlinear_arith);
    }
    assert(piece_mid(dc, ACC_HIGH as int) == dc) by {
        lemma_div_multiples_vanish(dc - lb, 3 * SCALE);
        assert((dc - lb) * (ACC_HIGH - ACC_MID) == (3 * SCALE) * (dc - lb)) by (nonlinear_arith);
    }
    assert(piece_high(dc, ACC_PEAK as int) == dc + 3 * SCALE / 2) by {
        lemma_div_multiples_vanish(1_500_000, 4_000_000);
        assert(3 * (ACC_PEAK - ACC_HIGH) * SCALE == 4_000_000 * 1_500_000int) by (nonlinear_arith);
    }
    assert(piece_peak(dc, ACC_TOP as int) == dc + 7 * SCALE / 2) by {
        lemma_div_multiples_vanish(2_000_000, 6_000_000);
        assert(8 * (ACC_TOP - ACC_PEAK) * SCALE == 6_000_000 * 2_000_000int) by (nonlinear_arith);
    }
    assert(piece_top(dc, ACC_FULL as int) == dc + 9 * SCALE / 2) by {
        lemma_div_multiples_vanish(1_000_000, 2_000_000);
        assert(4 * (ACC_FULL - ACC_TOP) * SCALE == 2_000_000 * 1_000_000int) by (nonlinear_arith);
    }
}

/// The curve is non-decreasing in the accuracy for any fixed non-negative
/// difficulty constant.
pub proof fn lemma_rating_monotonic(dc: int, a1: int, a2: int)
    requires
        0 <= dc,
        0 <= a1 <= a2 <= ACC_FULL,
    ensures
        rating_spec(dc, a1) <= rating_spec(dc, a2),
{
    lemma_rating_continuous(dc);
    lemma_piece_bounds(dc, a1);
    lemma_piece_bounds(dc, a2);
    if a1 <= ACC_LOW {
        lemma_rating_bounds(dc, a2);
    } else if a1 <= ACC_MID {
        if a2 <= ACC_MID {
            lemma_piece_low_mono(dc, a1, a2);
        } else {
            lemma_piece_low_mono(dc, a1, ACC_MID as int);
        }
    } else if a1 <= ACC_HIGH {
        if a2 <= ACC_HIGH {
            lemma_piece_mid_mono(dc, a1, a2);
        } else {
            lemma_piece_mid_mono(dc, a1, ACC_HIGH as int);
        }
    } else if a1 <= ACC_PEAK {
        if a2 <= ACC_PEAK {
            lemma_piece_high_mono(dc, a1, a2);
        } else {
            lemma_piece_high_mono(dc, a1, ACC_PEAK as int);
        }
    } else if a1 <= ACC_TOP {
        if a2 <= ACC_TOP {
            lemma_piece_peak_mono(dc, a1, a2);
        } else {
            lemma_piece_peak_mono(dc, a1, ACC_TOP as int);
        }
    } else {
        lemma_piece_top_mono(dc, a1, a2);
    }
}

proof fn lemma_piece_low_mono(dc: int, a1: int, a2: int)
    requires
        0 <= dc,
        ACC_LOW <= a1 <= a2 <= ACC_MID,
    ensures
        piece_low(dc, a1) <= piece_low(dc, a2),
{
    let lb = lower_bound_spec(dc);
    assert(lb * (a1 - ACC_LOW) <= lb * (a2 - ACC_LOW)) by (nonlinear_arith)
        requires
            0 <= lb,
            a1 <= a2,
    ;
    lemma_div_is_ordered(lb * (a1 - ACC_LOW), lb * (a2 - ACC_LOW), 13 * SCALE);
}

proof fn lemma_piece_mid_mono(dc: int, a1: int, a2: int)
    requires
        0 <= dc,
        ACC_MID <= a1 <= a2 <= ACC_HIGH,
    ensures
        piece_mid(dc, a1) <= piece_mid(dc, a2),
{
    let lb = lower_bound_spec(dc);
    assert((dc - lb) * (a1 - ACC_MID) <= (dc - lb) * (a2 - ACC_MID)) by (nonlinear_arith)
        requires
            0 <= dc - lb,
            a1 <= a2,
    ;
    lemma_div_is_ordered((dc - lb) * (a1 - ACC_MID), (dc - lb) * (a2 - ACC_MID), 3 * SCALE);
}

proof fn lemma_piece_high_mono(dc: int, a1: int, a2: int)
    requires
        ACC_HIGH <= a1 <= a2 <= ACC_PEAK,
    ensures
        piece_high(dc, a1) <= piece_high(dc, a2),
{
    let x1 = a1 - ACC_HIGH;
    let x2 = a2 - ACC_HIGH;
    lemma_div_is_ordered_by_denominator(3 * x1 * SCALE, 6 * SCALE - x2, 6 * SCALE - x1);
    lemma_div_is_ordered(3 * x1 * SCALE, 3 * x2 * SCALE, 6 * SCALE - x2);
}

proof fn lemma_piece_peak_mono(dc: int, a1: int, a2: int)
    requires
        ACC_PEAK <= a1 <= a2 <= ACC_TOP,
    ensures
        piece_peak(dc, a1) <= piece_peak(dc, a2),
{
    let u1 = a1 - ACC_PEAK;
    let u2 = a2 - ACC_PEAK;
    lemma_div_is_ordered_by_denominator(8 * u1 * SCALE, 9 * SCALE - 2 * u2, 9 * SCALE - 2 * u1);
    lemma_div_is_ordered(8 * u1 * SCALE, 8 * u2 * SCALE, 9 * SCALE - 2 * u2);
}

proof fn lemma_piece_top_mono(dc: int, a1: int, a2: int)
    requires
        ACC_TOP <= a1 <= a2 <= ACC_FULL,
    ensures
        piece_top(dc, a1) <= piece_top(dc, a2),
{
    let v1 = a1 - ACC_TOP;
    let v2 = a2 - ACC_TOP;
    lemma_div_is_ordered_by_denominator(4 * v1 * SCALE, 3 * SCALE - 2 * v2, 3 * SCALE - 2 * v1);
    lemma_div_is_ordered(4 * v1 * SCALE, 4 * v2 * SCALE, 3 * SCALE - 2 * v2);
}

proof fn lemma_piece_bounds(dc: int, acc: int)
    requires
        0 <= dc,
    ensures
        ACC_LOW <= acc <= ACC_MID ==> 0 <= piece_low(dc, acc) <= lower_bound_spec(dc),
        ACC_MID <= acc <= ACC_HIGH ==> lower_bound_spec(dc) <= piece_mid(dc, acc) <= dc,
        ACC_HIGH <= acc <= ACC_PEAK ==> dc <= piece_high(dc, acc) <= dc + 3 * SCALE / 2,
        ACC_PEAK <= acc <= ACC_TOP ==> dc + 3 * SCALE / 2 <= piece_peak(dc, acc) <= dc + 7 * SCALE
            / 2,
        ACC_TOP <= acc <= ACC_FULL ==> dc + 7 * SCALE / 2 <= piece_top(dc, acc) <= dc + 9 * SCALE
            / 2,
{
    let lb = lower_bound_spec(dc);
    if ACC_LOW <= acc <= ACC_MID {
        assert(lb * (acc - ACC_LOW) <= 13 * SCALE * lb) by (nonlinear_arith)
            requires
                0 <= lb,
                acc - ACC_LOW <= 13 * SCALE,
        ;
        lemma_ratio_bounds(lb * (acc - ACC_LOW), 13 * SCALE, lb);
    }
    if ACC_MID <= acc <= ACC_HIGH {
        assert((dc - lb) * (acc - ACC_MID) <= 3 * SCALE * (dc - lb)) by (nonlinear_arith)
            requires
                0 <= dc - lb,
                acc - ACC_MID <= 3 * SCALE,
        ;
        lemma_ratio_bounds((dc - lb) * (acc - ACC_MID), 3 * SCALE, dc - lb);
    }
    if ACC_HIGH <= acc <= ACC_PEAK {
        let x = acc - ACC_HIGH;
        assert(3 * x * SCALE <= (6 * SCALE - x) * (3 * SCALE / 2)) by (nonlinear_arith)
            requires
                0 <= x <= 2 * SCALE,
        ;
        lemma_ratio_bounds(3 * x * SCALE, 6 * SCALE - x, 3 * SCALE / 2);
    }
    if ACC_PEAK <= acc <= ACC_TOP {
        let u = acc - ACC_PEAK;
        assert(8 * u * SCALE <= (9 * SCALE - 2 * u) * (2 * SCALE)) by (nonlinear_arith)
            requires
                0 <= u <= 3 * SCALE / 2,
        ;
        lemma_ratio_bounds(8 * u * SCALE, 9 * SCALE - 2 * u, 2 * SCALE);
    }
    if ACC_TOP <= acc <= ACC_FULL {
        let v = acc - ACC_TOP;
        assert(4 * v * SCALE <= (3 * SCALE - 2 * v) * SCALE) by (nonlinear_arith)
            requires
                0 <= v <= SCALE / 2,
        ;
        lemma_ratio_bounds(4 * v * SCALE, 3 * SCALE - 2 * v, SCALE as int);
    }
}

/// For a non-negative numerator and positive denominator, the quotient sits
/// between 0 and any `cap` with `num <= den * cap`.
pub proof fn lemma_ratio_bounds(num: int, den: int, cap: int)
    requires
        0 <= num,
        0 < den,
        num <= den * cap,
    ensures
        0 <= num / den <= cap,
{
    assert(0 <= num / den && num / den <= cap) by (nonlinear_arith)
        requires
            0 <= num,
            0 < den,
            num <= den * cap,
    ;
}

} // verus!
