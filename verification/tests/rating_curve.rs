//! The rating curve: dead zone, exact piece values, boundary agreement and
//! monotonicity, and the mod-aware star-rating selection.

use mania_rating::mods::{Mods, MOD_DOUBLE_TIME, MOD_HALF_TIME, MOD_NIGHTCORE, MOD_RANDOM};
use mania_rating::rating::{calc_diff_const, calc_mod_rating, calc_rating, SCALE};

const S: i64 = SCALE;

#[test]
fn rating_zero_below_eighty() {
    for acc in [0, 1, 50 * S, 79 * S, 80 * S] {
        assert_eq!(calc_rating(10 * S, acc), 0);
    }
}

#[test]
fn rating_zero_outside_range() {
    assert_eq!(calc_rating(10 * S, -1), 0);
    assert_eq!(calc_rating(10 * S, 100 * S + 1), 0);
    assert_eq!(calc_rating(0, -5 * S), 0);
}

#[test]
fn rating_piece_values_exact() {
    // dc = 10, lower bound 7.
    let dc = 10 * S;
    // 86.5%: 7 * 6.5 / 13 = 3.5
    assert_eq!(calc_rating(dc, 86_500_000), 3_500_000);
    // 94.5%: 3 * 1.5 / 3 + 7 = 8.5
    assert_eq!(calc_rating(dc, 94_500_000), 8_500_000);
    // 97%: 1.5 * 1 / (3 - 0.5) + 10 = 10.6
    assert_eq!(calc_rating(dc, 97 * S), 10_600_000);
    // 98.75%: x = 0.5, 2 * 0.5 * 2 / 2.5 + 10 + 1.5 = 12.3
    assert_eq!(calc_rating(dc, 98_750_000), 12_300_000);
    // 99.75%: x = 0.5, 0.5 * 2 / 2.5 + 10 + 3.5 = 13.9
    assert_eq!(calc_rating(dc, 99_750_000), 13_900_000);
}

#[test]
fn rating_continuous_at_boundaries() {
    // At every piece boundary the curve value is the exact shared limit,
    // for several difficulty constants.
    for dc_units in [5, 10, 20] {
        let dc = dc_units * S;
        let lb = dc - 3 * S;
        assert_eq!(calc_rating(dc, 80 * S), 0);
        assert_eq!(calc_rating(dc, 93 * S), lb);
        assert_eq!(calc_rating(dc, 96 * S), dc);
        assert_eq!(calc_rating(dc, 98 * S), dc + 3 * S / 2);
        assert_eq!(calc_rating(dc, 99_500_000), dc + 7 * S / 2);
        assert_eq!(calc_rating(dc, 100 * S), dc + 9 * S / 2);
    }
}

#[test]
fn rating_small_dc_lower_bound_clamps() {
    // dc = 2 is below 3, so the lower bound clamps to zero and the first
    // piece is flat zero up to 93%.
    let dc = 2 * S;
    assert_eq!(calc_rating(dc, 90 * S), 0);
    assert_eq!(calc_rating(dc, 93 * S), 0);
    // 94.5%: (2 - 0) * 1.5 / 3 + 0 = 1
    assert_eq!(calc_rating(dc, 94_500_000), S);
    assert_eq!(calc_rating(dc, 96 * S), dc);
}

#[test]
fn rating_monotonic_samples() {
    for dc_units in [0, 2, 5, 10, 20] {
        let dc = dc_units * S;
        let mut last = 0;
        let mut acc = 0;
        while acc <= 100 * S {
            let r = calc_rating(dc, acc);
            assert!(r >= last, "curve decreased at dc={dc} acc={acc}");
            last = r;
            acc += 250_000; // steps of 0.25%
        }
    }
}

#[test]
fn diff_const_formula() {
    // sr = 0: 7/6 scaled, rounded down.
    assert_eq!(calc_diff_const(0), 1_166_666);
    // sr = 8.1: 8.1 * 200 / 81 + 7/6 = 20 + 7/6
    assert_eq!(calc_diff_const(8_100_000), 21_166_666);
}

#[test]
fn mod_rating_selects_half_time_slot() {
    let srs = (2 * S, 4 * S, 6 * S);
    let ht = Mods { bits: MOD_HALF_TIME };
    let none = Mods { bits: 0 };
    // Half-time uses the first slot: same result as normal speed on a
    // triple whose normal slot holds that star rating.
    assert_eq!(
        calc_mod_rating(ht, srs, 95 * S),
        calc_mod_rating(none, (0, 2 * S, 0), 95 * S)
    );
}

#[test]
fn mod_rating_selects_double_time_slot() {
    let srs = (2 * S, 4 * S, 6 * S);
    let none = Mods { bits: 0 };
    let dt = Mods { bits: MOD_DOUBLE_TIME };
    let nc = Mods { bits: MOD_NIGHTCORE };
    let expected = calc_mod_rating(none, (0, 6 * S, 0), 95 * S);
    assert_eq!(calc_mod_rating(dt, srs, 95 * S), expected);
    assert_eq!(calc_mod_rating(nc, srs, 95 * S), expected);
}

#[test]
fn mod_rating_selects_normal_slot() {
    let srs = (2 * S, 4 * S, 6 * S);
    let none = Mods { bits: 0 };
    let random = Mods { bits: MOD_RANDOM };
    let expected = calc_mod_rating(none, (0, 4 * S, 0), 95 * S);
    assert_eq!(calc_mod_rating(none, srs, 95 * S), expected);
    // Other modifier combinations fall back to normal speed too.
    assert_eq!(calc_mod_rating(random, srs, 95 * S), expected);
}

#[test]
fn mod_rating_half_time_beats_double_time() {
    let srs = (2 * S, 4 * S, 6 * S);
    let both = Mods {
        bits: MOD_HALF_TIME | MOD_DOUBLE_TIME,
    };
    let none = Mods { bits: 0 };
    assert_eq!(
        calc_mod_rating(both, srs, 95 * S),
        calc_mod_rating(none, (0, 2 * S, 0), 95 * S)
    );
}
