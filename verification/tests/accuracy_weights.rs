//! The two display-accuracy weightings and the accuracy-rating weighting,
//! selected solely by the score-v2 modifier bit.

use mania_rating::accuracy::{accuracy_pair, accuracy_rating, display_accuracy};
use mania_rating::mods::{Mods, MOD_HARD_ROCK, MOD_SCORE_V2};

#[test]
fn accuracy_rating_uses_310_weighting() {
    // One judgement in each tier: (310+300+200+100+50) / (3.1 * 6) %.
    let counts = [1, 1, 1, 1, 1, 1];
    assert_eq!(accuracy_rating(&counts), 51_612_903);
}

#[test]
fn display_accuracy_uses_300_weighting() {
    // (300 * 2 + 200 + 100 + 50) / (3 * 6) %.
    let counts = [1, 1, 1, 1, 1, 1];
    let plain = Mods { bits: 0 };
    assert_eq!(display_accuracy(&counts, plain), 52_777_777);
}

#[test]
fn display_accuracy_v2_uses_305_weighting() {
    // (305 + 300 + 200 + 100 + 50) / (3.05 * 6) %.
    let counts = [1, 1, 1, 1, 1, 1];
    let v2 = Mods { bits: MOD_SCORE_V2 };
    assert_eq!(display_accuracy(&counts, v2), 52_185_792);
}

#[test]
fn perfect_play_is_hundred_percent_under_every_weighting() {
    let counts = [5, 0, 0, 0, 0, 0];
    let plain = Mods { bits: 0 };
    let v2 = Mods { bits: MOD_SCORE_V2 };
    assert_eq!(accuracy_rating(&counts), 100_000_000);
    assert_eq!(display_accuracy(&counts, plain), 100_000_000);
    assert_eq!(display_accuracy(&counts, v2), 100_000_000);
}

#[test]
fn empty_play_yields_zero_not_an_error() {
    let counts = [0, 0, 0, 0, 0, 0];
    let plain = Mods { bits: 0 };
    let v2 = Mods { bits: MOD_SCORE_V2 };
    assert_eq!(accuracy_rating(&counts), 0);
    assert_eq!(display_accuracy(&counts, plain), 0);
    assert_eq!(display_accuracy(&counts, v2), 0);
}

#[test]
fn accuracy_pair_switches_display_only() {
    let counts = [10, 5, 3, 2, 1, 4];
    let plain = Mods { bits: MOD_HARD_ROCK };
    let v2 = Mods {
        bits: MOD_HARD_ROCK | MOD_SCORE_V2,
    };
    let (acc_plain, rating_plain) = accuracy_pair(&counts, plain);
    let (acc_v2, rating_v2) = accuracy_pair(&counts, v2);
    // The score-v2 bit changes the display accuracy but never the
    // accuracy-rating.
    assert_ne!(acc_plain, acc_v2);
    assert_eq!(rating_plain, rating_v2);
    assert_eq!(acc_plain, display_accuracy(&counts, plain));
    assert_eq!(acc_v2, display_accuracy(&counts, v2));
    assert_eq!(rating_plain, accuracy_rating(&counts));
}
