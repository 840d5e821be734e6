//! Historical extraction and per-beatmap aggregation.

use mania_rating::aggregate::{collect_ratings, filter_random_plays, rate_beatmap, speed_flags};
use mania_rating::mods::{Mods, MOD_DOUBLE_TIME, MOD_HALF_TIME, MOD_RANDOM, MOD_SCORE_V2};
use mania_rating::extract::extract_plays;
use mania_rating::rating::{calc_mod_rating, SCALE};
use mania_rating::records::{BeatmapMeta, CatalogEntry, PlayRecord, ScoreEntry};

fn chart(mode: u8, columns: u8, folder: &str, file: &str, hash: &str) -> CatalogEntry {
    CatalogEntry {
        mode,
        column_count: columns,
        folder_name: Some(folder.to_string()),
        file_name: Some(file.to_string()),
        hash: Some(hash.to_string()),
    }
}

fn play(mode: u8, hash: &str, player: &str, counts: [u32; 6], bits: u32, ts: i64) -> ScoreEntry {
    ScoreEntry {
        mode,
        mods: Mods { bits },
        judgement_num: counts,
        player_name: Some(player.to_string()),
        beatmap_hash: Some(hash.to_string()),
        timestamp: ts,
    }
}

fn record(bits: u32, acc_rating: i64) -> PlayRecord {
    PlayRecord {
        player: "p".to_string(),
        mods: Mods { bits },
        judgement_num: [1, 0, 0, 0, 0, 0],
        accuracy: acc_rating,
        accuracy_rating: acc_rating,
        timestamp: 0,
    }
}

#[test]
fn extract_filters_catalog_rows() {
    let catalog = vec![
        chart(3, 6, "f1", "a.osu", "h1"),
        chart(0, 6, "f2", "b.osu", "h2"),  // wrong mode
        chart(3, 4, "f3", "c.osu", "h3"),  // wrong column count
        CatalogEntry {
            mode: 3,
            column_count: 6,
            folder_name: None,
            file_name: Some("d.osu".to_string()),
            hash: Some("h4".to_string()),
        },  // missing folder
    ];
    let store = extract_plays(catalog, Vec::new());
    assert_eq!(store.len(), 1);
    assert_eq!(store[0].0, "h1");
    assert_eq!(store[0].1.path, "f1/a.osu");
    assert!(store[0].1.plays.is_empty());
}

#[test]
fn extract_routes_plays_by_hash() {
    let catalog = vec![
        chart(3, 6, "f1", "a.osu", "h1"),
        chart(3, 6, "f2", "b.osu", "h2"),
    ];
    let scores = vec![
        play(3, "h1", "alice", [1, 1, 1, 1, 1, 1], 0, 10),
        play(3, "h2", "bob", [2, 0, 0, 0, 0, 0], 0, 20),
        play(3, "h1", "carol", [0, 3, 0, 0, 0, 0], 0, 30),
        play(0, "h1", "dave", [1, 0, 0, 0, 0, 0], 0, 40),    // wrong mode
        play(3, "nope", "erin", [1, 0, 0, 0, 0, 0], 0, 50),  // unknown hash: dropped
        ScoreEntry {
            mode: 3,
            mods: Mods { bits: 0 },
            judgement_num: [1, 0, 0, 0, 0, 0],
            player_name: None,
            beatmap_hash: Some("h1".to_string()),
            timestamp: 60,
        },  // nameless: dropped
    ];
    let store = extract_plays(catalog, scores);
    assert_eq!(store.len(), 2);
    let h1 = &store[0].1;
    assert_eq!(h1.plays.len(), 2);
    assert_eq!(h1.plays[0].player, "alice");
    assert_eq!(h1.plays[1].player, "carol");
    let h2 = &store[1].1;
    assert_eq!(h2.plays.len(), 1);
    assert_eq!(h2.plays[0].player, "bob");
}

#[test]
fn extract_computes_both_accuracies() {
    let catalog = vec![chart(3, 6, "f", "a.osu", "h1")];
    let scores = vec![
        play(3, "h1", "alice", [1, 1, 1, 1, 1, 1], 0, 1),
        play(3, "h1", "alice", [1, 1, 1, 1, 1, 1], MOD_SCORE_V2, 2),
    ];
    let store = extract_plays(catalog, scores);
    let plays = &store[0].1.plays;
    assert_eq!(plays[0].accuracy, 52_777_777);
    assert_eq!(plays[0].accuracy_rating, 51_612_903);
    assert_eq!(plays[1].accuracy, 52_185_792);
    assert_eq!(plays[1].accuracy_rating, 51_612_903);
}

#[test]
fn extract_keeps_last_duplicate_hash() {
    let catalog = vec![
        chart(3, 6, "f1", "a.osu", "h1"),
        chart(3, 6, "f2", "b.osu", "h1"),
    ];
    let store = extract_plays(catalog, Vec::new());
    assert_eq!(store.len(), 1);
    assert_eq!(store[0].1.path, "f2/b.osu");
}

#[test]
fn random_plays_are_dropped_entirely() {
    let plays = vec![
        record(0, 90_000_000),
        record(MOD_RANDOM, 95_000_000),
        record(MOD_HALF_TIME, 91_000_000),
    ];
    let kept = filter_random_plays(plays);
    assert_eq!(kept.len(), 2);
    assert_eq!(kept[0].mods.bits, 0);
    assert_eq!(kept[1].mods.bits, MOD_HALF_TIME);
}

#[test]
fn speed_flags_mark_only_used_variants() {
    let plays = vec![record(MOD_HALF_TIME, 0), record(MOD_HALF_TIME, 0)];
    assert_eq!(speed_flags(&plays), (true, false, false));
    let plays = vec![record(0, 0), record(MOD_DOUBLE_TIME, 0)];
    assert_eq!(speed_flags(&plays), (false, true, true));
    // A play with both half-time and double-time counts as half-time only.
    let plays = vec![record(MOD_HALF_TIME | MOD_DOUBLE_TIME, 0)];
    assert_eq!(speed_flags(&plays), (true, false, false));
    assert_eq!(speed_flags(&Vec::new()), (false, false, false));
}

#[test]
fn rate_beatmap_rates_every_play_and_finds_best() {
    let s = SCALE;
    let meta = BeatmapMeta {
        column_count: 6,
        sr: Some(4 * s),
    };
    let plays = vec![
        record(0, 90 * s),
        record(0, 97 * s),
        record(MOD_HALF_TIME, 99 * s),
    ];
    let srs = (2 * s, 4 * s, 6 * s);
    let rated = rate_beatmap(
        &"h1".to_string(),
        &"f/a.osu".to_string(),
        meta,
        srs,
        &plays,
    );
    assert_eq!(rated.ratings.len(), 3);
    for (i, p) in plays.iter().enumerate() {
        let (dc, r) = calc_mod_rating(p.mods, srs, p.accuracy_rating);
        assert_eq!(rated.ratings[i].diff_const, dc);
        assert_eq!(rated.ratings[i].rating, r);
        assert_eq!(rated.ratings[i].map_info.hash, "h1");
    }
    let best = &rated.ratings[rated.best];
    for r in &rated.ratings {
        assert!(best.rating >= r.rating);
    }
}

#[test]
fn collect_ratings_concatenates_and_picks_bests() {
    let s = SCALE;
    let meta = BeatmapMeta {
        column_count: 6,
        sr: Some(4 * s),
    };
    let srs = (0, 4 * s, 0);
    let g1 = rate_beatmap(
        &"h1".to_string(),
        &"f/a.osu".to_string(),
        meta,
        srs,
        &vec![record(0, 90 * s), record(0, 99 * s)],
    );
    let g2 = rate_beatmap(
        &"h2".to_string(),
        &"f/b.osu".to_string(),
        meta,
        srs,
        &vec![record(0, 95 * s)],
    );
    let groups = vec![g1, g2];
    let (all, best) = collect_ratings(&groups);
    assert_eq!(all.len(), 3);
    assert_eq!(best.len(), 2);
    assert_eq!(all[0].map_info.hash, "h1");
    assert_eq!(all[2].map_info.hash, "h2");
    assert_eq!(best[0].rating, groups[0].ratings[groups[0].best].rating);
    assert_eq!(best[1].rating, groups[1].ratings[groups[1].best].rating);
}

#[test]
fn default_play_record_is_empty() {
    let rec = PlayRecord::default();
    assert_eq!(rec.player, "");
    assert_eq!(rec.mods.bits, 0);
    assert_eq!(rec.judgement_num, [0; 6]);
    assert_eq!(rec.accuracy, 0);
    assert_eq!(rec.accuracy_rating, 0);
    assert_eq!(rec.timestamp, 0);
}
