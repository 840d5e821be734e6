//! Extraction of per-player buckets: sorting, per-beatmap deduplication,
//! reserved-key disambiguation, and the assembled table.

use mania_rating::mods::Mods;
use mania_rating::ranking::{
    bucket_key, dedup_best_by_hash, distinct_players, prepare_ratings, ratings_of_player,
    sort_ratings_desc, top_ratings,
};
use mania_rating::records::{BeatmapMeta, PlayRecord, RatingInfo, RatingMapInfo};

fn entry(player: &str, hash: &str, rating: i64, timestamp: i64) -> RatingInfo {
    RatingInfo {
        map_info: RatingMapInfo {
            hash: hash.to_string(),
            path: format!("songs/{hash}.osu"),
            info: BeatmapMeta {
                column_count: 6,
                sr: Some(20_000_000),
            },
        },
        score_info: PlayRecord {
            player: player.to_string(),
            mods: Mods { bits: 0 },
            judgement_num: [1, 0, 0, 0, 0, 0],
            accuracy: 100_000_000,
            accuracy_rating: 100_000_000,
            timestamp,
        },
        diff_const: 50_000_000,
        rating,
    }
}

#[test]
fn sort_by_rating_is_descending_permutation() {
    let mut v = vec![
        entry("a", "h1", 5, 1),
        entry("a", "h2", 9, 2),
        entry("a", "h3", 1, 3),
        entry("a", "h4", 9, 4),
    ];
    sort_ratings_desc(&mut v, false);
    let ratings: Vec<i64> = v.iter().map(|x| x.rating).collect();
    assert_eq!(ratings, vec![9, 9, 5, 1]);
}

#[test]
fn sort_by_timestamp_is_descending() {
    let mut v = vec![
        entry("a", "h1", 5, 10),
        entry("a", "h2", 9, 30),
        entry("a", "h3", 1, 20),
    ];
    sort_ratings_desc(&mut v, true);
    let stamps: Vec<i64> = v.iter().map(|x| x.score_info.timestamp).collect();
    assert_eq!(stamps, vec![30, 20, 10]);
}

#[test]
fn dedup_keeps_best_per_hash() {
    let v = vec![
        entry("a", "h1", 9, 1),
        entry("a", "h2", 8, 2),
        entry("a", "h1", 7, 3),
        entry("a", "h2", 3, 4),
    ];
    let d = dedup_best_by_hash(&v);
    assert_eq!(d.len(), 2);
    assert_eq!(d[0].map_info.hash, "h1");
    assert_eq!(d[0].rating, 9);
    assert_eq!(d[1].map_info.hash, "h2");
    assert_eq!(d[1].rating, 8);
}

#[test]
fn distinct_players_lists_each_name_once() {
    let v = vec![
        entry("alice", "h1", 1, 1),
        entry("bob", "h2", 2, 2),
        entry("alice", "h3", 3, 3),
    ];
    let names = distinct_players(&v);
    assert_eq!(names.len(), 2);
    assert!(names.contains(&"alice".to_string()));
    assert!(names.contains(&"bob".to_string()));
}

#[test]
fn ratings_of_player_filters_in_order() {
    let v = vec![
        entry("alice", "h1", 1, 1),
        entry("bob", "h2", 2, 2),
        entry("alice", "h3", 3, 3),
    ];
    let mine = ratings_of_player(&v, &"alice".to_string());
    assert_eq!(mine.len(), 2);
    assert_eq!(mine[0].map_info.hash, "h1");
    assert_eq!(mine[1].map_info.hash, "h3");
}

#[test]
fn bucket_key_leaves_ordinary_names_alone() {
    assert_eq!(bucket_key(&"alice".to_string()), "alice");
    assert_eq!(bucket_key(&"Recent 30".to_string()), "Recent 30");
}

#[test]
fn bucket_key_disambiguates_reserved_names() {
    assert_eq!(
        bucket_key(&"[Recent 30]".to_string()),
        "[Recent 30] (Player)"
    );
    assert_eq!(
        bucket_key(&"[All Players]".to_string()),
        "[All Players] (Player)"
    );
}

#[test]
fn two_plays_same_map_keep_only_the_better() {
    // Two plays by Alice on the same beatmap hash, rated 10.0 and 12.5:
    // her final bucket holds exactly one entry for that hash, rated 12.5.
    let all = vec![
        entry("Alice", "feedbeef", 10_000_000, 1),
        entry("Alice", "feedbeef", 12_500_000, 2),
    ];
    let best = vec![entry("Alice", "feedbeef", 12_500_000, 2)];
    let table = prepare_ratings(all, best);
    let bucket = table.get(&"Alice".to_string()).expect("Alice has a bucket");
    assert_eq!(bucket.len(), 1);
    assert_eq!(bucket[0].map_info.hash, "feedbeef");
    assert_eq!(bucket[0].rating, 12_500_000);
}

#[test]
fn reserved_buckets_are_never_overwritten() {
    // A player literally named like a reserved bucket key is stored under
    // a disambiguated key; the aggregates stay under the reserved keys.
    let all = vec![
        entry("[Recent 30]", "h1", 7, 5),
        entry("[Recent 30]", "h2", 9, 6),
        entry("bob", "h1", 4, 7),
    ];
    let best = vec![entry("[Recent 30]", "h2", 9, 6)];
    let table = prepare_ratings(all, best);

    // The reserved keys hold the aggregates.
    let recent = table.get(&"[Recent 30]".to_string()).expect("recent");
    assert_eq!(recent.len(), 3);
    let stamps: Vec<i64> = recent.iter().map(|x| x.score_info.timestamp).collect();
    assert_eq!(stamps, vec![7, 6, 5]);
    let allp = table.get(&"[All Players]".to_string()).expect("all players");
    assert_eq!(allp.len(), 1);
    assert_eq!(allp[0].rating, 9);

    // The player's bucket sits under the disambiguated key.
    let renamed = table
        .get(&"[Recent 30] (Player)".to_string())
        .expect("renamed player bucket");
    assert_eq!(renamed.len(), 2);
    assert_eq!(renamed[0].rating, 9);
    assert_eq!(renamed[1].rating, 7);
}

#[test]
fn player_buckets_sorted_without_duplicate_hashes() {
    let all = vec![
        entry("carol", "h1", 3, 1),
        entry("carol", "h2", 8, 2),
        entry("carol", "h1", 6, 3),
        entry("carol", "h3", 5, 4),
        entry("dave", "h1", 2, 5),
    ];
    let best = vec![entry("carol", "h2", 8, 2)];
    let table = prepare_ratings(all, best);
    let carol = table.get(&"carol".to_string()).expect("carol");
    // Sorted non-increasing by rating.
    for w in carol.windows(2) {
        assert!(w[0].rating >= w[1].rating);
    }
    // No duplicate beatmap hashes.
    for i in 0..carol.len() {
        for j in i + 1..carol.len() {
            assert_ne!(carol[i].map_info.hash, carol[j].map_info.hash);
        }
    }
    assert_eq!(carol.len(), 3);
    let ratings: Vec<i64> = carol.iter().map(|x| x.rating).collect();
    assert_eq!(ratings, vec![8, 6, 5]);
}

#[test]
fn missing_bucket_lookup_returns_none() {
    let table = prepare_ratings(Vec::new(), Vec::new());
    assert!(table.get(&"nobody".to_string()).is_none());
    assert!(table.get(&"[Recent 30]".to_string()).is_some());
    assert!(table.get(&"[All Players]".to_string()).is_some());
}

#[test]
fn top_ratings_takes_the_leading_entries() {
    let v = vec![
        entry("a", "h1", 9, 1),
        entry("a", "h2", 7, 2),
        entry("a", "h3", 5, 3),
    ];
    let top = top_ratings(&v, 2);
    assert_eq!(top.len(), 2);
    assert_eq!(top[0].rating, 9);
    assert_eq!(top[1].rating, 7);
    assert_eq!(top_ratings(&v, 30).len(), 3);
    assert_eq!(top_ratings(&v, 0).len(), 0);
}
