//! Export layout, the exported-selection average, decimal formatting and
//! replay-name timestamps.

use mania_rating::export::{
    average_selected_rating, export_layout, format_length_str, generate_export_data,
    ScoreTileBase64,
};
use mania_rating::mods::Mods;
use mania_rating::records::{BeatmapMeta, PlayRecord, RatingInfo, RatingMapInfo};
use mania_rating::times::{get_replay_file_name, get_replay_timestamp};

fn tile(index: i32, data: &str) -> ScoreTileBase64 {
    ScoreTileBase64 {
        index,
        base64_string: data.to_string(),
    }
}

fn rated(rating: i64) -> RatingInfo {
    RatingInfo {
        map_info: RatingMapInfo {
            hash: "h".to_string(),
            path: "p".to_string(),
            info: BeatmapMeta {
                column_count: 6,
                sr: None,
            },
        },
        score_info: PlayRecord {
            player: "p".to_string(),
            mods: Mods { bits: 0 },
            judgement_num: [0; 6],
            accuracy: 0,
            accuracy_rating: 0,
            timestamp: 0,
        },
        diff_const: 0,
        rating,
    }
}

#[test]
fn export_grid_has_three_columns() {
    let tiles = vec![
        tile(0, "a"),
        tile(1, "b"),
        tile(2, "c"),
        tile(3, "d"),
        tile(4, "e"),
    ];
    let cards = generate_export_data(tiles);
    assert_eq!(cards.len(), 5);
    let offsets: Vec<(u32, u32)> = cards.iter().map(|c| (c.x_offset, c.y_offset)).collect();
    assert_eq!(
        offsets,
        vec![
            (0, 350),
            (1200, 350),
            (2400, 350),
            (0, 700),
            (1200, 700)
        ]
    );
    assert_eq!(cards[3].base64_data, "d");
}

#[test]
fn export_layout_rounds_rows_up() {
    // 5 tiles: two grid rows plus the header row.
    assert_eq!(export_layout(5), (1050, 1200));
    // 6 tiles still fit in two rows; 7 need three.
    assert_eq!(export_layout(6), (1050, 1200));
    assert_eq!(export_layout(7), (1400, 1550));
    assert_eq!(export_layout(0), (350, 500));
}

#[test]
fn average_counts_each_exported_index_once() {
    let ratings = vec![rated(10), rated(20), rated(40)];
    // Indexes 0 and 2 exported: (10 + 40) / 2.
    assert_eq!(average_selected_rating(&ratings, &vec![0, 2]), 25);
    // A repeated index inflates only the denominator: (10 + 40) / 3.
    assert_eq!(average_selected_rating(&ratings, &vec![0, 2, 2]), 16);
    // An out-of-range index contributes nothing: (10) / 2.
    assert_eq!(average_selected_rating(&ratings, &vec![0, 9]), 5);
    assert_eq!(average_selected_rating(&ratings, &Vec::new()), 0);
}

#[test]
fn length_formats_minutes_and_padded_seconds() {
    assert_eq!(format_length_str(95_000), "1:35");
    assert_eq!(format_length_str(60_000), "1:00");
    assert_eq!(format_length_str(59_999), "0:59");
    assert_eq!(format_length_str(605_000), "10:05");
    assert_eq!(format_length_str(0), "0:00");
}

#[test]
fn replay_timestamp_counts_ticks_since_1601() {
    // The Unix epoch is 11644473600 seconds after 1601-01-01.
    assert_eq!(get_replay_timestamp(0), 116_444_736_000_000_000);
    assert_eq!(get_replay_timestamp(1), 116_444_736_000_010_000);
}

#[test]
fn replay_file_name_joins_hash_and_ticks() {
    assert_eq!(
        get_replay_file_name(0, "cafe"),
        "cafe-116444736000000000.osr"
    );
}
