//! The record types that flow through extraction, aggregation and ranking.
//!
//! Beatmap content hashes, player names and filesystem paths are carried as
//! plain strings; timestamps are UTC instants in milliseconds; accuracies,
//! star ratings, difficulty constants and ratings are fixed-point values
//! scaled by `rating::SCALE`.

use crate::mods::Mods;
use vstd::prelude::*;

verus! {

/// The game mode this tool rates.
pub const MODE_MANIA: u8 = 3;

/// The only supported column count; beatmaps with any other count are
/// excluded from rating.
pub const SUPPORTED_COLUMNS: u8 = 6;

/// One play as stored in the rating tables: who played, with which
/// modifiers, the judgement counts (best to worst), both accuracy figures
/// and when the play happened.  Immutable once constructed.
#[derive(Debug)]
pub struct PlayRecord {
    pub player: String,
    pub mods: Mods,
    pub judgement_num: [u32; 6],
    pub accuracy: i64,
    pub accuracy_rating: i64,
    pub timestamp: i64,
}

impl Clone for PlayRecord {
    fn clone(&self) -> (r: Self)
        ensures
            r == *self,
    {
        PlayRecord {
            player: self.player.clone(),
            mods: self.mods,
            judgement_num: self.judgement_num,
            accuracy: self.accuracy,
            accuracy_rating: self.accuracy_rating,
            timestamp: self.timestamp,
        }
    }
}

impl Default for PlayRecord {
    /// An empty play: no player, no modifiers, no judgements, zero
    /// accuracies, at the epoch.
    fn default() -> (r: Self)
        ensures
            r.player@ == Seq::<char>::empty(),
            r.mods.bits == 0,
            r.judgement_num == [0u32, 0u32, 0u32, 0u32, 0u32, 0u32],
            r.accuracy == 0,
            r.accuracy_rating == 0,
            r.timestamp == 0,
    {
        PlayRecord {
            player: String::new(),
            mods: Mods { bits: 0 },
            judgement_num: [0, 0, 0, 0, 0, 0],
            accuracy: 0,
            accuracy_rating: 0,
            timestamp: 0,
        }
    }
}

/// One row of the externally parsed beatmap catalog, reduced to the fields
/// the extraction pass reads.
#[derive(Debug)]
pub struct CatalogEntry {
    pub mode: u8,
    pub column_count: u8,
    pub folder_name: Option<String>,
    pub file_name: Option<String>,
    pub hash: Option<String>,
}

/// One row of the externally parsed score history, reduced to the fields the
/// extraction pass reads.
#[derive(Debug)]
pub struct ScoreEntry {
    pub mode: u8,
    pub mods: Mods,
    pub judgement_num: [u32; 6],
    pub player_name: Option<String>,
    pub beatmap_hash: Option<String>,
    pub timestamp: i64,
}

/// The plays collected for one catalogued beatmap: its content path
/// (relative to the songs directory) and every matching play.  Built fresh
/// by each extraction pass and consumed by aggregation.
#[derive(Debug)]
pub struct BeatmapStoreInfo {
    pub path: String,
    pub plays: Vec<PlayRecord>,
}

/// External beatmap metadata, reduced to what rating needs: the column count
/// and the cached star rating at normal speed, if one is known.
#[derive(Clone, Copy, PartialEq, Eq, Structural, Debug)]
pub struct BeatmapMeta {
    pub column_count: u8,
    pub sr: Option<i64>,
}

/// Identity of a rated beatmap: content hash, content path and metadata.
#[derive(Debug)]
pub struct RatingMapInfo {
    pub hash: String,
    pub path: String,
    pub info: BeatmapMeta,
}

impl Clone for RatingMapInfo {
    fn clone(&self) -> (r: Self)
        ensures
            r == *self,
    {
        RatingMapInfo { hash: self.hash.clone(), path: self.path.clone(), info: self.info }
    }
}

/// One rated play: the beatmap it was on, the play itself, and the derived
/// difficulty constant and rating.  Immutable once constructed; ranking only
/// reorders and filters these.
#[derive(Debug)]
pub struct RatingInfo {
    pub map_info: RatingMapInfo,
    pub score_info: PlayRecord,
    pub diff_const: i64,
    pub rating: i64,
}

impl Clone for RatingInfo {
    fn clone(&self) -> (r: Self)
        ensures
            r == *self,
    {
        RatingInfo {
            map_info: self.map_info.clone(),
            score_info: self.score_info.clone(),
            diff_const: self.diff_const,
            rating: self.rating,
        }
    }
}

} // verus!
