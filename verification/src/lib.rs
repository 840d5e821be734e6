//! Verified core of a rhythm-game rating tool: a fixed-point rating formula,
//! historical score extraction and aggregation, per-player ranking tables,
//! and the live-polling state machine that captures finished plays.
//!
//! All quantities that the surrounding tooling handles as floating point
//! (accuracies, star ratings, difficulty constants, ratings) are represented
//! here as integers scaled by `rating::SCALE` (millionths of a unit), so that
//! every formula is exact and provable.

pub mod accuracy;
pub mod aggregate;
pub mod export;
pub mod extract;
pub mod live;
pub mod mods;
pub mod ranking;
pub mod rating;
pub mod records;
pub mod times;
