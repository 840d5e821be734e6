//! Timestamp arithmetic for replay files.
//!
//! The game names replay files after the play's timestamp counted in
//! hundred-nanosecond ticks since 1601-01-01 UTC; the library works in
//! milliseconds since 1970-01-01 UTC and converts between the two epochs.

use crate::export::{append_dec, dec_rep};
use vstd::prelude::*;
use vstd::string::StringExecFns;

verus! {

/// Milliseconds between 1601-01-01 and 1970-01-01, both UTC.
pub const EPOCH_GAP_MS: i64 = 11_644_473_600_000;

/// Largest accepted instant (milliseconds since 1970); keeps the converted
/// tick count inside 64 bits, tens of millennia from now.
pub const MAX_INSTANT_MS: i64 = 1_000_000_000_000_000;

/// Converts an instant in milliseconds since 1970 to hundred-nanosecond
/// ticks since 1601, as used in replay file names.
pub fn get_replay_timestamp(timestamp_ms: i64) -> (r: u64)
    requires
        -EPOCH_GAP_MS <= timestamp_ms <= MAX_INSTANT_MS,
    ensures
        r == (timestamp_ms + EPOCH_GAP_MS) * 10_000,
{
    (((timestamp_ms as i128) + (EPOCH_GAP_MS as i128)) * 10_000) as u64
}

/// The replay file name for a play: the beatmap hash and the tick
/// timestamp, joined by a dash, with the replay extension.
pub fn get_replay_file_name(timestamp_ms: i64, hash: &str) -> (r: String)
    requires
        -EPOCH_GAP_MS <= timestamp_ms <= MAX_INSTANT_MS,
    ensures
        r@ == hash@ + "-"@ + dec_rep((timestamp_ms + EPOCH_GAP_MS) * 10_000) + ".osr"@,
{
    let ticks = get_replay_timestamp(timestamp_ms);
    let mut s = hash.to_owned();
    s.append("-");
    append_dec(&mut s, ticks);
    s.append(".osr");
    proof {
        assert(s@ =~= hash@ + "-"@ + dec_rep((timestamp_ms + EPOCH_GAP_MS) * 10_000) + ".osr"@);
    }
    s
}

} // verus!
