//! The live-polling state machine.
//!
//! A worker polls coarse game state from external telemetry once per tick.
//! Every gameplay tick, whatever came before it, re-reads the active
//! modifier set and arms a capture; the first result screen seen while
//! armed triggers exactly one capture attempt, which ends disarmed whether
//! it produced a rating, was discarded or ran out of path-read retries.
//! Stopping is cooperative: the stop flag is checked once per tick, before
//! the tick is processed, so a stopped poller processes no further tick and
//! emits no further rating.
//!
//! Everything that needs the outside world (reading telemetry, sleeping,
//! parsing the beatmap) happens in the shell driving these functions; the
//! decisions are all here.

use crate::accuracy::{acc_rating_spec, accuracy_rating, display_acc_v2_spec, display_accuracy};
use crate::aggregate::rating_info_spec;
use crate::mods::Mods;
use crate::rating::{calc_mod_rating, MAX_STAR_RATING};
use crate::records::{
    BeatmapMeta, PlayRecord, RatingInfo, RatingMapInfo, MODE_MANIA, SUPPORTED_COLUMNS,
};
use vstd::prelude::*;

verus! {

/// The coarse game states the poller distinguishes; everything that is not
/// gameplay or a result screen counts as the menu, and unreadable telemetry
/// as unknown.
#[derive(Clone, Copy, PartialEq, Eq, Structural, Debug)]
pub enum GameState {
    Unknown,
    Menu,
    Playing,
    ResultScreen,
}

/// The poller's internal state: whether a finished play is expected, the
/// modifier set read on the latest gameplay tick, and the last observed
/// state.
#[derive(Clone, Copy, PartialEq, Eq, Structural, Debug)]
pub struct PollerState {
    pub armed: bool,
    pub current_mods: Mods,
    pub last_state: GameState,
}

impl PollerState {
    /// The state a poller starts in: disarmed, no modifiers, nothing seen.
    pub fn initial() -> (r: PollerState)
        ensures
            r == (PollerState { armed: false, current_mods: Mods { bits: 0 }, last_state: GameState::Unknown }),
    {
        PollerState { armed: false, current_mods: Mods { bits: 0 }, last_state: GameState::Unknown }
    }
}

/// The state after one poll tick: every gameplay observation, whatever the
/// previous state was, stores the freshly read modifiers and arms; a result
/// screen consumes the armed flag (one capture attempt, then disarmed); any
/// other observation disarms; the last observed state is always recorded.
pub open spec fn tick_state_spec(st: PollerState, observed: GameState, mods: Mods) -> PollerState {
    if observed is Playing {
        PollerState { armed: true, current_mods: mods, last_state: observed }
    } else {
        PollerState { armed: false, current_mods: st.current_mods, last_state: observed }
    }
}

/// Whether this tick attempts a capture: a result screen seen while armed.
pub open spec fn tick_captures_spec(st: PollerState, observed: GameState) -> bool {
    observed is ResultScreen && st.armed
}

/// Advances the poller by one tick.  `mods_if_playing` is the modifier set
/// the telemetry reports, consulted on every gameplay tick.  Returns
/// whether a capture must be attempted on this tick.
pub fn poll_tick(st: &mut PollerState, observed: GameState, mods_if_playing: Mods) -> (capture:
    bool)
    ensures
        *final(st) == tick_state_spec(*old(st), observed, mods_if_playing),
        observed is Playing ==> final(st).armed && final(st).current_mods == mods_if_playing,
        capture == tick_captures_spec(*old(st), observed),
{
    match observed {
        GameState::Playing => {
            st.armed = true;
            st.current_mods = mods_if_playing;
            st.last_state = observed;
            false
        },
        GameState::ResultScreen => {
            let was_armed = st.armed;
            st.armed = false;
            st.last_state = observed;
            was_armed
        },
        _ => {
            st.armed = false;
            st.last_state = observed;
            false
        },
    }
}

/// Whether a captured play is kept: target mode, no random modifier, and
/// the supported column count; anything else is discarded silently.
pub open spec fn capture_keep_spec(mods: Mods, mode: u8, column_count: u8) -> bool {
    mode == MODE_MANIA && !mods.is_random() && column_count == SUPPORTED_COLUMNS
}

/// Decides whether the capture goes ahead, from the play's mode, the armed
/// modifier set and the beatmap's column count.
pub fn capture_keep(mods: Mods, mode: u8, column_count: u8) -> (keep: bool)
    ensures
        keep == capture_keep_spec(mods, mode, column_count),
{
    mode == MODE_MANIA && !mods.random() && column_count == SUPPORTED_COLUMNS
}

/// The bounded retry budget for reading the beatmap path and hash from
/// telemetry: a fixed number of attempts, spent one per try, so the capture
/// always terminates even when telemetry stays half-written.
pub struct RetryBudget {
    pub attempts_left: u8,
}

impl RetryBudget {
    /// A fresh budget of `attempts` tries.
    pub fn new(attempts: u8) -> (r: RetryBudget)
        ensures
            r.attempts_left == attempts,
    {
        RetryBudget { attempts_left: attempts }
    }

    /// Takes one attempt from the budget; returns whether one was left.
    pub fn try_spend(&mut self) -> (go: bool)
        ensures
            go == (old(self).attempts_left > 0),
            final(self).attempts_left == if go {
                old(self).attempts_left - 1
            } else {
                0
            },
    {
        if self.attempts_left > 0 {
            self.attempts_left = self.attempts_left - 1;
            true
        } else {
            false
        }
    }
}

/// The playback-speed variant a play's star rating must be computed at.
#[derive(Clone, Copy, PartialEq, Eq, Structural, Debug)]
pub enum SpeedVariant {
    HalfTime,
    Normal,
    DoubleTime,
}

/// Which star-rating variant a capture needs, so that only that one is
/// computed: half-time wins, then double-time or nightcore, else normal.
pub fn needed_variant(mods: Mods) -> (v: SpeedVariant)
    ensures
        (v is HalfTime) == mods.is_half_time(),
        (v is DoubleTime) == (!mods.is_half_time() && mods.is_double_time()),
        (v is Normal) == (!mods.is_half_time() && !mods.is_double_time()),
{
    if mods.half_time() {
        SpeedVariant::HalfTime
    } else if mods.double_time() {
        SpeedVariant::DoubleTime
    } else {
        SpeedVariant::Normal
    }
}

/// The rated play a successful live capture produces.  Display accuracy
/// comes from telemetry, except under score v2, which telemetry cannot
/// report and which is therefore recomputed from the judgement counts; the
/// accuracy-rating is always recomputed.
pub open spec fn live_rating_spec(
    hash: String,
    path: String,
    meta: BeatmapMeta,
    srs: (i64, i64, i64),
    mods: Mods,
    counts: [u32; 6],
    telemetry_accuracy: i64,
    player: String,
    timestamp: i64,
) -> RatingInfo {
    let play = PlayRecord {
        player: player,
        mods: mods,
        judgement_num: counts,
        accuracy: if mods.is_score_v2() {
            display_acc_v2_spec(counts) as i64
        } else {
            telemetry_accuracy
        },
        accuracy_rating: acc_rating_spec(counts) as i64,
        timestamp: timestamp,
    };
    rating_info_spec(hash, path, meta, srs, play)
}

/// Builds the rated play for one live capture from the plain values the
/// telemetry and the beatmap parse supplied.
pub fn build_live_rating(
    hash: String,
    path: String,
    meta: BeatmapMeta,
    srs: (i64, i64, i64),
    mods: Mods,
    counts: [u32; 6],
    telemetry_accuracy: i64,
    player: String,
    timestamp: i64,
) -> (r: RatingInfo)
    requires
        0 <= srs.0 <= MAX_STAR_RATING,
        0 <= srs.1 <= MAX_STAR_RATING,
        0 <= srs.2 <= MAX_STAR_RATING,
    ensures
        r == live_rating_spec(
            hash,
            path,
            meta,
            srs,
            mods,
            counts,
            telemetry_accuracy,
            player,
            timestamp,
        ),
{
    let accuracy: i64 = if mods.score_v2() {
        display_accuracy(&counts, mods)
    } else {
        telemetry_accuracy
    };
    let accuracy_rating = accuracy_rating(&counts);
    let play = PlayRecord {
        player,
        mods,
        judgement_num: counts,
        accuracy,
        accuracy_rating,
        timestamp,
    };
    let (diff_const, rating) = calc_mod_rating(mods, srs, play.accuracy_rating);
    RatingInfo {
        map_info: RatingMapInfo { hash, path, info: meta },
        score_info: play,
        diff_const,
        rating,
    }
}

/// One tick of a polling session, as the model sees it: whether the stop
/// signal was set when the tick began, what the telemetry showed, the
/// modifier set it reported, and what a capture attempt on this tick would
/// deliver (`None` when the attempt discards the play or runs out of
/// retries).
pub struct PollTick {
    pub stop: bool,
    pub observed: GameState,
    pub mods: Mods,
    pub capture_result: Option<RatingInfo>,
}

/// The poller state after processing a run of ticks.
pub open spec fn poller_state_spec(start: PollerState, ticks: Seq<PollTick>) -> PollerState
    decreases ticks.len(),
{
    if ticks.len() == 0 {
        start
    } else {
        tick_state_spec(
            poller_state_spec(start, ticks.drop_last()),
            ticks.last().observed,
            ticks.last().mods,
        )
    }
}

/// The ratings a run of ticks emits, in order: one per tick that attempted
/// a capture and had a result to deliver.
pub open spec fn poller_outputs_spec(start: PollerState, ticks: Seq<PollTick>) -> Seq<RatingInfo>
    decreases ticks.len(),
{
    if ticks.len() == 0 {
        Seq::empty()
    } else {
        let prev = poller_state_spec(start, ticks.drop_last());
        let t = ticks.last();
        poller_outputs_spec(start, ticks.drop_last()) + (if tick_captures_spec(prev, t.observed)
            && t.capture_result is Some {
            seq![t.capture_result.unwrap()]
        } else {
            Seq::empty()
        })
    }
}

/// Unfolds one more tick at the end of a run.
proof fn lemma_poller_push(start: PollerState, ticks: Seq<PollTick>, t: PollTick)
    ensures
        poller_state_spec(start, ticks.push(t)) == tick_state_spec(
            poller_state_spec(start, ticks),
            t.observed,
            t.mods,
        ),
        poller_outputs_spec(start, ticks.push(t)) == poller_outputs_spec(start, ticks) + (
        if tick_captures_spec(poller_state_spec(start, ticks), t.observed) && t.capture_result
            is Some {
            seq![t.capture_result.unwrap()]
        } else {
            Seq::empty()
        }),
{
    assert(ticks.push(t).drop_last() =~= ticks);
    assert(ticks.push(t).last() == t);
}

/// What a finished polling session produced: how many ticks ran before the
/// stop signal was honoured, the ratings emitted, and the final state.
pub struct PollerRun {
    pub ticks_processed: usize,
    pub outputs: Vec<RatingInfo>,
    pub end_state: PollerState,
}

/// Runs the state machine over a recorded session.  The stop flag is
/// honoured at the top of every tick: processing ends at the first tick
/// whose flag is set, and no tick at or after it contributes any output —
/// a poller signaled to stop emits nothing further.
pub fn run_poller(start: PollerState, ticks: &Vec<PollTick>) -> (r: PollerRun)
    ensures
        r.ticks_processed <= ticks@.len(),
        forall|q: int| 0 <= q < r.ticks_processed ==> !(#[trigger] ticks@[q]).stop,
        r.ticks_processed < ticks@.len() ==> ticks@[r.ticks_processed as int].stop,
        r.end_state == poller_state_spec(start, ticks@.subrange(0, r.ticks_processed as int)),
        r.outputs@ == poller_outputs_spec(start, ticks@.subrange(0, r.ticks_processed as int)),
{
    let mut st = start;
    let mut out: Vec<RatingInfo> = Vec::new();
    let mut q: usize = 0;
    proof {
        assert(ticks@.subrange(0, 0) =~= Seq::<PollTick>::empty());
    }
    while q < ticks.len()
        invariant_except_break
            q <= ticks@.len(),
            forall|p: int| 0 <= p < q ==> !(#[trigger] ticks@[p]).stop,
            st == poller_state_spec(start, ticks@.subrange(0, q as int)),
            out@ == poller_outputs_spec(start, ticks@.subrange(0, q as int)),
        ensures
            q <= ticks@.len(),
            forall|p: int| 0 <= p < q ==> !(#[trigger] ticks@[p]).stop,
            q < ticks@.len() ==> ticks@[q as int].stop,
            st == poller_state_spec(start, ticks@.subrange(0, q as int)),
            out@ == poller_outputs_spec(start, ticks@.subrange(0, q as int)),
        decreases ticks@.len() - q,
    {
        let t = &ticks[q];
        if t.stop {
            break ;
        }
        proof {
            assert(ticks@.subrange(0, q + 1) =~= ticks@.subrange(0, q as int).push(
                ticks@[q as int],
            ));
            lemma_poller_push(start, ticks@.subrange(0, q as int), ticks@[q as int]);
        }
        let captures = poll_tick(&mut st, t.observed, t.mods);
        if captures {
            match &t.capture_result {
                Some(ri) => {
                    out.push(ri.clone());
                    proof {
                        assert(out@ =~= poller_outputs_spec(start, ticks@.subrange(0, q + 1)));
                    }
                },
                None => {},
            }
        }
        q += 1;
    }
    PollerRun { ticks_processed: q, outputs: out, end_state: st }
}

} // verus!
