//! Aggregation: rating every play of one beatmap and picking its best play.
//!
//! The expensive work — parsing beatmap content and recomputing star ratings
//! at other playback speeds — is done outside; this module supplies the
//! decisions around it: which plays count (random-modifier plays never do),
//! which speed variants are worth computing (only those some play uses), the
//! rating of every play, and the fan-in that builds the global play list and
//! the one-per-beatmap best list.  Each beatmap's unit of work reads only its
//! own inputs, so callers are free to process beatmaps in parallel.

use crate::rating::{
    calc_mod_rating, diff_const_spec, rating_spec, selected_sr_spec, MAX_STAR_RATING,
};
use crate::records::{BeatmapMeta, PlayRecord, RatingInfo, RatingMapInfo};
use vstd::prelude::*;

verus! {

/// Appending to a sequence filters to the old result, plus the new element
/// when it passes.
pub proof fn lemma_filter_push<A>(s: Seq<A>, x: A, pred: spec_fn(A) -> bool)
    ensures
        (s.push(x)).filter(pred) == if pred(x) {
            s.filter(pred).push(x)
        } else {
            s.filter(pred)
        },
{
    reveal(Seq::filter);
    assert(s.push(x).drop_last() =~= s);
    assert(s.push(x).last() == x);
}

/// Keeps the plays that do not carry the random modifier, in order.
pub fn filter_random_plays(plays: Vec<PlayRecord>) -> (r: Vec<PlayRecord>)
    ensures
        r@ == plays@.filter(|p: PlayRecord| !p.mods.is_random()),
{
    let ghost pred = |p: PlayRecord| !p.mods.is_random();
    let mut r: Vec<PlayRecord> = Vec::new();
    proof {
        reveal(Seq::filter);
        assert(plays@.subrange(0, 0) =~= Seq::<PlayRecord>::empty());
    }
    let mut i: usize = 0;
    while i < plays.len()
        invariant
            i <= plays@.len(),
            r@ == plays@.subrange(0, i as int).filter(pred),
            pred == (|p: PlayRecord| !p.mods.is_random()),
        decreases plays@.len() - i,
    {
        proof {
            assert(plays@.subrange(0, i + 1) =~= plays@.subrange(0, i as int).push(
                plays@[i as int],
            ));
            lemma_filter_push(plays@.subrange(0, i as int), plays@[i as int], pred);
        }
        if !plays[i].mods.random() {
            r.push(plays[i].clone());
        }
        i += 1;
    }
    proof {
        assert(plays@.subrange(0, plays@.len() as int) =~= plays@);
    }
    r
}

/// Which speed variants the plays of one beatmap use: half-time, normal
/// speed, double-time (in the order of the star-rating triple).  A variant's
/// star rating only needs computing when its flag is set.
pub fn speed_flags(plays: &Vec<PlayRecord>) -> (r: (bool, bool, bool))
    ensures
        r.0 == exists|k: int|
            0 <= k < plays@.len() && (#[trigger] plays@[k]).mods.is_half_time(),
        r.1 == exists|k: int|
            0 <= k < plays@.len() && !(#[trigger] plays@[k]).mods.is_half_time()
                && !plays@[k].mods.is_double_time(),
        r.2 == exists|k: int|
            0 <= k < plays@.len() && !(#[trigger] plays@[k]).mods.is_half_time()
                && plays@[k].mods.is_double_time(),
{
    let mut ht = false;
    let mut nm = false;
    let mut dt = false;
    let mut i: usize = 0;
    while i < plays.len()
        invariant
            i <= plays@.len(),
            ht == exists|k: int| 0 <= k < i && (#[trigger] plays@[k]).mods.is_half_time(),
            nm == exists|k: int|
                0 <= k < i && !(#[trigger] plays@[k]).mods.is_half_time()
                    && !plays@[k].mods.is_double_time(),
            dt == exists|k: int|
                0 <= k < i && !(#[trigger] plays@[k]).mods.is_half_time()
                    && plays@[k].mods.is_double_time(),
        decreases plays@.len() - i,
    {
        let m = plays[i].mods;
        if m.half_time() {
            ht = true;
        } else if m.double_time() {
            dt = true;
        } else {
            nm = true;
        }
        i += 1;
    }
    (ht, nm, dt)
}

/// The rated play built for one play of a beatmap, given the star-rating
/// triple `(half-time, normal, double-time)`.
pub open spec fn rating_info_spec(
    hash: String,
    path: String,
    meta: BeatmapMeta,
    srs: (i64, i64, i64),
    play: PlayRecord,
) -> RatingInfo {
    let dc = diff_const_spec(selected_sr_spec(play.mods, srs.0 as int, srs.1 as int, srs.2 as int));
    RatingInfo {
        map_info: RatingMapInfo { hash, path, info: meta },
        score_info: play,
        diff_const: dc as i64,
        rating: rating_spec(dc, play.accuracy_rating as int) as i64,
    }
}

/// All plays of one beatmap, rated, with the index of a best play.
pub struct RatedBeatmap {
    pub ratings: Vec<RatingInfo>,
    pub best: usize,
}

impl RatedBeatmap {
    /// The best index points at an entry no other entry out-rates.
    pub open spec fn wf(self) -> bool {
        &&& self.best < self.ratings@.len()
        &&& forall|k: int|
            0 <= k < self.ratings@.len() ==> self.ratings@[self.best as int].rating >= (
            #[trigger] self.ratings@[k]).rating
    }
}

/// Rates every play of one beatmap with the mod-selected star rating and
/// finds a maximum-rating play.
pub fn rate_beatmap(
    hash: &String,
    path: &String,
    meta: BeatmapMeta,
    srs: (i64, i64, i64),
    plays: &Vec<PlayRecord>,
) -> (r: RatedBeatmap)
    requires
        plays@.len() > 0,
        0 <= srs.0 <= MAX_STAR_RATING,
        0 <= srs.1 <= MAX_STAR_RATING,
        0 <= srs.2 <= MAX_STAR_RATING,
    ensures
        r.ratings@.len() == plays@.len(),
        forall|k: int|
            0 <= k < plays@.len() ==> (#[trigger] r.ratings@[k]) == rating_info_spec(
                *hash,
                *path,
                meta,
                srs,
                plays@[k],
            ),
        r.wf(),
{
    let mut ratings: Vec<RatingInfo> = Vec::new();
    let mut best: usize = 0;
    let mut i: usize = 0;
    while i < plays.len()
        invariant
            i <= plays@.len(),
            ratings@.len() == i,
            0 <= srs.0 <= MAX_STAR_RATING,
            0 <= srs.1 <= MAX_STAR_RATING,
            0 <= srs.2 <= MAX_STAR_RATING,
            forall|k: int|
                0 <= k < i ==> (#[trigger] ratings@[k]) == rating_info_spec(
                    *hash,
                    *path,
                    meta,
                    srs,
                    plays@[k],
                ),
            i == 0 ==> best == 0,
            i > 0 ==> best < i,
            forall|k: int| 0 <= k < i ==> ratings@[best as int].rating >= (
            #[trigger] ratings@[k]).rating,
        decreases plays@.len() - i,
    {
        let play = plays[i].clone();
        let (dc, rating) = calc_mod_rating(play.mods, srs, play.accuracy_rating);
        let info = RatingInfo {
            map_info: RatingMapInfo { hash: hash.clone(), path: path.clone(), info: meta },
            score_info: play,
            diff_const: dc,
            rating,
        };
        proof {
            assert(info == rating_info_spec(*hash, *path, meta, srs, plays@[i as int]));
        }
        ratings.push(info);
        if i > 0 && ratings[i].rating > ratings[best].rating {
            best = i;
        }
        i += 1;
    }
    RatedBeatmap { ratings, best }
}

/// The concatenation of every group's rated plays, in group order.
pub open spec fn all_ratings_spec(gs: Seq<RatedBeatmap>) -> Seq<RatingInfo>
    decreases gs.len(),
{
    if gs.len() == 0 {
        Seq::empty()
    } else {
        all_ratings_spec(gs.drop_last()) + gs.last().ratings@
    }
}

/// Fan-in over the per-beatmap results: the full cross-product play list and
/// the one-per-beatmap best list.
pub fn collect_ratings(groups: &Vec<RatedBeatmap>) -> (r: (Vec<RatingInfo>, Vec<RatingInfo>))
    requires
        forall|g: int| 0 <= g < groups@.len() ==> (#[trigger] groups@[g]).wf(),
    ensures
        r.0@ == all_ratings_spec(groups@),
        r.1@.len() == groups@.len(),
        forall|g: int|
            0 <= g < groups@.len() ==> (#[trigger] r.1@[g]) == (groups@[g]).ratings@[(
            groups@[g]).best as int],
{
    let mut all: Vec<RatingInfo> = Vec::new();
    let mut best: Vec<RatingInfo> = Vec::new();
    let mut g: usize = 0;
    proof {
        assert(groups@.subrange(0, 0) =~= Seq::<RatedBeatmap>::empty());
    }
    while g < groups.len()
        invariant
            g <= groups@.len(),
            forall|k: int| 0 <= k < groups@.len() ==> (#[trigger] groups@[k]).wf(),
            all@ == all_ratings_spec(groups@.subrange(0, g as int)),
            best@.len() == g,
            forall|k: int|
                0 <= k < g ==> (#[trigger] best@[k]) == (groups@[k]).ratings@[(
                groups@[k]).best as int],
        decreases groups@.len() - g,
    {
        let group = &groups[g];
        let mut j: usize = 0;
        while j < group.ratings.len()
            invariant
                j <= group.ratings@.len(),
                group == groups@[g as int],
                g < groups@.len(),
                all@ == all_ratings_spec(groups@.subrange(0, g as int)) + group.ratings@.subrange(
                    0,
                    j as int,
                ),
            decreases group.ratings@.len() - j,
        {
            all.push(group.ratings[j].clone());
            proof {
                assert(group.ratings@.subrange(0, j + 1) =~= group.ratings@.subrange(
                    0,
                    j as int,
                ).push(group.ratings@[j as int]));
            }
            j += 1;
        }
        best.push(group.ratings[group.best].clone());
        proof {
            assert(groups@.subrange(0, g + 1) =~= groups@.subrange(0, g as int).push(
                groups@[g as int],
            ));
            assert(groups@.subrange(0, g + 1).drop_last() =~= groups@.subrange(0, g as int));
            assert(group.ratings@.subrange(0, group.ratings@.len() as int) =~= group.ratings@);
        }
        g += 1;
    }
    proof {
        assert(groups@.subrange(0, groups@.len() as int) =~= groups@);
    }
    (all, best)
}

} // verus!
