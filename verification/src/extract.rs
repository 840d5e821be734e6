//! Historical extraction: turning a beatmap catalog and a score history
//! into per-beatmap groups of play records.
//!
//! Catalog rows are kept when they are mania charts with the supported
//! column count and carry folder, file and hash; score rows are kept when
//! they are mania plays with a player name and a beatmap hash.  A kept score
//! whose hash has no catalogued beatmap is silently dropped: the map was
//! never seen, not an error.

use crate::accuracy::{acc_rating_spec, accuracy_pair, display_acc_spec};
use crate::records::{
    BeatmapStoreInfo, CatalogEntry, PlayRecord, ScoreEntry, MODE_MANIA, SUPPORTED_COLUMNS,
};
use vstd::prelude::*;
use vstd::string::StringExecFns;

verus! {

/// Whether a catalog row takes part in rating.
pub open spec fn catalog_keep_spec(e: CatalogEntry) -> bool {
    &&& e.mode == MODE_MANIA
    &&& e.column_count == SUPPORTED_COLUMNS
    &&& e.folder_name is Some
    &&& e.file_name is Some
    &&& e.hash is Some
}

/// The content path recorded for a kept catalog row, relative to the songs
/// directory.
pub open spec fn catalog_path_spec(e: CatalogEntry) -> Seq<char> {
    e.folder_name.unwrap()@ + "/"@ + e.file_name.unwrap()@
}

/// Whether a score row takes part in rating.
pub open spec fn score_keep_spec(s: ScoreEntry) -> bool {
    &&& s.mode == MODE_MANIA
    &&& s.beatmap_hash is Some
    &&& s.player_name is Some
}

/// The play record built from a kept score row: both accuracy figures are
/// computed from the judgement counts, the rest is carried over.
pub open spec fn play_of_spec(s: ScoreEntry) -> PlayRecord {
    PlayRecord {
        player: s.player_name.unwrap(),
        mods: s.mods,
        judgement_num: s.judgement_num,
        accuracy: display_acc_spec(s.judgement_num, s.mods.is_score_v2()) as i64,
        accuracy_rating: acc_rating_spec(s.judgement_num) as i64,
        timestamp: s.timestamp,
    }
}

/// The plays that a score history contributes to the beatmap with content
/// hash `h`, in history order.
pub open spec fn plays_for_spec(scores: Seq<ScoreEntry>, h: Seq<char>) -> Seq<PlayRecord>
    decreases scores.len(),
{
    if scores.len() == 0 {
        Seq::empty()
    } else {
        let rest = plays_for_spec(scores.drop_last(), h);
        let s = scores.last();
        if score_keep_spec(s) && s.beatmap_hash.unwrap()@ == h {
            rest.push(play_of_spec(s))
        } else {
            rest
        }
    }
}

/// A store is well formed when its hash keys are pairwise distinct.
pub open spec fn wf_store(st: Seq<(String, BeatmapStoreInfo)>) -> bool {
    forall|i: int, j: int| 0 <= i < j < st.len() ==> st[i].0@ != st[j].0@
}

/// Whether one catalog row justifies a store entry with this key and path.
pub open spec fn catalog_match(e: CatalogEntry, key: Seq<char>, path: Seq<char>) -> bool {
    catalog_keep_spec(e) && e.hash.unwrap()@ == key && path == catalog_path_spec(e)
}

/// Whether some catalog row justifies a store entry with this key and path.
pub open spec fn entry_from_catalog(
    cat: Seq<CatalogEntry>,
    key: Seq<char>,
    path: Seq<char>,
) -> bool {
    exists|i: int| 0 <= i < cat.len() && catalog_match(#[trigger] cat[i], key, path)
}

/// Whether the store has an entry under this key.
pub open spec fn store_covers(st: Seq<(String, BeatmapStoreInfo)>, key: Seq<char>) -> bool {
    exists|j: int| 0 <= j < st.len() && (#[trigger] st[j]).0@ == key
}

/// Extending a history by one score extends exactly the matching beatmap's
/// play list, by exactly that play.
pub proof fn lemma_plays_for_push(ss: Seq<ScoreEntry>, s: ScoreEntry, h: Seq<char>)
    ensures
        plays_for_spec(ss.push(s), h) == if score_keep_spec(s) && s.beatmap_hash.unwrap()@ == h {
            plays_for_spec(ss, h).push(play_of_spec(s))
        } else {
            plays_for_spec(ss, h)
        },
{
    assert(ss.push(s).drop_last() =~= ss);
    assert(ss.push(s).last() == s);
}

/// Finds the store entry with the given hash key, if there is one.
fn find_key(v: &Vec<(String, BeatmapStoreInfo)>, key: &String) -> (r: Option<usize>)
    ensures
        match r {
            Some(j) => j < v@.len() && v@[j as int].0@ == key@,
            None => forall|j: int| 0 <= j < v@.len() ==> (#[trigger] v@[j]).0@ != key@,
        },
{
    let mut j: usize = 0;
    while j < v.len()
        invariant
            j <= v@.len(),
            forall|k: int| 0 <= k < j ==> (#[trigger] v@[k]).0@ != key@,
        decreases v@.len() - j,
    {
        if v[j].0 == *key {
            return Some(j);
        }
        j += 1;
    }
    None
}

/// Builds the hash-keyed play store from the externally parsed catalog and
/// score history: one entry per kept catalogued beatmap (later duplicates of
/// a hash replace earlier ones), each holding exactly the kept plays whose
/// hash matches, in history order.
pub fn extract_plays(catalog: Vec<CatalogEntry>, scores: Vec<ScoreEntry>) -> (r: Vec<
    (String, BeatmapStoreInfo),
>)
    ensures
        wf_store(r@),
        forall|j: int|
            0 <= j < r@.len() ==> entry_from_catalog(
                catalog@,
                (#[trigger] r@[j]).0@,
                r@[j].1.path@,
            ),
        forall|i: int|
            0 <= i < catalog@.len() && catalog_keep_spec(#[trigger] catalog@[i]) ==> store_covers(
                r@,
                catalog@[i].hash.unwrap()@,
            ),
        forall|j: int|
            0 <= j < r@.len() ==> (#[trigger] r@[j]).1.plays@ == plays_for_spec(
                scores@,
                r@[j].0@,
            ),
{
    let mut store: Vec<(String, BeatmapStoreInfo)> = Vec::new();

    // First pass: one store entry per kept catalog row.
    let mut i: usize = 0;
    while i < catalog.len()
        invariant
            i <= catalog@.len(),
            wf_store(store@),
            forall|j: int|
                0 <= j < store@.len() ==> entry_from_catalog(
                    catalog@,
                    (#[trigger] store@[j]).0@,
                    store@[j].1.path@,
                ),
            forall|ii: int|
                0 <= ii < i && catalog_keep_spec(#[trigger] catalog@[ii]) ==> store_covers(
                    store@,
                    catalog@[ii].hash.unwrap()@,
                ),
            forall|j: int| 0 <= j < store@.len() ==> (#[trigger] store@[j]).1.plays@.len() == 0,
        decreases catalog@.len() - i,
    {
        let e = &catalog[i];
        if e.mode == MODE_MANIA && e.column_count == SUPPORTED_COLUMNS {
            match (&e.folder_name, &e.file_name, &e.hash) {
                (Some(folder), Some(file), Some(hash)) => {
                    let mut path = folder.clone();
                    path.append("/");
                    path.append(file.as_str());
                    let key = hash.clone();
                    let info = BeatmapStoreInfo { path, plays: Vec::new() };
                    proof {
                        assert(catalog_match(catalog@[i as int], key@, info.path@));
                    }
                    let ghost prev = store@;
                    match find_key(&store, &key) {
                        Some(j) => {
                            store.set(j, (key, info));
                            proof {
                                assert((store@[j as int]).0@ == key@);
                                assert(store_covers(store@, key@));
                            }
                        },
                        None => {
                            store.push((key, info));
                            proof {
                                assert((store@[store@.len() - 1]).0@ == key@);
                                assert(store_covers(store@, key@));
                            }
                        },
                    }
                    proof {
                        assert forall|j0: int| 0 <= j0 < prev.len() implies (
                        #[trigger] store@[j0]).0@ == prev[j0].0@ by {}
                        assert forall|ii: int|
                            0 <= ii < i + 1 && catalog_keep_spec(
                                #[trigger] catalog@[ii],
                            ) implies store_covers(store@, catalog@[ii].hash.unwrap()@) by {
                            if ii < i {
                                let w = choose|w: int|
                                    0 <= w < prev.len() && (#[trigger] prev[w]).0@
                                        == catalog@[ii].hash.unwrap()@;
                                assert(store@[w].0@ == catalog@[ii].hash.unwrap()@);
                            } else {
                                assert(catalog@[ii].hash.unwrap()@ == key@);
                            }
                        }
                    }
                },
                _ => {},
            }
        }
        i += 1;
    }

    // Second pass: route every kept play to its beatmap's entry.
    let ghost st0 = store@;
    let mut k: usize = 0;
    while k < scores.len()
        invariant
            k <= scores@.len(),
            wf_store(st0),
            forall|j: int|
                0 <= j < st0.len() ==> entry_from_catalog(
                    catalog@,
                    (#[trigger] st0[j]).0@,
                    st0[j].1.path@,
                ),
            forall|ii: int|
                0 <= ii < catalog@.len() && catalog_keep_spec(#[trigger] catalog@[ii])
                    ==> store_covers(st0, catalog@[ii].hash.unwrap()@),
            store@.len() == st0.len(),
            forall|j: int|
                0 <= j < st0.len() ==> (#[trigger] store@[j]).0 == st0[j].0 && store@[j].1.path
                    == st0[j].1.path,
            forall|j: int|
                0 <= j < st0.len() ==> (#[trigger] store@[j]).1.plays@ == plays_for_spec(
                    scores@.subrange(0, k as int),
                    st0[j].0@,
                ),
        decreases scores@.len() - k,
    {
        let s = &scores[k];
        let ghost sk = scores@[k as int];
        proof {
            assert(scores@.subrange(0, k + 1) =~= scores@.subrange(0, k as int).push(sk));
            assert forall|h: Seq<char>|
                #[trigger] plays_for_spec(scores@.subrange(0, k + 1), h) == if score_keep_spec(sk)
                    && sk.beatmap_hash.unwrap()@ == h {
                    plays_for_spec(scores@.subrange(0, k as int), h).push(play_of_spec(sk))
                } else {
                    plays_for_spec(scores@.subrange(0, k as int), h)
                } by {
                lemma_plays_for_push(scores@.subrange(0, k as int), sk, h);
            }
        }
        if s.mode == MODE_MANIA {
            match (&s.beatmap_hash, &s.player_name) {
                (Some(h), Some(player)) => {
                    match find_key(&store, h) {
                        Some(j) => {
                            let (acc, acc_r) = accuracy_pair(&s.judgement_num, s.mods);
                            let play = PlayRecord {
                                player: player.clone(),
                                mods: s.mods,
                                judgement_num: s.judgement_num,
                                accuracy: acc,
                                accuracy_rating: acc_r,
                                timestamp: s.timestamp,
                            };
                            proof {
                                assert(play == play_of_spec(sk));
                            }
                            let ghost before = store@;
                            let mut pair = store.remove(j);
                            pair.1.plays.push(play);
                            store.insert(j, pair);
                            proof {
                                assert(store@ =~= before.update(j as int, store@[j as int]));
                                assert forall|j0: int|
                                    0 <= j0 < st0.len() implies (
                                #[trigger] store@[j0]).1.plays@ == plays_for_spec(
                                    scores@.subrange(0, k + 1),
                                    st0[j0].0@,
                                ) by {
                                    if j0 == j {
                                        assert(sk.beatmap_hash.unwrap()@ == st0[j0].0@);
                                        assert(store@[j0].1.plays@ == before[j0].1.plays@.push(
                                            play,
                                        ));
                                    } else {
                                        assert(st0[j0].0@ != st0[j as int].0@);
                                        assert(store@[j0] == before[j0]);
                                    }
                                }
                            }
                        },
                        None => {
                            proof {
                                assert forall|j0: int| 0 <= j0 < st0.len() implies
                                    sk.beatmap_hash.unwrap()@ != (#[trigger] st0[j0]).0@ by {
                                    assert(store@[j0].0@ == st0[j0].0@);
                                }
                            }
                        },
                    }
                },
                _ => {},
            }
        }
        k += 1;
    }
    proof {
        assert(scores@.subrange(0, scores@.len() as int) =~= scores@);
        assert forall|ii: int|
            0 <= ii < catalog@.len() && catalog_keep_spec(#[trigger] catalog@[ii])
                implies store_covers(store@, catalog@[ii].hash.unwrap()@) by {
            let w = choose|w: int|
                0 <= w < st0.len() && (#[trigger] st0[w]).0@ == catalog@[ii].hash.unwrap()@;
            assert(store@[w].0@ == catalog@[ii].hash.unwrap()@);
        }
        assert forall|j: int| 0 <= j < store@.len() implies entry_from_catalog(
            catalog@,
            (#[trigger] store@[j]).0@,
            store@[j].1.path@,
        ) by {
            assert(store@[j].0@ == st0[j].0@ && store@[j].1.path@ == st0[j].1.path@);
        }
    }
    store
}

} // verus!
