//! Player ranking: ordering rated plays, deduplicating them per beatmap and
//! assembling the named rating buckets.
//!
//! The sort order on equal keys is deliberately left open (the contracts ask
//! for a sorted permutation, not for one particular permutation), matching
//! the tool's behaviour of using an unstable sort with no secondary key.

use crate::records::RatingInfo;
use vstd::prelude::*;
use vstd::seq_lib::group_to_multiset_ensures;
use vstd::seq_lib::{to_multiset_build, to_multiset_insert};
use vstd::string::StringExecFns;

verus! {

/// The key a ranking sort compares by: the play's timestamp or its rating.
pub open spec fn rank_key_spec(x: RatingInfo, by_timestamp: bool) -> int {
    if by_timestamp {
        x.score_info.timestamp as int
    } else {
        x.rating as int
    }
}

/// Non-increasing in the chosen key.
pub open spec fn sorted_by_key_desc(s: Seq<RatingInfo>, by_timestamp: bool) -> bool {
    forall|i: int, j: int|
        0 <= i < j < s.len() ==> rank_key_spec(s[i], by_timestamp) >= rank_key_spec(
            s[j],
            by_timestamp,
        )
}

/// Non-increasing in rating.
pub open spec fn sorted_by_rating_desc(s: Seq<RatingInfo>) -> bool {
    sorted_by_key_desc(s, false)
}

/// Non-increasing in timestamp.
pub open spec fn sorted_by_timestamp_desc(s: Seq<RatingInfo>) -> bool {
    sorted_by_key_desc(s, true)
}

/// No two entries share a beatmap content hash.
pub open spec fn distinct_hashes(s: Seq<RatingInfo>) -> bool {
    forall|i: int, j: int| 0 <= i < j < s.len() ==> s[i].map_info.hash@ != s[j].map_info.hash@
}

/// Reads the key a ranking sort compares by.
fn rank_key(x: &RatingInfo, by_timestamp: bool) -> (r: i64)
    ensures
        r == rank_key_spec(*x, by_timestamp),
{
    if by_timestamp {
        x.score_info.timestamp
    } else {
        x.rating
    }
}

/// Inserting an element at the position a descending scan found keeps the
/// sequence sorted: everything before the position out-keys the element,
/// and the element at the position (if any) is out-keyed by it.
proof fn lemma_sorted_insert(s: Seq<RatingInfo>, p: int, x: RatingInfo, by_timestamp: bool)
    requires
        sorted_by_key_desc(s, by_timestamp),
        0 <= p <= s.len(),
        forall|a: int|
            0 <= a < p ==> rank_key_spec(#[trigger] s[a], by_timestamp) >= rank_key_spec(
                x,
                by_timestamp,
            ),
        p < s.len() ==> rank_key_spec(s[p], by_timestamp) <= rank_key_spec(x, by_timestamp),
    ensures
        sorted_by_key_desc(s.insert(p, x), by_timestamp),
{
    s.insert_ensures(p, x);
    let t = s.insert(p, x);
    assert forall|a: int, b: int| 0 <= a < b < t.len() implies rank_key_spec(
        t[a],
        by_timestamp,
    ) >= rank_key_spec(t[b], by_timestamp) by {
        if a < p {
            assert(t[a] == s[a]);
        }
        if p < a {
            assert(t[a] == s[a - 1]);
        }
        if b < p {
            assert(t[b] == s[b]);
        }
        if p < b {
            assert(t[b] == s[b - 1]);
        }
    }
}

/// Sorts the rated plays in place, non-increasing by timestamp (when
/// `by_timestamp` is set) or by rating; the result is a permutation of the
/// input, with ties left in no particular order.
pub fn sort_ratings_desc(v: &mut Vec<RatingInfo>, by_timestamp: bool)
    ensures
        sorted_by_key_desc(final(v)@, by_timestamp),
        final(v)@.to_multiset() == old(v)@.to_multiset(),
        final(v)@.len() == old(v)@.len(),
{
    broadcast use group_to_multiset_ensures;
    broadcast use vstd::multiset::group_multiset_axioms;

    let mut out: Vec<RatingInfo> = Vec::new();
    let mut i: usize = 0;
    proof {
        assert(v@.subrange(0, 0) =~= Seq::<RatingInfo>::empty());
        assert(Seq::<RatingInfo>::empty().to_multiset() =~= out@.to_multiset());
    }
    while i < v.len()
        invariant
            i <= v@.len(),
            out@.len() == i,
            sorted_by_key_desc(out@, by_timestamp),
            out@.to_multiset() == v@.subrange(0, i as int).to_multiset(),
        decreases v@.len() - i,
    {
        let x = v[i].clone();
        let key_x: i64 = rank_key(&x, by_timestamp);
        let mut p: usize = 0;
        while p < out.len() && rank_key(&out[p], by_timestamp) >= key_x
            invariant
                p <= out@.len(),
                key_x == rank_key_spec(x, by_timestamp),
                forall|a: int|
                    0 <= a < p ==> rank_key_spec(#[trigger] out@[a], by_timestamp) >= key_x,
            decreases out@.len() - p,
        {
            p += 1;
        }
        let ghost pre = out@;
        out.insert(p, x);
        proof {
            lemma_sorted_insert(pre, p as int, x, by_timestamp);
            to_multiset_insert(pre, p as int, x);
            assert(v@.subrange(0, i + 1) =~= v@.subrange(0, i as int).push(v@[i as int]));
            to_multiset_build(v@.subrange(0, i as int), v@[i as int]);
            assert(out@.to_multiset() =~= v@.subrange(0, i + 1).to_multiset());
        }
        i += 1;
    }
    proof {
        assert(v@.subrange(0, v@.len() as int) =~= v@);
    }
    *v = out;
}

/// Whether the list already holds an entry for this beatmap hash.
fn contains_hash(v: &Vec<RatingInfo>, key: &String) -> (r: bool)
    ensures
        r == exists|m: int| 0 <= m < v@.len() && (#[trigger] v@[m]).map_info.hash@ == key@,
{
    let mut j: usize = 0;
    while j < v.len()
        invariant
            j <= v@.len(),
            forall|m: int| 0 <= m < j ==> (#[trigger] v@[m]).map_info.hash@ != key@,
        decreases v@.len() - j,
    {
        if v[j].map_info.hash == *key {
            return true;
        }
        j += 1;
    }
    false
}

/// Every entry of `r` is one of the first `k` entries of `src`.
pub open spec fn picked_from(src: Seq<RatingInfo>, r: Seq<RatingInfo>, k: int) -> bool {
    forall|m: int|
        #![trigger r[m]]
        0 <= m < r.len() ==> exists|k0: int| 0 <= k0 < k && r[m] == src[k0]
}

/// The hash of each of the first `k` entries of `src` appears in `r`.
pub open spec fn hashes_covered(src: Seq<RatingInfo>, r: Seq<RatingInfo>, k: int) -> bool {
    forall|kk: int|
        #![trigger src[kk].map_info.hash]
        0 <= kk < k ==> exists|m: int|
            0 <= m < r.len() && (#[trigger] r[m]).map_info.hash@ == src[kk].map_info.hash@
}

/// No entry of `src` out-rates the entry of `r` that carries its hash.
pub open spec fn max_per_hash(src: Seq<RatingInfo>, r: Seq<RatingInfo>) -> bool {
    forall|m: int, kk: int|
        #![trigger r[m], src[kk]]
        0 <= m < r.len() && 0 <= kk < src.len() && r[m].map_info.hash@ == src[kk].map_info.hash@
            ==> r[m].rating >= src[kk].rating
}

/// From a list already sorted non-increasing by rating, keeps the first
/// entry of every beatmap hash: one entry per hash, each a maximum-rating
/// entry of the source for that hash, still sorted.
#[verifier::rlimit(50)]
pub fn dedup_best_by_hash(src: &Vec<RatingInfo>) -> (r: Vec<RatingInfo>)
    requires
        sorted_by_rating_desc(src@),
    ensures
        sorted_by_rating_desc(r@),
        distinct_hashes(r@),
        picked_from(src@, r@, src@.len() as int),
        hashes_covered(src@, r@, src@.len() as int),
        max_per_hash(src@, r@),
{
    let mut r: Vec<RatingInfo> = Vec::new();
    let mut k: usize = 0;
    while k < src.len()
        invariant
            k <= src@.len(),
            sorted_by_rating_desc(src@),
            sorted_by_rating_desc(r@),
            distinct_hashes(r@),
            picked_from(src@, r@, k as int),
            hashes_covered(src@, r@, k as int),
            max_per_hash(src@, r@),
        decreases src@.len() - k,
    {
        proof {
            // Everything collected so far out-rates the next source entry.
            assert forall|m: int| 0 <= m < r@.len() implies (#[trigger] r@[m]).rating
                >= src@[k as int].rating by {
                let k0 = choose|k0: int| 0 <= k0 < k && r@[m] == src@[k0];
                assert(rank_key_spec(src@[k0], false) >= rank_key_spec(src@[k as int], false));
            }
        }
        let ghost pre = r@;
        if !contains_hash(&r, &src[k].map_info.hash) {
            r.push(src[k].clone());
            proof {
                let last = r@.len() - 1;
                assert(r@[last] == src@[k as int]);
                assert(forall|m: int| 0 <= m < pre.len() ==> r@[m] == pre[m]);
                assert(sorted_by_rating_desc(r@));
                assert(picked_from(src@, r@, k + 1));
                // The pushed entry cannot clash with an earlier hash: that
                // hash would already be covered.
                assert forall|kk: int|
                    0 <= kk < src@.len() && r@[last].map_info.hash@ == (
                    #[trigger] src@[kk]).map_info.hash@ implies r@[last].rating
                    >= src@[kk].rating by {
                    if kk < k {
                        // Mention the hash term so the coverage fact fires.
                        assert(src@[kk].map_info.hash == src@[kk].map_info.hash);
                        let m0 = choose|m0: int|
                            0 <= m0 < pre.len() && (#[trigger] pre[m0]).map_info.hash@
                                == src@[kk].map_info.hash@;
                        assert(pre[m0].map_info.hash@ == src@[k as int].map_info.hash@);
                    } else {
                        assert(rank_key_spec(src@[k as int], false) >= rank_key_spec(
                            src@[kk],
                            false,
                        ));
                    }
                }
                assert(max_per_hash(src@, r@));
            }
        }
        proof {
            // Mention the hash term so the coverage fact fires.
            assert(src@[k as int].map_info.hash == src@[k as int].map_info.hash);
            assert(exists|m: int|
                0 <= m < r@.len() && (#[trigger] r@[m]).map_info.hash@ == (
                src@[k as int]).map_info.hash@);
            assert forall|kk: int|
                #![trigger src@[kk].map_info.hash]
                0 <= kk < k + 1 implies exists|m: int|
                0 <= m < r@.len() && (#[trigger] r@[m]).map_info.hash@
                    == src@[kk].map_info.hash@ by {
                if kk < k {
                    let m0 = choose|m0: int|
                        0 <= m0 < pre.len() && (#[trigger] pre[m0]).map_info.hash@
                            == src@[kk].map_info.hash@;
                    assert(r@[m0] == pre[m0]);
                }
            }
        }
        k += 1;
    }
    r
}

/// Whether the list already holds this player name.
fn contains_name(v: &Vec<String>, name: &String) -> (r: bool)
    ensures
        r == exists|m: int| 0 <= m < v@.len() && (#[trigger] v@[m])@ == name@,
{
    let mut j: usize = 0;
    while j < v.len()
        invariant
            j <= v@.len(),
            forall|m: int| 0 <= m < j ==> (#[trigger] v@[m])@ != name@,
        decreases v@.len() - j,
    {
        if v[j] == *name {
            return true;
        }
        j += 1;
    }
    false
}

/// Every one of the first `k` plays has its player's name in `names`.
#[verifier::opaque]
pub open spec fn players_covered(all: Seq<RatingInfo>, names: Seq<String>, k: int) -> bool {
    forall|kk: int|
        #![trigger all[kk]]
        0 <= kk < k ==> exists|m: int| 0 <= m < names.len() && (#[trigger] names[m])@
            == all[kk].score_info.player@
}

/// Every name in `names` is some play's player.
#[verifier::opaque]
pub open spec fn players_sound(all: Seq<RatingInfo>, names: Seq<String>) -> bool {
    forall|m: int|
        #![trigger names[m]]
        0 <= m < names.len() ==> exists|kk: int| 0 <= kk < all.len() && (#[trigger] all[kk])
            .score_info.player@ == names[m]@
}

/// The distinct player names appearing in a play list, each exactly once.
pub fn distinct_players(all: &Vec<RatingInfo>) -> (r: Vec<String>)
    ensures
        forall|i: int, j: int| 0 <= i < j < r@.len() ==> r@[i]@ != r@[j]@,
        players_covered(all@, r@, all@.len() as int),
        players_sound(all@, r@),
{
    let mut r: Vec<String> = Vec::new();
    proof {
        assert(players_covered(all@, r@, 0)) by {
            reveal(players_covered);
        }
        assert(players_sound(all@, r@)) by {
            reveal(players_sound);
        }
    }
    let mut k: usize = 0;
    while k < all.len()
        invariant
            k <= all@.len(),
            forall|i: int, j: int| 0 <= i < j < r@.len() ==> r@[i]@ != r@[j]@,
            players_covered(all@, r@, k as int),
            players_sound(all@, r@),
        decreases all@.len() - k,
    {
        let ghost pre = r@;
        if !contains_name(&r, &all[k].score_info.player) {
            r.push(all[k].score_info.player.clone());
            proof {
                assert(r@[r@.len() - 1]@ == all@[k as int].score_info.player@);
                assert(forall|m: int| 0 <= m < pre.len() ==> r@[m] == pre[m]);
            }
        }
        proof {
            assert(exists|m: int|
                0 <= m < r@.len() && (#[trigger] r@[m])@ == all@[k as int].score_info.player@);
            assert(players_covered(all@, r@, k + 1)) by {
                reveal(players_covered);
                assert forall|kk: int| #![trigger all@[kk]] 0 <= kk < k + 1 implies exists|m: int|
                    0 <= m < r@.len() && (#[trigger] r@[m])@
                        == all@[kk].score_info.player@ by {
                    if kk < k {
                        let m0 = choose|m0: int|
                            0 <= m0 < pre.len() && (#[trigger] pre[m0])@
                                == all@[kk].score_info.player@;
                        assert(r@[m0]@ == pre[m0]@);
                    }
                }
            }
            assert(players_sound(all@, r@)) by {
                reveal(players_sound);
                assert forall|m: int| #![trigger r@[m]] 0 <= m < r@.len() implies exists|kk: int|
                    0 <= kk < all@.len() && (#[trigger] all@[kk]).score_info.player@
                        == r@[m]@ by {
                    if m < pre.len() {
                        let k0 = choose|k0: int|
                            0 <= k0 < all@.len() && (#[trigger] all@[k0]).score_info.player@
                                == pre[m]@;
                        assert(r@[m]@ == pre[m]@);
                    } else {
                        assert(r@[m]@ == all@[k as int].score_info.player@);
                    }
                }
            }
        }
        k += 1;
    }
    r
}

/// The predicate selecting one player's entries.
pub open spec fn player_pred(p: Seq<char>) -> spec_fn(RatingInfo) -> bool {
    |x: RatingInfo| x.score_info.player@ == p
}

/// A bucket is everything the ranking promises for one player: it holds
/// entries of that player only, drawn from the play list, sorted
/// non-increasing by rating, one per beatmap hash, and for every play the
/// player has on some beatmap the bucket's entry for that hash rates at
/// least as high.
#[verifier::opaque]
pub open spec fn player_bucket_ok(p: Seq<char>, all: Seq<RatingInfo>, b: Seq<RatingInfo>) -> bool {
    &&& sorted_by_rating_desc(b)
    &&& distinct_hashes(b)
    &&& forall|m: int|
        #![trigger b[m]]
        0 <= m < b.len() ==> b[m].score_info.player@ == p && all.filter(player_pred(p)).contains(
            b[m],
        )
    &&& forall|k: int|
        #![trigger all[k]]
        0 <= k < all.len() && all[k].score_info.player@ == p ==> exists|m: int|
            0 <= m < b.len() && (#[trigger] b[m]).map_info.hash@ == all[k].map_info.hash@
                && b[m].rating >= all[k].rating
}

/// Sorting a player's extracted plays and deduplicating them per hash
/// yields a correct bucket for that player.
proof fn lemma_bucket_from_dedup(
    p: Seq<char>,
    all: Seq<RatingInfo>,
    mine: Seq<RatingInfo>,
    sortedm: Seq<RatingInfo>,
    b: Seq<RatingInfo>,
)
    requires
        mine == all.filter(player_pred(p)),
        sortedm.to_multiset() == mine.to_multiset(),
        sorted_by_rating_desc(b),
        distinct_hashes(b),
        picked_from(sortedm, b, sortedm.len() as int),
        hashes_covered(sortedm, b, sortedm.len() as int),
        max_per_hash(sortedm, b),
    ensures
        player_bucket_ok(p, all, b),
{
    broadcast use group_to_multiset_ensures;

    reveal(player_bucket_ok);
    let pred = player_pred(p);
    assert forall|m: int| 0 <= m < b.len() implies (#[trigger] b[m]).score_info.player@ == p
        && mine.contains(b[m]) by {
        assert(exists|k0: int| 0 <= k0 < sortedm.len() && b[m] == sortedm[k0]);
        let k0 = choose|k0: int| 0 <= k0 < sortedm.len() && b[m] == sortedm[k0];
        assert(sortedm.contains(b[m]));
        assert(sortedm.to_multiset().count(b[m]) > 0);
        assert(mine.contains(b[m]));
        let j = choose|j: int| 0 <= j < mine.len() && mine[j] == b[m];
        all.lemma_filter_pred(pred, j);
    }
    assert forall|k: int|
        0 <= k < all.len() && (#[trigger] all[k]).score_info.player@ == p implies exists|m: int|
        0 <= m < b.len() && (#[trigger] b[m]).map_info.hash@ == all[k].map_info.hash@
            && b[m].rating >= all[k].rating by {
        all.lemma_filter_contains(pred, k);
        assert(mine.contains(all[k]));
        assert(mine.to_multiset().count(all[k]) > 0);
        assert(sortedm.contains(all[k]));
        let k1 = choose|k1: int| 0 <= k1 < sortedm.len() && sortedm[k1] == all[k];
        // Mention the hash term so the coverage fact fires.
        assert(sortedm[k1].map_info.hash == sortedm[k1].map_info.hash);
        let m = choose|m: int|
            0 <= m < b.len() && (#[trigger] b[m]).map_info.hash@ == sortedm[k1].map_info.hash@;
        assert(b[m].rating >= sortedm[k1].rating);
    }
}

/// The name of the aggregate bucket with the most recent plays.
pub open spec fn recent_key_spec() -> Seq<char> {
    "[Recent 30]"@
}

/// The name of the aggregate bucket with every player's best plays.
pub open spec fn all_players_key_spec() -> Seq<char> {
    "[All Players]"@
}

/// Whether a bucket name is one of the two reserved aggregate names.
pub open spec fn is_reserved_key(k: Seq<char>) -> bool {
    k == recent_key_spec() || k == all_players_key_spec()
}

/// The key a player's bucket is stored under: the player's own name, unless
/// it collides with a reserved aggregate name, in which case a
/// disambiguating suffix is appended.
pub open spec fn bucket_key_spec(p: Seq<char>) -> Seq<char> {
    if is_reserved_key(p) {
        p + " (Player)"@
    } else {
        p
    }
}

/// A player's bucket key never collides with a reserved aggregate name, so
/// the reserved buckets are never shadowed.
pub proof fn lemma_bucket_key_not_reserved(p: Seq<char>)
    ensures
        !is_reserved_key(bucket_key_spec(p)),
{
    broadcast use vstd::string::group_string_axioms;

    reveal_strlit("[Recent 30]");
    reveal_strlit("[All Players]");
    reveal_strlit(" (Player)");
    if is_reserved_key(p) {
        assert(bucket_key_spec(p).len() == p.len() + 9);
    }
}

/// The two reserved aggregate names differ.
pub proof fn lemma_reserved_keys_distinct()
    ensures
        recent_key_spec() != all_players_key_spec(),
{
    broadcast use vstd::string::group_string_axioms;

    reveal_strlit("[Recent 30]");
    reveal_strlit("[All Players]");
    assert(recent_key_spec().len() == 11);
    assert(all_players_key_spec().len() == 13);
}

/// Computes the storage key for a player's bucket.
pub fn bucket_key(player: &String) -> (r: String)
    ensures
        r@ == bucket_key_spec(player@),
{
    let recent: String = "[Recent 30]".to_owned();
    let allp: String = "[All Players]".to_owned();
    if *player == recent || *player == allp {
        let mut k = player.clone();
        k.append(" (Player)");
        k
    } else {
        player.clone()
    }
}

/// Keeps the rated plays of one player, in order.
pub fn ratings_of_player(all: &Vec<RatingInfo>, player: &String) -> (r: Vec<RatingInfo>)
    ensures
        r@ == all@.filter(player_pred(player@)),
{
    let ghost pred = player_pred(player@);
    let mut r: Vec<RatingInfo> = Vec::new();
    proof {
        reveal(Seq::filter);
        assert(all@.subrange(0, 0) =~= Seq::<RatingInfo>::empty());
    }
    let mut k: usize = 0;
    while k < all.len()
        invariant
            k <= all@.len(),
            r@ == all@.subrange(0, k as int).filter(pred),
            pred == player_pred(player@),
        decreases all@.len() - k,
    {
        proof {
            assert(all@.subrange(0, k + 1) =~= all@.subrange(0, k as int).push(all@[k as int]));
            crate::aggregate::lemma_filter_push(all@.subrange(0, k as int), all@[k as int], pred);
        }
        if all[k].score_info.player == *player {
            r.push(all[k].clone());
        }
        k += 1;
    }
    proof {
        assert(all@.subrange(0, all@.len() as int) =~= all@);
    }
    r
}

/// Copies a play list.
pub fn clone_ratings(v: &Vec<RatingInfo>) -> (r: Vec<RatingInfo>)
    ensures
        r@ == v@,
{
    let mut r: Vec<RatingInfo> = Vec::new();
    let mut i: usize = 0;
    while i < v.len()
        invariant
            i <= v@.len(),
            r@ == v@.subrange(0, i as int),
        decreases v@.len() - i,
    {
        r.push(v[i].clone());
        proof {
            assert(v@.subrange(0, i + 1) =~= v@.subrange(0, i as int).push(v@[i as int]));
        }
        i += 1;
    }
    proof {
        assert(v@.subrange(0, v@.len() as int) =~= v@);
    }
    r
}

/// The leading `n` entries of a ranked bucket (or the whole bucket when it
/// is shorter): what a presentation layer shows of a player.
pub fn top_ratings(bucket: &Vec<RatingInfo>, n: usize) -> (r: Vec<RatingInfo>)
    ensures
        r@ == bucket@.subrange(
            0,
            if n <= bucket@.len() {
                n as int
            } else {
                bucket@.len() as int
            },
        ),
{
    let count = if n <= bucket.len() {
        n
    } else {
        bucket.len()
    };
    let mut r: Vec<RatingInfo> = Vec::new();
    let mut i: usize = 0;
    proof {
        assert(bucket@.subrange(0, 0) =~= Seq::<RatingInfo>::empty());
    }
    while i < count
        invariant
            i <= count <= bucket@.len(),
            r@ == bucket@.subrange(0, i as int),
        decreases count - i,
    {
        r.push(bucket[i].clone());
        proof {
            assert(bucket@.subrange(0, i + 1) =~= bucket@.subrange(0, i as int).push(
                bucket@[i as int],
            ));
        }
        i += 1;
    }
    r
}

/// The assembled rating table: bucket names (player names, disambiguated
/// where needed, plus the two reserved aggregate names) mapped to ranked
/// play lists.  Published tables are immutable; readers only look buckets
/// up by name.
pub struct RatingTable {
    pub buckets: Vec<(String, Vec<RatingInfo>)>,
}

impl RatingTable {
    /// Bucket names are pairwise distinct.
    pub open spec fn wf(self) -> bool {
        forall|i: int, j: int|
            0 <= i < j < self.buckets@.len() ==> self.buckets@[i].0@ != self.buckets@[j].0@
    }

    /// Whether some bucket is stored under this name.
    pub open spec fn contains_key(self, k: Seq<char>) -> bool {
        exists|j: int| 0 <= j < self.buckets@.len() && (#[trigger] self.buckets@[j]).0@ == k
    }

    /// The index of the bucket stored under this name.
    pub open spec fn key_at(self, k: Seq<char>) -> int {
        choose|j: int| 0 <= j < self.buckets@.len() && (#[trigger] self.buckets@[j]).0@ == k
    }

    /// The bucket stored under this name.
    pub open spec fn bucket_for(self, k: Seq<char>) -> Seq<RatingInfo> {
        self.buckets@[self.key_at(k)].1@
    }

    /// An empty table.
    pub fn new() -> (r: RatingTable)
        ensures
            r.wf(),
            r.buckets@.len() == 0,
            forall|k: Seq<char>| !(#[trigger] r.contains_key(k)),
    {
        RatingTable { buckets: Vec::new() }
    }

    /// Looks a bucket up by its name.
    pub fn get(&self, name: &String) -> (r: Option<&Vec<RatingInfo>>)
        requires
            self.wf(),
        ensures
            match r {
                Some(b) => self.contains_key(name@) && b@ == self.bucket_for(name@),
                None => !self.contains_key(name@),
            },
    {
        let mut j: usize = 0;
        while j < self.buckets.len()
            invariant
                j <= self.buckets@.len(),
                self.wf(),
                forall|m: int| 0 <= m < j ==> (#[trigger] self.buckets@[m]).0@ != name@,
            decreases self.buckets@.len() - j,
        {
            if self.buckets[j].0 == *name {
                proof {
                    let j2 = self.key_at(name@);
                    assert(0 <= j2 < self.buckets@.len() && self.buckets@[j2].0@ == name@);
                    assert(j2 == j as int);
                }
                return Some(&self.buckets[j].1);
            }
            j += 1;
        }
        None
    }

    /// Stores a bucket under a name, replacing any bucket already there;
    /// every other bucket keeps its name and contents.
    pub fn insert_or_replace(&mut self, key: String, bucket: Vec<RatingInfo>)
        requires
            old(self).wf(),
        ensures
            final(self).wf(),
            final(self).contains_key(key@),
            final(self).bucket_for(key@) == bucket@,
            old(self).buckets@.len() <= final(self).buckets@.len() <= old(self).buckets@.len()
                + 1,
            forall|j: int|
                0 <= j < old(self).buckets@.len() ==> (#[trigger] final(self).buckets@[j]).0@
                    == old(self).buckets@[j].0@,
            forall|j: int|
                0 <= j < old(self).buckets@.len() && old(self).buckets@[j].0@ != key@ ==> (
                #[trigger] final(self).buckets@[j]).1 == old(self).buckets@[j].1,
            final(self).buckets@.len() > old(self).buckets@.len()
                ==> final(self).buckets@[old(self).buckets@.len() as int].0 == key,
            forall|k2: Seq<char>|
                #[trigger] final(self).contains_key(k2) == (old(self).contains_key(k2) || k2
                    == key@),
            forall|k2: Seq<char>|
                k2 != key@ && old(self).contains_key(k2) ==> #[trigger] final(self).bucket_for(k2)
                    == old(self).bucket_for(k2),
    {
        let ghost pre = *self;
        let mut j: usize = 0;
        let n = self.buckets.len();
        while j < n
            invariant_except_break
                j <= n,
                n == self.buckets@.len(),
                *self == pre,
                forall|m: int| 0 <= m < j ==> (#[trigger] self.buckets@[m]).0@ != key@,
            ensures
                j <= n,
                n == self.buckets@.len(),
                *self == pre,
                j < n ==> self.buckets@[j as int].0@ == key@,
                forall|m: int| 0 <= m < j ==> (#[trigger] self.buckets@[m]).0@ != key@,
            decreases n - j,
        {
            if self.buckets[j].0 == key {
                break ;
            }
            j += 1;
        }
        if j < n {
            let ghost hit = j as int;
            self.buckets.set(j, (key, bucket));
            proof {
                lemma_table_update(pre, *self, hit, key@, bucket@);
            }
        } else {
            self.buckets.push((key, bucket));
            proof {
                lemma_table_push(pre, *self, key@, bucket@);
            }
        }
    }
}

/// Whether some play in the list belongs to this player.
pub open spec fn player_appears(all: Seq<RatingInfo>, p: Seq<char>) -> bool {
    exists|k: int| 0 <= k < all.len() && (#[trigger] all[k]).score_info.player@ == p
}

/// Whether a stored bucket is the correct bucket of some player whose name
/// keys it (after disambiguation).
#[verifier::opaque]
pub open spec fn good_bucket_entry(
    all: Seq<RatingInfo>,
    key: Seq<char>,
    b: Seq<RatingInfo>,
) -> bool {
    exists|p: Seq<char>|
        #![trigger bucket_key_spec(p)]
        player_appears(all, p) && bucket_key_spec(p) == key && player_bucket_ok(p, all, b)
}

/// Every bucket of the table is a reserved aggregate or a correct player
/// bucket stored under that player's key.
pub open spec fn table_buckets_good(all: Seq<RatingInfo>, t: RatingTable) -> bool {
    forall|j: int|
        #![trigger t.buckets@[j]]
        0 <= j < t.buckets@.len() ==> is_reserved_key(t.buckets@[j].0@) || good_bucket_entry(
            all,
            t.buckets@[j].0@,
            t.buckets@[j].1@,
        )
}

/// Assembles the final rating table from the global play list and the
/// one-per-beatmap best list: the recent aggregate (all plays by timestamp),
/// the all-players aggregate (best plays by rating), and one deduplicated,
/// rating-sorted bucket per player, stored under the player's
/// (disambiguated) name.  The reserved aggregate buckets are inserted last
/// and are never shadowed by a player bucket.
pub fn prepare_ratings(all_ratings: Vec<RatingInfo>, best_ratings: Vec<RatingInfo>) -> (t:
    RatingTable)
    ensures
        t.wf(),
        t.contains_key(recent_key_spec()),
        sorted_by_timestamp_desc(t.bucket_for(recent_key_spec())),
        t.bucket_for(recent_key_spec()).to_multiset() == all_ratings@.to_multiset(),
        t.contains_key(all_players_key_spec()),
        sorted_by_rating_desc(t.bucket_for(all_players_key_spec())),
        t.bucket_for(all_players_key_spec()).to_multiset() == best_ratings@.to_multiset(),
        forall|k: int|
            #![trigger all_ratings@[k]]
            0 <= k < all_ratings@.len() ==> t.contains_key(
                bucket_key_spec(all_ratings@[k].score_info.player@),
            ),
        table_buckets_good(all_ratings@, t),
{
    let mut recent = clone_ratings(&all_ratings);
    sort_ratings_desc(&mut recent, true);
    let mut best = best_ratings;
    sort_ratings_desc(&mut best, false);
    let players = distinct_players(&all_ratings);
    let mut table = RatingTable::new();
    let mut i: usize = 0;
    while i < players.len()
        invariant
            i <= players@.len(),
            table.wf(),
            table_buckets_good(all_ratings@, table),
            players_covered(all_ratings@, players@, all_ratings@.len() as int),
            players_sound(all_ratings@, players@),
            forall|ii: int|
                #![trigger players@[ii]]
                0 <= ii < i ==> table.contains_key(bucket_key_spec(players@[ii]@)),
        decreases players@.len() - i,
    {
        let name = &players[i];
        let mine = ratings_of_player(&all_ratings, name);
        let ghost mine0 = mine@;
        let mut mine_sorted = mine;
        sort_ratings_desc(&mut mine_sorted, false);
        let bucket = dedup_best_by_hash(&mine_sorted);
        proof {
            lemma_bucket_from_dedup(name@, all_ratings@, mine0, mine_sorted@, bucket@);
        }
        let key = bucket_key(name);
        let ghost pret = table;
        let ghost gbucket = bucket@;
        let ghost gkey = key@;
        table.insert_or_replace(key, bucket);
        proof {
            lemma_bucket_key_not_reserved(name@);
            assert(good_bucket_entry(all_ratings@, gkey, gbucket)) by {
                reveal(good_bucket_entry);
                assert(player_appears(all_ratings@, name@)) by {
                    reveal(players_sound);
                    let kk = choose|kk: int|
                        0 <= kk < all_ratings@.len() && (#[trigger] all_ratings@[kk])
                            .score_info.player@ == players@[i as int]@;
                    assert(all_ratings@[kk].score_info.player@ == name@);
                }
                assert(bucket_key_spec(name@) == gkey);
            }
            assert forall|j: int|
                0 <= j < table.buckets@.len() implies is_reserved_key(
                (#[trigger] table.buckets@[j]).0@,
            ) || good_bucket_entry(all_ratings@, table.buckets@[j].0@, table.buckets@[j].1@) by {
                if table.buckets@[j].0@ == gkey {
                    let ja = table.key_at(gkey);
                    assert(0 <= ja < table.buckets@.len() && table.buckets@[ja].0@ == gkey);
                    assert(ja == j);
                    assert(table.buckets@[j].1@ == gbucket);
                } else {
                    assert(j < pret.buckets@.len());
                    assert(table.buckets@[j].0@ == pret.buckets@[j].0@);
                    assert(table.buckets@[j].1 == pret.buckets@[j].1);
                    assert(is_reserved_key(pret.buckets@[j].0@) || good_bucket_entry(
                        all_ratings@,
                        pret.buckets@[j].0@,
                        pret.buckets@[j].1@,
                    ));
                }
            }
            assert forall|ii: int|
                0 <= ii < i + 1 implies table.contains_key(
                bucket_key_spec((#[trigger] players@[ii])@),
            ) by {
                if ii < i {
                    assert(pret.contains_key(bucket_key_spec(players@[ii]@)));
                }
            }
        }
        i += 1;
    }
    let ghost t1 = table;
    let rk: String = "[Recent 30]".to_owned();
    let ghost grecent = recent@;
    table.insert_or_replace(rk, recent);
    let ghost t2 = table;
    let ak: String = "[All Players]".to_owned();
    let ghost gbest = best@;
    table.insert_or_replace(ak, best);
    proof {
        lemma_reserved_keys_distinct();
        assert(t2.bucket_for(recent_key_spec()) == grecent);
        assert(table.bucket_for(recent_key_spec()) == grecent);
        assert(table.bucket_for(all_players_key_spec()) == gbest);
        assert forall|k: int|
            0 <= k < all_ratings@.len() implies table.contains_key(
            bucket_key_spec((#[trigger] all_ratings@[k]).score_info.player@),
        ) by {
            reveal(players_covered);
            let m = choose|m: int|
                0 <= m < players@.len() && (#[trigger] players@[m])@
                    == all_ratings@[k].score_info.player@;
            assert(t1.contains_key(bucket_key_spec(players@[m]@)));
            assert(t2.contains_key(bucket_key_spec(players@[m]@)));
            assert(table.contains_key(bucket_key_spec(players@[m]@)));
        }
        assert forall|j: int|
            0 <= j < table.buckets@.len() implies is_reserved_key(
            (#[trigger] table.buckets@[j]).0@,
        ) || good_bucket_entry(all_ratings@, table.buckets@[j].0@, table.buckets@[j].1@) by {
            if table.buckets@[j].0@ == recent_key_spec() || table.buckets@[j].0@
                == all_players_key_spec() {
            } else {
                assert(j < t1.buckets@.len());
                assert(t2.buckets@[j].0@ == t1.buckets@[j].0@);
                assert(table.buckets@[j].0@ == t2.buckets@[j].0@);
                assert(t2.buckets@[j].1 == t1.buckets@[j].1);
                assert(table.buckets@[j].1 == t2.buckets@[j].1);
                assert(is_reserved_key(t1.buckets@[j].0@) || good_bucket_entry(
                    all_ratings@,
                    t1.buckets@[j].0@,
                    t1.buckets@[j].1@,
                ));
            }
        }
    }
    table
}

/// What replacing the bucket at an existing index does to the table's
/// lookup view.
proof fn lemma_table_update(pre: RatingTable, post: RatingTable, j: int, key: Seq<char>, b: Seq<
    RatingInfo,
>)
    requires
        pre.wf(),
        0 <= j < pre.buckets@.len(),
        pre.buckets@[j].0@ == key,
        post.buckets@.len() == pre.buckets@.len(),
        post.buckets@[j].0@ == key,
        post.buckets@[j].1@ == b,
        forall|m: int|
            0 <= m < pre.buckets@.len() && m != j ==> (#[trigger] post.buckets@[m])
                == pre.buckets@[m],
    ensures
        post.wf(),
        post.contains_key(key),
        post.bucket_for(key) == b,
        forall|k2: Seq<char>|
            #[trigger] post.contains_key(k2) == (pre.contains_key(k2) || k2 == key),
        forall|k2: Seq<char>|
            k2 != key && pre.contains_key(k2) ==> #[trigger] post.bucket_for(k2)
                == pre.bucket_for(k2),
{
    assert forall|i2: int, j2: int| 0 <= i2 < j2 < post.buckets@.len() implies post.buckets@[i2].0@
        != post.buckets@[j2].0@ by {
        assert(pre.buckets@[i2].0@ != pre.buckets@[j2].0@);
        assert(post.buckets@[i2].0@ == pre.buckets@[i2].0@);
        assert(post.buckets@[j2].0@ == pre.buckets@[j2].0@);
    }
    assert(post.buckets@[j].0@ == key);
    assert(post.contains_key(key));
    let ja = post.key_at(key);
    assert(0 <= ja < post.buckets@.len() && post.buckets@[ja].0@ == key);
    assert(ja == j);
    assert forall|k2: Seq<char>| #[trigger] post.contains_key(k2) == (pre.contains_key(k2) || k2
        == key) by {
        if post.contains_key(k2) {
            let w = choose|w: int|
                0 <= w < post.buckets@.len() && (#[trigger] post.buckets@[w]).0@ == k2;
            assert(pre.buckets@[w].0@ == k2 || k2 == key);
        }
        if pre.contains_key(k2) {
            let w = choose|w: int|
                0 <= w < pre.buckets@.len() && (#[trigger] pre.buckets@[w]).0@ == k2;
            assert(post.buckets@[w].0@ == k2 || w == j);
            if w == j {
                assert(k2 == key);
            }
        }
        if k2 == key {
            assert(post.contains_key(k2));
        }
    }
    assert forall|k2: Seq<char>| k2 != key && pre.contains_key(k2) implies #[trigger] post
        .bucket_for(k2) == pre.bucket_for(k2) by {
        let wpre = pre.key_at(k2);
        assert(0 <= wpre < pre.buckets@.len() && pre.buckets@[wpre].0@ == k2);
        assert(wpre != j);
        assert(post.buckets@[wpre].0@ == k2);
        assert(post.contains_key(k2));
        let wpost = post.key_at(k2);
        assert(0 <= wpost < post.buckets@.len() && post.buckets@[wpost].0@ == k2);
        assert(wpost == wpre);
    }
}

/// What appending a bucket under a fresh name does to the table's lookup
/// view.
proof fn lemma_table_push(pre: RatingTable, post: RatingTable, key: Seq<char>, b: Seq<RatingInfo>)
    requires
        pre.wf(),
        forall|m: int| 0 <= m < pre.buckets@.len() ==> (#[trigger] pre.buckets@[m]).0@ != key,
        post.buckets@.len() == pre.buckets@.len() + 1,
        post.buckets@[pre.buckets@.len() as int].0@ == key,
        post.buckets@[pre.buckets@.len() as int].1@ == b,
        forall|m: int|
            0 <= m < pre.buckets@.len() ==> (#[trigger] post.buckets@[m]) == pre.buckets@[m],
    ensures
        post.wf(),
        post.contains_key(key),
        post.bucket_for(key) == b,
        forall|k2: Seq<char>|
            #[trigger] post.contains_key(k2) == (pre.contains_key(k2) || k2 == key),
        forall|k2: Seq<char>|
            k2 != key && pre.contains_key(k2) ==> #[trigger] post.bucket_for(k2)
                == pre.bucket_for(k2),
{
    let n = pre.buckets@.len() as int;
    assert forall|i2: int, j2: int| 0 <= i2 < j2 < post.buckets@.len() implies post.buckets@[i2].0@
        != post.buckets@[j2].0@ by {
        if j2 < n {
            assert(pre.buckets@[i2].0@ != pre.buckets@[j2].0@);
        } else {
            assert(post.buckets@[i2].0@ == pre.buckets@[i2].0@);
            assert(post.buckets@[j2].0@ == key);
        }
    }
    assert(post.buckets@[n].0@ == key);
    assert(post.contains_key(key));
    let ja = post.key_at(key);
    assert(0 <= ja < post.buckets@.len() && post.buckets@[ja].0@ == key);
    assert(ja == n);
    assert forall|k2: Seq<char>| #[trigger] post.contains_key(k2) == (pre.contains_key(k2) || k2
        == key) by {
        if post.contains_key(k2) {
            let w = choose|w: int|
                0 <= w < post.buckets@.len() && (#[trigger] post.buckets@[w]).0@ == k2;
            assert(w < n ==> pre.buckets@[w].0@ == k2);
            assert(w == n ==> k2 == key);
        }
        if pre.contains_key(k2) {
            let w = choose|w: int|
                0 <= w < pre.buckets@.len() && (#[trigger] pre.buckets@[w]).0@ == k2;
            assert(post.buckets@[w].0@ == k2);
        }
        if k2 == key {
            assert(post.contains_key(k2));
        }
    }
    assert forall|k2: Seq<char>| k2 != key && pre.contains_key(k2) implies #[trigger] post
        .bucket_for(k2) == pre.bucket_for(k2) by {
        let wpre = pre.key_at(k2);
        assert(0 <= wpre < pre.buckets@.len() && pre.buckets@[wpre].0@ == k2);
        assert(post.buckets@[wpre].0@ == k2);
        assert(post.contains_key(k2));
        let wpost = post.key_at(k2);
        assert(0 <= wpost < post.buckets@.len() && post.buckets@[wpost].0@ == k2);
        assert(wpost != n);
        assert(wpost == wpre);
    }
}

} // verus!
