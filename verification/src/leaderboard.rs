//! Leaderboard ranking over per-user training-volume aggregates.
//!
//! The ranker takes every user's total volume (a user with no sets appears
//! with volume zero, not excluded), returns at most the top ten by volume
//! descending, and annotates each entry with a competition rank: tied
//! volumes share a rank, and the rank is always one more than the number of
//! users with strictly greater volume, so the value after a tie skips by
//! the number tied.

use vstd::prelude::*;

verus! {

broadcast use vstd::seq_lib::group_seq_properties, vstd::seq_lib::group_to_multiset_ensures,
    vstd::multiset::group_multiset_axioms;

/// How many entries the leaderboard returns at most.
pub const LEADERBOARD_LIMIT: usize = 10;

/// One user's aggregate training volume, in centi-kilogram-reps.
#[derive(Clone, Copy, PartialEq, Eq, Structural, Debug)]
pub struct UserVolume {
    pub user_id: u64,
    pub volume_cg: u64,
}

/// A ranked leaderboard row.
#[derive(Clone, Copy, PartialEq, Eq, Structural, Debug)]
pub struct LeaderboardEntry {
    pub user_id: u64,
    pub total_volume_cg: u64,
    pub rank: u64,
}

/// The aggregate a ranked row was built from.
pub open spec fn entry_source(e: LeaderboardEntry) -> UserVolume {
    UserVolume { user_id: e.user_id, volume_cg: e.total_volume_cg }
}

/// The aggregates a ranked board was built from, in board order.
pub open spec fn sources(r: Seq<LeaderboardEntry>) -> Seq<UserVolume> {
    r.map_values(|e: LeaderboardEntry| entry_source(e))
}

/// How many aggregates hold a volume strictly greater than `v`.
pub open spec fn count_gt(s: Seq<UserVolume>, v: int) -> int
    decreases s.len(),
{
    if s.len() == 0 {
        0
    } else {
        count_gt(s.drop_last(), v) + if s.last().volume_cg > v {
            1int
        } else {
            0int
        }
    }
}

/// The strictly-greater count never exceeds the number of aggregates.
pub proof fn lemma_count_gt_bounds(s: Seq<UserVolume>, v: int)
    ensures
        0 <= count_gt(s, v) <= s.len(),
    decreases s.len(),
{
    if s.len() > 0 {
        lemma_count_gt_bounds(s.drop_last(), v);
    }
}

/// Counts the aggregates whose volume strictly exceeds `v`.
fn count_greater(rows: &Vec<UserVolume>, v: u64) -> (c: usize)
    ensures
        c == count_gt(rows@, v as int),
{
    let mut c: usize = 0;
    let mut i: usize = 0;
    while i < rows.len()
        invariant
            0 <= i <= rows.len(),
            c <= i,
            c == count_gt(rows@.take(i as int), v as int),
        decreases rows.len() - i,
    {
        proof {
            assert(rows@.take(i as int + 1).drop_last() =~= rows@.take(i as int));
            assert(rows@.take(i as int + 1).last() == rows@[i as int]);
        }
        if rows[i].volume_cg > v {
            c += 1;
        }
        i += 1;
    }
    proof {
        assert(rows@.take(rows@.len() as int) =~= rows@);
    }
    c
}

/// Volume-descending order.
pub open spec fn sorted_desc(s: Seq<UserVolume>) -> bool {
    forall|a: int, b: int| 0 <= a < b < s.len() ==> s[a].volume_cg >= s[b].volume_cg
}

/// The index of the first aggregate with maximal volume: a left-to-right
/// fold that moves only on a strictly greater volume.
pub open spec fn first_max_index(s: Seq<UserVolume>) -> int
    decreases s.len(),
{
    if s.len() <= 1 {
        0
    } else if s.last().volume_cg > s[first_max_index(s.drop_last())].volume_cg {
        s.len() - 1
    } else {
        first_max_index(s.drop_last())
    }
}

/// `first_max_index` names an in-range index of maximal volume, and the
/// earliest one: ties are broken toward the earlier aggregate.
pub proof fn lemma_first_max_index_props(s: Seq<UserVolume>)
    requires
        s.len() > 0,
    ensures
        0 <= first_max_index(s) < s.len(),
        forall|k: int|
            0 <= k < s.len() ==> #[trigger] s[k].volume_cg <= s[first_max_index(s)].volume_cg,
        forall|k: int|
            0 <= k < first_max_index(s) ==> #[trigger] s[k].volume_cg < s[
                first_max_index(s)
            ].volume_cg,
    decreases s.len(),
{
    if s.len() > 1 {
        let dl = s.drop_last();
        lemma_first_max_index_props(dl);
        assert(forall|k: int| 0 <= k < dl.len() ==> dl[k] == s[k]);
    }
}

/// The top `n` aggregates in stable volume-descending order: repeatedly
/// take the first aggregate of maximal volume, so tied volumes keep their
/// input order.
#[verifier::opaque]
pub open spec fn stable_top(s: Seq<UserVolume>, n: int) -> Seq<UserVolume>
    decreases s.len(),
{
    if n <= 0 || s.len() == 0 {
        Seq::<UserVolume>::empty()
    } else if 0 <= first_max_index(s) < s.len() {
        seq![s[first_max_index(s)]] + stable_top(s.remove(first_max_index(s)), n - 1)
    } else {
        Seq::<UserVolume>::empty()
    }
}

/// One selection step: taking the first maximal aggregate extends a prefix
/// of the stable selection by one.
proof fn lemma_stable_top_step(prefix: Seq<UserVolume>, s: Seq<UserVolume>, t: Seq<UserVolume>, n: int, mi: int)
    requires
        n > 0,
        s.len() > 0,
        mi == first_max_index(s),
        prefix + stable_top(s, n) == t,
    ensures
        prefix.push(s[mi]) + stable_top(s.remove(mi), n - 1) == t,
{
    reveal(stable_top);
    lemma_first_max_index_props(s);
    assert(stable_top(s, n) == seq![s[mi]] + stable_top(s.remove(mi), n - 1));
    assert(prefix.push(s[mi]) + stable_top(s.remove(mi), n - 1) =~= prefix + (seq![s[mi]]
        + stable_top(s.remove(mi), n - 1)));
}

/// An exhausted budget or input selects nothing.
proof fn lemma_stable_top_empty(s: Seq<UserVolume>, n: int)
    requires
        n <= 0 || s.len() == 0,
    ensures
        stable_top(s, n) == Seq::<UserVolume>::empty(),
{
    reveal(stable_top);
}

/// Selects the top aggregates by volume descending, at most
/// `LEADERBOARD_LIMIT` of them: exactly the stable selection `stable_top`,
/// so every returned aggregate is one of the input's (with multiplicity),
/// tied volumes keep their input order, and any occurrence left out has a
/// volume no greater than every one returned.
#[verifier::rlimit(60)]
fn select_top(rows: &Vec<UserVolume>) -> (t: Vec<UserVolume>)
    ensures
        t@ == stable_top(rows@, LEADERBOARD_LIMIT as int),
        sorted_desc(t@),
        t@.len() == if rows@.len() < LEADERBOARD_LIMIT {
            rows@.len() as int
        } else {
            LEADERBOARD_LIMIT as int
        },
        forall|y: UserVolume|
            #[trigger] t@.to_multiset().count(y) <= rows@.to_multiset().count(y),
        forall|y: UserVolume|
            rows@.to_multiset().count(y) > #[trigger] t@.to_multiset().count(y) ==> forall|i: int|
                0 <= i < t@.len() ==> y.volume_cg <= t@[i].volume_cg,
{
    let mut rem: Vec<UserVolume> = Vec::new();
    let mut i: usize = 0;
    while i < rows.len()
        invariant
            0 <= i <= rows.len(),
            rem@ == rows@.take(i as int),
        decreases rows.len() - i,
    {
        rem.push(rows[i]);
        proof {
            assert(rem@ =~= rows@.take(i as int + 1));
        }
        i += 1;
    }
    proof {
        assert(rem@ =~= rows@);
    }

    let mut out: Vec<UserVolume> = Vec::new();
    proof {
        assert(out@ + stable_top(rem@, LEADERBOARD_LIMIT as int - out@.len()) =~= stable_top(
            rows@,
            LEADERBOARD_LIMIT as int,
        ));
    }
    while out.len() < LEADERBOARD_LIMIT && rem.len() > 0
        invariant
            out@.len() + rem@.len() == rows@.len(),
            out@.len() <= LEADERBOARD_LIMIT,
            out@ + stable_top(rem@, LEADERBOARD_LIMIT as int - out@.len()) == stable_top(
                rows@,
                LEADERBOARD_LIMIT as int,
            ),
            sorted_desc(out@),
            out@.to_multiset().add(rem@.to_multiset()) == rows@.to_multiset(),
            forall|a: int, b: int|
                0 <= a < out@.len() && 0 <= b < rem@.len() ==> out@[a].volume_cg
                    >= rem@[b].volume_cg,
        decreases rem.len(),
    {
        let mut mi: usize = 0;
        let mut j: usize = 1;
        while j < rem.len()
            invariant
                0 <= mi < j <= rem.len(),
                forall|k: int| 0 <= k < j ==> rem@[mi as int].volume_cg >= rem@[k].volume_cg,
                mi as int == first_max_index(rem@.take(j as int)),
            decreases rem.len() - j,
        {
            proof {
                assert(rem@.take(j as int + 1).drop_last() =~= rem@.take(j as int));
                assert(rem@.take(j as int + 1).last() == rem@[j as int]);
                assert(rem@.take(j as int)[mi as int] == rem@[mi as int]);
            }
            if rem[j].volume_cg > rem[mi].volume_cg {
                mi = j;
            }
            j += 1;
        }
        proof {
            assert(rem@.take(rem@.len() as int) =~= rem@);
            assert(mi as int == first_max_index(rem@));
        }
        let x = rem[mi];
        let ghost old_rem = rem@;
        let ghost old_out = out@;
        let ghost k = LEADERBOARD_LIMIT as int - old_out.len();
        rem.remove(mi);
        out.push(x);
        proof {
            lemma_stable_top_step(
                old_out,
                old_rem,
                stable_top(rows@, LEADERBOARD_LIMIT as int),
                k,
                mi as int,
            );
            assert(old_rem.contains(x));
            assert(old_rem.to_multiset().count(x) > 0);
            assert(rem@.to_multiset() == old_rem.to_multiset().remove(x));
            assert(out@.to_multiset() == old_out.to_multiset().insert(x));
            assert(out@.to_multiset().add(rem@.to_multiset()) =~= rows@.to_multiset());
            assert(out@[out@.len() - 1] == x);
            assert forall|b: int| 0 <= b < rem@.len() implies x.volume_cg >= rem@[b].volume_cg by {
                if b < mi {
                    assert(rem@[b] == old_rem[b]);
                } else {
                    assert(rem@[b] == old_rem[b + 1]);
                }
            }
        }
    }
    proof {
        lemma_stable_top_empty(rem@, LEADERBOARD_LIMIT as int - out@.len());
        assert(out@ + Seq::<UserVolume>::empty() =~= out@);
        assert(out@ == stable_top(rows@, LEADERBOARD_LIMIT as int));
        assert forall|y: UserVolume|
            rows@.to_multiset().count(y) > out@.to_multiset().count(y) implies forall|i: int|
            0 <= i < out@.len() ==> y.volume_cg <= out@[i].volume_cg by {
            assert(rem@.to_multiset().count(y) > 0);
            assert(rem@.contains(y));
            let b = choose|b: int| 0 <= b < rem@.len() && rem@[b] == y;
            assert(forall|i: int| 0 <= i < out@.len() ==> out@[i].volume_cg >= rem@[b].volume_cg);
        }
        assert forall|y: UserVolume|
            out@.to_multiset().count(y) <= rows@.to_multiset().count(y) by {
            assert(rows@.to_multiset().count(y) == out@.to_multiset().count(y)
                + rem@.to_multiset().count(y));
        }
    }
    out
}

/// Ranks the per-user volume aggregates: at most `LEADERBOARD_LIMIT`
/// entries, by volume descending, each drawn from the input (with
/// multiplicity) and every occurrence left out no greater in volume than
/// any entry returned; each entry's rank is one more than the number of
/// input aggregates with strictly greater volume, so tied volumes share a
/// rank and the next distinct volume's rank skips by the number tied.
pub fn rank_leaderboard(rows: &Vec<UserVolume>) -> (r: Vec<LeaderboardEntry>)
    requires
        rows@.len() < usize::MAX,
    ensures
        sources(r@) == stable_top(rows@, LEADERBOARD_LIMIT as int),
        r@.len() == if rows@.len() < LEADERBOARD_LIMIT {
            rows@.len() as int
        } else {
            LEADERBOARD_LIMIT as int
        },
        forall|a: int, b: int|
            0 <= a < b < r@.len() ==> r@[a].total_volume_cg >= r@[b].total_volume_cg,
        forall|i: int|
            0 <= i < r@.len() ==> #[trigger] r@[i].rank == 1 + count_gt(
                rows@,
                r@[i].total_volume_cg as int,
            ),
        forall|y: UserVolume|
            #[trigger] sources(r@).to_multiset().count(y) <= rows@.to_multiset().count(y),
        forall|y: UserVolume|
            rows@.to_multiset().count(y) > #[trigger] sources(r@).to_multiset().count(y)
                ==> forall|i: int|
                0 <= i < r@.len() ==> y.volume_cg <= r@[i].total_volume_cg,
{
    let top = select_top(rows);
    let mut r: Vec<LeaderboardEntry> = Vec::new();
    let mut i: usize = 0;
    while i < top.len()
        invariant
            rows@.len() < usize::MAX,
            0 <= i <= top@.len(),
            r@.len() == i,
            sources(r@) == top@.take(i as int),
            forall|k: int|
                0 <= k < i ==> #[trigger] r@[k].rank == 1 + count_gt(
                    rows@,
                    r@[k].total_volume_cg as int,
                ),
            forall|k: int| 0 <= k < i ==> #[trigger] r@[k].total_volume_cg == top@[k].volume_cg,
        decreases top@.len() - i,
    {
        let c = count_greater(rows, top[i].volume_cg);
        proof {
            lemma_count_gt_bounds(rows@, top@[i as int].volume_cg as int);
        }
        let entry = LeaderboardEntry {
            user_id: top[i].user_id,
            total_volume_cg: top[i].volume_cg,
            rank: (c as u64) + 1,
        };
        let ghost old_r = r@;
        r.push(entry);
        proof {
            assert(sources(r@) =~= top@.take(i as int + 1));
        }
        i += 1;
    }
    proof {
        assert(top@.take(top@.len() as int) =~= top@);
        assert(sources(r@) == top@);
    }
    r
}

} // verus!
