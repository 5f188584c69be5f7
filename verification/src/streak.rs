//! Activity-streak computation over calendar dates given as day numbers.
//!
//! The input is the unordered, possibly duplicated collection of dates on
//! which the user logged at least one set, plus an injected "today". The
//! dates are sorted ascending and deduplicated; a walk over consecutive
//! pairs extends a running streak when the gap is exactly one day and resets
//! it to one otherwise. The maximum running length is the max streak; the
//! final running length is the current streak only when the most recent
//! date is at most one day before today, else the current streak has lapsed
//! to zero.

use vstd::prelude::*;

verus! {

/// Sorted ascending with no duplicates.
pub open spec fn strictly_increasing(s: Seq<i64>) -> bool {
    forall|i: int, j: int| 0 <= i < j < s.len() ==> s[i] < s[j]
}

/// Length of the running streak after walking the whole sequence: the
/// longest consecutive-day suffix.
pub open spec fn curr_run(s: Seq<i64>) -> int
    decreases s.len(),
{
    if s.len() == 0 {
        0
    } else if s.len() == 1 {
        1
    } else if s[s.len() - 1] == s[s.len() - 2] + 1 {
        1 + curr_run(s.drop_last())
    } else {
        1
    }
}

/// The maximum running streak seen over the whole walk: the longest run of
/// consecutive days anywhere in the sequence.
pub open spec fn max_run(s: Seq<i64>) -> int
    decreases s.len(),
{
    if s.len() == 0 {
        0
    } else if max_run(s.drop_last()) >= curr_run(s) {
        max_run(s.drop_last())
    } else {
        curr_run(s)
    }
}

/// The current streak: the final running length, but only while the most
/// recent activity date is today or yesterday (or not yet past); a user
/// with no dates, or whose last date is two or more days gone, has none.
pub open spec fn current_streak_spec(s: Seq<i64>, today: int) -> int {
    if s.len() == 0 {
        0
    } else if today - s.last() <= 1 {
        curr_run(s)
    } else {
        0
    }
}

/// Sorts the logged activity dates ascending and removes duplicates: the
/// result is strictly increasing and holds exactly the dates of the input.
pub fn sort_dedup_dates(dates: &Vec<i64>) -> (r: Vec<i64>)
    ensures
        strictly_increasing(r@),
        forall|y: i64| r@.contains(y) <==> dates@.contains(y),
{
    let mut rem: Vec<i64> = Vec::new();
    let mut i: usize = 0;
    while i < dates.len()
        invariant
            0 <= i <= dates.len(),
            rem@ == dates@.take(i as int),
        decreases dates.len() - i,
    {
        rem.push(dates[i]);
        proof {
            assert(rem@ =~= dates@.take(i as int + 1));
        }
        i += 1;
    }
    proof {
        assert(rem@ =~= dates@);
    }

    let mut out: Vec<i64> = Vec::new();
    while rem.len() > 0
        invariant
            strictly_increasing(out@),
            forall|y: i64| #[trigger] dates@.contains(y) <==> (out@.contains(y)
                || rem@.contains(y)),
            forall|a: int, b: int|
                0 <= a < out@.len() && 0 <= b < rem@.len() ==> out@[a] <= rem@[b],
        decreases rem.len(),
    {
        let mut mi: usize = 0;
        let mut j: usize = 1;
        while j < rem.len()
            invariant
                0 <= mi < j <= rem.len(),
                forall|k: int| 0 <= k < j ==> rem@[mi as int] <= rem@[k],
            decreases rem.len() - j,
        {
            if rem[j] < rem[mi] {
                mi = j;
            }
            j += 1;
        }
        let x = rem[mi];
        let ghost old_rem = rem@;
        rem.remove(mi);
        proof {
            assert forall|y: i64| rem@.contains(y) implies old_rem.contains(y) by {
                let jj = choose|jj: int| 0 <= jj < rem@.len() && rem@[jj] == y;
                if jj < mi {
                    assert(old_rem[jj] == y);
                } else {
                    assert(old_rem[jj + 1] == y);
                }
            }
            assert forall|y: i64| old_rem.contains(y) && y != x implies rem@.contains(y) by {
                let jj = choose|jj: int| 0 <= jj < old_rem.len() && old_rem[jj] == y;
                if jj < mi {
                    assert(rem@[jj] == y);
                } else {
                    assert(rem@[jj - 1] == y);
                }
            }
        }
        if out.len() == 0 || out[out.len() - 1] < x {
            let ghost old_out = out@;
            out.push(x);
            proof {
                assert(out@[out@.len() - 1] == x);
                assert forall|y: i64| old_out.contains(y) implies out@.contains(y) by {
                    let jj = choose|jj: int| 0 <= jj < old_out.len() && old_out[jj] == y;
                    assert(out@[jj] == y);
                }
            }
        } else {
            proof {
                assert(out@[out@.len() - 1] == x);
            }
        }
    }
    out
}

/// Walks a sorted, deduplicated date sequence and returns the pair
/// `(current_streak, max_streak)` against the injected `today`.
pub fn streak_counts_sorted(dates: &Vec<i64>, today: i64) -> (r: (usize, usize))
    requires
        strictly_increasing(dates@),
    ensures
        r.0 == current_streak_spec(dates@, today as int),
        r.1 == max_run(dates@),
{
    let n = dates.len();
    let mut temp: usize = 0;
    let mut maxs: usize = 0;
    let mut i: usize = 0;
    while i < n
        invariant
            n == dates.len(),
            strictly_increasing(dates@),
            0 <= i <= n,
            temp <= i,
            temp == curr_run(dates@.take(i as int)),
            maxs == max_run(dates@.take(i as int)),
        decreases n - i,
    {
        proof {
            assert(dates@.take(i as int + 1).drop_last() =~= dates@.take(i as int));
        }
        if i == 0 {
            temp = 1;
        } else {
            assert(dates@[i - 1] < dates@[i as int]);
            if dates[i] == dates[i - 1] + 1 {
                temp = temp + 1;
            } else {
                temp = 1;
            }
        }
        if temp > maxs {
            maxs = temp;
        }
        i += 1;
    }
    proof {
        assert(dates@.take(n as int) =~= dates@);
    }
    if n == 0 {
        (0, maxs)
    } else {
        let last = dates[n - 1];
        let recent = (today as i128) - (last as i128) <= 1;
        if recent {
            (temp, maxs)
        } else {
            (0, maxs)
        }
    }
}

/// Computes the streak pair `(current_streak, max_streak)` for an unordered,
/// possibly duplicated collection of activity dates: the walk runs over
/// some strictly increasing sequence holding exactly the given dates (there
/// is only one such sequence, by `lemma_sorted_unique_equal`).
pub fn streak_counts(dates: &Vec<i64>, today: i64) -> (r: (usize, usize))
    ensures
        exists|u: Seq<i64>|
            {
                &&& strictly_increasing(u)
                &&& (forall|y: i64| u.contains(y) <==> dates@.contains(y))
                &&& r.0 == current_streak_spec(u, today as int)
                &&& r.1 == max_run(u)
            },
{
    let sorted = sort_dedup_dates(dates);
    let r = streak_counts_sorted(&sorted, today);
    proof {
        let u = sorted@;
        assert({
            &&& strictly_increasing(u)
            &&& (forall|y: i64| u.contains(y) <==> dates@.contains(y))
            &&& r.0 == current_streak_spec(u, today as int)
            &&& r.1 == max_run(u)
        });
    }
    r
}

/// Two strictly increasing sequences with the same elements are the same
/// sequence: the sorted, deduplicated form of a date collection is unique.
pub proof fn lemma_sorted_unique_equal(a: Seq<i64>, b: Seq<i64>)
    requires
        strictly_increasing(a),
        strictly_increasing(b),
        forall|y: i64| a.contains(y) <==> b.contains(y),
    ensures
        a == b,
    decreases a.len(),
{
    if a.len() == 0 {
        if b.len() > 0 {
            assert(a.contains(b[0]));
        }
        assert(a =~= b);
    } else if b.len() == 0 {
        assert(b.contains(a[0]));
    } else {
        let la = a.last();
        let lb = b.last();
        assert(b.contains(la));
        assert(a.contains(lb));
        let ia = choose|ia: int| 0 <= ia < a.len() && a[ia] == lb;
        let ib = choose|ib: int| 0 <= ib < b.len() && b[ib] == la;
        assert(a[ia] <= a.last());
        assert(b[ib] <= b.last());
        assert(la == lb);
        assert forall|y: i64| a.drop_last().contains(y) implies b.drop_last().contains(y) by {
            let k = choose|k: int| 0 <= k < a.len() - 1 && a[k] == y;
            assert(y < la);
            assert(b.contains(y));
            let m = choose|m: int| 0 <= m < b.len() && b[m] == y;
            assert(m < b.len() - 1);
            assert(b.drop_last()[m] == y);
        }
        assert forall|y: i64| b.drop_last().contains(y) implies a.drop_last().contains(y) by {
            let k = choose|k: int| 0 <= k < b.len() - 1 && b[k] == y;
            assert(y < lb);
            assert(a.contains(y));
            let m = choose|m: int| 0 <= m < a.len() && a[m] == y;
            assert(m < a.len() - 1);
            assert(a.drop_last()[m] == y);
        }
        lemma_sorted_unique_equal(a.drop_last(), b.drop_last());
        assert(a.len() == b.len());
        assert forall|k: int| 0 <= k < a.len() implies a[k] == b[k] by {
            if k < a.len() - 1 {
                assert(a.drop_last()[k] == a[k]);
                assert(b.drop_last()[k] == b[k]);
            }
        }
        assert(a =~= b);
    }
}

/// A date sequence with no gaps: each date is one day after its predecessor.
pub open spec fn gapless(s: Seq<i64>) -> bool {
    forall|i: int| 0 < i < s.len() ==> #[trigger] s[i] == s[i - 1] + 1
}

/// For a non-empty sorted, deduplicated date sequence with no gaps that
/// does not run past today, the max streak is the whole length, and the
/// current streak equals it exactly when the last date is today or
/// yesterday (else the streak has lapsed to zero).
pub proof fn lemma_gapless_streak(s: Seq<i64>, today: int)
    requires
        s.len() > 0,
        gapless(s),
        s.last() <= today,
    ensures
        max_run(s) == s.len(),
        current_streak_spec(s, today) == max_run(s) <==> today - 1 <= s.last(),
{
    lemma_gapless_max(s);
    lemma_gapless_curr(s);
}

/// Walking a gapless sequence leaves a running streak of its whole length.
pub proof fn lemma_gapless_curr(s: Seq<i64>)
    requires
        gapless(s),
    ensures
        curr_run(s) == s.len(),
    decreases s.len(),
{
    if s.len() >= 2 {
        assert(s[s.len() - 1] == s[s.len() - 2] + 1);
        assert(gapless(s.drop_last()));
        lemma_gapless_curr(s.drop_last());
    }
}

/// The max streak of a gapless sequence is its whole length.
pub proof fn lemma_gapless_max(s: Seq<i64>)
    requires
        gapless(s),
    ensures
        max_run(s) == s.len(),
    decreases s.len(),
{
    if s.len() > 0 {
        assert(gapless(s.drop_last()));
        lemma_gapless_max(s.drop_last());
        lemma_gapless_curr(s);
    }
}

} // verus!
