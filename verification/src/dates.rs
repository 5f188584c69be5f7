//! Calendar dates as day numbers.
//!
//! The streak calculator works over day numbers, where consecutive calendar
//! days differ by exactly one. Turning a civil (year, month, day) date into
//! its day number is calendar arithmetic done by the calendar library; the
//! number is a fixed function of the civil date, named `day_number_of` and
//! left uninterpreted here, as is the calendar's validity predicate
//! `civil_date_ok`.

use vstd::prelude::*;
use crate::streak::{current_streak_spec, max_run, strictly_increasing, streak_counts};

verus! {

/// The day number of the Gregorian civil date (year, month, day):
/// consecutive calendar days have consecutive day numbers.
pub uninterp spec fn day_number_of(year: int, month: int, day: int) -> int;

/// Whether (year, month, day) is a civil date the calendar accepts: the
/// month and day exist in that year and the year is in the calendar's
/// supported range.
pub uninterp spec fn civil_date_ok(year: int, month: int, day: int) -> bool;

/// Whether one (year, month, day) triple is a civil date the calendar
/// accepts.
pub open spec fn civil_tuple_ok(t: (i32, u32, u32)) -> bool {
    civil_date_ok(t.0 as int, t.1 as int, t.2 as int)
}

/// The day numbers of a sequence of civil dates.
pub open spec fn day_numbers(dates: Seq<(i32, u32, u32)>) -> Seq<int> {
    dates.map_values(|t: (i32, u32, u32)| day_number_of(t.0 as int, t.1 as int, t.2 as int))
}

/// Relies on `chrono::NaiveDate::from_ymd_opt` and
/// `chrono::Datelike::num_days_from_ce`: parsing succeeds exactly on the
/// civil dates the calendar accepts (`civil_date_ok`), and a valid date's
/// count of days since the calendar epoch depends on the civil date alone
/// (`day_number_of`).
#[verifier::external_body]
fn civil_day_number(year: i32, month: u32, day: u32) -> (r: Option<i64>)
    ensures
        r is Some <==> civil_date_ok(year as int, month as int, day as int),
        r matches Some(n) ==> n == day_number_of(year as int, month as int, day as int),
{
    chrono::NaiveDate::from_ymd_opt(year, month, day).map(
        |d| i64::from(chrono::Datelike::num_days_from_ce(&d)),
    )
}

/// The day number of one civil date: a number exactly when the calendar
/// accepts the date, nothing otherwise.
pub fn day_number(year: i32, month: u32, day: u32) -> (r: Option<i64>)
    ensures
        r is Some <==> civil_date_ok(year as int, month as int, day as int),
        r matches Some(n) ==> n == day_number_of(year as int, month as int, day as int),
{
    civil_day_number(year, month, day)
}

/// Computes the streak pair `(current_streak, max_streak)` from unordered,
/// possibly duplicated civil activity dates and a civil "today", converting
/// each date to its day number first. Succeeds exactly when the calendar
/// accepts every activity date and "today"; the walk then runs over the
/// unique strictly increasing sequence holding exactly those day numbers.
pub fn streaks_for_civil_dates(dates: &Vec<(i32, u32, u32)>, today: (i32, u32, u32)) -> (r: Option<
    (usize, usize),
>)
    ensures
        r is Some <==> ((forall|k: int| 0 <= k < dates@.len() ==> #[trigger] civil_tuple_ok(
            dates@[k],
        )) && civil_tuple_ok(today)),
        r matches Some(p) ==> exists|u: Seq<i64>|
            {
                &&& strictly_increasing(u)
                &&& (forall|y: i64| u.contains(y) <==> day_numbers(dates@).contains(y as int))
                &&& p.0 == current_streak_spec(
                    u,
                    day_number_of(today.0 as int, today.1 as int, today.2 as int),
                )
                &&& p.1 == max_run(u)
            },
{
    let mut days: Vec<i64> = Vec::new();
    let mut i: usize = 0;
    while i < dates.len()
        invariant
            0 <= i <= dates.len(),
            days@.len() == i,
            forall|k: int| 0 <= k < i ==> #[trigger] days@[k] as int == day_numbers(dates@)[k],
            forall|k: int| 0 <= k < i ==> #[trigger] civil_tuple_ok(dates@[k]),
        decreases dates.len() - i,
    {
        let (y, m, d) = dates[i];
        match civil_day_number(y, m, d) {
            Some(n) => days.push(n),
            None => {
                proof {
                    assert(!civil_tuple_ok(dates@[i as int]));
                }
                return None;
            },
        }
        i += 1;
    }
    let t: i64 = match civil_day_number(today.0, today.1, today.2) {
        Some(n) => n,
        None => {
            return None;
        },
    };
    proof {
        assert forall|y: i64| days@.contains(y) implies day_numbers(dates@).contains(
            y as int,
        ) by {
            let k = choose|k: int| 0 <= k < days@.len() && days@[k] == y;
            assert(day_numbers(dates@)[k] == y as int);
        }
        assert forall|y: i64| day_numbers(dates@).contains(y as int) implies days@.contains(y) by {
            let k = choose|k: int|
                0 <= k < day_numbers(dates@).len() && day_numbers(dates@)[k] == y as int;
            assert(days@[k] as int == y as int);
            assert(days@[k] == y);
        }
    }
    let p = streak_counts(&days, t);
    proof {
        let u = choose|u: Seq<i64>|
            {
                &&& strictly_increasing(u)
                &&& (forall|y: i64| u.contains(y) <==> days@.contains(y))
                &&& p.0 == current_streak_spec(u, t as int)
                &&& p.1 == max_run(u)
            };
        assert(forall|y: i64| u.contains(y) <==> day_numbers(dates@).contains(y as int));
    }
    Some(p)
}

} // verus!
