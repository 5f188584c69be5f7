use fitcore::dates::{day_number, streaks_for_civil_dates};
use fitcore::streak::{sort_dedup_dates, streak_counts, streak_counts_sorted};

#[test]
fn single_date_today() {
    let today: i64 = 1000;
    assert_eq!(streak_counts(&vec![1000], today), (1, 1));
}

#[test]
fn single_date_five_days_ago() {
    let today: i64 = 1000;
    assert_eq!(streak_counts(&vec![995], today), (0, 1));
}

#[test]
fn three_consecutive_days_ending_today() {
    let today: i64 = 1000;
    assert_eq!(streak_counts(&vec![998, 999, 1000], today), (3, 3));
}

#[test]
fn gap_resets_running_streak() {
    let today: i64 = 1000;
    assert_eq!(streak_counts(&vec![990, 991, 999, 1000], today), (2, 2));
}

#[test]
fn no_dates_no_streaks() {
    assert_eq!(streak_counts(&vec![], 1000), (0, 0));
}

#[test]
fn unsorted_duplicated_input_is_normalized() {
    let today: i64 = 1000;
    assert_eq!(streak_counts(&vec![1000, 998, 999, 1000, 998], today), (3, 3));
}

#[test]
fn lapsed_streak_keeps_max() {
    assert_eq!(streak_counts(&vec![1, 2, 3, 10], 20), (0, 3));
}

#[test]
fn yesterday_still_counts_as_current() {
    assert_eq!(streak_counts(&vec![998, 999], 1000), (2, 2));
}

#[test]
fn two_day_gap_from_today_lapses() {
    assert_eq!(streak_counts(&vec![997, 998], 1000), (0, 2));
}

#[test]
fn sort_dedup_orders_and_removes_duplicates() {
    assert_eq!(sort_dedup_dates(&vec![5, 3, 5, 1, 3]), vec![1, 3, 5]);
}

#[test]
fn sorted_walk_matches_spec_scenarios() {
    assert_eq!(streak_counts_sorted(&vec![998, 999, 1000], 1000), (3, 3));
    assert_eq!(streak_counts_sorted(&vec![995], 1000), (0, 1));
}

#[test]
fn civil_dates_span_a_leap_day() {
    let dates = vec![(2024, 2, 28), (2024, 2, 29), (2024, 3, 1)];
    assert_eq!(streaks_for_civil_dates(&dates, (2024, 3, 1)), Some((3, 3)));
}

#[test]
fn civil_dates_invalid_date_rejected() {
    let dates = vec![(2023, 2, 29)];
    assert_eq!(streaks_for_civil_dates(&dates, (2023, 3, 1)), None);
}

#[test]
fn day_numbers_of_consecutive_days_differ_by_one() {
    let a = day_number(2024, 2, 29).unwrap();
    let b = day_number(2024, 3, 1).unwrap();
    assert_eq!(b - a, 1);
    let c = day_number(2023, 12, 31).unwrap();
    let d = day_number(2024, 1, 1).unwrap();
    assert_eq!(d - c, 1);
    assert_eq!(day_number(2023, 2, 29), None);
}

#[test]
fn civil_dates_invalid_today_rejected() {
    let dates = vec![(2023, 3, 1)];
    assert_eq!(streaks_for_civil_dates(&dates, (2023, 2, 29)), None);
}
