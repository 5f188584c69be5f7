use fitcore::pr::{detect_prs, log_set_response, SetRecord};

#[test]
fn heavier_weight_is_max_weight_record() {
    // 100 kg x 5 after a previous max of 90 kg.
    assert_eq!(detect_prs(10000, 5, Some(9000), Some(0)), (true, false));
}

#[test]
fn more_reps_at_lighter_weight_is_rep_record() {
    // 90 kg x 8 after max weight 100 kg and max 6 reps at >= 90 kg.
    assert_eq!(detect_prs(9000, 8, Some(10000), Some(6)), (false, true));
}

#[test]
fn low_rep_set_is_no_record() {
    // 90 kg x 3 under the same baselines: 3 does not clear the threshold.
    assert_eq!(detect_prs(9000, 3, Some(10000), Some(6)), (false, false));
}

#[test]
fn first_ever_set_is_max_weight_record() {
    assert_eq!(detect_prs(5000, 10, None, None), (true, false));
}

#[test]
fn rep_threshold_is_strict() {
    assert_eq!(detect_prs(9000, 5, Some(10000), None), (false, false));
    assert_eq!(detect_prs(9000, 6, Some(10000), None), (false, true));
}

#[test]
fn equal_weight_is_not_a_max_weight_record() {
    assert_eq!(detect_prs(10000, 2, Some(10000), Some(5)), (false, false));
}

#[test]
fn response_carries_set_and_flags() {
    let set = SetRecord { exercise_id: 7, weight_cg: 10000, reps: 5 };
    let r = log_set_response(set, Some(9000), Some(0));
    assert_eq!(r.set, set);
    assert!(r.is_new_1rm);
    assert!(!r.is_vol_pr);
}
