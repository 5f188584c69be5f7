//! Personal-record detection for a newly logged set.
//!
//! A set is a new max-weight record when its weight strictly exceeds the
//! user's previous maximum weight on the exercise. A rep record is only
//! evaluated when the weight is not a new maximum: it requires the rep count
//! to strictly exceed both the previous maximum reps at equal-or-greater
//! weight and a fixed minimum threshold. The two flags are therefore
//! mutually exclusive by construction.

use vstd::prelude::*;

verus! {

/// Minimum rep count a rep record must strictly exceed, so that trivial
/// low-rep sets are never credited as records.
pub const REP_PR_MIN_REPS: u32 = 5;

/// An immutable logged set: exercise, weight in centi-kilograms, rep count.
#[derive(Clone, Copy, PartialEq, Eq, Structural, Debug)]
pub struct SetRecord {
    pub exercise_id: u64,
    pub weight_cg: u64,
    pub reps: u32,
}

/// Whether a set of `weight_cg` is a new max-weight record against the
/// previous maximum (absent baseline coalesces to zero).
pub open spec fn is_max_weight_pr(weight_cg: int, prev_max_weight_cg: int) -> bool {
    weight_cg > prev_max_weight_cg
}

/// Whether a set is a new rep record: only when the weight is not a new
/// maximum, and the reps beat both the baseline at equal-or-greater weight
/// and the minimum threshold.
pub open spec fn is_rep_pr(
    weight_cg: int,
    reps: int,
    prev_max_weight_cg: int,
    prev_max_reps: int,
) -> bool {
    &&& !is_max_weight_pr(weight_cg, prev_max_weight_cg)
    &&& reps > prev_max_reps
    &&& reps > REP_PR_MIN_REPS
}

/// Classifies a new set against the user's pre-insertion baselines for the
/// exercise. A missing baseline (no prior sets) is handed in as `None` and
/// treated as zero, so the first set on an exercise with positive weight is
/// always a max-weight record.
pub fn detect_prs(
    weight_cg: u64,
    reps: u32,
    prev_max_weight_cg: Option<u64>,
    prev_max_reps: Option<u32>,
) -> (r: (bool, bool))
    ensures
        r.0 == is_max_weight_pr(
            weight_cg as int,
            baseline_or_zero_u64(prev_max_weight_cg) as int,
        ),
        r.1 == is_rep_pr(
            weight_cg as int,
            reps as int,
            baseline_or_zero_u64(prev_max_weight_cg) as int,
            baseline_or_zero_u32(prev_max_reps) as int,
        ),
{
    let max_w: u64 = match prev_max_weight_cg {
        Some(w) => w,
        None => 0,
    };
    let max_r: u32 = match prev_max_reps {
        Some(r) => r,
        None => 0,
    };
    let is_new_1rm = weight_cg > max_w;
    let is_vol_pr = !is_new_1rm && reps > max_r && reps > REP_PR_MIN_REPS;
    (is_new_1rm, is_vol_pr)
}

/// A missing baseline coalesces to zero.
pub open spec fn baseline_or_zero_u64(b: Option<u64>) -> u64 {
    match b {
        Some(v) => v,
        None => 0,
    }
}

/// A missing baseline coalesces to zero.
pub open spec fn baseline_or_zero_u32(b: Option<u32>) -> u32 {
    match b {
        Some(v) => v,
        None => 0,
    }
}

/// The two record flags are mutually exclusive: a rep record is never
/// reported on a set whose weight is itself a new maximum.
pub proof fn lemma_pr_flags_exclusive(
    weight_cg: int,
    reps: int,
    prev_max_weight_cg: int,
    prev_max_reps: int,
)
    ensures
        !(is_max_weight_pr(weight_cg, prev_max_weight_cg) && is_rep_pr(
            weight_cg,
            reps,
            prev_max_weight_cg,
            prev_max_reps,
        )),
{
}

/// Response for a logged set: the stored set and its record classification.
#[derive(Clone, Copy, PartialEq, Eq, Structural, Debug)]
pub struct LogSetResponse {
    pub set: SetRecord,
    pub is_new_1rm: bool,
    pub is_vol_pr: bool,
}

/// Builds the response for a newly logged set from the pre-insertion
/// baselines, classifying it with `detect_prs`.
pub fn log_set_response(
    set: SetRecord,
    prev_max_weight_cg: Option<u64>,
    prev_max_reps: Option<u32>,
) -> (r: LogSetResponse)
    ensures
        r.set == set,
        r.is_new_1rm == is_max_weight_pr(
            set.weight_cg as int,
            baseline_or_zero_u64(prev_max_weight_cg) as int,
        ),
        r.is_vol_pr == is_rep_pr(
            set.weight_cg as int,
            set.reps as int,
            baseline_or_zero_u64(prev_max_weight_cg) as int,
            baseline_or_zero_u32(prev_max_reps) as int,
        ),
{
    let (is_new_1rm, is_vol_pr) = detect_prs(set.weight_cg, set.reps, prev_max_weight_cg, prev_max_reps);
    LogSetResponse { set, is_new_1rm, is_vol_pr }
}

} // verus!
