//! A workout session and its completion.
//!
//! A session starts with no end time and no calorie figure; completion sets
//! both exactly once, together with the badge evaluation. Completing an
//! already-completed session changes nothing and reports a distinct
//! conflict, so a caller can decide whether "already done" is success.

use vstd::prelude::*;
use crate::badges::{Badge, badges_spec, award_badges};
use crate::scorer::{
    DEFAULT_BODY_WEIGHT_CG, DEFAULT_DURATION_MIN, MAX_ABS_DURATION_MIN, MAX_BODY_WEIGHT_CG,
    MAX_VOLUME_CG, calories_spec, estimate_calories, weight_or_default,
};

verus! {

/// Why a completion call did not complete the workout.
#[derive(Clone, Copy, PartialEq, Eq, Structural, Debug)]
pub enum CompletionError {
    /// The workout already has an end time: a concurrent or repeated
    /// completion conflict, reported distinctly from any other failure.
    AlreadyCompleted,
}

/// What a successful completion computed, to be persisted by the caller.
pub struct CompletionOutcome {
    pub end_min: i64,
    pub calories: i64,
    pub badges: Vec<Badge>,
}

/// The duration a completion scores: the time from start to now, or the
/// default duration when the workout has no recorded start time.
pub open spec fn duration_spec(start_min: Option<i64>, now_min: int) -> int {
    match start_min {
        Some(s) => now_min - s,
        None => DEFAULT_DURATION_MIN as int,
    }
}

/// A workout session over minute-granularity timestamps.
pub struct WorkoutSession {
    pub start_min: Option<i64>,
    pub end_min: Option<i64>,
    pub calories: Option<i64>,
}

impl WorkoutSession {
    /// End time and calories are set together or not at all.
    pub open spec fn wf(self) -> bool {
        self.end_min is Some <==> self.calories is Some
    }

    /// A session is completed exactly when its end time is set.
    pub open spec fn completed(self) -> bool {
        self.end_min is Some
    }

    /// A fresh, in-progress session.
    pub fn new(start_min: Option<i64>) -> (s: Self)
        ensures
            s.start_min == start_min,
            !s.completed(),
            s.wf(),
    {
        WorkoutSession { start_min, end_min: None, calories: None }
    }

    /// Completes the session at `now_min`: sets the end time and the calorie
    /// estimate exactly once, atomically, and evaluates the badge rules. On
    /// a session that is already completed it changes nothing and reports
    /// `AlreadyCompleted`, so a second completion call never alters a
    /// terminal workout's end time or calories.
    pub fn complete(
        &mut self,
        now_min: i64,
        volume_cg: u64,
        set_count: u64,
        body_weight_cg: Option<u64>,
    ) -> (r: Result<CompletionOutcome, CompletionError>)
        requires
            old(self).wf(),
            -MAX_ABS_DURATION_MIN <= duration_spec(old(self).start_min, now_min as int)
                <= MAX_ABS_DURATION_MIN,
            volume_cg <= MAX_VOLUME_CG,
            weight_or_default(body_weight_cg) <= MAX_BODY_WEIGHT_CG,
        ensures
            final(self).wf(),
            final(self).start_min == old(self).start_min,
            old(self).completed() ==> (r matches Err(e) && e == CompletionError::AlreadyCompleted
                && *final(self) == *old(self)),
            !old(self).completed() ==> (match r {
                Ok(out) => {
                    let d = duration_spec(old(self).start_min, now_min as int);
                    &&& final(self).end_min == Some(now_min)
                    &&& final(self).calories == Some(out.calories)
                    &&& out.end_min == now_min
                    &&& out.calories == calories_spec(
                        d,
                        volume_cg as int,
                        weight_or_default(body_weight_cg) as int,
                    )
                    &&& out.badges@ == badges_spec(volume_cg as int, d, set_count as int)
                },
                Err(_) => false,
            }),
    {
        if self.end_min.is_some() {
            return Err(CompletionError::AlreadyCompleted);
        }
        let duration_min: i64 = match self.start_min {
            Some(s) => now_min - s,
            None => DEFAULT_DURATION_MIN,
        };
        let weight: u64 = match body_weight_cg {
            Some(w) => w,
            None => DEFAULT_BODY_WEIGHT_CG,
        };
        let calories = estimate_calories(duration_min, volume_cg, weight);
        let badges = award_badges(volume_cg, duration_min, set_count);
        self.end_min = Some(now_min);
        self.calories = Some(calories);
        Ok(CompletionOutcome { end_min: now_min, calories, badges })
    }
}

} // verus!
