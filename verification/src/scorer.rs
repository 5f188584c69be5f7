//! Workout-completion scoring: a MET-based calorie estimate and badge rules.
//!
//! All quantities are integers: durations in minutes, weights and volumes in
//! centi-kilograms (hundredths of a kilogram). The calorie estimate is the
//! exact truncated value of `met * body_weight_kg * duration_minutes / 60`,
//! where `met = min(3 + (volume_kg / duration_minutes) / 100, 8)` for a
//! positive duration and a fixed fallback intensity of 1 (so `met = 4`)
//! otherwise. In centi-kilogram units this reduces, for a positive duration,
//! to `min(30000*d + v, 80000*d) * w / 60_000_000`, which the executable
//! code computes exactly.

use vstd::prelude::*;
use vstd::arithmetic::mul::lemma_mul_inequality;
use vstd::arithmetic::div_mod::lemma_div_is_ordered;

verus! {

/// Body weight assumed when the user's current weight is unknown, in
/// centi-kilograms (75 kg).
pub const DEFAULT_BODY_WEIGHT_CG: u64 = 7500;

/// Duration assumed when a workout has no recorded start time, in minutes.
pub const DEFAULT_DURATION_MIN: i64 = 60;

/// Largest duration magnitude, in minutes, the scorer accepts; keeps every
/// intermediate product within machine integers.
pub const MAX_ABS_DURATION_MIN: i64 = 4_294_967_296;

/// Largest total volume, in centi-kilogram-reps, the scorer accepts.
pub const MAX_VOLUME_CG: u64 = 1_000_000_000_000;

/// Largest body weight, in centi-kilograms, the scorer accepts.
pub const MAX_BODY_WEIGHT_CG: u64 = 10_000_000;

/// Numerator of the clamped MET value over the common denominator
/// `10000 * duration`: `min(30000*d + v, 80000*d)` stands for
/// `min(3 + (v/d)/10000, 8)` scaled by `10000*d`. Meaningful for `d > 0`.
pub open spec fn met_numer(duration_min: int, volume_cg: int) -> int {
    if 30000 * duration_min + volume_cg <= 80000 * duration_min {
        30000 * duration_min + volume_cg
    } else {
        80000 * duration_min
    }
}

/// Exact integer calories burned: for a positive duration the truncated
/// value of `met * weight_kg * duration / 60`; for a non-positive duration
/// the fallback intensity gives `met = 4`, and the product is again
/// truncated toward zero.
pub open spec fn calories_spec(duration_min: int, volume_cg: int, body_weight_cg: int) -> int {
    if duration_min > 0 {
        (met_numer(duration_min, volume_cg) * body_weight_cg) / 60_000_000
    } else if duration_min == 0 {
        0
    } else {
        -((4 * body_weight_cg * (-duration_min)) / 6000)
    }
}

/// A missing body weight coalesces to the default.
pub open spec fn weight_or_default(body_weight_cg: Option<u64>) -> u64 {
    match body_weight_cg {
        Some(w) => w,
        None => DEFAULT_BODY_WEIGHT_CG,
    }
}

/// Computes the calorie estimate exactly as `calories_spec` states it.
pub fn estimate_calories(duration_min: i64, volume_cg: u64, body_weight_cg: u64) -> (c: i64)
    requires
        -MAX_ABS_DURATION_MIN <= duration_min <= MAX_ABS_DURATION_MIN,
        volume_cg <= MAX_VOLUME_CG,
        body_weight_cg <= MAX_BODY_WEIGHT_CG,
    ensures
        c == calories_spec(duration_min as int, volume_cg as int, body_weight_cg as int),
{
    if duration_min > 0 {
        let d: u64 = duration_min as u64;
        let a: u64 = 30000 * d + volume_cg;
        let b: u64 = 80000 * d;
        let m: u64 = if a <= b { a } else { b };
        proof {
            assert(m * body_weight_cg <= 80000 * 4_294_967_296 * 10_000_000) by (nonlinear_arith)
                requires
                    m <= 80000 * 4_294_967_296,
                    body_weight_cg <= 10_000_000,
            ;
        }
        let prod: u128 = (m as u128) * (body_weight_cg as u128);
        let c: u128 = prod / 60_000_000;
        c as i64
    } else if duration_min == 0 {
        0
    } else {
        let nd: u64 = (-duration_min) as u64;
        proof {
            assert(4 * body_weight_cg * nd <= 4 * 10_000_000 * 4_294_967_296) by (nonlinear_arith)
                requires
                    body_weight_cg <= 10_000_000,
                    nd <= 4_294_967_296,
            ;
        }
        let q: u128 = (4 * (body_weight_cg as u128)) * (nd as u128);
        let c: u128 = q / 6000;
        -(c as i64)
    }
}

/// The MET estimate never exceeds 8, whatever the volume: its scaled
/// numerator never exceeds `80000 * duration`, and so for a positive
/// duration the calorie estimate never exceeds the estimate at MET 8.
pub proof fn lemma_met_capped(duration_min: int, volume_cg: int, body_weight_cg: int)
    requires
        duration_min > 0,
        body_weight_cg >= 0,
    ensures
        met_numer(duration_min, volume_cg) <= 80000 * duration_min,
        calories_spec(duration_min, volume_cg, body_weight_cg) <= (80000 * duration_min
            * body_weight_cg) / 60_000_000,
{
    lemma_mul_inequality(met_numer(duration_min, volume_cg), 80000 * duration_min, body_weight_cg);
    lemma_div_is_ordered(
        met_numer(duration_min, volume_cg) * body_weight_cg,
        80000 * duration_min * body_weight_cg,
        60_000_000,
    );
}

/// The calorie estimate is monotonically non-decreasing in volume, for a
/// fixed duration and body weight.
pub proof fn lemma_calories_monotone_in_volume(
    duration_min: int,
    volume_lo: int,
    volume_hi: int,
    body_weight_cg: int,
)
    requires
        volume_lo <= volume_hi,
        body_weight_cg >= 0,
    ensures
        calories_spec(duration_min, volume_lo, body_weight_cg) <= calories_spec(
            duration_min,
            volume_hi,
            body_weight_cg,
        ),
{
    if duration_min > 0 {
        lemma_mul_inequality(
            met_numer(duration_min, volume_lo),
            met_numer(duration_min, volume_hi),
            body_weight_cg,
        );
        lemma_div_is_ordered(
            met_numer(duration_min, volume_lo) * body_weight_cg,
            met_numer(duration_min, volume_hi) * body_weight_cg,
            60_000_000,
        );
    }
}

/// The calorie estimate is monotonically non-decreasing in body weight, for
/// a fixed non-negative duration and volume.
pub proof fn lemma_calories_monotone_in_weight(
    duration_min: int,
    volume_cg: int,
    weight_lo: int,
    weight_hi: int,
)
    requires
        duration_min >= 0,
        volume_cg >= 0,
        0 <= weight_lo <= weight_hi,
    ensures
        calories_spec(duration_min, volume_cg, weight_lo) <= calories_spec(
            duration_min,
            volume_cg,
            weight_hi,
        ),
{
    if duration_min > 0 {
        lemma_mul_inequality(weight_lo, weight_hi, met_numer(duration_min, volume_cg));
        assert(met_numer(duration_min, volume_cg) * weight_lo == weight_lo * met_numer(
            duration_min,
            volume_cg,
        )) by (nonlinear_arith);
        assert(met_numer(duration_min, volume_cg) * weight_hi == weight_hi * met_numer(
            duration_min,
            volume_cg,
        )) by (nonlinear_arith);
        lemma_div_is_ordered(
            met_numer(duration_min, volume_cg) * weight_lo,
            met_numer(duration_min, volume_cg) * weight_hi,
            60_000_000,
        );
    }
}

} // verus!
