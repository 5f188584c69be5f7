use fitcore::badges::{award_badges, Badge, BadgeKey, BadgeLedger};
use fitcore::scorer::estimate_calories;
use fitcore::session::{CompletionError, WorkoutSession};

#[test]
fn calories_at_unit_intensity() {
    // 6000 kg over 60 min: intensity 1, met 4, 4 * 75 kg * 1 h = 300.
    assert_eq!(estimate_calories(60, 600_000, 7500), 300);
}

#[test]
fn calories_met_is_capped_at_eight() {
    // Huge volume: met clamps to 8, 8 * 75 kg * 1 h = 600.
    assert_eq!(estimate_calories(60, 1_000_000_000, 7500), 600);
}

#[test]
fn calories_zero_duration_is_zero() {
    assert_eq!(estimate_calories(0, 500_000, 7500), 0);
}

#[test]
fn calories_negative_duration_uses_fallback_intensity() {
    // met 4 at the fallback intensity, truncated toward zero.
    assert_eq!(estimate_calories(-60, 0, 7500), -300);
}

#[test]
fn calories_truncate_toward_zero() {
    // 30 min at zero volume: met 3, 3 * 75 * 0.5 = 112.5 -> 112.
    assert_eq!(estimate_calories(30, 0, 7500), 112);
}

#[test]
fn calories_monotone_samples() {
    let base = estimate_calories(45, 300_000, 7500);
    assert!(estimate_calories(45, 400_000, 7500) >= base);
    assert!(estimate_calories(45, 300_000, 9000) >= base);
}

#[test]
fn titan_volume_excludes_heavy_lifter() {
    assert_eq!(award_badges(1_000_000, 45, 5), vec![Badge::TitanVolume]);
}

#[test]
fn heavy_lifter_band() {
    assert_eq!(award_badges(500_000, 45, 5), vec![Badge::HeavyLifter]);
    assert_eq!(award_badges(999_999, 45, 5), vec![Badge::HeavyLifter]);
}

#[test]
fn marathoner_excludes_speed_demon() {
    assert_eq!(award_badges(300_000, 90, 5), vec![Badge::Marathoner]);
}

#[test]
fn speed_demon_needs_short_and_heavy() {
    assert_eq!(award_badges(200_001, 30, 5), vec![Badge::SpeedDemon]);
    // Volume threshold is strict.
    assert_eq!(award_badges(200_000, 30, 5), vec![]);
    // Too long for a speed badge, too short for a marathon.
    assert_eq!(award_badges(200_001, 31, 5), vec![]);
}

#[test]
fn volume_warrior_combines() {
    assert_eq!(
        award_badges(1_000_000, 95, 25),
        vec![Badge::TitanVolume, Badge::Marathoner, Badge::VolumeWarrior]
    );
    assert_eq!(award_badges(100, 45, 20), vec![Badge::VolumeWarrior]);
}

#[test]
fn completion_sets_end_time_and_calories_once() {
    let mut s = WorkoutSession::new(Some(0));
    let out = s.complete(60, 600_000, 12, None).unwrap();
    assert_eq!(out.end_min, 60);
    assert_eq!(out.calories, 300);
    assert_eq!(out.badges, vec![Badge::HeavyLifter]);
    assert_eq!(s.end_min, Some(60));
    assert_eq!(s.calories, Some(300));

    // A second completion reports a conflict and alters nothing.
    let again = s.complete(200, 999_999, 30, Some(9000));
    assert_eq!(again.err(), Some(CompletionError::AlreadyCompleted));
    assert_eq!(s.end_min, Some(60));
    assert_eq!(s.calories, Some(300));
}

#[test]
fn completion_without_start_uses_default_duration() {
    let mut s = WorkoutSession::new(None);
    let out = s.complete(1234, 600_000, 1, None).unwrap();
    // Default 60-minute duration: same figure as a one-hour workout.
    assert_eq!(out.calories, 300);
    assert_eq!(s.end_min, Some(1234));
}

#[test]
fn badge_award_is_idempotent() {
    let mut ledger = BadgeLedger::new();
    let k = BadgeKey { user_id: 1, workout_id: 9, badge: Badge::TitanVolume };
    ledger.award(k);
    ledger.award(k);
    assert_eq!(ledger.len(), 1);
    assert!(ledger.holds(k));
}

#[test]
fn different_badge_facts_accumulate() {
    let mut ledger = BadgeLedger::new();
    let k1 = BadgeKey { user_id: 1, workout_id: 9, badge: Badge::TitanVolume };
    let k2 = BadgeKey { user_id: 1, workout_id: 9, badge: Badge::VolumeWarrior };
    let k3 = BadgeKey { user_id: 1, workout_id: 10, badge: Badge::TitanVolume };
    ledger.award(k1);
    ledger.award(k2);
    ledger.award(k3);
    ledger.award(k2);
    assert_eq!(ledger.len(), 3);
}
