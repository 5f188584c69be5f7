//! Badge rules evaluated at workout completion, and an idempotent ledger of
//! issued badges.
//!
//! The volume badges and the duration badges are each an else-if pair, so at
//! most one of each pair is awarded; the set-count badge is independent. A
//! badge fact is unique per (user, workout, badge): awarding one that is
//! already held is a no-op, never a duplicate and never an error.

use vstd::prelude::*;

verus! {

/// Volume, in centi-kilogram-reps, from which "Titan Volume" is awarded
/// (10000 kg).
pub const TITAN_VOLUME_MIN_CG: u64 = 1_000_000;

/// Volume, in centi-kilogram-reps, from which "Heavy Lifter" is awarded
/// (5000 kg), up to the "Titan Volume" threshold.
pub const HEAVY_LIFTER_MIN_CG: u64 = 500_000;

/// Duration, in minutes, from which "Marathoner" is awarded.
pub const MARATHONER_MIN_MINUTES: i64 = 90;

/// Duration, in minutes, up to which "Speed Demon" can be awarded.
pub const SPEED_DEMON_MAX_MINUTES: i64 = 30;

/// Volume, in centi-kilogram-reps, that "Speed Demon" must strictly exceed
/// (2000 kg).
pub const SPEED_DEMON_MIN_VOLUME_CG: u64 = 200_000;

/// Set count from which "Volume Warrior" is awarded.
pub const VOLUME_WARRIOR_MIN_SETS: u64 = 20;

/// A badge a workout can earn at completion.
#[derive(Clone, Copy, PartialEq, Eq, Structural, Debug)]
pub enum Badge {
    TitanVolume,
    HeavyLifter,
    Marathoner,
    SpeedDemon,
    VolumeWarrior,
}

/// The badges a completed workout earns, in evaluation order: the volume
/// pair, then the duration pair, then the set-count badge.
pub open spec fn badges_spec(volume_cg: int, duration_min: int, set_count: int) -> Seq<Badge> {
    let volume_part = if volume_cg >= TITAN_VOLUME_MIN_CG {
        seq![Badge::TitanVolume]
    } else if volume_cg >= HEAVY_LIFTER_MIN_CG {
        seq![Badge::HeavyLifter]
    } else {
        Seq::<Badge>::empty()
    };
    let duration_part = if duration_min >= MARATHONER_MIN_MINUTES {
        seq![Badge::Marathoner]
    } else if duration_min <= SPEED_DEMON_MAX_MINUTES && volume_cg > SPEED_DEMON_MIN_VOLUME_CG {
        seq![Badge::SpeedDemon]
    } else {
        Seq::<Badge>::empty()
    };
    let count_part = if set_count >= VOLUME_WARRIOR_MIN_SETS {
        seq![Badge::VolumeWarrior]
    } else {
        Seq::<Badge>::empty()
    };
    volume_part + duration_part + count_part
}

/// Evaluates the badge rules for a finished workout, in evaluation order.
pub fn award_badges(volume_cg: u64, duration_min: i64, set_count: u64) -> (v: Vec<Badge>)
    ensures
        v@ == badges_spec(volume_cg as int, duration_min as int, set_count as int),
{
    let mut v: Vec<Badge> = Vec::new();
    if volume_cg >= TITAN_VOLUME_MIN_CG {
        v.push(Badge::TitanVolume);
    } else if volume_cg >= HEAVY_LIFTER_MIN_CG {
        v.push(Badge::HeavyLifter);
    }
    if duration_min >= MARATHONER_MIN_MINUTES {
        v.push(Badge::Marathoner);
    } else if duration_min <= SPEED_DEMON_MAX_MINUTES && volume_cg > SPEED_DEMON_MIN_VOLUME_CG {
        v.push(Badge::SpeedDemon);
    }
    if set_count >= VOLUME_WARRIOR_MIN_SETS {
        v.push(Badge::VolumeWarrior);
    }
    proof {
        assert(v@ =~= badges_spec(volume_cg as int, duration_min as int, set_count as int));
    }
    v
}

/// A persisted badge fact: unique per (user, workout, badge).
#[derive(Clone, Copy, PartialEq, Eq, Structural, Debug)]
pub struct BadgeKey {
    pub user_id: u64,
    pub workout_id: u64,
    pub badge: Badge,
}

/// What awarding a badge does to the persisted facts: nothing when the fact
/// is already present, otherwise it appends the fact.
pub open spec fn award_spec(s: Seq<BadgeKey>, k: BadgeKey) -> Seq<BadgeKey> {
    if s.contains(k) {
        s
    } else {
        s.push(k)
    }
}

/// Awarding the same badge fact twice leaves exactly what awarding it once
/// leaves: badge issuance is idempotent.
pub proof fn lemma_award_idempotent(s: Seq<BadgeKey>, k: BadgeKey)
    ensures
        award_spec(award_spec(s, k), k) == award_spec(s, k),
{
    if !s.contains(k) {
        assert(s.push(k)[s.len() as int] == k);
        assert(award_spec(s, k).contains(k));
    }
}

/// The ledger of issued badge facts, with the store's uniqueness constraint
/// as its invariant: the same (user, workout, badge) row is never held twice.
pub struct BadgeLedger {
    entries: Vec<BadgeKey>,
}

impl View for BadgeLedger {
    type V = Seq<BadgeKey>;

    closed spec fn view(&self) -> Seq<BadgeKey> {
        self.entries@
    }
}

impl BadgeLedger {
    /// The uniqueness constraint on badge rows.
    pub open spec fn wf(self) -> bool {
        self@.no_duplicates()
    }

    /// An empty ledger.
    pub fn new() -> (l: Self)
        ensures
            l@ == Seq::<BadgeKey>::empty(),
            l.wf(),
    {
        BadgeLedger { entries: Vec::new() }
    }

    /// Whether the fact is already persisted.
    pub fn holds(&self, k: BadgeKey) -> (b: bool)
        ensures
            b == self@.contains(k),
    {
        let n = self.entries.len();
        let mut i: usize = 0;
        while i < n
            invariant
                n == self.entries.len(),
                0 <= i <= n,
                forall|j: int| 0 <= j < i ==> self.entries@[j] != k,
            decreases n - i,
        {
            if self.entries[i] == k {
                return true;
            }
            i += 1;
        }
        false
    }

    /// Number of persisted badge rows.
    pub fn len(&self) -> (n: usize)
        ensures
            n == self@.len(),
    {
        self.entries.len()
    }

    /// Awards a badge fact: a no-op when the row exists, an append
    /// otherwise, preserving the uniqueness constraint either way.
    pub fn award(&mut self, k: BadgeKey)
        requires
            old(self).wf(),
        ensures
            final(self)@ == award_spec(old(self)@, k),
            final(self).wf(),
            final(self)@.contains(k),
    {
        if !self.holds(k) {
            self.entries.push(k);
            proof {
                assert(self@[self@.len() - 1] == k);
            }
        }
    }
}

} // verus!
