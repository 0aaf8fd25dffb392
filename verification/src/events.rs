//! The events of a fight, free of any build: what a replay is fed.

use crate::ids::skills;
use vstd::prelude::*;

verus! {

/// The stats of a build that gear can raise.
pub enum Stat {
    Power,
    Precision,
    Ferocity,
    ConditionDamage,
    Expertise,
}

/// The conditions that deal damage tick by tick.
#[derive(PartialEq, Eq, Structural, Hash, Clone, Copy, Debug)]
pub enum DamagingCondition {
    Bleeding,
    Burning,
    Confusion,
    Poisoned,
    Torment,
}

/// Whether `skill_id` is one of the five conditions that deal damage.
pub open spec fn is_damaging_condition(skill_id: u32) -> bool {
    skill_id == skills::BLEEDING || skill_id == skills::BURNING || skill_id == skills::CONFUSION
        || skill_id == skills::POISONED || skill_id == skills::TORMENT
}

/// Whether `skill_id` is one of the five conditions that deal damage.
pub fn is_tracked_condition(skill_id: u32) -> (r: bool)
    ensures
        r == is_damaging_condition(skill_id),
{
    skill_id == skills::BLEEDING || skill_id == skills::BURNING || skill_id == skills::CONFUSION
        || skill_id == skills::POISONED || skill_id == skills::TORMENT
}

impl DamagingCondition {
    /// The skill id of the condition.
    pub open spec fn spec_to_id(&self) -> u32 {
        match self {
            DamagingCondition::Bleeding => skills::BLEEDING,
            DamagingCondition::Burning => skills::BURNING,
            DamagingCondition::Confusion => skills::CONFUSION,
            DamagingCondition::Poisoned => skills::POISONED,
            DamagingCondition::Torment => skills::TORMENT,
        }
    }

    /// The condition with the given skill id.
    pub open spec fn spec_from_id(skill_id: u32) -> DamagingCondition {
        if skill_id == skills::BLEEDING {
            DamagingCondition::Bleeding
        } else if skill_id == skills::BURNING {
            DamagingCondition::Burning
        } else if skill_id == skills::CONFUSION {
            DamagingCondition::Confusion
        } else if skill_id == skills::POISONED {
            DamagingCondition::Poisoned
        } else {
            DamagingCondition::Torment
        }
    }

    /// The condition with the given skill id.
    #[verifier::when_used_as_spec(spec_from_id)]
    pub fn from_id(skill_id: u32) -> (r: Self)
        requires
            is_damaging_condition(skill_id),
        ensures
            r == Self::spec_from_id(skill_id),
            r.spec_to_id() == skill_id,
    {
        if skill_id == skills::BLEEDING {
            DamagingCondition::Bleeding
        } else if skill_id == skills::BURNING {
            DamagingCondition::Burning
        } else if skill_id == skills::CONFUSION {
            DamagingCondition::Confusion
        } else if skill_id == skills::POISONED {
            DamagingCondition::Poisoned
        } else {
            DamagingCondition::Torment
        }
    }

    /// The skill id of the condition.
    #[verifier::when_used_as_spec(spec_to_id)]
    pub fn to_id(&self) -> (r: u32)
        ensures
            r == self.spec_to_id(),
            is_damaging_condition(r),
    {
        match self {
            DamagingCondition::Bleeding => skills::BLEEDING,
            DamagingCondition::Burning => skills::BURNING,
            DamagingCondition::Confusion => skills::CONFUSION,
            DamagingCondition::Poisoned => skills::POISONED,
            DamagingCondition::Torment => skills::TORMENT,
        }
    }
}

/// So many points of a stat.
pub struct StatAmount {
    pub stat: Stat,
    pub amount: u32,
}

/// What a strike came from.
#[derive(PartialEq, Eq, Structural, Clone, Copy, Debug)]
pub enum PhysicalHitSource {
    Unknown,
    Skill(u32),
}

/// A trait that applies conditions.
#[derive(PartialEq, Eq, Structural, Clone, Copy, Debug)]
pub enum Trait {
    AbyssalChill,
}

/// A food that applies conditions.
#[derive(PartialEq, Eq, Structural, Clone, Copy, Debug)]
pub enum Food {
    GhostPepperPopper,
}

/// The sigil in a slot of a weapon set.
#[derive(PartialEq, Eq, Structural, Clone, Copy, Debug)]
pub enum Sigil {
    /// An empty sigil slot.
    Unused,
    Geomancy,
    Earth,
    Doom,
    Demons,
    Malice,
    Bursting,
}

/// What applied a condition.
#[derive(PartialEq, Eq, Structural, Clone, Copy, Debug)]
pub enum ConditionApplicationSource {
    Unknown,
    Skill(u32),
    Sigil(Sigil),
    Trait(Trait),
    Food(Food),
}

/// What a life steal came from.
#[derive(PartialEq, Eq, Structural, Clone, Copy, Debug)]
pub enum LifeStealSource {
    Unknown,
    Buff(u32),
}

/// Whom a buff is on.
pub enum BuffTarget {
    Player,
    Target,
}

/// Whether a weapon set is two weapons or one held in both hands.
#[derive(PartialEq, Eq, Structural, Clone, Copy, Debug)]
pub enum WeaponType {
    DualWield,
    TwoHanded,
}

/// The two weapon sets on land.
#[derive(PartialEq, Eq, Structural, Clone, Copy, Debug)]
pub enum WeaponSet {
    Land1,
    Land2,
}

/// One event of a fight. Durations are in time units of the log, before any
/// duration bonus. A strike's `coefficient` counts ten-thousandths. A life
/// steal's `base_damage` counts tenths of a point of damage and its
/// `power_scaling` thousandths of a point of damage for each point of power.
#[allow(inconsistent_fields)]
#[derive(PartialEq, Eq, Structural, Clone, Copy, Debug)]
pub enum SimulationEvent {
    /// The player hits the target with a strike.
    PhysicalHit {
        time: i64,
        base_damage: u32,
        coefficient: u32,
        enemy_armor: u32,
        source: PhysicalHitSource,
        critical: bool,
    },
    /// The player applies a buff to themself.
    SelfBuffApplication { time: i64, skill_id: u32, base_duration: u32 },
    /// The player applies a buff to the target.
    TargetBuffApplication { time: i64, skill_id: u32, base_duration: u32 },
    /// The player applies a damaging condition to the target.
    TargetConditionApplication {
        time: i64,
        condition: DamagingCondition,
        base_duration: u32,
        source: ConditionApplicationSource,
    },
    /// The conditions on the target deal their damage.
    ConditionTick { time: i64, target_moving: bool },
    /// The player damages the target by stealing life.
    LifeStealHit { time: i64, base_damage: u32, power_scaling: u32, source: LifeStealSource },
    /// The player swaps to another weapon set.
    WeaponSwap { time: i64, weapon_set: WeaponSet },
}

impl SimulationEvent {
    /// The time at which the event happened.
    pub open spec fn spec_time(&self) -> i64 {
        match *self {
            SimulationEvent::PhysicalHit { time, .. } => time,
            SimulationEvent::SelfBuffApplication { time, .. } => time,
            SimulationEvent::TargetBuffApplication { time, .. } => time,
            SimulationEvent::TargetConditionApplication { time, .. } => time,
            SimulationEvent::ConditionTick { time, .. } => time,
            SimulationEvent::LifeStealHit { time, .. } => time,
            SimulationEvent::WeaponSwap { time, .. } => time,
        }
    }

    /// The time at which the event happened.
    #[verifier::when_used_as_spec(spec_time)]
    pub fn time(&self) -> (r: i64)
        ensures
            r == self.spec_time(),
    {
        match *self {
            SimulationEvent::PhysicalHit { time, .. } => time,
            SimulationEvent::SelfBuffApplication { time, .. } => time,
            SimulationEvent::TargetBuffApplication { time, .. } => time,
            SimulationEvent::TargetConditionApplication { time, .. } => time,
            SimulationEvent::ConditionTick { time, .. } => time,
            SimulationEvent::LifeStealHit { time, .. } => time,
            SimulationEvent::WeaponSwap { time, .. } => time,
        }
    }
}

} // verus!
