//! Static facts about skills: their kind, how their stacks combine, and the
//! figures of the damaging conditions.
//!
//! The figures are as of 2021-03-28. A coefficient of a strike counts
//! ten-thousandths. A base damage counts tenths of a point of damage, and a
//! multiplier thousandths of a point of damage for each point of the stat it
//! scales with.

use crate::events::DamagingCondition;
use crate::ids::skills;
use std::collections::HashMap;
use vstd::prelude::*;

verus! {

/// The kind of a skill.
#[derive(PartialEq, Eq, Structural, Clone, Copy, Debug)]
pub enum SkillType {
    Unknown,
    Ability,
    Condition,
    GenericBuff,
    Boon,
}

/// How the stacks of a buff combine: all of them count, or one at a time.
#[derive(PartialEq, Eq, Structural, Clone, Copy, Debug)]
pub enum BuffStackingType {
    Intensity,
    Duration,
}

/// The kind of a skill; `Unknown` for every skill that the table does not list.
pub open spec fn skill_type_of(skill_id: u32) -> SkillType {
    if skill_id == skills::BLEEDING || skill_id == skills::BURNING || skill_id == skills::CONFUSION
        || skill_id == skills::POISONED || skill_id == skills::TORMENT || skill_id
        == skills::CHILLED || skill_id == skills::VULNERABILITY {
        SkillType::Condition
    } else if skill_id == skills::MIGHT || skill_id == skills::FURY {
        SkillType::Boon
    } else if skill_id == skills::KALLAS_FERVOR {
        SkillType::GenericBuff
    } else {
        SkillType::Unknown
    }
}

/// The kind of a skill; `Unknown` for every skill that the table does not list.
pub fn get_skill_type(skill_id: u32) -> (r: SkillType)
    ensures
        r == skill_type_of(skill_id),
{
    if skill_id == skills::BLEEDING || skill_id == skills::BURNING || skill_id == skills::CONFUSION
        || skill_id == skills::POISONED || skill_id == skills::TORMENT || skill_id
        == skills::CHILLED || skill_id == skills::VULNERABILITY {
        SkillType::Condition
    } else if skill_id == skills::MIGHT || skill_id == skills::FURY {
        SkillType::Boon
    } else if skill_id == skills::KALLAS_FERVOR {
        SkillType::GenericBuff
    } else {
        SkillType::Unknown
    }
}

/// The buffs whose stacks are tracked: those with a stack limit and a
/// stacking discipline.
pub open spec fn is_stacking_buff(skill_id: u32) -> bool {
    skill_id == skills::MIGHT || skill_id == skills::KALLAS_FERVOR || skill_id
        == skills::VULNERABILITY || skill_id == skills::FURY
}

/// The greatest number of stacks of a tracked buff that count at once.
pub open spec fn stack_limit_of(skill_id: u32) -> u32 {
    if skill_id == skills::MIGHT {
        25
    } else if skill_id == skills::KALLAS_FERVOR {
        5
    } else if skill_id == skills::VULNERABILITY {
        25
    } else {
        9
    }
}

/// How the stacks of a tracked buff combine.
pub open spec fn stacking_type_of(skill_id: u32) -> BuffStackingType {
    if skill_id == skills::FURY {
        BuffStackingType::Duration
    } else {
        BuffStackingType::Intensity
    }
}

/// Whether the skill is a buff with a stack limit and a stacking discipline.
pub fn has_stacking_rules(skill_id: u32) -> (r: bool)
    ensures
        r == is_stacking_buff(skill_id),
{
    skill_id == skills::MIGHT || skill_id == skills::KALLAS_FERVOR || skill_id
        == skills::VULNERABILITY || skill_id == skills::FURY
}

/// The greatest number of stacks of a tracked buff that count at once.
pub fn get_stack_limit(skill_id: u32) -> (r: u32)
    requires
        is_stacking_buff(skill_id),
    ensures
        r == stack_limit_of(skill_id),
        1 <= r <= 25,
{
    if skill_id == skills::MIGHT {
        25
    } else if skill_id == skills::KALLAS_FERVOR {
        5
    } else if skill_id == skills::VULNERABILITY {
        25
    } else {
        9
    }
}

/// How the stacks of a tracked buff combine.
pub fn get_stacking_type(skill_id: u32) -> (r: BuffStackingType)
    requires
        is_stacking_buff(skill_id),
    ensures
        r == stacking_type_of(skill_id),
{
    if skill_id == skills::FURY {
        BuffStackingType::Duration
    } else {
        BuffStackingType::Intensity
    }
}

/// The value of a strike's coefficient that stands for one.
pub const COEFFICIENT_SCALE: u32 = 10_000;

/// The coefficient of the first strike of Searing Fissure. The skill has one
/// id for its first strike and for those that follow, which have another
/// coefficient.
pub const SEARING_FISSURE_FIRST_STRIKE_MULTIPLIER: u32 = 5_000;

/// The coefficient of the strikes of Searing Fissure that follow the first.
pub const SEARING_FISSURE_ADDITIONAL_STRIKE_MULTIPLIER: u32 = 2_500;

/// The base duration of the burning that the first strike of Searing Fissure
/// applies.
pub const SEARING_FISSURE_FIRST_STRIKE_BURNING_DURATION: u32 = 3000;

/// The base duration of the burning that a later strike of Searing Fissure
/// applies.
pub const SEARING_FISSURE_ADDITIONAL_STRIKE_BURNING_DURATION: u32 = 1000;

/// The armor of an enemy without toughness.
pub const BASE_ENEMY_ARMOR: u32 = 1223;

/// The damage of a tick of bleeding before any condition damage, in tenths.
pub const BLEEDING_BASE_DAMAGE: u32 = 220;

/// What a point of condition damage adds to a tick of bleeding, in thousandths.
pub const BLEEDING_MULTIPLIER: u32 = 60;

/// The damage of a tick of burning before any condition damage, in tenths.
pub const BURNING_BASE_DAMAGE: u32 = 1310;

/// What a point of condition damage adds to a tick of burning, in thousandths.
pub const BURNING_MULTIPLIER: u32 = 155;

/// The damage of a tick of poison before any condition damage, in tenths.
pub const POISONED_BASE_DAMAGE: u32 = 335;

/// What a point of condition damage adds to a tick of poison, in thousandths.
pub const POISONED_MULTIPLIER: u32 = 60;

/// The damage of a tick of confusion before any condition damage, in tenths.
pub const CONFUSION_BASE_DAMAGE: u32 = 100;

/// What a point of condition damage adds to a tick of confusion, in thousandths.
pub const CONFUSION_MULTIPLIER: u32 = 0;

/// The damage of a tick of confusion on a target that uses a skill before any condition damage, in tenths.
pub const CONFUSION_ACTIVE_BASE_DAMAGE: u32 = 955;

/// What a point of condition damage adds to a tick of confusion on a target that uses a skill, in thousandths.
pub const CONFUSION_ACTIVE_MULTIPLIER: u32 = 195;

/// The damage of a tick of torment on a target that stands still before any condition damage, in tenths.
pub const TORMENT_BASE_DAMAGE: u32 = 318;

/// What a point of condition damage adds to a tick of torment on a target that stands still, in thousandths.
pub const TORMENT_MULTIPLIER: u32 = 90;

/// The damage of a tick of torment on a target that moves before any condition damage, in tenths.
pub const TORMENT_MOVING_BASE_DAMAGE: u32 = 220;

/// What a point of condition damage adds to a tick of torment on a target that moves, in thousandths.
pub const TORMENT_MOVING_MULTIPLIER: u32 = 60;

/// The damage of the life steal of Battle Scars before any power, in tenths.
pub const BATTLE_SCARS_DAMAGE: u32 = 2980;

/// What a point of power adds to the life steal of Battle Scars, in
/// thousandths.
pub const BATTLE_SCARS_MULTIPLIER: u32 = 100;

/// The time between two ticks of a condition.
pub const TICK_LENGTH: i64 = 1000;

/// The step in which the game reckons what is left of a condition: a
/// twenty-fifth of a tick.
pub const TICK_RATE_STEP: i64 = 40;

/// The damage of one tick of `condition`, in tenths, before any condition
/// damage.
pub open spec fn condition_base_damage(condition: DamagingCondition, target_moving: bool) -> u32 {
    match condition {
        DamagingCondition::Bleeding => BLEEDING_BASE_DAMAGE,
        DamagingCondition::Burning => BURNING_BASE_DAMAGE,
        DamagingCondition::Confusion => CONFUSION_BASE_DAMAGE,
        DamagingCondition::Poisoned => POISONED_BASE_DAMAGE,
        DamagingCondition::Torment => if target_moving {
            TORMENT_MOVING_BASE_DAMAGE
        } else {
            TORMENT_BASE_DAMAGE
        },
    }
}

/// The damage that a point of condition damage adds to a tick of
/// `condition`, in thousandths.
pub open spec fn condition_multiplier(condition: DamagingCondition, target_moving: bool) -> u32 {
    match condition {
        DamagingCondition::Bleeding => BLEEDING_MULTIPLIER,
        DamagingCondition::Burning => BURNING_MULTIPLIER,
        DamagingCondition::Confusion => CONFUSION_MULTIPLIER,
        DamagingCondition::Poisoned => POISONED_MULTIPLIER,
        DamagingCondition::Torment => if target_moving {
            TORMENT_MOVING_MULTIPLIER
        } else {
            TORMENT_MULTIPLIER
        },
    }
}

/// The damage of one tick of `condition`, in tenths, before any condition
/// damage.
pub fn get_condition_base_damage(condition: DamagingCondition, target_moving: bool) -> (r: u32)
    ensures
        r == condition_base_damage(condition, target_moving),
        r <= 1310,
{
    match condition {
        DamagingCondition::Bleeding => BLEEDING_BASE_DAMAGE,
        DamagingCondition::Burning => BURNING_BASE_DAMAGE,
        DamagingCondition::Confusion => CONFUSION_BASE_DAMAGE,
        DamagingCondition::Poisoned => POISONED_BASE_DAMAGE,
        DamagingCondition::Torment => if target_moving {
            TORMENT_MOVING_BASE_DAMAGE
        } else {
            TORMENT_BASE_DAMAGE
        },
    }
}

/// The damage that a point of condition damage adds to a tick of
/// `condition`, in thousandths.
pub fn get_condition_multiplier(condition: DamagingCondition, target_moving: bool) -> (r: u32)
    ensures
        r == condition_multiplier(condition, target_moving),
        r <= 155,
{
    match condition {
        DamagingCondition::Bleeding => BLEEDING_MULTIPLIER,
        DamagingCondition::Burning => BURNING_MULTIPLIER,
        DamagingCondition::Confusion => CONFUSION_MULTIPLIER,
        DamagingCondition::Poisoned => POISONED_MULTIPLIER,
        DamagingCondition::Torment => if target_moving {
            TORMENT_MOVING_MULTIPLIER
        } else {
            TORMENT_MULTIPLIER
        },
    }
}

/// The coefficients of strikes, by skill id, in ten-thousandths.
pub struct SkillData {
    power_multipliers: HashMap<u32, u32>,
}

impl View for SkillData {
    type V = Map<u32, u32>;

    closed spec fn view(&self) -> Map<u32, u32> {
        self.power_multipliers@
    }
}

impl SkillData {
    /// A table without entries.
    pub fn new() -> (r: Self)
        ensures
            r@ == Map::<u32, u32>::empty(),
    {
        SkillData { power_multipliers: HashMap::new() }
    }

    /// Gives `skill_id` the coefficient `multiplier`, in place of any it had.
    pub fn set_power_multiplier(&mut self, skill_id: u32, multiplier: u32)
        ensures
            final(self)@ == old(self)@.insert(skill_id, multiplier),
    {
        broadcast use vstd::std_specs::hash::group_hash_axioms;

        self.power_multipliers.insert(skill_id, multiplier);
    }

    /// The coefficient of `skill_id`, if the table has one.
    pub fn power_multiplier(&self, skill_id: u32) -> (r: Option<u32>)
        ensures
            r == if self@.contains_key(skill_id) {
                Some(self@[skill_id])
            } else {
                None
            },
    {
        broadcast use vstd::std_specs::hash::group_hash_axioms;

        match self.power_multipliers.get(&skill_id) {
            Some(multiplier) => Some(*multiplier),
            None => None,
        }
    }
}

} // verus!
