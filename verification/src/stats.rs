//! A build and the figures that follow from it.
//!
//! Every figure is exact. A duration multiplier counts units of 1/1500, so
//! that a point of expertise or concentration is one unit and a percent of
//! bonus duration fifteen; it never exceeds 3000, which is a doubling. A bonus
//! is a whole number of percent. The multiplier of condition damage counts
//! millionths, that of strike damage thousandths, that of vulnerability
//! hundredths.

use crate::events::{DamagingCondition, Sigil, WeaponSet, WeaponType};
use crate::gamedata::{skill_type_of, stack_limit_of, SkillType};
use crate::ids::skills;
use std::collections::HashMap;
use vstd::prelude::*;

verus! {

/// The units of a duration multiplier that make a multiplier of one.
pub const DURATION_SCALE: u32 = 1500;

/// The greatest duration multiplier: a doubling.
pub const DURATION_CAP: u32 = 3000;

/// The units of a duration multiplier that make one percent.
pub const DURATION_UNITS_PER_PERCENT: u32 = 15;

/// Power, and condition damage, that one stack of might adds.
pub const MIGHT_BONUS: u32 = 30;

/// Ferocity that one stack of Kalla's Fervor adds.
pub const KALLAS_FERVOR_FEROCITY: u32 = 30;

/// Percent of condition damage that one stack of Kalla's Fervor adds.
pub const KALLAS_FERVOR_CONDITION_DAMAGE_PERCENT: u32 = 2;

/// The value of the condition damage multiplier that stands for one.
pub const CONDITION_DAMAGE_SCALE: u64 = 1_000_000;

/// The value of the strike damage multiplier that stands for one.
pub const POWER_DAMAGE_SCALE: u32 = 1000;

/// A build: the stats, the sigils of both weapon sets, the bonuses to
/// condition duration and condition damage, and the weapon set in hand.
///
/// `extra_condition_durations_all` is a bonus in percent to the duration of
/// every condition, `extra_condition_durations` one for each condition's
/// skill id. `extra_condition_durations_under_buff` gives, for a condition's
/// skill id, a buff and the bonus in percent that holds while that buff is on
/// the player. `extra_condition_damages` gives a bonus in percent to the
/// damage of a damaging condition, by its skill id.
pub struct PlayerStats {
    pub power: u32,
    pub precision: u32,
    pub ferocity: u32,
    pub condition_damage: u32,
    pub expertise: u32,
    pub concentration: u32,
    pub set_1_sigils: [Sigil; 2],
    pub set_2_sigils: [Sigil; 2],
    pub extra_condition_durations_all: u32,
    pub extra_condition_durations: HashMap<u32, u32>,
    pub extra_condition_durations_under_buff: HashMap<u32, (u32, u32)>,
    pub extra_condition_damages: HashMap<u32, u32>,
    pub weapon_set: WeaponSet,
    pub weapon_set_types: [WeaponType; 2],
}

/// The value that `m` gives to `key`, and zero where it gives none.
pub open spec fn bonus_of(m: Map<u32, u32>, key: u32) -> u32 {
    if m.contains_key(key) {
        m[key]
    } else {
        0
    }
}

/// Whether a target with `health` of `max_health` left is at four fifths of
/// its health or above.
pub open spec fn is_healthy(health: u64, max_health: u64) -> bool {
    max_health > 0 && 5 * health >= 4 * max_health
}

/// The multiplier, in hundredths, of the damage that a target with `stacks`
/// stacks of vulnerability takes: one percent more for each stack.
pub open spec fn vulnerability_factor(stacks: u32) -> int {
    100 + stacks
}

/// The multiplier, in hundredths, of the damage that a target with `stacks`
/// stacks of vulnerability takes.
pub fn vulnerability_multiplier(stacks: u32) -> (r: u64)
    ensures
        r == vulnerability_factor(stacks),
{
    100 + stacks as u64
}

/// The mathematical content of a [`PlayerStats`].
pub struct BuildView {
    pub power: u32,
    pub precision: u32,
    pub ferocity: u32,
    pub condition_damage: u32,
    pub expertise: u32,
    pub concentration: u32,
    pub set_1_sigils: Seq<Sigil>,
    pub set_2_sigils: Seq<Sigil>,
    pub extra_condition_durations_all: u32,
    pub extra_condition_durations: Map<u32, u32>,
    pub extra_condition_durations_under_buff: Map<u32, (u32, u32)>,
    pub extra_condition_damages: Map<u32, u32>,
    pub weapon_set: WeaponSet,
    pub weapon_set_types: Seq<WeaponType>,
}

impl View for PlayerStats {
    type V = BuildView;

    open spec fn view(&self) -> BuildView {
        BuildView {
            power: self.power,
            precision: self.precision,
            ferocity: self.ferocity,
            condition_damage: self.condition_damage,
            expertise: self.expertise,
            concentration: self.concentration,
            set_1_sigils: self.set_1_sigils@,
            set_2_sigils: self.set_2_sigils@,
            extra_condition_durations_all: self.extra_condition_durations_all,
            extra_condition_durations: self.extra_condition_durations@,
            extra_condition_durations_under_buff: self.extra_condition_durations_under_buff@,
            extra_condition_damages: self.extra_condition_damages@,
            weapon_set: self.weapon_set,
            weapon_set_types: self.weapon_set_types@,
        }
    }
}

impl BuildView {
    /// The sigils of the weapon set in hand.
    pub open spec fn spec_current_sigils(self) -> Seq<Sigil> {
        match self.weapon_set {
            WeaponSet::Land1 => self.set_1_sigils,
            WeaponSet::Land2 => self.set_2_sigils,
        }
    }

    /// Whether the weapon set in hand holds `sigil`.
    pub open spec fn has_sigil(self, sigil: Sigil) -> bool {
        self.spec_current_sigils()[0] == sigil || self.spec_current_sigils()[1] == sigil
    }

    /// The kind of the weapon set in hand.
    pub open spec fn current_weapon_type(self) -> WeaponType {
        match self.weapon_set {
            WeaponSet::Land1 => self.weapon_set_types[0],
            WeaponSet::Land2 => self.weapon_set_types[1],
        }
    }

    /// Power under `might` stacks of might.
    pub open spec fn effective_power(self, might: u32) -> int {
        self.power + might * MIGHT_BONUS
    }

    /// Ferocity under `kallas_fervor` stacks of Kalla's Fervor.
    pub open spec fn effective_ferocity(self, kallas_fervor: u32) -> int {
        self.ferocity + kallas_fervor * KALLAS_FERVOR_FEROCITY
    }

    /// Condition damage under `might` stacks of might.
    pub open spec fn effective_condition_damage(self, might: u32) -> int {
        self.condition_damage + might * MIGHT_BONUS
    }

    /// The buff that gates a bonus to the duration of `skill_id`, if the
    /// build has such a bonus.
    pub open spec fn spec_gating_buff(self, skill_id: u32) -> Option<u32> {
        if self.extra_condition_durations_under_buff.contains_key(skill_id) {
            Some(self.extra_condition_durations_under_buff[skill_id].0)
        } else {
            None
        }
    }

    /// The bonus in percent to the duration of `skill_id` that holds while
    /// its gating buff is on the player.
    pub open spec fn gated_bonus(self, skill_id: u32) -> u32 {
        if self.extra_condition_durations_under_buff.contains_key(skill_id) {
            self.extra_condition_durations_under_buff[skill_id].1
        } else {
            0
        }
    }

    /// The duration multiplier of the condition `skill_id` before the cap:
    /// one, the expertise, the bonus for all conditions, the bonus for this
    /// one, the gated bonus where `gate_applied`, a fifth for torment under a
    /// sigil of demons and a tenth under a sigil of malice.
    pub open spec fn uncapped_condition_duration(self, skill_id: u32, gate_applied: bool) -> int {
        DURATION_SCALE + self.expertise + DURATION_UNITS_PER_PERCENT * (
        self.extra_condition_durations_all + bonus_of(self.extra_condition_durations, skill_id)
            + if gate_applied {
            self.gated_bonus(skill_id) as int
        } else {
            0
        }) + if skill_id == skills::TORMENT && self.has_sigil(Sigil::Demons) {
            20 * DURATION_UNITS_PER_PERCENT as int
        } else {
            0
        } + if self.has_sigil(Sigil::Malice) {
            10 * DURATION_UNITS_PER_PERCENT as int
        } else {
            0
        }
    }

    /// The duration multiplier of the condition `skill_id`, capped at a
    /// doubling.
    pub open spec fn condition_duration_units(self, skill_id: u32, gate_applied: bool) -> int {
        if self.uncapped_condition_duration(skill_id, gate_applied) > DURATION_CAP {
            DURATION_CAP as int
        } else {
            self.uncapped_condition_duration(skill_id, gate_applied)
        }
    }

    /// The duration multiplier of boons: one and the concentration, capped at
    /// a doubling.
    pub open spec fn boon_duration_units(self) -> int {
        if DURATION_SCALE + self.concentration > DURATION_CAP {
            DURATION_CAP as int
        } else {
            DURATION_SCALE + self.concentration
        }
    }

    /// The multiplier of the damage of `condition`, in millionths: the
    /// product of the bonus of Kalla's Fervor, the build's bonus for this
    /// condition and a twentieth more under a sigil of bursting.
    pub open spec fn condition_damage_factor(
        self,
        condition: DamagingCondition,
        kallas_fervor: u32,
    ) -> int {
        (100 + KALLAS_FERVOR_CONDITION_DAMAGE_PERCENT * kallas_fervor) * (100 + bonus_of(
            self.extra_condition_damages,
            condition.spec_to_id(),
        )) * if self.has_sigil(Sigil::Bursting) {
            105int
        } else {
            100int
        }
    }

    /// The multiplier of strike damage, in thousandths: the sum of one, a
    /// tenth with two weapons in hand or a twentieth with one, half a percent
    /// for each stack of vulnerability on the target, and a quarter against a
    /// target at four fifths of its health or above.
    pub open spec fn power_damage_factor(
        self,
        target_vulnerability: u32,
        target_health: u64,
        target_max_health: u64,
    ) -> int {
        POWER_DAMAGE_SCALE + match self.current_weapon_type() {
            WeaponType::DualWield => 100int,
            WeaponType::TwoHanded => 50int,
        } + 5 * target_vulnerability + if is_healthy(target_health, target_max_health) {
            250int
        } else {
            0int
        }
    }

    /// The multiplier of a critical strike, in units of 1/1500: one and a
    /// half, and the ferocity.
    pub open spec fn critical_factor(self, kallas_fervor: u32) -> int {
        2250 + self.effective_ferocity(kallas_fervor)
    }
}

impl PlayerStats {
    /// The sigils of the weapon set in hand.
    pub fn current_sigils(&self) -> (r: &[Sigil; 2])
        ensures
            r@ == self@.spec_current_sigils(),
    {
        match self.weapon_set {
            WeaponSet::Land1 => &self.set_1_sigils,
            WeaponSet::Land2 => &self.set_2_sigils,
        }
    }

    /// Whether the weapon set in hand holds `sigil`.
    pub fn holds_sigil(&self, sigil: Sigil) -> (r: bool)
        ensures
            r == self@.has_sigil(sigil),
    {
        let sigils = self.current_sigils();
        sigils[0] == sigil || sigils[1] == sigil
    }

    /// Power under `might` stacks of might.
    pub fn power(&self, might: u32) -> (r: u64)
        requires
            might <= stack_limit_of(skills::MIGHT),
        ensures
            r == self@.effective_power(might),
    {
        self.power as u64 + might as u64 * MIGHT_BONUS as u64
    }

    /// Ferocity under `kallas_fervor` stacks of Kalla's Fervor.
    pub fn ferocity(&self, kallas_fervor: u32) -> (r: u64)
        requires
            kallas_fervor <= stack_limit_of(skills::KALLAS_FERVOR),
        ensures
            r == self@.effective_ferocity(kallas_fervor),
    {
        self.ferocity as u64 + kallas_fervor as u64 * KALLAS_FERVOR_FEROCITY as u64
    }

    /// Condition damage under `might` stacks of might.
    pub fn condition_damage(&self, might: u32) -> (r: u64)
        requires
            might <= stack_limit_of(skills::MIGHT),
        ensures
            r == self@.effective_condition_damage(might),
    {
        self.condition_damage as u64 + might as u64 * MIGHT_BONUS as u64
    }

    /// The buff that gates a bonus to the duration of `skill_id`, if the
    /// build has such a bonus.
    pub fn gating_buff(&self, skill_id: u32) -> (r: Option<u32>)
        ensures
            r == self@.spec_gating_buff(skill_id),
    {
        broadcast use vstd::std_specs::hash::group_hash_axioms;

        match self.extra_condition_durations_under_buff.get(&skill_id) {
            Some(entry) => Some(entry.0),
            None => None,
        }
    }

    /// The duration multiplier of the condition `skill_id`, in units of
    /// 1/1500; `gate_applied` says whether the buff that gates a bonus to it
    /// is on the player. It is at least one and at most a doubling, however
    /// large the bonuses.
    pub fn condition_duration(&self, skill_id: u32, gate_applied: bool) -> (r: u32)
        requires
            skill_type_of(skill_id) == SkillType::Condition,
        ensures
            r == self@.condition_duration_units(skill_id, gate_applied),
            DURATION_SCALE <= r <= DURATION_CAP,
    {
        broadcast use vstd::std_specs::hash::group_hash_axioms;

        let all: u64 = self.extra_condition_durations_all as u64;
        let extra: u64 = match self.extra_condition_durations.get(&skill_id) {
            Some(extra) => *extra as u64,
            None => 0,
        };
        let gated: u64 = if gate_applied {
            match self.extra_condition_durations_under_buff.get(&skill_id) {
                Some(entry) => entry.1 as u64,
                None => 0,
            }
        } else {
            0
        };
        let demons: u64 = if skill_id == skills::TORMENT && self.holds_sigil(Sigil::Demons) {
            20 * DURATION_UNITS_PER_PERCENT as u64
        } else {
            0
        };
        let malice: u64 = if self.holds_sigil(Sigil::Malice) {
            10 * DURATION_UNITS_PER_PERCENT as u64
        } else {
            0
        };
        let units: u64 = DURATION_SCALE as u64 + self.expertise as u64
            + DURATION_UNITS_PER_PERCENT as u64 * (all + extra + gated) + demons + malice;
        if units > DURATION_CAP as u64 {
            DURATION_CAP
        } else {
            units as u32
        }
    }

    /// The duration multiplier of boons, in units of 1/1500. It is at least
    /// one and at most a doubling, however large the concentration.
    pub fn boon_duration(&self) -> (r: u32)
        ensures
            r == self@.boon_duration_units(),
            DURATION_SCALE <= r <= DURATION_CAP,
    {
        let units: u64 = DURATION_SCALE as u64 + self.concentration as u64;
        if units > DURATION_CAP as u64 {
            DURATION_CAP
        } else {
            units as u32
        }
    }

    /// The multiplier of the damage of `condition`, in millionths, under
    /// `kallas_fervor` stacks of Kalla's Fervor.
    pub fn condition_damage_mult(&self, condition: DamagingCondition, kallas_fervor: u32) -> (r:
        u64)
        requires
            kallas_fervor <= stack_limit_of(skills::KALLAS_FERVOR),
        ensures
            r == self@.condition_damage_factor(condition, kallas_fervor),
            r <= 110 * 0x1_0000_0063 * 105,
    {
        broadcast use vstd::std_specs::hash::group_hash_axioms;

        let fervor: u64 = 100 + KALLAS_FERVOR_CONDITION_DAMAGE_PERCENT as u64
            * kallas_fervor as u64;
        let extra: u64 = match self.extra_condition_damages.get(&condition.to_id()) {
            Some(percent) => 100 + *percent as u64,
            None => 100,
        };
        let sigil: u64 = if self.holds_sigil(Sigil::Bursting) {
            105
        } else {
            100
        };
        assert(fervor * extra <= 110 * 0x1_0000_0063) by (nonlinear_arith)
            requires
                fervor <= 110,
                extra <= 0x1_0000_0063,
        ;
        assert(fervor * extra * sigil <= 110 * 0x1_0000_0063 * 105) by (nonlinear_arith)
            requires
                fervor * extra <= 110 * 0x1_0000_0063,
                sigil <= 105,
        ;
        fervor * extra * sigil
    }

    /// The multiplier of strike damage, in thousandths, against a target
    /// with `target_vulnerability` stacks of vulnerability and
    /// `target_health` of `target_max_health` left.
    pub fn power_damage_mult(
        &self,
        target_vulnerability: u32,
        target_health: u64,
        target_max_health: u64,
    ) -> (r: u32)
        requires
            target_vulnerability <= stack_limit_of(skills::VULNERABILITY),
        ensures
            r == self@.power_damage_factor(target_vulnerability, target_health, target_max_health),
            1050 <= r <= 1475,
    {
        let weapon_type = match self.weapon_set {
            WeaponSet::Land1 => self.weapon_set_types[0],
            WeaponSet::Land2 => self.weapon_set_types[1],
        };
        let mut multiplier: u32 = POWER_DAMAGE_SCALE;
        multiplier += match weapon_type {
            WeaponType::DualWield => 100,
            WeaponType::TwoHanded => 50,
        };
        multiplier += 5 * target_vulnerability;
        if target_max_health > 0 && 5 * target_health as u128 >= 4 * target_max_health as u128 {
            multiplier += 250;
        }
        multiplier
    }

    /// The multiplier of a critical strike, in units of 1/1500, under
    /// `kallas_fervor` stacks of Kalla's Fervor.
    pub fn critical_multiplier(&self, kallas_fervor: u32) -> (r: u64)
        requires
            kallas_fervor <= stack_limit_of(skills::KALLAS_FERVOR),
        ensures
            r == self@.critical_factor(kallas_fervor),
    {
        2250 + self.ferocity(kallas_fervor)
    }
}

} // verus!
