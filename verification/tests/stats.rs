use combat_resim::damage::rounded_quotient;
use combat_resim::gamedata::{
    get_condition_base_damage, get_condition_multiplier, SkillData,
};
use combat_resim::ids::skills;
use combat_resim::stats::vulnerability_multiplier;
use combat_resim::{DamageDistribution, DamagingCondition, PlayerStats, Sigil, WeaponSet, WeaponType};
use std::collections::HashMap;

fn build() -> PlayerStats {
    let mut durations = HashMap::new();
    for id in [
        skills::BLEEDING,
        skills::BURNING,
        skills::POISONED,
        skills::CONFUSION,
        skills::TORMENT,
    ] {
        durations.insert(id, 10);
    }
    let mut gated = HashMap::new();
    gated.insert(skills::BLEEDING, (skills::FURY, 25));
    let mut damages = HashMap::new();
    damages.insert(skills::TORMENT, 10);
    damages.insert(skills::BLEEDING, 25);
    PlayerStats {
        power: 2173,
        precision: 1633,
        ferocity: 0,
        condition_damage: 1672,
        expertise: 633,
        concentration: 0,
        set_1_sigils: [Sigil::Earth, Sigil::Geomancy],
        set_2_sigils: [Sigil::Earth, Sigil::Doom],
        extra_condition_durations_all: 20,
        extra_condition_durations: durations,
        extra_condition_durations_under_buff: gated,
        extra_condition_damages: damages,
        weapon_set: WeaponSet::Land1,
        weapon_set_types: [WeaponType::TwoHanded, WeaponType::DualWield],
    }
}

#[test]
fn effective_stats_grow_with_stacks() {
    let stats = build();
    assert_eq!(stats.power(0), 2173);
    assert_eq!(stats.power(5), 2323);
    assert_eq!(stats.power(25), 2923);
    assert_eq!(stats.ferocity(0), 0);
    assert_eq!(stats.ferocity(5), 150);
    assert_eq!(stats.condition_damage(10), 1972);
    assert_eq!(stats.critical_multiplier(0), 2250);
    assert_eq!(stats.critical_multiplier(3), 2340);
}

#[test]
fn effective_stats_do_not_overflow() {
    let mut stats = build();
    stats.power = u32::MAX;
    stats.condition_damage = u32::MAX;
    stats.ferocity = u32::MAX;
    assert_eq!(stats.power(25), 4_294_967_295 + 750);
    assert_eq!(stats.condition_damage(25), 4_294_967_295 + 750);
    assert_eq!(stats.ferocity(5), 4_294_967_295 + 150);
}

#[test]
fn condition_duration_adds_bonuses() {
    let stats = build();
    // 1 + 633/1500 + 0.2 + 0.1
    assert_eq!(stats.condition_duration(skills::BLEEDING, false), 2583);
    // + 0.25 under fury
    assert_eq!(stats.condition_duration(skills::BLEEDING, true), 2958);
    // burning has no gated bonus
    assert_eq!(stats.condition_duration(skills::BURNING, true), 2583);
    // vulnerability has the bonus for all conditions only
    assert_eq!(stats.condition_duration(skills::VULNERABILITY, false), 2433);
    assert_eq!(stats.gating_buff(skills::BLEEDING), Some(skills::FURY));
    assert_eq!(stats.gating_buff(skills::BURNING), None);
}

#[test]
fn condition_duration_reads_sigils_of_set_in_hand() {
    let mut stats = build();
    stats.set_2_sigils = [Sigil::Demons, Sigil::Malice];
    assert_eq!(stats.condition_duration(skills::TORMENT, false), 2583);
    stats.weapon_set = WeaponSet::Land2;
    // + 0.2 for torment and + 0.1 for all: capped
    assert_eq!(stats.condition_duration(skills::TORMENT, false), 3000);
    // + 0.1 only
    assert_eq!(stats.condition_duration(skills::BURNING, false), 2733);
    assert!(stats.holds_sigil(Sigil::Demons));
    assert!(!stats.holds_sigil(Sigil::Earth));
    assert_eq!(stats.current_sigils(), &[Sigil::Demons, Sigil::Malice]);
}

#[test]
fn duration_multipliers_never_exceed_doubling() {
    let mut stats = build();
    stats.expertise = u32::MAX;
    stats.concentration = u32::MAX;
    stats.extra_condition_durations_all = u32::MAX;
    stats.extra_condition_durations.insert(skills::BLEEDING, u32::MAX);
    stats.extra_condition_durations_under_buff.insert(skills::BLEEDING, (skills::FURY, u32::MAX));
    assert_eq!(stats.condition_duration(skills::BLEEDING, true), 3000);
    assert_eq!(stats.condition_duration(skills::CHILLED, false), 3000);
    assert_eq!(stats.boon_duration(), 3000);
    stats.concentration = 1500;
    assert_eq!(stats.boon_duration(), 3000);
    stats.concentration = 1501;
    assert_eq!(stats.boon_duration(), 3000);
    stats.concentration = 1499;
    assert_eq!(stats.boon_duration(), 2999);
    stats.concentration = 0;
    assert_eq!(stats.boon_duration(), 1500);
}

#[test]
fn condition_damage_multiplier_is_a_product() {
    let mut stats = build();
    assert_eq!(stats.condition_damage_mult(DamagingCondition::Burning, 0), 1_000_000);
    assert_eq!(stats.condition_damage_mult(DamagingCondition::Bleeding, 2), 1_300_000);
    assert_eq!(stats.condition_damage_mult(DamagingCondition::Torment, 5), 1_210_000);
    stats.set_1_sigils = [Sigil::Bursting, Sigil::Geomancy];
    assert_eq!(stats.condition_damage_mult(DamagingCondition::Burning, 0), 1_050_000);
    assert_eq!(stats.condition_damage_mult(DamagingCondition::Bleeding, 2), 1_365_000);
}

#[test]
fn power_damage_multiplier_is_a_sum() {
    let mut stats = build();
    assert_eq!(stats.power_damage_mult(0, 10_000, 10_000), 1300);
    assert_eq!(stats.power_damage_mult(10, 10_000, 10_000), 1350);
    assert_eq!(stats.power_damage_mult(25, 7_999, 10_000), 1175);
    assert_eq!(stats.power_damage_mult(0, 8_000, 10_000), 1300);
    assert_eq!(stats.power_damage_mult(0, 0, 0), 1050);
    assert_eq!(stats.power_damage_mult(0, u64::MAX, u64::MAX), 1300);
    stats.weapon_set = WeaponSet::Land2;
    assert_eq!(stats.power_damage_mult(0, 1, 10), 1100);
    assert_eq!(vulnerability_multiplier(0), 100);
    assert_eq!(vulnerability_multiplier(25), 125);
}

#[test]
fn rounding_goes_to_nearest_and_halves_up() {
    assert_eq!(rounded_quotient(0, 7), 0);
    assert_eq!(rounded_quotient(3, 7), 0);
    assert_eq!(rounded_quotient(4, 7), 1);
    assert_eq!(rounded_quotient(5, 10), 1);
    assert_eq!(rounded_quotient(14, 10), 1);
    assert_eq!(rounded_quotient(15, 10), 2);
    assert_eq!(rounded_quotient(u128::MAX, 1), u128::MAX);
    assert_eq!(rounded_quotient(u128::MAX, u128::MAX), 1);
    assert_eq!(rounded_quotient(u128::MAX - 1, u128::MAX), 1);
    assert_eq!(rounded_quotient(u128::MAX / 2, u128::MAX), 0);
}

#[test]
fn damage_distribution_adds_up() {
    let mut distribution = DamageDistribution::new();
    assert_eq!(distribution.total_damage(), 0);
    assert_eq!(distribution.source_count(), 0);
    distribution.add_damage(7, 100);
    distribution.add_damage(9, 50);
    distribution.add_damage(7, 1);
    distribution.add_damage(11, 0);
    assert_eq!(distribution.total_damage(), 151);
    assert_eq!(distribution.damage_of(7), 101);
    assert_eq!(distribution.damage_of(9), 50);
    assert_eq!(distribution.damage_of(11), 0);
    assert_eq!(distribution.damage_of(12), 0);
    assert!(distribution.has_source(11));
    assert!(!distribution.has_source(12));
    assert_eq!(distribution.source_count(), 3);
}

#[test]
fn condition_ids_round_trip() {
    for condition in [
        DamagingCondition::Bleeding,
        DamagingCondition::Burning,
        DamagingCondition::Confusion,
        DamagingCondition::Poisoned,
        DamagingCondition::Torment,
    ] {
        assert_eq!(DamagingCondition::from_id(condition.to_id()), condition);
    }
    assert_eq!(DamagingCondition::Bleeding.to_id(), 736);
    assert_eq!(DamagingCondition::Burning.to_id(), 737);
    assert_eq!(DamagingCondition::Confusion.to_id(), 861);
    assert_eq!(DamagingCondition::Poisoned.to_id(), 723);
    assert_eq!(DamagingCondition::Torment.to_id(), 19426);
}

#[test]
fn condition_figures() {
    assert_eq!(get_condition_base_damage(DamagingCondition::Bleeding, false), 220);
    assert_eq!(get_condition_multiplier(DamagingCondition::Bleeding, false), 60);
    assert_eq!(get_condition_base_damage(DamagingCondition::Burning, true), 1310);
    assert_eq!(get_condition_multiplier(DamagingCondition::Burning, true), 155);
    assert_eq!(get_condition_base_damage(DamagingCondition::Poisoned, false), 335);
    assert_eq!(get_condition_multiplier(DamagingCondition::Poisoned, false), 60);
    assert_eq!(get_condition_base_damage(DamagingCondition::Confusion, false), 100);
    assert_eq!(get_condition_multiplier(DamagingCondition::Confusion, false), 0);
    assert_eq!(get_condition_base_damage(DamagingCondition::Torment, false), 318);
    assert_eq!(get_condition_multiplier(DamagingCondition::Torment, false), 90);
    assert_eq!(get_condition_base_damage(DamagingCondition::Torment, true), 220);
    assert_eq!(get_condition_multiplier(DamagingCondition::Torment, true), 60);
}

#[test]
fn coefficient_table() {
    let mut table = SkillData::new();
    assert_eq!(table.power_multiplier(5), None);
    table.set_power_multiplier(5, 7300);
    table.set_power_multiplier(6, 12_500);
    table.set_power_multiplier(5, 7400);
    assert_eq!(table.power_multiplier(5), Some(7400));
    assert_eq!(table.power_multiplier(6), Some(12_500));
    assert_eq!(table.power_multiplier(7), None);
}
