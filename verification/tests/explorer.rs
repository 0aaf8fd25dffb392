use combat_resim::evtc::EvtcSkill;
use combat_resim::explorer::{
    all_variants, explore, try_variant, Runes, SigilChoice, SweepError, SweepFailure, Variant,
};
use combat_resim::ids::skills;
use combat_resim::sim::SimError;
use combat_resim::{
    ConditionApplicationSource, DamagingCondition, PhysicalHitSource, PlayerStats, Sigil,
    SimulationEvent, WeaponSet, WeaponType,
};
use std::collections::HashMap;

fn build() -> PlayerStats {
    let mut durations = HashMap::new();
    for id in [
        skills::BLEEDING,
        skills::BURNING,
        skills::POISONED,
        skills::CONFUSION,
        skills::TORMENT,
    ] {
        durations.insert(id, 10);
    }
    let mut gated = HashMap::new();
    gated.insert(skills::BLEEDING, (skills::FURY, 25));
    let mut damages = HashMap::new();
    damages.insert(skills::TORMENT, 10);
    damages.insert(skills::BLEEDING, 25);
    PlayerStats {
        power: 2173,
        precision: 1633,
        ferocity: 0,
        condition_damage: 1672,
        expertise: 633,
        concentration: 0,
        set_1_sigils: [Sigil::Earth, Sigil::Geomancy],
        set_2_sigils: [Sigil::Earth, Sigil::Doom],
        extra_condition_durations_all: 20,
        extra_condition_durations: durations,
        extra_condition_durations_under_buff: gated,
        extra_condition_damages: damages,
        weapon_set: WeaponSet::Land1,
        weapon_set_types: [WeaponType::TwoHanded, WeaponType::DualWield],
    }
}

fn unchanged() -> Variant {
    Variant {
        chestplate_sinister: false,
        expertise_infusions: 0,
        runes: Runes::Nightmare,
        sigil_11: SigilChoice::Keep,
        sigil_12: SigilChoice::Keep,
        sigil_21: SigilChoice::Keep,
        sigil_22: SigilChoice::Keep,
    }
}

#[test]
fn every_valid_variant_is_listed_once() {
    let variants = all_variants();
    // 2 chestplates, 19 splits, 5 runes, and 13 pairs of choices for each weapon set
    assert_eq!(variants.len(), 2 * 19 * 5 * 13 * 13);
    assert_eq!(variants[0], unchanged());
    assert_eq!(variants[1], Variant { sigil_22: SigilChoice::Bursting, ..unchanged() });
    assert_eq!(variants[4], Variant { sigil_21: SigilChoice::Bursting, ..unchanged() });
    // (Bursting, Bursting) is skipped
    assert_eq!(
        variants[5],
        Variant { sigil_21: SigilChoice::Bursting, sigil_22: SigilChoice::Demons, ..unchanged() }
    );
    assert_eq!(variants[13], Variant { sigil_12: SigilChoice::Bursting, ..unchanged() });
    assert_eq!(variants[169], Variant { runes: Runes::Tormenting, ..unchanged() });
    assert_eq!(variants[5 * 169], Variant { expertise_infusions: 1, ..unchanged() });
    assert_eq!(variants[19 * 5 * 169], Variant { chestplate_sinister: true, ..unchanged() });
    let last = variants[variants.len() - 1];
    assert_eq!(
        last,
        Variant {
            chestplate_sinister: true,
            expertise_infusions: 18,
            runes: Runes::TrapperWith25CondiDamage,
            sigil_11: SigilChoice::Malice,
            sigil_12: SigilChoice::Demons,
            sigil_21: SigilChoice::Malice,
            sigil_22: SigilChoice::Demons,
        }
    );
    for (i, v) in variants.iter().enumerate() {
        assert!(v.check());
        if i > 0 {
            assert_ne!(*v, variants[i - 1]);
        }
    }
}

#[test]
fn variants_by_rank() {
    assert_eq!(Variant::at_rank(0), unchanged());
    assert_eq!(Variant::at_rank(3), Variant { sigil_22: SigilChoice::Malice, ..unchanged() });
    assert_eq!(Variant::at_rank(64), Variant { sigil_11: SigilChoice::Bursting, ..unchanged() });
    assert_eq!(Variant::at_rank(256 * 4), Variant { runes: Runes::TrapperWith25CondiDamage, ..unchanged() });
    assert_eq!(Variant::at_rank(1280 * 18), Variant { expertise_infusions: 18, ..unchanged() });
    assert_eq!(Variant::at_rank(24320), Variant { chestplate_sinister: true, ..unchanged() });
    assert!(!Variant::at_rank(5).check());
    assert!(!Variant { expertise_infusions: 19, ..unchanged() }.check());
    assert!(!Variant { sigil_11: SigilChoice::Malice, sigil_12: SigilChoice::Malice, ..unchanged() }.check());
    assert!(Variant { sigil_11: SigilChoice::Malice, sigil_21: SigilChoice::Malice, ..unchanged() }.check());
}

#[test]
fn unchanged_variant_is_the_build() {
    let (stats, exclusions) = unchanged().apply(&build()).unwrap();
    let base = build();
    assert_eq!(stats.power, base.power);
    assert_eq!(stats.precision, base.precision);
    assert_eq!(stats.ferocity, base.ferocity);
    assert_eq!(stats.condition_damage, base.condition_damage);
    assert_eq!(stats.expertise, base.expertise);
    assert_eq!(stats.concentration, base.concentration);
    assert_eq!(stats.set_1_sigils, base.set_1_sigils);
    assert_eq!(stats.set_2_sigils, base.set_2_sigils);
    assert_eq!(stats.extra_condition_durations_all, 20);
    assert_eq!(stats.extra_condition_durations, base.extra_condition_durations);
    assert_eq!(stats.extra_condition_durations_under_buff, base.extra_condition_durations_under_buff);
    assert_eq!(stats.extra_condition_damages, base.extra_condition_damages);
    assert_eq!(stats.weapon_set, base.weapon_set);
    assert_eq!(stats.weapon_set_types, base.weapon_set_types);
    assert!(!exclusions.doom && !exclusions.geomancy && !exclusions.earth_1 && !exclusions.earth_2);
}

#[test]
fn infusions_and_chestplate_move_stats() {
    let (stats, _) = Variant { expertise_infusions: 7, ..unchanged() }.apply(&build()).unwrap();
    assert_eq!(stats.condition_damage, 1672 - 35);
    assert_eq!(stats.expertise, 633 + 35);
    let (stats, _) = Variant { chestplate_sinister: true, expertise_infusions: 18, ..unchanged() }
        .apply(&build())
        .unwrap();
    assert_eq!(stats.condition_damage, 1672 - 90 + 20);
    assert_eq!(stats.expertise, 633 + 90 - 67);
    assert_eq!(stats.power, 2173 + 34);
    assert_eq!(stats.precision, 1633 + 34);
}

#[test]
fn runes_move_stats_and_durations() {
    let of = |runes| Variant { runes, ..unchanged() }.apply(&build()).unwrap().0;
    let stats = of(Runes::Tormenting);
    assert_eq!(stats.extra_condition_durations_all, 0);
    assert_eq!(stats.extra_condition_durations[&skills::TORMENT], 60);
    assert_eq!(stats.extra_condition_durations[&skills::BLEEDING], 10);
    assert_eq!(stats.condition_damage, 1672);

    let stats = of(Runes::Tempest);
    assert_eq!(stats.extra_condition_durations_all, 25);
    assert_eq!(stats.extra_condition_durations[&skills::TORMENT], 10);
    assert_eq!(stats.condition_damage, 1672 - 175 + 36);
    assert_eq!(stats.power, 2173 + 36);
    assert_eq!(stats.precision, 1633 + 36);
    assert_eq!(stats.ferocity, 36);
    assert_eq!(stats.expertise, 633 + 36);
    assert_eq!(stats.concentration, 36);

    let stats = of(Runes::TrapperWithBlackDiamond);
    assert_eq!(stats.extra_condition_durations_all, 15);
    assert_eq!(stats.condition_damage, 1672 + 17);
    assert_eq!(stats.power, 2173 + 17);
    assert_eq!(stats.expertise, 633 + 9);
    assert_eq!(stats.precision, 1633 + 9);
    assert_eq!(stats.ferocity, 0);

    let stats = of(Runes::TrapperWith25CondiDamage);
    assert_eq!(stats.extra_condition_durations_all, 15);
    assert_eq!(stats.condition_damage, 1672 + 25);
    assert_eq!(stats.power, 2173);
}

#[test]
fn tormenting_runes_on_build_without_torment_bonus() {
    let mut base = build();
    base.extra_condition_durations.remove(&skills::TORMENT);
    let (stats, _) = Variant { runes: Runes::Tormenting, ..unchanged() }.apply(&base).unwrap();
    assert_eq!(stats.extra_condition_durations[&skills::TORMENT], 50);
    let (stats, _) = unchanged().apply(&base).unwrap();
    assert!(!stats.extra_condition_durations.contains_key(&skills::TORMENT));
}

#[test]
fn replaced_sigils_are_left_out_of_replay() {
    let (stats, exclusions) = Variant { sigil_11: SigilChoice::Bursting, ..unchanged() }.apply(&build()).unwrap();
    assert_eq!(stats.set_1_sigils, [Sigil::Bursting, Sigil::Geomancy]);
    assert_eq!(stats.set_2_sigils, [Sigil::Earth, Sigil::Doom]);
    assert!(exclusions.earth_1 && !exclusions.earth_2 && !exclusions.geomancy && !exclusions.doom);

    let (stats, exclusions) = Variant { sigil_12: SigilChoice::Demons, ..unchanged() }.apply(&build()).unwrap();
    assert_eq!(stats.set_1_sigils, [Sigil::Earth, Sigil::Demons]);
    assert!(!exclusions.earth_1 && !exclusions.earth_2 && exclusions.geomancy && !exclusions.doom);

    let (stats, exclusions) = Variant { sigil_21: SigilChoice::Malice, ..unchanged() }.apply(&build()).unwrap();
    assert_eq!(stats.set_2_sigils, [Sigil::Malice, Sigil::Doom]);
    assert!(!exclusions.earth_1 && exclusions.earth_2 && !exclusions.geomancy && !exclusions.doom);

    let (stats, exclusions) = Variant { sigil_22: SigilChoice::Bursting, ..unchanged() }.apply(&build()).unwrap();
    assert_eq!(stats.set_2_sigils, [Sigil::Earth, Sigil::Bursting]);
    assert!(!exclusions.earth_1 && !exclusions.earth_2 && !exclusions.geomancy && exclusions.doom);

    let all = Variant {
        sigil_11: SigilChoice::Malice,
        sigil_12: SigilChoice::Demons,
        sigil_21: SigilChoice::Demons,
        sigil_22: SigilChoice::Bursting,
        ..unchanged()
    };
    let (stats, exclusions) = all.apply(&build()).unwrap();
    assert_eq!(stats.set_1_sigils, [Sigil::Malice, Sigil::Demons]);
    assert_eq!(stats.set_2_sigils, [Sigil::Demons, Sigil::Bursting]);
    assert!(exclusions.earth_1 && exclusions.earth_2 && exclusions.geomancy && exclusions.doom);
    assert_eq!(SigilChoice::Keep.apply_to(Sigil::Doom), Sigil::Doom);
    assert!(!SigilChoice::Keep.takes_out(Sigil::Doom, Sigil::Doom));
    assert!(SigilChoice::Malice.takes_out(Sigil::Doom, Sigil::Doom));
    assert!(!SigilChoice::Malice.takes_out(Sigil::Earth, Sigil::Doom));
}

#[test]
fn stats_out_of_range_give_no_build() {
    let mut base = build();
    base.condition_damage = 89;
    assert!(Variant { expertise_infusions: 18, ..unchanged() }.apply(&base).is_none());
    assert!(Variant { expertise_infusions: 17, ..unchanged() }.apply(&base).is_some());
    let mut base = build();
    base.expertise = 66;
    assert!(Variant { chestplate_sinister: true, ..unchanged() }.apply(&base).is_none());
    assert!(Variant { chestplate_sinister: true, expertise_infusions: 1, ..unchanged() }.apply(&base).is_some());
    let mut base = build();
    base.power = u32::MAX - 35;
    assert!(Variant { runes: Runes::Tempest, ..unchanged() }.apply(&base).is_none());
    let mut base = build();
    base.extra_condition_durations.insert(skills::TORMENT, u32::MAX - 49);
    assert!(Variant { runes: Runes::Tormenting, ..unchanged() }.apply(&base).is_none());
    assert!(Variant { runes: Runes::Tempest, ..unchanged() }.apply(&base).is_some());
}

fn events() -> Vec<SimulationEvent> {
    vec![
        SimulationEvent::TargetConditionApplication {
            time: 0,
            condition: DamagingCondition::Bleeding,
            base_duration: 6000,
            source: ConditionApplicationSource::Sigil(Sigil::Earth),
        },
        SimulationEvent::TargetConditionApplication {
            time: 0,
            condition: DamagingCondition::Burning,
            base_duration: 3000,
            source: ConditionApplicationSource::Unknown,
        },
        SimulationEvent::PhysicalHit {
            time: 10,
            base_damage: 1000,
            coefficient: 10_000,
            enemy_armor: 2173,
            source: PhysicalHitSource::Skill(5),
            critical: false,
        },
        SimulationEvent::ConditionTick { time: 1000, target_moving: false },
    ]
}

#[test]
fn sweep_replays_each_variant() {
    let skills_table: Vec<EvtcSkill> = Vec::new();
    let variants = vec![
        unchanged(),
        Variant { sigil_11: SigilChoice::Bursting, ..unchanged() },
        Variant { runes: Runes::Tempest, ..unchanged() },
    ];
    let candidates = explore(&build(), &variants, &events(), &skills_table, 1_000_000).unwrap();
    assert_eq!(candidates.len(), 3);
    for (candidate, variant) in candidates.iter().zip(&variants) {
        assert_eq!(candidate.variant, *variant);
    }
    // hit: 1000 * 1.3; bleeding: (22 + 0.06 * 1672) * 1.25 = 152.9; burning: 131 + 0.155 * 1672 = 390.16
    assert_eq!(candidates[0].damage.damage_of(5), 1300);
    assert_eq!(candidates[0].damage.damage_of(skills::BLEEDING), 153);
    assert_eq!(candidates[0].damage.damage_of(skills::BURNING), 390);
    assert_eq!(candidates[0].damage.total_damage(), 1843);
    // the sigil of earth is gone from the first set, bursting adds a twentieth: 390.16 * 1.05 = 409.668
    assert_eq!(candidates[1].damage.damage_of(5), 1300);
    assert!(!candidates[1].damage.has_source(skills::BLEEDING));
    assert_eq!(candidates[1].damage.damage_of(skills::BURNING), 410);
    // tempest: power 2209, condition damage 1533
    // hit: 1000 * 2209 / 2173 * 1.3 = 1321.53; bleeding: (22 + 91.98) * 1.25 = 142.475; burning: 131 + 237.615
    assert_eq!(candidates[2].damage.damage_of(5), 1322);
    assert_eq!(candidates[2].damage.damage_of(skills::BLEEDING), 142);
    assert_eq!(candidates[2].damage.damage_of(skills::BURNING), 369);

    let one = try_variant(&build(), &variants[2], &events(), &skills_table, 1_000_000).unwrap();
    assert_eq!(one.damage.total_damage(), candidates[2].damage.total_damage());
    assert_eq!(explore(&build(), &Vec::new(), &events(), &skills_table, 1).unwrap().len(), 0);
}

#[test]
fn first_failure_stops_sweep() {
    let skills_table: Vec<EvtcSkill> = Vec::new();
    let mut base = build();
    base.condition_damage = 50;
    let variants = vec![
        unchanged(),
        Variant { expertise_infusions: 10, ..unchanged() },
        Variant { expertise_infusions: 11, ..unchanged() },
        Variant { expertise_infusions: 12, ..unchanged() },
    ];
    let failure = explore(&base, &variants, &events(), &skills_table, 1_000_000).err();
    assert_eq!(failure, Some(SweepFailure { index: 2, cause: SweepError::StatOutOfRange }));

    let mut broken = events();
    broken.push(SimulationEvent::ConditionTick { time: 999, target_moving: false });
    let failure = explore(&build(), &variants, &broken, &skills_table, 1_000_000).err();
    assert_eq!(failure, Some(SweepFailure { index: 0, cause: SweepError::Replay(SimError::TimeReversed) }));
    let failure = try_variant(&build(), &variants[1], &broken, &skills_table, 1_000_000).err();
    assert_eq!(failure, Some(SweepError::Replay(SimError::TimeReversed)));
}
