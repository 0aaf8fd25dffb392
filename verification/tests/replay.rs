use combat_resim::evtc::EvtcSkill;
use combat_resim::ids::skills;
use combat_resim::sim::{sim, Exclusions, Replay, SimError};
use combat_resim::{
    ConditionApplicationSource, DamageDistribution, DamagingCondition, LifeStealSource,
    PhysicalHitSource, PlayerStats, Sigil, SimulationEvent, WeaponSet, WeaponType,
};
use std::collections::HashMap;

fn plain() -> PlayerStats {
    PlayerStats {
        power: 1000,
        precision: 1000,
        ferocity: 0,
        condition_damage: 1000,
        expertise: 0,
        concentration: 0,
        set_1_sigils: [Sigil::Unused, Sigil::Unused],
        set_2_sigils: [Sigil::Unused, Sigil::Unused],
        extra_condition_durations_all: 0,
        extra_condition_durations: HashMap::new(),
        extra_condition_durations_under_buff: HashMap::new(),
        extra_condition_damages: HashMap::new(),
        weapon_set: WeaponSet::Land1,
        weapon_set_types: [WeaponType::TwoHanded, WeaponType::DualWield],
    }
}

fn run(stats: PlayerStats, events: &[SimulationEvent], health: u64) -> Result<DamageDistribution, SimError> {
    let skills: Vec<EvtcSkill> = Vec::new();
    sim(stats, events, &skills, health, false, false, false, false)
}

fn hit(time: i64, skill: u32) -> SimulationEvent {
    SimulationEvent::PhysicalHit {
        time,
        base_damage: 1000,
        coefficient: 10_000,
        enemy_armor: 2000,
        source: PhysicalHitSource::Skill(skill),
        critical: false,
    }
}

fn bleed(time: i64, base_duration: u32) -> SimulationEvent {
    SimulationEvent::TargetConditionApplication {
        time,
        condition: DamagingCondition::Bleeding,
        base_duration,
        source: ConditionApplicationSource::Unknown,
    }
}

fn tick(time: i64) -> SimulationEvent {
    SimulationEvent::ConditionTick { time, target_moving: false }
}

const HEALTHY: u64 = 1_000_000_000;

#[test]
fn empty_sequence_deals_nothing() {
    let result = run(plain(), &[], HEALTHY).unwrap();
    assert_eq!(result.total_damage(), 0);
    assert_eq!(result.source_count(), 0);
}

#[test]
fn physical_hit_formula() {
    // 1000 * 1000 * 1.0 / 2000 * (1 + 0.05 + 0.25)
    let result = run(plain(), &[hit(0, 5)], HEALTHY).unwrap();
    assert_eq!(result.total_damage(), 650);
    assert_eq!(result.damage_of(5), 650);
    assert_eq!(result.source_count(), 1);
}

#[test]
fn critical_hit_scales_with_ferocity() {
    let critical = SimulationEvent::PhysicalHit {
        time: 0,
        base_damage: 1000,
        coefficient: 10_000,
        enemy_armor: 2000,
        source: PhysicalHitSource::Skill(5),
        critical: true,
    };
    assert_eq!(run(plain(), &[critical], HEALTHY).unwrap().total_damage(), 975);
    let mut stats = plain();
    stats.ferocity = 300;
    // 500 * (1.5 + 0.2) * 1.3
    assert_eq!(run(stats, &[critical], HEALTHY).unwrap().total_damage(), 1105);
    // Kalla's Fervor adds 30 ferocity a stack: 500 * (1.5 + 60/1500) * 1.3
    let fervor = SimulationEvent::SelfBuffApplication {
        time: 0,
        skill_id: skills::KALLAS_FERVOR,
        base_duration: 5000,
    };
    let result = run(plain(), &[fervor, fervor, critical], HEALTHY).unwrap();
    assert_eq!(result.total_damage(), 1001);
}

#[test]
fn coefficient_and_armor_scale_a_hit() {
    let event = SimulationEvent::PhysicalHit {
        time: 0,
        base_damage: 777,
        coefficient: 7_300,
        enemy_armor: 2597,
        source: PhysicalHitSource::Skill(5),
        critical: false,
    };
    // 777 * 1000 * 0.73 / 2597 * 1.3 = 283.93...
    assert_eq!(run(plain(), &[event], HEALTHY).unwrap().total_damage(), 284);
}

#[test]
fn hit_rounds_half_up_once() {
    let might = SimulationEvent::SelfBuffApplication {
        time: 0,
        skill_id: skills::MIGHT,
        base_duration: 5000,
    };
    // power 1090: 545 * 1.3 = 708.5
    let result = run(plain(), &[might, might, might, hit(0, 5)], HEALTHY).unwrap();
    assert_eq!(result.total_damage(), 709);
}

#[test]
fn vulnerability_raises_hit_damage() {
    let vulnerability = SimulationEvent::TargetBuffApplication {
        time: 0,
        skill_id: skills::VULNERABILITY,
        base_duration: 5000,
    };
    // 500 * 1.02 * (1.3 + 0.01) = 668.1
    let result = run(plain(), &[vulnerability, vulnerability, hit(10, 5)], HEALTHY).unwrap();
    assert_eq!(result.total_damage(), 668);
    // the stacks are gone after their duration
    let result = run(plain(), &[vulnerability, vulnerability, hit(5000, 5)], HEALTHY).unwrap();
    assert_eq!(result.total_damage(), 650);
}

#[test]
fn hit_depends_on_health_left() {
    // the first hit takes the target below four fifths
    let result = run(plain(), &[hit(0, 5), hit(1, 6)], 1000).unwrap();
    assert_eq!(result.damage_of(5), 650);
    assert_eq!(result.damage_of(6), 525);
    assert_eq!(result.total_damage(), 1175);
    // a target without health is never healthy
    assert_eq!(run(plain(), &[hit(0, 5)], 0).unwrap().total_damage(), 525);
    // exactly four fifths left
    assert_eq!(run(plain(), &[hit(0, 5), hit(1, 6)], 3250).unwrap().damage_of(6), 650);
    assert_eq!(run(plain(), &[hit(0, 5), hit(1, 6)], 3249).unwrap().damage_of(6), 525);
}

#[test]
fn excluded_hit_leaves_no_trace() {
    let events = [hit(0, skills::RING_OF_EARTH), hit(1, 6)];
    let skills_table: Vec<EvtcSkill> = Vec::new();
    let with = sim(plain(), &events, &skills_table, 1000, false, false, false, false).unwrap();
    assert_eq!(with.damage_of(skills::RING_OF_EARTH), 650);
    assert_eq!(with.damage_of(6), 525);
    let without = sim(plain(), &events, &skills_table, 1000, false, true, false, false).unwrap();
    assert_eq!(without.damage_of(skills::RING_OF_EARTH), 0);
    assert!(!without.has_source(skills::RING_OF_EARTH));
    assert_eq!(without.damage_of(6), 650);
    assert_eq!(without.total_damage(), 650);
    let alone = sim(plain(), &events[1..], &skills_table, 1000, false, true, false, false).unwrap();
    assert_eq!(alone.total_damage(), without.total_damage());
    assert_eq!(alone.damage_of(6), without.damage_of(6));
    assert_eq!(alone.source_count(), without.source_count());
}

#[test]
fn weapon_swap_changes_weapon_bonus() {
    let swap = SimulationEvent::WeaponSwap { time: 0, weapon_set: WeaponSet::Land2 };
    let back = SimulationEvent::WeaponSwap { time: 2, weapon_set: WeaponSet::Land1 };
    let result = run(plain(), &[swap, hit(1, 5), back, hit(3, 6)], HEALTHY).unwrap();
    assert_eq!(result.damage_of(5), 675);
    assert_eq!(result.damage_of(6), 650);
}

#[test]
fn partial_tick_is_prorated() {
    // (22 + 0.06 * 1000) * 400 / 1000 = 32.8
    let result = run(plain(), &[bleed(0, 400), tick(1000)], HEALTHY).unwrap();
    assert_eq!(result.total_damage(), 33);
    assert_eq!(result.damage_of(skills::BLEEDING), 33);
    // the stack is gone after the tick
    let result = run(plain(), &[bleed(0, 400), tick(1000), tick(2000)], HEALTHY).unwrap();
    assert_eq!(result.total_damage(), 33);
}

#[test]
fn partial_tick_rounds_time_up_to_step() {
    // 410 is charged as 440: 82 * 0.44 = 36.08
    assert_eq!(run(plain(), &[bleed(0, 410), tick(1000)], HEALTHY).unwrap().total_damage(), 36);
    // 1 is charged as 40: 82 * 0.04 = 3.28
    assert_eq!(run(plain(), &[bleed(0, 1), tick(1000)], HEALTHY).unwrap().total_damage(), 3);
    // 961 is charged as a whole tick
    assert_eq!(run(plain(), &[bleed(0, 961), tick(1000)], HEALTHY).unwrap().total_damage(), 82);
    assert_eq!(run(plain(), &[bleed(0, 1000), tick(1000)], HEALTHY).unwrap().total_damage(), 82);
    // nothing left, nothing dealt, but the condition is a source
    let result = run(plain(), &[bleed(0, 0), tick(1000)], HEALTHY).unwrap();
    assert_eq!(result.total_damage(), 0);
    assert!(result.has_source(skills::BLEEDING));
}

#[test]
fn full_ticks_run_a_stack_down() {
    let events = [bleed(0, 2500), tick(1000), tick(2000), tick(3000), tick(4000)];
    // 82 + 82 + 82 * 0.52 = 42.64
    let result = run(plain(), &events, HEALTHY).unwrap();
    assert_eq!(result.total_damage(), 82 + 82 + 43);
    let result = run(plain(), &events[..2], HEALTHY).unwrap();
    assert_eq!(result.total_damage(), 82);
}

#[test]
fn every_stack_ticks() {
    let events = [bleed(0, 5000), bleed(0, 5000), bleed(0, 300), tick(1000)];
    // 82 + 82 + 82 * 0.32 = 26.24
    assert_eq!(run(plain(), &events, HEALTHY).unwrap().total_damage(), 190);
}

#[test]
fn each_condition_has_its_figures() {
    let apply = |condition| SimulationEvent::TargetConditionApplication {
        time: 0,
        condition,
        base_duration: 5000,
        source: ConditionApplicationSource::Unknown,
    };
    let events = [
        apply(DamagingCondition::Bleeding),
        apply(DamagingCondition::Burning),
        apply(DamagingCondition::Confusion),
        apply(DamagingCondition::Poisoned),
        apply(DamagingCondition::Torment),
        tick(1000),
    ];
    let result = run(plain(), &events, HEALTHY).unwrap();
    assert_eq!(result.damage_of(skills::BLEEDING), 82);
    assert_eq!(result.damage_of(skills::BURNING), 286);
    assert_eq!(result.damage_of(skills::CONFUSION), 10);
    // 33.5 + 60 = 93.5
    assert_eq!(result.damage_of(skills::POISONED), 94);
    // 31.8 + 90 = 121.8
    assert_eq!(result.damage_of(skills::TORMENT), 122);
    assert_eq!(result.total_damage(), 82 + 286 + 10 + 94 + 122);
    assert_eq!(result.source_count(), 5);

    let moving = [
        apply(DamagingCondition::Torment),
        SimulationEvent::ConditionTick { time: 1000, target_moving: true },
    ];
    assert_eq!(run(plain(), &moving, HEALTHY).unwrap().total_damage(), 82);
}

#[test]
fn tick_scales_with_might_fervor_vulnerability_and_bonuses() {
    let mut stats = plain();
    stats.extra_condition_damages.insert(skills::BLEEDING, 25);
    stats.set_1_sigils = [Sigil::Bursting, Sigil::Unused];
    let events = [
        SimulationEvent::SelfBuffApplication { time: 0, skill_id: skills::MIGHT, base_duration: 9000 },
        SimulationEvent::SelfBuffApplication {
            time: 0,
            skill_id: skills::KALLAS_FERVOR,
            base_duration: 9000,
        },
        SimulationEvent::TargetBuffApplication {
            time: 0,
            skill_id: skills::VULNERABILITY,
            base_duration: 9000,
        },
        bleed(0, 5000),
        tick(1000),
    ];
    // (22 + 0.06 * 1030) * 1.02 * 1.25 * 1.05 * 1.01 = 113.28...
    assert_eq!(run(stats, &events, HEALTHY).unwrap().total_damage(), 113);
}

#[test]
fn life_steal_formula() {
    let event = SimulationEvent::LifeStealHit {
        time: 0,
        base_damage: 2980,
        power_scaling: 100,
        source: LifeStealSource::Buff(skills::BATTLE_SCARS),
    };
    // 298 + 0.1 * 1000
    let result = run(plain(), &[event], HEALTHY).unwrap();
    assert_eq!(result.total_damage(), 398);
    assert_eq!(result.damage_of(skills::BATTLE_SCARS), 398);
    let mut stats = plain();
    stats.power = 2173;
    // 298 + 217.3
    assert_eq!(run(stats, &[event], HEALTHY).unwrap().total_damage(), 515);
}

#[test]
fn boon_duration_stretches_buffs() {
    let mut stats = plain();
    stats.concentration = 300;
    let might = SimulationEvent::SelfBuffApplication {
        time: 0,
        skill_id: skills::MIGHT,
        base_duration: 10_000,
    };
    // 10000 * 1.2 = 12000; power 1030: 515 * 1.3 = 669.5
    let result = run(stats, &[might, hit(11_999, 5), hit(12_000, 6)], HEALTHY).unwrap();
    assert_eq!(result.damage_of(5), 670);
    assert_eq!(result.damage_of(6), 650);
}

#[test]
fn generic_buff_keeps_base_duration() {
    let mut stats = plain();
    stats.concentration = 1500;
    stats.expertise = 1500;
    let critical = |time| SimulationEvent::PhysicalHit {
        time,
        base_damage: 1000,
        coefficient: 10_000,
        enemy_armor: 2000,
        source: PhysicalHitSource::Skill(time as u32),
        critical: true,
    };
    let fervor = SimulationEvent::SelfBuffApplication {
        time: 0,
        skill_id: skills::KALLAS_FERVOR,
        base_duration: 1000,
    };
    let result = run(stats, &[fervor, critical(999), critical(1000)], HEALTHY).unwrap();
    // 500 * (1.5 + 30/1500) * 1.3 = 988
    assert_eq!(result.damage_of(999), 988);
    assert_eq!(result.damage_of(1000), 975);
}

#[test]
fn condition_duration_is_rounded_to_nearest() {
    let mut stats = plain();
    stats.expertise = 1;
    // 400 * 1501 / 1500 = 400.27 -> 400, charged 400: 32.8
    assert_eq!(run(stats, &[bleed(0, 400), tick(1000)], HEALTHY).unwrap().total_damage(), 33);
    let mut stats = plain();
    stats.expertise = 2;
    // 400 * 1502 / 1500 = 400.53 -> 401, charged 440: 36.08
    assert_eq!(run(stats, &[bleed(0, 400), tick(1000)], HEALTHY).unwrap().total_damage(), 36);
}

#[test]
fn gated_bonus_holds_while_buff_is_applied() {
    let mut stats = plain();
    stats.extra_condition_durations_under_buff.insert(skills::BLEEDING, (skills::FURY, 25));
    let events = [
        SimulationEvent::SelfBuffApplication { time: 0, skill_id: skills::FURY, base_duration: 1000 },
        bleed(500, 1000),
        bleed(1500, 1000),
        tick(2000),
        tick(3000),
    ];
    // first stack lasts 1250, second 1000: 82 + 82, then 82 * 0.28 = 22.96
    let result = run(stats, &events, HEALTHY).unwrap();
    assert_eq!(result.total_damage(), 82 + 82 + 23);
}

#[test]
fn excluded_condition_sources_are_skipped() {
    let apply = |time, source| SimulationEvent::TargetConditionApplication {
        time,
        condition: DamagingCondition::Bleeding,
        base_duration: 5000,
        source,
    };
    let skills_table: Vec<EvtcSkill> = Vec::new();
    let doom = [apply(0, ConditionApplicationSource::Sigil(Sigil::Doom)), tick(1000)];
    assert_eq!(sim(plain(), &doom, &skills_table, HEALTHY, false, true, true, true).unwrap().total_damage(), 82);
    assert_eq!(sim(plain(), &doom, &skills_table, HEALTHY, true, false, false, false).unwrap().total_damage(), 0);
    let geomancy = [apply(0, ConditionApplicationSource::Skill(skills::RING_OF_EARTH)), tick(1000)];
    assert_eq!(sim(plain(), &geomancy, &skills_table, HEALTHY, true, false, true, true).unwrap().total_damage(), 82);
    assert_eq!(sim(plain(), &geomancy, &skills_table, HEALTHY, false, true, false, false).unwrap().total_damage(), 0);
    let other = [apply(0, ConditionApplicationSource::Skill(5)), tick(1000)];
    assert_eq!(sim(plain(), &other, &skills_table, HEALTHY, true, true, true, true).unwrap().total_damage(), 82);
    let unknown = [apply(0, ConditionApplicationSource::Unknown), tick(1000)];
    assert_eq!(sim(plain(), &unknown, &skills_table, HEALTHY, true, true, true, true).unwrap().total_damage(), 82);
    // earth is left out only for the weapon set in hand
    let earth = [
        apply(0, ConditionApplicationSource::Sigil(Sigil::Earth)),
        SimulationEvent::WeaponSwap { time: 1, weapon_set: WeaponSet::Land2 },
        apply(2, ConditionApplicationSource::Sigil(Sigil::Earth)),
        apply(3, ConditionApplicationSource::Sigil(Sigil::Earth)),
        tick(1000),
    ];
    assert_eq!(sim(plain(), &earth, &skills_table, HEALTHY, false, false, false, false).unwrap().total_damage(), 246);
    assert_eq!(sim(plain(), &earth, &skills_table, HEALTHY, false, false, true, false).unwrap().total_damage(), 164);
    assert_eq!(sim(plain(), &earth, &skills_table, HEALTHY, false, false, false, true).unwrap().total_damage(), 82);
    assert_eq!(sim(plain(), &earth, &skills_table, HEALTHY, false, false, true, true).unwrap().total_damage(), 0);
}

#[test]
fn replaying_twice_gives_the_same() {
    let events = [
        SimulationEvent::SelfBuffApplication { time: 0, skill_id: skills::MIGHT, base_duration: 9000 },
        bleed(0, 3300),
        hit(10, 5),
        SimulationEvent::TargetBuffApplication {
            time: 20,
            skill_id: skills::VULNERABILITY,
            base_duration: 9000,
        },
        tick(1000),
        hit(1500, 6),
        SimulationEvent::WeaponSwap { time: 1600, weapon_set: WeaponSet::Land2 },
        hit(1700, 5),
        tick(2000),
        tick(3000),
        tick(4000),
    ];
    let first = run(plain(), &events, 5000).unwrap();
    let second = run(plain(), &events, 5000).unwrap();
    assert_eq!(first.total_damage(), second.total_damage());
    assert_eq!(first.source_count(), second.source_count());
    for id in [5, 6, skills::BLEEDING] {
        assert_eq!(first.damage_of(id), second.damage_of(id));
    }
    assert_eq!(first.total_damage(), first.damage_of(5) + first.damage_of(6) + first.damage_of(skills::BLEEDING));
}

#[test]
fn replay_step_by_step_matches_whole_replay() {
    let events = [bleed(0, 1500), hit(10, 5), tick(1000), tick(2000)];
    let exclusions = Exclusions { doom: false, geomancy: false, earth_1: false, earth_2: false };
    let mut replay = Replay::new(plain());
    for event in &events {
        replay.apply(event, HEALTHY, exclusions).unwrap();
    }
    let whole = run(plain(), &events, HEALTHY).unwrap();
    assert_eq!(replay.damage.total_damage(), whole.total_damage());
    assert_eq!(replay.damage.total_damage(), 650 + 82 + 43);
    assert_eq!(replay.target_conditions.stacks(DamagingCondition::Bleeding).len(), 0);
}

#[test]
fn unknown_buff_stops_replay() {
    let event = SimulationEvent::SelfBuffApplication { time: 0, skill_id: 1, base_duration: 1000 };
    assert_eq!(run(plain(), &[event], HEALTHY).err(), Some(SimError::UnknownBuff));
    let event = SimulationEvent::TargetBuffApplication {
        time: 0,
        skill_id: skills::BLEEDING,
        base_duration: 1000,
    };
    assert_eq!(run(plain(), &[event], HEALTHY).err(), Some(SimError::UnknownBuff));
    // the buff that gates a bonus must have stacking rules too
    let mut stats = plain();
    stats.extra_condition_durations_under_buff.insert(skills::BLEEDING, (12345, 25));
    assert_eq!(run(stats, &[bleed(0, 1000)], HEALTHY).err(), Some(SimError::UnknownBuff));
}

#[test]
fn time_running_backwards_stops_replay() {
    let might = SimulationEvent::SelfBuffApplication {
        time: 100,
        skill_id: skills::MIGHT,
        base_duration: 1000,
    };
    assert_eq!(run(plain(), &[might, hit(50, 5)], HEALTHY).err(), Some(SimError::TimeReversed));
    assert_eq!(run(plain(), &[hit(50, 5), might], HEALTHY).err(), None);
    assert_eq!(run(plain(), &[tick(50), tick(49)], HEALTHY).err(), Some(SimError::TimeReversed));
    let earlier = SimulationEvent::SelfBuffApplication {
        time: 99,
        skill_id: skills::MIGHT,
        base_duration: 1000,
    };
    assert_eq!(run(plain(), &[might, earlier], HEALTHY).err(), Some(SimError::TimeReversed));
}

#[test]
fn unknown_source_stops_replay() {
    let strike = SimulationEvent::PhysicalHit {
        time: 0,
        base_damage: 1,
        coefficient: 1,
        enemy_armor: 1,
        source: PhysicalHitSource::Unknown,
        critical: false,
    };
    assert_eq!(run(plain(), &[strike], HEALTHY).err(), Some(SimError::UnknownSource));
    let steal = SimulationEvent::LifeStealHit {
        time: 0,
        base_damage: 1,
        power_scaling: 1,
        source: LifeStealSource::Unknown,
    };
    assert_eq!(run(plain(), &[steal], HEALTHY).err(), Some(SimError::UnknownSource));
}

#[test]
fn zero_armor_stops_replay() {
    let strike = SimulationEvent::PhysicalHit {
        time: 0,
        base_damage: 1,
        coefficient: 1,
        enemy_armor: 0,
        source: PhysicalHitSource::Skill(5),
        critical: false,
    };
    assert_eq!(run(plain(), &[strike], HEALTHY).err(), Some(SimError::ZeroArmor));
}

#[test]
fn damage_beyond_64_bits_stops_replay() {
    let mut stats = plain();
    stats.power = u32::MAX;
    let strike = SimulationEvent::PhysicalHit {
        time: 0,
        base_damage: u32::MAX,
        coefficient: u32::MAX,
        enemy_armor: 1,
        source: PhysicalHitSource::Skill(5),
        critical: false,
    };
    assert_eq!(run(stats, &[strike], HEALTHY).err(), Some(SimError::Overflow));
}

#[test]
fn events_have_their_time() {
    assert_eq!(hit(17, 5).time(), 17);
    assert_eq!(tick(-3).time(), -3);
    assert_eq!(bleed(99, 1).time(), 99);
    assert_eq!(SimulationEvent::WeaponSwap { time: 5, weapon_set: WeaponSet::Land1 }.time(), 5);
}
