use combat_resim::evtc::parsing::evtc_parser;
use combat_resim::evtc::EvtcCombatItem;
use combat_resim::explorer::{all_variants, explore, Runes, SigilChoice, Variant};
use combat_resim::extract::get_events;
use combat_resim::gamedata::SkillData;
use combat_resim::ids::skills;
use combat_resim::sim::sim;
use combat_resim::{
    ConditionApplicationSource, DamagingCondition, LogBuffUptimes, PhysicalHitSource, PlayerStats,
    Sigil, SimulationEvent, WeaponSet, WeaponType,
};
use std::collections::HashMap;

const PLAYER: u64 = 0x1000;
const TARGET: u64 = 0x2000;

fn build() -> PlayerStats {
    let mut durations = HashMap::new();
    for id in [
        skills::BLEEDING,
        skills::BURNING,
        skills::POISONED,
        skills::CONFUSION,
        skills::TORMENT,
    ] {
        durations.insert(id, 10);
    }
    let mut gated = HashMap::new();
    gated.insert(skills::BLEEDING, (skills::FURY, 25));
    let mut damages = HashMap::new();
    damages.insert(skills::TORMENT, 10);
    damages.insert(skills::BLEEDING, 25);
    PlayerStats {
        power: 2173,
        precision: 1633,
        ferocity: 0,
        condition_damage: 1672,
        expertise: 633,
        concentration: 0,
        set_1_sigils: [Sigil::Earth, Sigil::Geomancy],
        set_2_sigils: [Sigil::Earth, Sigil::Doom],
        extra_condition_durations_all: 20,
        extra_condition_durations: durations,
        extra_condition_durations_under_buff: gated,
        extra_condition_damages: damages,
        weapon_set: WeaponSet::Land1,
        weapon_set_types: [WeaponType::TwoHanded, WeaponType::DualWield],
    }
}

fn agent(address: u64, profession: u32, is_elite: u32, toughness: i16, name: &[u8]) -> Vec<u8> {
    let mut bytes = Vec::new();
    bytes.extend_from_slice(&address.to_le_bytes());
    bytes.extend_from_slice(&profession.to_le_bytes());
    bytes.extend_from_slice(&is_elite.to_le_bytes());
    bytes.extend_from_slice(&toughness.to_le_bytes());
    bytes.extend_from_slice(&[0; 10]);
    let mut padded = name.to_vec();
    padded.resize(68, 0);
    bytes.extend_from_slice(&padded);
    bytes
}

fn record(item: &EvtcCombatItem) -> Vec<u8> {
    let mut bytes = Vec::new();
    bytes.extend_from_slice(&item.time.to_le_bytes());
    bytes.extend_from_slice(&item.src_agent.to_le_bytes());
    bytes.extend_from_slice(&item.dst_agent.to_le_bytes());
    bytes.extend_from_slice(&item.value.to_le_bytes());
    bytes.extend_from_slice(&item.buff_dmg.to_le_bytes());
    bytes.extend_from_slice(&item.overstack_value.to_le_bytes());
    bytes.extend_from_slice(&item.skill_id.to_le_bytes());
    bytes.extend_from_slice(&item.src_inst_id.to_le_bytes());
    bytes.extend_from_slice(&item.dst_inst_id.to_le_bytes());
    bytes.extend_from_slice(&item.src_master_inst_id.to_le_bytes());
    bytes.extend_from_slice(&item.dst_master_inst_id.to_le_bytes());
    bytes.extend_from_slice(&[
        item.iff,
        item.is_buff,
        item.result,
        item.is_activation,
        item.is_buff_remove,
        item.is_ninety,
        item.is_fifty,
        item.is_moving,
        item.is_state_change,
        item.is_flanking,
        item.is_shields,
        item.is_offcycle,
    ]);
    bytes.extend_from_slice(&item.padding.to_le_bytes());
    bytes
}

fn blank(time: i64) -> EvtcCombatItem {
    EvtcCombatItem {
        time,
        src_agent: PLAYER,
        dst_agent: TARGET,
        value: 0,
        buff_dmg: 0,
        overstack_value: 0,
        skill_id: 0,
        src_inst_id: 7,
        dst_inst_id: 8,
        src_master_inst_id: 0,
        dst_master_inst_id: 0,
        iff: 0,
        is_buff: 0,
        result: 0,
        is_activation: 0,
        is_buff_remove: 0,
        is_ninety: 0,
        is_fifty: 0,
        is_moving: 0,
        is_state_change: 0,
        is_flanking: 0,
        is_shields: 0,
        is_offcycle: 0,
        padding: 0,
    }
}

fn log_bytes() -> Vec<u8> {
    let mut bytes = b"EVTC20210408".to_vec();
    bytes.push(1);
    bytes.extend_from_slice(&15438u16.to_le_bytes());
    bytes.push(0);
    bytes.extend_from_slice(&3i32.to_le_bytes());
    bytes.extend_from_slice(&agent(0x3000, 15438, 27, 0, b"Someone Else\0:other.5678\0"));
    bytes.extend_from_slice(&agent(PLAYER, 9, 63, 0, b"Name The Unnameable\0:account.1234\0"));
    bytes.extend_from_slice(&agent(TARGET, 15438, 0xffff_ffff, 950, b"Standard Kitty Golem"));
    bytes.extend_from_slice(&0i32.to_le_bytes());
    let records = [
        // out of order: the tick comes first in the bytes
        EvtcCombatItem { skill_id: skills::BLEEDING, is_buff: 1, buff_dmg: 190, ..blank(1000) },
        EvtcCombatItem {
            skill_id: skills::MIGHT,
            is_buff: 1,
            value: 10_000,
            dst_agent: PLAYER,
            ..blank(0)
        },
        // 6000 * 1.722 = 10332: the sigil of earth
        EvtcCombatItem { skill_id: skills::BLEEDING, is_buff: 1, value: 10_332, ..blank(10) },
        // 1412 * 2173 / (2203 * 0.73 * 1.3) = 1467.63
        EvtcCombatItem { skill_id: 12_345, value: 1412, ..blank(20) },
        EvtcCombatItem { is_state_change: 11, dst_agent: 5, ..blank(30) },
    ];
    for item in &records {
        bytes.extend_from_slice(&record(item));
    }
    bytes
}

#[test]
fn from_bytes_to_damage() {
    let log = evtc_parser(&log_bytes()).unwrap();
    let player = &log.agents[log.find_player("Name The Unnameable").unwrap()];
    let target = &log.agents[log.find_target().unwrap()];
    assert_eq!(player.address, PLAYER);
    assert_eq!(target.address, TARGET);

    let table = SkillData::from_text(b"12345 0.73\n").unwrap();
    let classification =
        get_events(&log, player, target, &build(), LogBuffUptimes::new(), &table).unwrap();
    assert_eq!(classification.warnings, vec![]);
    assert_eq!(
        classification.events,
        vec![
            SimulationEvent::SelfBuffApplication { time: 0, skill_id: skills::MIGHT, base_duration: 10_000 },
            SimulationEvent::TargetConditionApplication {
                time: 10,
                condition: DamagingCondition::Bleeding,
                base_duration: 6000,
                source: ConditionApplicationSource::Sigil(Sigil::Earth),
            },
            SimulationEvent::PhysicalHit {
                time: 20,
                base_damage: 1467,
                coefficient: 7300,
                enemy_armor: 2173,
                source: PhysicalHitSource::Skill(12_345),
                critical: false,
            },
            SimulationEvent::WeaponSwap { time: 30, weapon_set: WeaponSet::Land2 },
            SimulationEvent::ConditionTick { time: 1000, target_moving: false },
        ]
    );

    // the build of the log gives back what the log reports, but for rounding
    let replayed =
        sim(build(), &classification.events, &log.skills, 1_000_000, false, false, false, false).unwrap();
    // 1467 * 2203 * 0.73 / 2173 * 1.3 = 1411.39
    assert_eq!(replayed.damage_of(12_345), 1411);
    // (22 + 0.06 * 1702) * 1.25 = 155.15
    assert_eq!(replayed.damage_of(skills::BLEEDING), 155);
    assert_eq!(replayed.total_damage(), 1566);

    let variants = vec![
        Variant {
            chestplate_sinister: false,
            expertise_infusions: 0,
            runes: Runes::Nightmare,
            sigil_11: SigilChoice::Keep,
            sigil_12: SigilChoice::Keep,
            sigil_21: SigilChoice::Keep,
            sigil_22: SigilChoice::Keep,
        },
        Variant {
            chestplate_sinister: true,
            expertise_infusions: 18,
            runes: Runes::TrapperWithBlackDiamond,
            sigil_11: SigilChoice::Malice,
            sigil_12: SigilChoice::Keep,
            sigil_21: SigilChoice::Keep,
            sigil_22: SigilChoice::Bursting,
        },
    ];
    let candidates = explore(&build(), &variants, &classification.events, &log.skills, 1_000_000).unwrap();
    assert_eq!(candidates[0].damage.total_damage(), replayed.total_damage());
    // power 2173 + 34 + 17 + 30: 1467 * 2254 * 0.73 / 2173 * 1.3 = 1444.07; earth is gone from the first set
    assert_eq!(candidates[1].damage.damage_of(12_345), 1444);
    assert_eq!(candidates[1].damage.total_damage(), 1444);
    assert!(all_variants().contains(&variants[1]));
}
