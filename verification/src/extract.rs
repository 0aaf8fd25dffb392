//! The classification of raw combat records into the events of a fight.
//!
//! The records are read in the order of their time. What a record stands for
//! follows from its flags. A duration that the log reports already holds the
//! duration bonus that was in force, and is taken back to its base. Where a
//! condition may have come from a piece of gear, the records within a few
//! time units of it decide.

use crate::damage::{lemma_round_div, round_div, rounded_quotient};
use crate::events::{
    is_damaging_condition, is_tracked_condition, ConditionApplicationSource, DamagingCondition,
    LifeStealSource, PhysicalHitSource, Sigil, SimulationEvent, WeaponSet,
};
use crate::evtc::{EvtcAgent, EvtcCombatItem, EvtcLog};
use crate::gamedata::{
    get_skill_type, skill_type_of, stack_limit_of, SkillData, SkillType, BASE_ENEMY_ARMOR,
    BATTLE_SCARS_DAMAGE, BATTLE_SCARS_MULTIPLIER, SEARING_FISSURE_ADDITIONAL_STRIKE_BURNING_DURATION,
    SEARING_FISSURE_ADDITIONAL_STRIKE_MULTIPLIER, SEARING_FISSURE_FIRST_STRIKE_BURNING_DURATION,
    SEARING_FISSURE_FIRST_STRIKE_MULTIPLIER,
};
use crate::ids::skills;
use crate::stats::{vulnerability_factor, BuildView, PlayerStats, DURATION_SCALE};
use crate::uptimes::{counted, BuffUptimes, LogBuffUptimes};
use itertools::Itertools;
use vstd::arithmetic::div_mod::lemma_multiply_divide_lt;
use vstd::prelude::*;

verus! {

/// Why a classification stopped.
#[derive(PartialEq, Eq, Structural, Clone, Copy, Debug)]
pub enum ClassifyError {
    /// No record that is not a state change has the player as its source.
    PlayerNotInLog,
    /// The first weapon set holds a sigil whose effects cannot be told from
    /// the log.
    UnsupportedSigil,
    /// A tracked effect was extended rather than applied.
    BoonExtension,
    /// A removal has a code other than the three that are known.
    InvalidRemoval,
    /// One stack was removed of a buff that the log had reported none of.
    RemovedAbsentStack,
    /// A strike came from a minion of the player.
    MinionDamage,
    /// A strike between the player and the target was glanced, blocked,
    /// evaded, interrupted, absorbed or missed.
    MitigatedHit,
    /// The table of coefficients has none for the skill of a strike.
    MissingCoefficient,
    /// The log reports more stacks of a buff than its limit allows.
    StackLimitExceeded,
    /// A buff other than the known life steal dealt damage out of cycle.
    UnknownBuffDamage,
    /// A buff that is no damaging condition dealt damage.
    NotACondition,
    /// A figure does not fit the machine's integers, or the toughness of the
    /// target is below zero.
    Overflow,
}

/// What a classification was unsure of.
#[derive(PartialEq, Eq, Structural, Clone, Copy, Debug)]
pub enum ClassifyWarning {
    /// More bleeding stacks than the rune of geomancy applies came with its
    /// strike; all were attributed to it.
    AmbiguousGeomancy { time: i64, candidates: usize },
    /// More poison stacks than the sigil of doom applies came with the removal
    /// of its marker; all were attributed to it.
    AmbiguousDoom { time: i64, candidates: usize },
    /// The burning that came with a strike of Searing Fissure fits neither a
    /// first strike nor a later one; `guessed_first` says which was taken.
    UnsureSearingFissure { time: i64, first: usize, additional: usize, guessed_first: bool },
}

/// The two agents of the fight, as the records name them.
#[derive(PartialEq, Eq, Structural, Clone, Copy, Debug)]
pub struct Parties {
    pub player: u64,
    pub target: u64,
    pub target_toughness: i16,
    pub player_inst_id: u16,
}

/// The span of time, to either side of a record, within which other records
/// count as having come with it.
pub const SAME_TIME_DELTA: i64 = 5;

/// The health that a state change reports as full, in hundredths of a
/// percent.
pub const FULL_HEALTH: u64 = 10_000;

/// The number of stacks by which the rune of geomancy and the sigil of doom
/// are known.
pub const PROC_STACKS: usize = 3;

/// The base duration of the bleeding of the rune of geomancy and of the
/// poison of the sigil of doom.
pub const GEOMANCY_AND_DOOM_DURATION: u32 = 8000;

/// The base duration of the bleeding of the sigil of earth.
pub const EARTH_DURATION: u32 = 6000;

/// What a reported duration is taken back to: a reading that ends in 99 is
/// one short of the round figure it stands for.
pub open spec fn corrected(duration: u32) -> u32 {
    if duration % 100 == 99 {
        (duration + 1) as u32
    } else {
        duration
    }
}

/// The base duration behind `observed`, which was reported under a duration
/// multiplier of `units` in 1/1500: the observed duration divided by the
/// multiplier, rounded to the nearest time unit, and corrected.
pub open spec fn recovered_duration(observed: u32, units: int) -> u32 {
    corrected(round_div(observed * DURATION_SCALE, units) as u32)
}

/// Whether the buff that gates a bonus to the duration of `skill_id` is on
/// the player, as far as the log has reported.
pub open spec fn gate_applied(stats: BuildView, player_buffs: Map<u32, u32>, skill_id: u32) -> bool {
    match stats.spec_gating_buff(skill_id) {
        Some(buff) => counted(player_buffs, buff) > 0,
        None => false,
    }
}

/// The duration multiplier, in 1/1500, under which a duration of `skill_id`
/// was reported: that of conditions for a condition, that of boons for a
/// boon, and one for anything else.
pub open spec fn duration_units(stats: BuildView, player_buffs: Map<u32, u32>, skill_id: u32) -> int {
    match skill_type_of(skill_id) {
        SkillType::Condition => stats.condition_duration_units(
            skill_id,
            gate_applied(stats, player_buffs, skill_id),
        ),
        SkillType::Boon => stats.boon_duration_units(),
        _ => DURATION_SCALE as int,
    }
}

/// The base duration behind a reported duration of `skill_id`.
pub open spec fn base_duration_of(
    stats: BuildView,
    player_buffs: Map<u32, u32>,
    skill_id: u32,
    duration: u32,
) -> u32 {
    recovered_duration(duration, duration_units(stats, player_buffs, skill_id))
}

/// The first position of the run of records that ends before `k` and whose
/// times are all at least `earliest`.
pub open spec fn window_start(items: Seq<EvtcCombatItem>, earliest: int, k: int) -> int
    decreases k,
{
    if 0 < k <= items.len() && items[k - 1].time >= earliest {
        window_start(items, earliest, k - 1)
    } else {
        k
    }
}

/// The position behind the run of records that starts at `k` and whose times
/// are all at most `latest`.
pub open spec fn window_end(items: Seq<EvtcCombatItem>, latest: int, k: int) -> int
    decreases items.len() - k,
{
    if 0 <= k < items.len() && items[k].time <= latest {
        window_end(items, latest, k + 1)
    } else {
        k
    }
}

/// What is looked for among the records that came with another.
#[derive(PartialEq, Eq, Structural, Clone, Copy, Debug)]
pub enum Evidence {
    /// A strike of `skill_id`.
    HitOf { skill_id: u32 },
    /// A removal of the buff `skill_id`.
    RemovalOf { skill_id: u32 },
    /// An application of `skill_id` with a reported duration of `duration`.
    ApplicationOf { skill_id: u32, duration: u32 },
    /// An application of burning by `player` whose base duration, under a
    /// multiplier of `units`, is within five time units of `base_duration`.
    BurningOf { player: u64, units: u32, base_duration: u32 },
}

impl Evidence {
    /// A duration multiplier is at least one and at most a doubling.
    pub open spec fn wf(self) -> bool {
        match self {
            Evidence::BurningOf { units, .. } => 1500 <= units <= 3000,
            _ => true,
        }
    }

    /// Whether the record `e` is what is looked for.
    pub open spec fn found_in(self, e: EvtcCombatItem) -> bool {
        match self {
            Evidence::HitOf { skill_id } => e.spec_is_physical_hit() && e.skill_id == skill_id,
            Evidence::RemovalOf { skill_id } => e.spec_is_buff_remove() && e.skill_id == skill_id,
            Evidence::ApplicationOf { skill_id, duration } => e.spec_is_buff_apply() && e.skill_id
                == skill_id && reported_duration(e) == duration,
            Evidence::BurningOf { player, units, base_duration } => e.spec_is_buff_apply()
                && e.src_agent == player && e.skill_id == skills::BURNING && -5
                < recovered_duration(reported_duration(e), units as int) - base_duration < 5,
        }
    }
}

/// The duration that an application reports: its value, read as an unsigned
/// number.
pub open spec fn reported_duration(e: EvtcCombatItem) -> u32 {
    if e.value >= 0 {
        e.value as u32
    } else {
        (e.value + 0x1_0000_0000) as u32
    }
}

/// The number of records from `lo` up to `hi` that are the evidence looked
/// for.
pub open spec fn count_in(items: Seq<EvtcCombatItem>, lo: int, hi: int, evidence: Evidence) -> nat
    decreases hi - lo,
{
    if hi <= lo {
        0
    } else {
        count_in(items, lo, hi - 1, evidence) + if evidence.found_in(items[hi - 1]) {
            1nat
        } else {
            0nat
        }
    }
}

/// The number of records that came with record `i` and are the evidence
/// looked for: the record itself counts, and so does every record of the
/// unbroken run around it whose time is within [`SAME_TIME_DELTA`] of its
/// own.
pub open spec fn count_around(items: Seq<EvtcCombatItem>, i: int, evidence: Evidence) -> nat {
    count_in(
        items,
        window_start(items, items[i].time - SAME_TIME_DELTA, i),
        window_end(items, items[i].time + SAME_TIME_DELTA, i + 1),
        evidence,
    )
}

/// Whether `skill_id` is one of the buffs on the player that are tracked.
pub open spec fn is_player_buff(skill_id: u32) -> bool {
    skill_id == skills::FURY || skill_id == skills::MIGHT || skill_id == skills::KALLAS_FERVOR
}

/// What the classification has gathered so far: the stacks that the log has
/// reported on the player and on the target, the health of the target in
/// hundredths of a percent, the time of the last damage by a condition, and
/// the events and warnings.
pub struct ScanState {
    pub player_buffs: Map<u32, u32>,
    pub target_buffs: Map<u32, u32>,
    pub target_health: u64,
    pub last_condition_tick: i64,
    pub events: Seq<SimulationEvent>,
    pub warnings: Seq<ClassifyWarning>,
}

/// The source of a condition that the player applied to the target with
/// record `i`, whose base duration is `base_duration`, and the warning that
/// goes with it.
///
/// Bleeding of the base duration of the rune of geomancy is the rune's if its
/// strike came with it and at least as many bleeding stacks of that reported
/// duration as the rune applies; more than that draws a warning. Poison is
/// the sigil of doom's in the same way, by the removal of the sigil's marker.
/// Bleeding of the base duration of the sigil of earth is the sigil's.
/// Anything else has no known source.
pub open spec fn condition_source(
    items: Seq<EvtcCombatItem>,
    i: int,
    base_duration: u32,
) -> (ConditionApplicationSource, Option<ClassifyWarning>) {
    let skill_id = items[i].skill_id;
    let duration = reported_duration(items[i]);
    let candidates = count_around(items, i, Evidence::ApplicationOf { skill_id, duration });
    if skill_id == skills::BLEEDING && base_duration == GEOMANCY_AND_DOOM_DURATION {
        if count_around(items, i, Evidence::HitOf { skill_id: skills::RING_OF_EARTH }) > 0 && candidates
            >= PROC_STACKS {
            (
                ConditionApplicationSource::Skill(skills::RING_OF_EARTH),
                if candidates > PROC_STACKS {
                    Some(
                        ClassifyWarning::AmbiguousGeomancy {
                            time: items[i].time,
                            candidates: candidates as usize,
                        },
                    )
                } else {
                    None
                },
            )
        } else {
            (ConditionApplicationSource::Unknown, None)
        }
    } else if skill_id == skills::POISONED && base_duration == GEOMANCY_AND_DOOM_DURATION {
        if count_around(items, i, Evidence::RemovalOf { skill_id: skills::DOOM }) > 0 && candidates >= PROC_STACKS {
            (
                ConditionApplicationSource::Sigil(Sigil::Doom),
                if candidates > PROC_STACKS {
                    Some(
                        ClassifyWarning::AmbiguousDoom {
                            time: items[i].time,
                            candidates: candidates as usize,
                        },
                    )
                } else {
                    None
                },
            )
        } else {
            (ConditionApplicationSource::Unknown, None)
        }
    } else if skill_id == skills::BLEEDING && base_duration == EARTH_DURATION {
        (ConditionApplicationSource::Sigil(Sigil::Earth), None)
    } else {
        (ConditionApplicationSource::Unknown, None)
    }
}

/// The coefficient of a strike of Searing Fissure at record `i`, and the
/// warning that goes with it. `first` and `additional` are the numbers of
/// burning stacks that came with it and fit its first strike and its later
/// strikes. Three of the first kind alone make a first strike, one of the
/// second kind alone a later one. Anything else draws a warning, and is
/// taken for a first strike where at least three fit one.
pub open spec fn searing_fissure_strike(time: i64, first: usize, additional: usize) -> (
    u32,
    Option<ClassifyWarning>,
) {
    if first == 3 && additional == 0 {
        (SEARING_FISSURE_FIRST_STRIKE_MULTIPLIER, None)
    } else if first == 0 && additional == 1 {
        (SEARING_FISSURE_ADDITIONAL_STRIKE_MULTIPLIER, None)
    } else if first >= 3 {
        (
            SEARING_FISSURE_FIRST_STRIKE_MULTIPLIER,
            Some(
                ClassifyWarning::UnsureSearingFissure {
                    time,
                    first,
                    additional,
                    guessed_first: true,
                },
            ),
        )
    } else {
        (
            SEARING_FISSURE_ADDITIONAL_STRIKE_MULTIPLIER,
            Some(
                ClassifyWarning::UnsureSearingFissure {
                    time,
                    first,
                    additional,
                    guessed_first: false,
                },
            ),
        )
    }
}

/// `warnings` with `warning`, if there is one.
pub open spec fn with_warning(
    warnings: Seq<ClassifyWarning>,
    warning: Option<ClassifyWarning>,
) -> Seq<ClassifyWarning> {
    match warning {
        Some(w) => warnings.push(w),
        None => warnings,
    }
}

/// The base damage behind a strike that the log reports with `damage`: the
/// damage taken back through the armor, the power, the coefficient and the
/// multipliers that were in force, rounded down. It is zero for a damage
/// below zero, and the greatest 32-bit number where it would be greater or
/// where the strike had no power or no coefficient.
pub open spec fn recovered_base_damage(
    damage: i32,
    enemy_armor: u32,
    power: int,
    coefficient: u32,
    critical_factor: int,
    vulnerability: u32,
    power_damage_factor: int,
) -> u32 {
    let numerator = damage * enemy_armor * 1_500_000_000_000;
    let denominator = power * coefficient * (critical_factor * vulnerability_factor(vulnerability)
        * power_damage_factor);
    if damage <= 0 {
        0
    } else if denominator == 0 || numerator / denominator > u32::MAX {
        u32::MAX
    } else {
        (numerator / denominator) as u32
    }
}

/// The counts of a tracker of the log after a removal with code `code` of
/// `skill_id`: the first code removes all stacks, the second one stack, and
/// the third repeats what a removal of all has already said.
pub open spec fn after_removal_code(m: Map<u32, u32>, skill_id: u32, code: u8) -> Result<
    Map<u32, u32>,
    ClassifyError,
> {
    if code == 1 {
        Ok(m.insert(skill_id, 0))
    } else if code == 2 {
        if counted(m, skill_id) == 0 {
            Err(ClassifyError::RemovedAbsentStack)
        } else {
            Ok(m.insert(skill_id, (counted(m, skill_id) - 1) as u32))
        }
    } else if code == 3 {
        Ok(m)
    } else {
        Err(ClassifyError::InvalidRemoval)
    }
}

/// The armor of a target of `toughness`.
pub open spec fn armor_of(toughness: i16) -> Result<u32, ClassifyError> {
    if toughness < 0 {
        Err(ClassifyError::Overflow)
    } else {
        Ok((toughness + BASE_ENEMY_ARMOR) as u32)
    }
}

/// The state after record `i`, which applies a buff or announces one that
/// was there when the log began.
pub open spec fn after_application(
    parties: Parties,
    stats: BuildView,
    s: ScanState,
    items: Seq<EvtcCombatItem>,
    i: int,
) -> Result<ScanState, ClassifyError> {
    let e = items[i];
    let base_duration = base_duration_of(stats, s.player_buffs, e.skill_id, reported_duration(e));
    if is_player_buff(e.skill_id) {
        if e.src_agent == parties.player && e.dst_agent == parties.player {
            if e.is_offcycle != 0 {
                Err(ClassifyError::BoonExtension)
            } else if counted(s.player_buffs, e.skill_id) == u32::MAX {
                Err(ClassifyError::Overflow)
            } else {
                Ok(
                    ScanState {
                        player_buffs: s.player_buffs.insert(
                            e.skill_id,
                            (counted(s.player_buffs, e.skill_id) + 1) as u32,
                        ),
                        events: s.events.push(
                            SimulationEvent::SelfBuffApplication {
                                time: e.time,
                                skill_id: e.skill_id,
                                base_duration,
                            },
                        ),
                        ..s
                    },
                )
            }
        } else {
            Ok(s)
        }
    } else if is_damaging_condition(e.skill_id) {
        if e.is_offcycle != 0 {
            Err(ClassifyError::BoonExtension)
        } else if e.src_agent == parties.player && e.dst_agent == parties.target {
            Ok(
                ScanState {
                    events: s.events.push(
                        SimulationEvent::TargetConditionApplication {
                            time: e.time,
                            condition: DamagingCondition::spec_from_id(e.skill_id),
                            base_duration,
                            source: condition_source(items, i, base_duration).0,
                        },
                    ),
                    warnings: with_warning(
                        s.warnings,
                        condition_source(items, i, base_duration).1,
                    ),
                    ..s
                },
            )
        } else {
            Ok(s)
        }
    } else if e.skill_id == skills::VULNERABILITY && e.src_agent == parties.player && e.dst_agent
        == parties.target {
        if e.is_offcycle != 0 {
            Err(ClassifyError::BoonExtension)
        } else if counted(s.target_buffs, e.skill_id) == u32::MAX {
            Err(ClassifyError::Overflow)
        } else {
            Ok(
                ScanState {
                    target_buffs: s.target_buffs.insert(
                        e.skill_id,
                        (counted(s.target_buffs, e.skill_id) + 1) as u32,
                    ),
                    events: s.events.push(
                        SimulationEvent::TargetBuffApplication {
                            time: e.time,
                            skill_id: e.skill_id,
                            base_duration,
                        },
                    ),
                    ..s
                },
            )
        }
    } else {
        Ok(s)
    }
}

/// The state after a record that removes a buff.
pub open spec fn after_removal(parties: Parties, s: ScanState, e: EvtcCombatItem) -> Result<
    ScanState,
    ClassifyError,
> {
    if is_player_buff(e.skill_id) && e.src_agent == parties.player {
        match after_removal_code(s.player_buffs, e.skill_id, e.is_buff_remove) {
            Err(err) => Err(err),
            Ok(player_buffs) => Ok(ScanState { player_buffs, ..s }),
        }
    } else if e.skill_id == skills::VULNERABILITY && e.src_agent == parties.target {
        match after_removal_code(s.target_buffs, e.skill_id, e.is_buff_remove) {
            Err(err) => Err(err),
            Ok(target_buffs) => Ok(ScanState { target_buffs, ..s }),
        }
    } else {
        Ok(s)
    }
}

/// The coefficient of the strike at record `i`, and the warning that goes
/// with it.
pub open spec fn strike_coefficient(
    parties: Parties,
    stats: BuildView,
    coefficients: Map<u32, u32>,
    s: ScanState,
    items: Seq<EvtcCombatItem>,
    i: int,
) -> Result<(u32, Option<ClassifyWarning>), ClassifyError> {
    let e = items[i];
    if e.skill_id == skills::SEARING_FISSURE {
        let units = duration_units(stats, s.player_buffs, skills::BURNING) as u32;
        Ok(
            searing_fissure_strike(
                e.time,
                count_around(
                    items,
                    i,
                    Evidence::BurningOf {
                        player: parties.player,
                        units,
                        base_duration: SEARING_FISSURE_FIRST_STRIKE_BURNING_DURATION,
                    },
                ) as usize,
                count_around(
                    items,
                    i,
                    Evidence::BurningOf {
                        player: parties.player,
                        units,
                        base_duration: SEARING_FISSURE_ADDITIONAL_STRIKE_BURNING_DURATION,
                    },
                ) as usize,
            ),
        )
    } else if coefficients.contains_key(e.skill_id) {
        Ok((coefficients[e.skill_id], None))
    } else {
        Err(ClassifyError::MissingCoefficient)
    }
}

/// The state after record `i`, which is a strike. A strike that killed or
/// downed its target or hit a defiance bar is passed over, and so is one
/// that is not the player's on the target.
pub open spec fn after_strike(
    parties: Parties,
    stats: BuildView,
    coefficients: Map<u32, u32>,
    s: ScanState,
    items: Seq<EvtcCombatItem>,
    i: int,
) -> Result<ScanState, ClassifyError> {
    let e = items[i];
    let critical = e.result == 1;
    let might = counted(s.player_buffs, skills::MIGHT);
    let kallas_fervor = counted(s.player_buffs, skills::KALLAS_FERVOR);
    let vulnerability = counted(s.target_buffs, skills::VULNERABILITY);
    if e.result == 8 || e.result == 9 || e.result == 10 {
        Ok(s)
    } else if e.src_master_inst_id == parties.player_inst_id {
        Err(ClassifyError::MinionDamage)
    } else if e.src_agent != parties.player || e.dst_agent != parties.target {
        Ok(s)
    } else if 2 <= e.result <= 7 {
        Err(ClassifyError::MitigatedHit)
    } else {
        match strike_coefficient(parties, stats, coefficients, s, items, i) {
            Err(err) => Err(err),
            Ok((coefficient, warning)) => match armor_of(parties.target_toughness) {
                Err(err) => Err(err),
                Ok(enemy_armor) => if might > stack_limit_of(skills::MIGHT) || (critical
                    && kallas_fervor > stack_limit_of(skills::KALLAS_FERVOR)) || vulnerability
                    > stack_limit_of(skills::VULNERABILITY) {
                    Err(ClassifyError::StackLimitExceeded)
                } else {
                    Ok(
                        ScanState {
                            events: s.events.push(
                                SimulationEvent::PhysicalHit {
                                    time: e.time,
                                    base_damage: recovered_base_damage(
                                        e.value,
                                        enemy_armor,
                                        stats.effective_power(might),
                                        coefficient,
                                        if critical {
                                            stats.critical_factor(kallas_fervor)
                                        } else {
                                            DURATION_SCALE as int
                                        },
                                        vulnerability,
                                        stats.power_damage_factor(
                                            vulnerability,
                                            s.target_health,
                                            FULL_HEALTH,
                                        ),
                                    ),
                                    coefficient,
                                    enemy_armor,
                                    source: PhysicalHitSource::Skill(e.skill_id),
                                    critical,
                                },
                            ),
                            warnings: with_warning(s.warnings, warning),
                            ..s
                        },
                    )
                },
            },
        }
    }
}

/// The state after a record of damage by a buff. Damage that did not land or
/// is not the player's is passed over. Damage out of cycle is the known life
/// steal. Damage in cycle is that of a condition, and the first of a batch
/// makes a tick: one that comes more than [`SAME_TIME_DELTA`] after the last
/// damage by a condition.
pub open spec fn after_buff_damage(parties: Parties, s: ScanState, e: EvtcCombatItem) -> Result<
    ScanState,
    ClassifyError,
> {
    if e.result != 0 || e.src_agent != parties.player {
        Ok(s)
    } else if e.is_offcycle > 0 {
        if e.skill_id != skills::BATTLE_SCARS {
            Err(ClassifyError::UnknownBuffDamage)
        } else {
            Ok(
                ScanState {
                    events: s.events.push(
                        SimulationEvent::LifeStealHit {
                            time: e.time,
                            base_damage: BATTLE_SCARS_DAMAGE,
                            power_scaling: BATTLE_SCARS_MULTIPLIER,
                            source: LifeStealSource::Buff(skills::BATTLE_SCARS),
                        },
                    ),
                    ..s
                },
            )
        }
    } else if !is_damaging_condition(e.skill_id) {
        Err(ClassifyError::NotACondition)
    } else {
        Ok(
            ScanState {
                last_condition_tick: e.time,
                events: if e.time - s.last_condition_tick > SAME_TIME_DELTA {
                    s.events.push(
                        SimulationEvent::ConditionTick { time: e.time, target_moving: false },
                    )
                } else {
                    s.events
                },
                ..s
            },
        )
    }
}

/// The state after a record of a weapon swap: the player's swap to the
/// first or the second set on land makes an event.
pub open spec fn after_weapon_swap(parties: Parties, s: ScanState, e: EvtcCombatItem) -> ScanState {
    if e.src_agent == parties.player && e.dst_agent == 4 {
        ScanState {
            events: s.events.push(
                SimulationEvent::WeaponSwap { time: e.time, weapon_set: WeaponSet::Land1 },
            ),
            ..s
        }
    } else if e.src_agent == parties.player && e.dst_agent == 5 {
        ScanState {
            events: s.events.push(
                SimulationEvent::WeaponSwap { time: e.time, weapon_set: WeaponSet::Land2 },
            ),
            ..s
        }
    } else {
        s
    }
}

/// The state after record `i`.
#[verifier::opaque]
pub open spec fn after_item(
    parties: Parties,
    stats: BuildView,
    coefficients: Map<u32, u32>,
    s: ScanState,
    items: Seq<EvtcCombatItem>,
    i: int,
) -> Result<ScanState, ClassifyError> {
    let e = items[i];
    if e.is_state_change == 8 && e.src_agent == parties.target {
        Ok(ScanState { target_health: e.dst_agent, ..s })
    } else if (e.is_state_change == 18 && e.is_buff == 18) || e.spec_is_buff_apply() {
        after_application(parties, stats, s, items, i)
    } else if e.is_state_change == 11 {
        Ok(after_weapon_swap(parties, s, e))
    } else if e.spec_is_buff_remove() {
        after_removal(parties, s, e)
    } else if e.spec_is_physical_hit() {
        after_strike(parties, stats, coefficients, s, items, i)
    } else if e.spec_is_buff_damage() {
        after_buff_damage(parties, s, e)
    } else {
        Ok(s)
    }
}

/// The state after the records from `k` on, read one by one in their order;
/// the first record that fails stops the classification.
pub open spec fn after_items(
    parties: Parties,
    stats: BuildView,
    coefficients: Map<u32, u32>,
    s: ScanState,
    items: Seq<EvtcCombatItem>,
    k: int,
) -> Result<ScanState, ClassifyError>
    decreases items.len() - k,
{
    if k < 0 || k >= items.len() {
        Ok(s)
    } else {
        match after_item(parties, stats, coefficients, s, items, k) {
            Err(err) => Err(err),
            Ok(next) => after_items(parties, stats, coefficients, next, items, k + 1),
        }
    }
}

/// The state in which a classification starts: the target at full health,
/// nothing on the target, and on the player what `player_buffs` says.
pub open spec fn initial_scan(player_buffs: Map<u32, u32>) -> ScanState {
    ScanState {
        player_buffs,
        target_buffs: Map::empty(),
        target_health: FULL_HEALTH,
        last_condition_tick: 0,
        events: Seq::empty(),
        warnings: Seq::empty(),
    }
}

/// The base duration behind `observed`, which was reported under a duration
/// multiplier of `units`.
pub fn recover_duration(observed: u32, units: u32) -> (r: u32)
    requires
        1500 <= units <= 3000,
    ensures
        r == recovered_duration(observed, units as int),
        r <= observed + 1,
{
    let n: u128 = observed as u128 * 1500;
    proof {
        lemma_round_div(n as int, units as int);
        assert(2 * n + units < (2 * units) * (observed + 1)) by (nonlinear_arith)
            requires
                n == observed * 1500,
                1500 <= units,
                observed >= 0,
        ;
        lemma_multiply_divide_lt(2 * n + units, 2 * units, observed + 1);
    }
    let q = rounded_quotient(n, units as u128) as u32;
    if q % 100 == 99 {
        q + 1
    } else {
        q
    }
}

/// Taking a duration back to its base and applying the multiplier again
/// gives the duration within one time unit, unless the base was corrected;
/// a base that was corrected lies exactly one above the quotient.
///
/// `observed` is the reported duration and `units` the duration multiplier,
/// in 1/1500, that it was reported under; applying the multiplier is
/// multiplying by it and rounding to the nearest time unit.
pub proof fn lemma_recovery_round_trip(observed: u32, units: int)
    requires
        DURATION_SCALE <= units <= 3000,
    ensures
        ({
            let quotient = round_div(observed * DURATION_SCALE, units);
            let base = recovered_duration(observed, units);
            let again = round_div(base * units, DURATION_SCALE as int);
            &&& quotient % 100 != 99 ==> base == quotient && observed - 1 <= again <= observed + 1
            &&& quotient % 100 == 99 ==> base == quotient + 1
        }),
{
    let n = observed * 1500;
    let q = round_div(n, units);
    lemma_round_div(n, units);
    vstd::arithmetic::div_mod::lemma_fundamental_div_mod(2 * n + units, 2 * units);
    vstd::arithmetic::div_mod::lemma_mod_bound(2 * n + units, 2 * units);
    let rest = (2 * n + units) % (2 * units);
    assert(2 * n + units == (2 * units) * q + rest);
    assert(0 <= q <= observed) by {
        assert(2 * n + units < (2 * units) * (observed + 1)) by (nonlinear_arith)
            requires
                n == observed * 1500,
                1500 <= units,
                observed >= 0,
        ;
        lemma_multiply_divide_lt(2 * n + units, 2 * units, observed + 1);
    }
    if q % 100 != 99 {
        let m = q * units;
        assert(m >= 0) by (nonlinear_arith)
            requires
                m == q * units,
                q >= 0,
                units >= 0,
        ;
        assert(2 * m == 2 * n + units - rest) by (nonlinear_arith)
            requires
                2 * n + units == (2 * units) * q + rest,
                m == q * units,
        ;
        lemma_round_div(m, 1500);
        vstd::arithmetic::div_mod::lemma_fundamental_div_mod(2 * m + 1500, 3000);
        vstd::arithmetic::div_mod::lemma_mod_bound(2 * m + 1500, 3000);
        let again = round_div(m, 1500);
        assert(2 * m + 1500 == 3000 * again + (2 * m + 1500) % 3000);
    }
}

/// The duration that an application reports.
fn duration_reported(e: &EvtcCombatItem) -> (r: u32)
    ensures
        r == reported_duration(*e),
{
    if e.value >= 0 {
        e.value as u32
    } else {
        (e.value as i64 + 0x1_0000_0000) as u32
    }
}

/// The duration multiplier under which a duration of `skill_id` was
/// reported.
fn duration_units_now(stats: &PlayerStats, player_buffs: &LogBuffUptimes, skill_id: u32) -> (r: u32)
    ensures
        r == duration_units(stats@, player_buffs@, skill_id),
        1500 <= r <= 3000,
{
    match get_skill_type(skill_id) {
        SkillType::Condition => {
            let gate = match stats.gating_buff(skill_id) {
                Some(buff) => player_buffs.count(buff) > 0,
                None => false,
            };
            stats.condition_duration(skill_id, gate)
        },
        SkillType::Boon => stats.boon_duration(),
        _ => DURATION_SCALE,
    }
}

impl Evidence {
    /// Whether the record `e` is what is looked for.
    pub fn is_found_in(&self, e: &EvtcCombatItem) -> (r: bool)
        requires
            self.wf(),
        ensures
            r == self.found_in(*e),
    {
        match *self {
            Evidence::HitOf { skill_id } => e.is_physical_hit() && e.skill_id == skill_id,
            Evidence::RemovalOf { skill_id } => e.is_buff_remove() && e.skill_id == skill_id,
            Evidence::ApplicationOf { skill_id, duration } => e.is_buff_apply() && e.skill_id
                == skill_id && duration_reported(e) == duration,
            Evidence::BurningOf { player, units, base_duration } => {
                if e.is_buff_apply() && e.src_agent == player && e.skill_id == skills::BURNING {
                    let base = recover_duration(duration_reported(e), units) as i64;
                    let gap = base - base_duration as i64;
                    -5 < gap && gap < 5
                } else {
                    false
                }
            },
        }
    }
}

/// The bounds of the run of records that came with record `i`.
fn window_around(items: &Vec<EvtcCombatItem>, i: usize) -> (r: (usize, usize))
    requires
        i < items@.len(),
    ensures
        r.0 == window_start(items@, items@[i as int].time - SAME_TIME_DELTA, i as int),
        r.1 == window_end(items@, items@[i as int].time + SAME_TIME_DELTA, i + 1),
        r.0 <= i < r.1 <= items@.len(),
{
    let time = items[i].time as i128;
    let mut lo: usize = i;
    while lo > 0 && items[lo - 1].time as i128 >= time - SAME_TIME_DELTA as i128
        invariant
            lo <= i < items@.len(),
            time == items@[i as int].time,
            window_start(items@, time - SAME_TIME_DELTA, lo as int) == window_start(
                items@,
                time - SAME_TIME_DELTA,
                i as int,
            ),
        decreases lo,
    {
        lo -= 1;
    }
    let len = items.len();
    let mut hi: usize = i + 1;
    while hi < len && items[hi].time as i128 <= time + SAME_TIME_DELTA as i128
        invariant
            i < hi <= items@.len(),
            len == items@.len(),
            time == items@[i as int].time,
            window_end(items@, time + SAME_TIME_DELTA, hi as int) == window_end(
                items@,
                time + SAME_TIME_DELTA,
                i + 1,
            ),
        decreases items@.len() - hi,
    {
        hi += 1;
    }
    (lo, hi)
}

/// The number of records that came with record `i` and are the evidence
/// looked for.
fn count_evidence(items: &Vec<EvtcCombatItem>, i: usize, evidence: Evidence) -> (r: usize)
    requires
        i < items@.len(),
        evidence.wf(),
    ensures
        r == count_around(items@, i as int, evidence),
{
    let (lo, hi) = window_around(items, i);
    let mut found: usize = 0;
    let mut k: usize = lo;
    while k < hi
        invariant
            lo <= k <= hi <= items@.len(),
            evidence.wf(),
            found == count_in(items@, lo as int, k as int, evidence),
            found <= k - lo,
        decreases hi - k,
    {
        if evidence.is_found_in(&items[k]) {
            found += 1;
        }
        k += 1;
    }
    found
}

/// The source of a condition that the player applied to the target with
/// record `i`.
fn source_of_condition(items: &Vec<EvtcCombatItem>, i: usize, base_duration: u32) -> (r: (
    ConditionApplicationSource,
    Option<ClassifyWarning>,
))
    requires
        i < items@.len(),
    ensures
        r == condition_source(items@, i as int, base_duration),
{
    let skill_id = items[i].skill_id;
    let duration = duration_reported(&items[i]);
    let time = items[i].time;
    let marker = if skill_id == skills::BLEEDING && base_duration == GEOMANCY_AND_DOOM_DURATION {
        Some(Evidence::HitOf { skill_id: skills::RING_OF_EARTH })
    } else if skill_id == skills::POISONED && base_duration == GEOMANCY_AND_DOOM_DURATION {
        Some(Evidence::RemovalOf { skill_id: skills::DOOM })
    } else {
        None
    };
    match marker {
        Some(evidence) => {
            let candidates = count_evidence(
                items,
                i,
                Evidence::ApplicationOf { skill_id, duration },
            );
            if count_evidence(items, i, evidence) > 0 && candidates >= PROC_STACKS {
                if skill_id == skills::BLEEDING {
                    (
                        ConditionApplicationSource::Skill(skills::RING_OF_EARTH),
                        if candidates > PROC_STACKS {
                            Some(ClassifyWarning::AmbiguousGeomancy { time, candidates })
                        } else {
                            None
                        },
                    )
                } else {
                    (
                        ConditionApplicationSource::Sigil(Sigil::Doom),
                        if candidates > PROC_STACKS {
                            Some(ClassifyWarning::AmbiguousDoom { time, candidates })
                        } else {
                            None
                        },
                    )
                }
            } else {
                (ConditionApplicationSource::Unknown, None)
            }
        },
        None => {
            if skill_id == skills::BLEEDING && base_duration == EARTH_DURATION {
                (ConditionApplicationSource::Sigil(Sigil::Earth), None)
            } else {
                (ConditionApplicationSource::Unknown, None)
            }
        },
    }
}

/// The coefficient of a strike of Searing Fissure, by the burning that came
/// with it.
fn strike_of_searing_fissure(time: i64, first: usize, additional: usize) -> (r: (
    u32,
    Option<ClassifyWarning>,
))
    ensures
        r == searing_fissure_strike(time, first, additional),
{
    if first == 3 && additional == 0 {
        (SEARING_FISSURE_FIRST_STRIKE_MULTIPLIER, None)
    } else if first == 0 && additional == 1 {
        (SEARING_FISSURE_ADDITIONAL_STRIKE_MULTIPLIER, None)
    } else if first >= 3 {
        (
            SEARING_FISSURE_FIRST_STRIKE_MULTIPLIER,
            Some(
                ClassifyWarning::UnsureSearingFissure {
                    time,
                    first,
                    additional,
                    guessed_first: true,
                },
            ),
        )
    } else {
        (
            SEARING_FISSURE_ADDITIONAL_STRIKE_MULTIPLIER,
            Some(
                ClassifyWarning::UnsureSearingFissure {
                    time,
                    first,
                    additional,
                    guessed_first: false,
                },
            ),
        )
    }
}

/// The base damage behind a strike that the log reports with `damage`.
pub fn recover_base_damage(
    damage: i32,
    enemy_armor: u32,
    power: u64,
    coefficient: u32,
    critical_factor: u64,
    vulnerability: u32,
    power_damage_factor: u32,
) -> (r: u32)
    requires
        power <= 0x2_0000_0000,
        critical_factor <= 0x2_0000_0000,
        vulnerability <= 25,
        power_damage_factor <= 1475,
    ensures
        r == recovered_base_damage(
            damage,
            enemy_armor,
            power as int,
            coefficient,
            critical_factor as int,
            vulnerability,
            power_damage_factor as int,
        ),
{
    if damage <= 0 {
        return 0;
    }
    assert(damage * enemy_armor <= 0x7fff_ffff * 0xffff_ffff) by (nonlinear_arith)
        requires
            0 < damage <= 0x7fff_ffff,
            enemy_armor <= 0xffff_ffff,
    ;
    let n1: u128 = damage as u128 * enemy_armor as u128;
    let numerator: u128 = n1 * 1_500_000_000_000;
    assert(power * coefficient <= 0x2_0000_0000 * 0xffff_ffff) by (nonlinear_arith)
        requires
            power <= 0x2_0000_0000,
            coefficient <= 0xffff_ffff,
    ;
    let a: u128 = power as u128 * coefficient as u128;
    let vf: u128 = 100 + vulnerability as u128;
    assert(critical_factor * vf <= 0x2_0000_0000 * 125) by (nonlinear_arith)
        requires
            critical_factor <= 0x2_0000_0000,
            vf <= 125,
    ;
    let b1: u128 = critical_factor as u128 * vf;
    assert(b1 * power_damage_factor <= 0x2_0000_0000 * 125 * 1475) by (nonlinear_arith)
        requires
            b1 <= 0x2_0000_0000 * 125,
            power_damage_factor <= 1475,
    ;
    let b: u128 = b1 * power_damage_factor as u128;
    assert(a * b <= 0x2_0000_0000 * 0xffff_ffff * (0x2_0000_0000 * 125 * 1475))
        by (nonlinear_arith)
        requires
            a <= 0x2_0000_0000 * 0xffff_ffff,
            b <= 0x2_0000_0000 * 125 * 1475,
    ;
    let denominator: u128 = a * b;
    if denominator == 0 {
        return u32::MAX;
    }
    let q = numerator / denominator;
    if q > u32::MAX as u128 {
        u32::MAX
    } else {
        q as u32
    }
}

/// What a classification has gathered so far.
struct Scan {
    player_buffs: LogBuffUptimes,
    target_buffs: LogBuffUptimes,
    target_health: u64,
    last_condition_tick: i64,
    events: Vec<SimulationEvent>,
    warnings: Vec<ClassifyWarning>,
}

impl View for Scan {
    type V = ScanState;

    closed spec fn view(&self) -> ScanState {
        ScanState {
            player_buffs: self.player_buffs@,
            target_buffs: self.target_buffs@,
            target_health: self.target_health,
            last_condition_tick: self.last_condition_tick,
            events: self.events@,
            warnings: self.warnings@,
        }
    }
}

/// Applies a removal with code `code` of `skill_id` to a tracker of the log.
fn remove_by_code(buffs: &mut LogBuffUptimes, skill_id: u32, code: u8, time: i64) -> (r: Result<
    (),
    ClassifyError,
>)
    ensures
        match r {
            Ok(()) => after_removal_code(old(buffs)@, skill_id, code) == Ok::<_, ClassifyError>(
                final(buffs)@,
            ),
            Err(e) => after_removal_code(old(buffs)@, skill_id, code) == Err::<Map<u32, u32>, _>(
                e,
            ),
        },
{
    if code == 1 {
        buffs.remove_last_stack(skill_id, time);
        Ok(())
    } else if code == 2 {
        if buffs.count(skill_id) == 0 {
            Err(ClassifyError::RemovedAbsentStack)
        } else {
            buffs.remove_stack(skill_id, time);
            Ok(())
        }
    } else if code == 3 {
        Ok(())
    } else {
        Err(ClassifyError::InvalidRemoval)
    }
}

impl Scan {
    fn note(&mut self, warning: Option<ClassifyWarning>)
        ensures
            final(self)@ == (ScanState {
                warnings: with_warning(old(self)@.warnings, warning),
                ..old(self)@
            }),
    {
        match warning {
            Some(w) => {
                self.warnings.push(w);
            },
            None => {},
        }
    }

    fn application(
        &mut self,
        parties: Parties,
        stats: &PlayerStats,
        items: &Vec<EvtcCombatItem>,
        i: usize,
    ) -> (r: Result<(), ClassifyError>)
        requires
            i < items@.len(),
        ensures
            match r {
                Ok(()) => after_application(parties, stats@, old(self)@, items@, i as int) == Ok::<
                    _,
                    ClassifyError,
                >(final(self)@),
                Err(e) => after_application(parties, stats@, old(self)@, items@, i as int) == Err::<
                    ScanState,
                    _,
                >(e),
            },
    {
        let e = &items[i];
        let skill_id = e.skill_id;
        let for_player = e.src_agent == parties.player && e.dst_agent == parties.player;
        let for_target = e.src_agent == parties.player && e.dst_agent == parties.target;
        if skill_id == skills::FURY || skill_id == skills::MIGHT || skill_id
            == skills::KALLAS_FERVOR {
            if for_player {
                if e.is_offcycle != 0 {
                    return Err(ClassifyError::BoonExtension);
                }
                if self.player_buffs.count(skill_id) == u32::MAX {
                    return Err(ClassifyError::Overflow);
                }
                let units = duration_units_now(stats, &self.player_buffs, skill_id);
                let duration = duration_reported(e);
                let base_duration = recover_duration(duration, units);
                self.player_buffs.add_stack(skill_id, duration as i64, e.time);
                self.events.push(
                    SimulationEvent::SelfBuffApplication { time: e.time, skill_id, base_duration },
                );
            }
            Ok(())
        } else if is_tracked_condition(skill_id) {
            if e.is_offcycle != 0 {
                return Err(ClassifyError::BoonExtension);
            }
            if for_target {
                let units = duration_units_now(stats, &self.player_buffs, skill_id);
                let base_duration = recover_duration(duration_reported(e), units);
                let (source, warning) = source_of_condition(items, i, base_duration);
                self.events.push(
                    SimulationEvent::TargetConditionApplication {
                        time: e.time,
                        condition: DamagingCondition::from_id(skill_id),
                        base_duration,
                        source,
                    },
                );
                self.note(warning);
            }
            Ok(())
        } else if skill_id == skills::VULNERABILITY && for_target {
            if e.is_offcycle != 0 {
                return Err(ClassifyError::BoonExtension);
            }
            if self.target_buffs.count(skill_id) == u32::MAX {
                return Err(ClassifyError::Overflow);
            }
            let units = duration_units_now(stats, &self.player_buffs, skill_id);
            let duration = duration_reported(e);
            let base_duration = recover_duration(duration, units);
            self.target_buffs.add_stack(skill_id, duration as i64, e.time);
            self.events.push(
                SimulationEvent::TargetBuffApplication { time: e.time, skill_id, base_duration },
            );
            Ok(())
        } else {
            Ok(())
        }
    }

    fn removal(&mut self, parties: Parties, e: &EvtcCombatItem) -> (r: Result<(), ClassifyError>)
        ensures
            match r {
                Ok(()) => after_removal(parties, old(self)@, *e) == Ok::<_, ClassifyError>(
                    final(self)@,
                ),
                Err(err) => after_removal(parties, old(self)@, *e) == Err::<ScanState, _>(err),
            },
    {
        let skill_id = e.skill_id;
        if (skill_id == skills::FURY || skill_id == skills::MIGHT || skill_id
            == skills::KALLAS_FERVOR) && e.src_agent == parties.player {
            remove_by_code(&mut self.player_buffs, skill_id, e.is_buff_remove, e.time)
        } else if skill_id == skills::VULNERABILITY && e.src_agent == parties.target {
            remove_by_code(&mut self.target_buffs, skill_id, e.is_buff_remove, e.time)
        } else {
            Ok(())
        }
    }

    fn coefficient_of_strike(
        &self,
        parties: Parties,
        stats: &PlayerStats,
        gamedata: &SkillData,
        items: &Vec<EvtcCombatItem>,
        i: usize,
    ) -> (r: Result<(u32, Option<ClassifyWarning>), ClassifyError>)
        requires
            i < items@.len(),
        ensures
            r == strike_coefficient(parties, stats@, gamedata@, self@, items@, i as int),
    {
        let e = &items[i];
        if e.skill_id == skills::SEARING_FISSURE {
            let units = duration_units_now(stats, &self.player_buffs, skills::BURNING);
            let first = count_evidence(
                items,
                i,
                Evidence::BurningOf {
                    player: parties.player,
                    units,
                    base_duration: SEARING_FISSURE_FIRST_STRIKE_BURNING_DURATION,
                },
            );
            let additional = count_evidence(
                items,
                i,
                Evidence::BurningOf {
                    player: parties.player,
                    units,
                    base_duration: SEARING_FISSURE_ADDITIONAL_STRIKE_BURNING_DURATION,
                },
            );
            Ok(strike_of_searing_fissure(e.time, first, additional))
        } else {
            match gamedata.power_multiplier(e.skill_id) {
                Some(coefficient) => Ok((coefficient, None)),
                None => Err(ClassifyError::MissingCoefficient),
            }
        }
    }

    fn strike(
        &mut self,
        parties: Parties,
        stats: &PlayerStats,
        gamedata: &SkillData,
        items: &Vec<EvtcCombatItem>,
        i: usize,
    ) -> (r: Result<(), ClassifyError>)
        requires
            i < items@.len(),
        ensures
            match r {
                Ok(()) => after_strike(parties, stats@, gamedata@, old(self)@, items@, i as int)
                    == Ok::<_, ClassifyError>(final(self)@),
                Err(e) => after_strike(parties, stats@, gamedata@, old(self)@, items@, i as int)
                    == Err::<ScanState, _>(e),
            },
    {
        let e = &items[i];
        if e.result == 8 || e.result == 9 || e.result == 10 {
            return Ok(());
        }
        if e.src_master_inst_id == parties.player_inst_id {
            return Err(ClassifyError::MinionDamage);
        }
        if e.src_agent != parties.player || e.dst_agent != parties.target {
            return Ok(());
        }
        if 2 <= e.result && e.result <= 7 {
            return Err(ClassifyError::MitigatedHit);
        }
        let (coefficient, warning) = match self.coefficient_of_strike(
            parties,
            stats,
            gamedata,
            items,
            i,
        ) {
            Ok(found) => found,
            Err(err) => {
                return Err(err);
            },
        };
        if parties.target_toughness < 0 {
            return Err(ClassifyError::Overflow);
        }
        let enemy_armor: u32 = parties.target_toughness as u32 + BASE_ENEMY_ARMOR;
        let critical = e.result == 1;
        let might = self.player_buffs.count(skills::MIGHT);
        let kallas_fervor = self.player_buffs.count(skills::KALLAS_FERVOR);
        let vulnerability = self.target_buffs.count(skills::VULNERABILITY);
        if might > 25 || (critical && kallas_fervor > 5) || vulnerability > 25 {
            return Err(ClassifyError::StackLimitExceeded);
        }
        let power = stats.power(might);
        let critical_factor = if critical {
            stats.critical_multiplier(kallas_fervor)
        } else {
            DURATION_SCALE as u64
        };
        let factor = stats.power_damage_mult(vulnerability, self.target_health, FULL_HEALTH);
        let base_damage = recover_base_damage(
            e.value,
            enemy_armor,
            power,
            coefficient,
            critical_factor,
            vulnerability,
            factor,
        );
        self.events.push(
            SimulationEvent::PhysicalHit {
                time: e.time,
                base_damage,
                coefficient,
                enemy_armor,
                source: PhysicalHitSource::Skill(e.skill_id),
                critical,
            },
        );
        self.note(warning);
        Ok(())
    }

    fn buff_damage(&mut self, parties: Parties, e: &EvtcCombatItem) -> (r: Result<
        (),
        ClassifyError,
    >)
        ensures
            match r {
                Ok(()) => after_buff_damage(parties, old(self)@, *e) == Ok::<_, ClassifyError>(
                    final(self)@,
                ),
                Err(err) => after_buff_damage(parties, old(self)@, *e) == Err::<ScanState, _>(err),
            },
    {
        if e.result != 0 || e.src_agent != parties.player {
            return Ok(());
        }
        if e.is_offcycle > 0 {
            if e.skill_id != skills::BATTLE_SCARS {
                return Err(ClassifyError::UnknownBuffDamage);
            }
            self.events.push(
                SimulationEvent::LifeStealHit {
                    time: e.time,
                    base_damage: BATTLE_SCARS_DAMAGE,
                    power_scaling: BATTLE_SCARS_MULTIPLIER,
                    source: LifeStealSource::Buff(skills::BATTLE_SCARS),
                },
            );
            return Ok(());
        }
        if !is_tracked_condition(e.skill_id) {
            return Err(ClassifyError::NotACondition);
        }
        if e.time as i128 - self.last_condition_tick as i128 > SAME_TIME_DELTA as i128 {
            self.events.push(SimulationEvent::ConditionTick { time: e.time, target_moving: false });
        }
        self.last_condition_tick = e.time;
        Ok(())
    }

    fn weapon_swap(&mut self, parties: Parties, e: &EvtcCombatItem)
        ensures
            final(self)@ == after_weapon_swap(parties, old(self)@, *e),
    {
        if e.src_agent == parties.player {
            if e.dst_agent == 4 {
                self.events.push(
                    SimulationEvent::WeaponSwap { time: e.time, weapon_set: WeaponSet::Land1 },
                );
            } else if e.dst_agent == 5 {
                self.events.push(
                    SimulationEvent::WeaponSwap { time: e.time, weapon_set: WeaponSet::Land2 },
                );
            }
        }
    }

    fn item(
        &mut self,
        parties: Parties,
        stats: &PlayerStats,
        gamedata: &SkillData,
        items: &Vec<EvtcCombatItem>,
        i: usize,
    ) -> (r: Result<(), ClassifyError>)
        requires
            i < items@.len(),
        ensures
            match r {
                Ok(()) => after_item(parties, stats@, gamedata@, old(self)@, items@, i as int)
                    == Ok::<_, ClassifyError>(final(self)@),
                Err(e) => after_item(parties, stats@, gamedata@, old(self)@, items@, i as int)
                    == Err::<ScanState, _>(e),
            },
    {
        reveal(after_item);
        let e = &items[i];
        if e.is_state_change == 8 && e.src_agent == parties.target {
            self.target_health = e.dst_agent;
            Ok(())
        } else if (e.is_state_change == 18 && e.is_buff == 18) || e.is_buff_apply() {
            self.application(parties, stats, items, i)
        } else if e.is_state_change == 11 {
            self.weapon_swap(parties, e);
            Ok(())
        } else if e.is_buff_remove() {
            self.removal(parties, e)
        } else if e.is_physical_hit() {
            self.strike(parties, stats, gamedata, items, i)
        } else if e.is_buff_damage() {
            self.buff_damage(parties, e)
        } else {
            Ok(())
        }
    }
}

/// The events of a fight and what their classification was unsure of.
pub struct Classification {
    pub events: Vec<SimulationEvent>,
    pub warnings: Vec<ClassifyWarning>,
}

/// Whether `r` hands out what the classification came to: its events and
/// warnings where it went through, its error where it stopped.
pub open spec fn agrees(
    r: Result<Classification, ClassifyError>,
    outcome: Result<ScanState, ClassifyError>,
) -> bool {
    match r {
        Ok(c) => {
            &&& outcome is Ok
            &&& c.events@ == outcome->Ok_0.events
            &&& c.warnings@ == outcome->Ok_0.warnings
        },
        Err(e) => outcome == Err::<ScanState, _>(e),
    }
}

/// Classifies `items`, read in the order in which they stand, which should
/// be that of their time.
///
/// `player_buffs` says what is on the player when the records begin. The
/// build `stats` is the one that the fight was fought with: its bonuses are
/// taken out of the durations and the damage that the records report.
pub fn classify(
    items: &Vec<EvtcCombatItem>,
    parties: Parties,
    stats: &PlayerStats,
    player_buffs: LogBuffUptimes,
    gamedata: &SkillData,
) -> (r: Result<Classification, ClassifyError>)
    ensures
        agrees(
            r,
            after_items(parties, stats@, gamedata@, initial_scan(player_buffs@), items@, 0),
        ),
{
    let mut scan = Scan {
        player_buffs,
        target_buffs: LogBuffUptimes::new(),
        target_health: FULL_HEALTH,
        last_condition_tick: 0,
        events: Vec::new(),
        warnings: Vec::new(),
    };
    let mut k: usize = 0;
    while k < items.len()
        invariant
            k <= items@.len(),
            after_items(parties, stats@, gamedata@, scan@, items@, k as int) == after_items(
                parties,
                stats@,
                gamedata@,
                initial_scan(player_buffs@),
                items@,
                0,
            ),
        decreases items@.len() - k,
    {
        match scan.item(parties, stats, gamedata, items, k) {
            Err(e) => {
                return Err(e);
            },
            Ok(()) => {},
        }
        k += 1;
    }
    Ok(Classification { events: scan.events, warnings: scan.warnings })
}

/// The records of `items` whose time is `t`, in their order.
pub open spec fn at_time(items: Seq<EvtcCombatItem>, t: i64) -> Seq<EvtcCombatItem> {
    items.filter(|e: EvtcCombatItem| e.time == t)
}

/// `sorted` holds the records of `items` in the order of their time, and
/// those of one time in the order in which `items` has them.
pub open spec fn is_sorted_by_time_of(sorted: Seq<EvtcCombatItem>, items: Seq<EvtcCombatItem>) -> bool {
    &&& sorted.len() == items.len()
    &&& forall|a: int, b: int| 0 <= a <= b < sorted.len() ==> sorted[a].time <= sorted[b].time
    &&& forall|t: i64| #[trigger] at_time(sorted, t) == at_time(items, t)
}

/// The records of a sequence whose last record is at time `t` end with that
/// record, and those at another time are those of the sequence without it.
proof fn lemma_at_time_of_last(items: Seq<EvtcCombatItem>, t: i64)
    requires
        items.len() > 0,
    ensures
        at_time(items, t) == if items.last().time == t {
            at_time(items.drop_last(), t).push(items.last())
        } else {
            at_time(items.drop_last(), t)
        },
{
    reveal(Seq::filter);
}

/// A sorted sequence that has a record at time `t` does not end before `t`.
proof fn lemma_last_is_latest(items: Seq<EvtcCombatItem>, t: i64)
    requires
        forall|a: int, b: int| 0 <= a <= b < items.len() ==> items[a].time <= items[b].time,
        at_time(items, t).len() > 0,
    ensures
        items.len() > 0,
        items.last().time >= t,
    decreases items.len(),
{
    if items.len() == 0 {
        reveal(Seq::filter);
    } else {
        lemma_at_time_of_last(items, t);
        if items.last().time != t {
            let rest = items.drop_last();
            assert forall|a: int, b: int| 0 <= a <= b < rest.len() implies rest[a].time
                <= rest[b].time by {
                assert(rest[a] == items[a] && rest[b] == items[b]);
            }
            lemma_last_is_latest(rest, t);
            assert(rest.last() == items[items.len() - 2]);
        }
    }
}

/// There is one way only to put records in the order of their time and keep
/// those of one time in their order.
pub proof fn lemma_sorted_by_time_is_unique(a: Seq<EvtcCombatItem>, b: Seq<EvtcCombatItem>)
    requires
        a.len() == b.len(),
        forall|i: int, j: int| 0 <= i <= j < a.len() ==> a[i].time <= a[j].time,
        forall|i: int, j: int| 0 <= i <= j < b.len() ==> b[i].time <= b[j].time,
        forall|t: i64| #[trigger] at_time(a, t) == at_time(b, t),
    ensures
        a == b,
    decreases a.len(),
{
    if a.len() == 0 {
        assert(a =~= b);
    } else {
        let ta = a.last().time;
        let tb = b.last().time;
        lemma_at_time_of_last(a, ta);
        lemma_at_time_of_last(b, tb);
        assert(at_time(a, ta) == at_time(b, ta));
        assert(at_time(a, tb) == at_time(b, tb));
        lemma_last_is_latest(b, ta);
        lemma_last_is_latest(a, tb);
        assert(ta == tb);
        assert(a.last() == at_time(a, ta).last());
        assert(b.last() == at_time(b, ta).last());
        let a0 = a.drop_last();
        let b0 = b.drop_last();
        assert forall|t: i64| #[trigger] at_time(a0, t) == at_time(b0, t) by {
            lemma_at_time_of_last(a, t);
            lemma_at_time_of_last(b, t);
            assert(at_time(a, t) == at_time(b, t));
            if t == ta {
                assert(at_time(a0, t) =~= at_time(a, t).drop_last());
                assert(at_time(b0, t) =~= at_time(b, t).drop_last());
            }
        }
        lemma_sorted_by_time_is_unique(a0, b0);
        assert(a =~= a0.push(a.last()));
        assert(b =~= b0.push(b.last()));
    }
}

/// `Itertools::sorted_by_key` on the records, keyed by their time: the
/// records in the order of their time. The sort is the stable sort of
/// slices, so records of one time keep their order.
#[verifier::external_body]
fn sorted_by_time(items: &Vec<EvtcCombatItem>) -> (r: Vec<EvtcCombatItem>)
    ensures
        is_sorted_by_time_of(r@, items@),
{
    items.iter().sorted_by_key(|x| x.time).copied().collect()
}

/// The position of the first record from `k` on that is no state change and
/// has `player` as its source.
pub open spec fn first_own_record(items: Seq<EvtcCombatItem>, player: u64, k: int) -> Option<int>
    decreases items.len() - k,
{
    if k < 0 || k >= items.len() {
        None
    } else if items[k].is_state_change == 0 && items[k].src_agent == player {
        Some(k)
    } else {
        first_own_record(items, player, k + 1)
    }
}

/// The id under which the records of `items` name the player's instance.
fn find_player_inst_id(items: &Vec<EvtcCombatItem>, player: u64) -> (r: Option<u16>)
    ensures
        r == match first_own_record(items@, player, 0) {
            Some(k) => Some(items@[k].src_inst_id),
            None => None,
        },
        first_own_record(items@, player, 0) matches Some(k) ==> 0 <= k < items@.len(),
{
    let mut k: usize = 0;
    while k < items.len()
        invariant
            k <= items@.len(),
            first_own_record(items@, player, k as int) == first_own_record(items@, player, 0),
        decreases items@.len() - k,
    {
        if items[k].is_state_change == 0 && items[k].src_agent == player {
            return Some(items[k].src_inst_id);
        }
        k += 1;
    }
    None
}

/// Whether the effects of `sigil` can be told from a log.
pub open spec fn is_supported_sigil(sigil: Sigil) -> bool {
    sigil == Sigil::Earth || sigil == Sigil::Doom || sigil == Sigil::Geomancy
}

/// The two agents of the fight, with the player's instance named as in the
/// record at `k`.
pub open spec fn parties_of(
    player: EvtcAgent,
    target: EvtcAgent,
    items: Seq<EvtcCombatItem>,
    k: int,
) -> Parties {
    Parties {
        player: player.address,
        target: target.address,
        target_toughness: target.toughness,
        player_inst_id: items[k].src_inst_id,
    }
}

/// Turns the records of a log into the events of the fight between `player`
/// and `target`.
///
/// The build `stats` is the one that the fight was fought with, and
/// `player_buffs` says what was on the player when the log began. The player
/// must stand in the log, and both sigils of the build's first weapon set
/// must be of those whose effects can be told from a log. The records are
/// then put in the order of their time, those of one time in the order in
/// which the log has them, and classified.
pub fn get_events(
    evtc_log: &EvtcLog,
    player: &EvtcAgent,
    target: &EvtcAgent,
    stats: &PlayerStats,
    player_buffs: LogBuffUptimes,
    gamedata: &SkillData,
) -> (r: Result<Classification, ClassifyError>)
    ensures
        match first_own_record(evtc_log.combat_items@, player.address, 0) {
            None => r is Err && r->Err_0 == ClassifyError::PlayerNotInLog,
            Some(k) => if !is_supported_sigil(stats.set_1_sigils[0]) || !is_supported_sigil(
                stats.set_1_sigils[1],
            ) {
                r is Err && r->Err_0 == ClassifyError::UnsupportedSigil
            } else {
                &&& exists|sorted: Seq<EvtcCombatItem>| #[trigger]
                    is_sorted_by_time_of(sorted, evtc_log.combat_items@)
                &&& forall|sorted: Seq<EvtcCombatItem>| #[trigger]
                    is_sorted_by_time_of(sorted, evtc_log.combat_items@) ==> agrees(
                        r,
                        after_items(
                            parties_of(*player, *target, evtc_log.combat_items@, k),
                            stats@,
                            gamedata@,
                            initial_scan(player_buffs@),
                            sorted,
                            0,
                        ),
                    )
            },
        },
{
    let player_inst_id = match find_player_inst_id(&evtc_log.combat_items, player.address) {
        Some(id) => id,
        None => {
            return Err(ClassifyError::PlayerNotInLog);
        },
    };
    let first = stats.set_1_sigils[0];
    let second = stats.set_1_sigils[1];
    if !(first == Sigil::Earth || first == Sigil::Doom || first == Sigil::Geomancy) || !(second
        == Sigil::Earth || second == Sigil::Doom || second == Sigil::Geomancy) {
        return Err(ClassifyError::UnsupportedSigil);
    }
    let parties = Parties {
        player: player.address,
        target: target.address,
        target_toughness: target.toughness,
        player_inst_id,
    };
    let sorted = sorted_by_time(&evtc_log.combat_items);
    proof {
        assert forall|other: Seq<EvtcCombatItem>| #[trigger]
            is_sorted_by_time_of(other, evtc_log.combat_items@) implies other == sorted@ by {
            assert forall|t: i64| #[trigger] at_time(other, t) == at_time(sorted@, t) by {
                assert(at_time(other, t) == at_time(evtc_log.combat_items@, t));
                assert(at_time(sorted@, t) == at_time(evtc_log.combat_items@, t));
            }
            lemma_sorted_by_time_is_unique(other, sorted@);
        }
    }
    classify(&sorted, parties, stats, player_buffs, gamedata)
}

} // verus!
