//! The replay of a sequence of events under a build.
//!
//! Events are applied in the order given. Each event's damage is reckoned
//! exactly and rounded once, to the nearest whole number, before it is added
//! to the distribution. A strike's damage depends on the damage dealt so far,
//! through the health that the target has left.

use crate::conditions::{ConditionStack, ConditionsView, TargetConditions};
use crate::damage::{
    lemma_part_within_sum, lemma_round_div, round_div, rounded_quotient, DamageDistribution,
    DamageView,
};
use crate::events::{
    ConditionApplicationSource, DamagingCondition, LifeStealSource, PhysicalHitSource, Sigil,
    SimulationEvent, WeaponSet,
};
use crate::evtc::EvtcSkill;
use crate::gamedata::{
    condition_base_damage, condition_multiplier, get_condition_base_damage,
    get_condition_multiplier, get_skill_type, has_stacking_rules, is_stacking_buff, skill_type_of,
    SkillType, TICK_LENGTH, TICK_RATE_STEP,
};
use crate::ids::skills;
use crate::stats::{
    vulnerability_factor, vulnerability_multiplier, BuildView, PlayerStats, DURATION_SCALE,
};
use crate::uptimes::{admits_at, state_at, states_wf, BuffStateView, BuffUptimes, SimBuffUptimes};
use vstd::prelude::*;

verus! {

/// Why a replay stopped.
#[derive(PartialEq, Eq, Structural, Clone, Copy, Debug)]
pub enum SimError {
    /// A buff was applied that has no stacking discipline.
    UnknownBuff,
    /// An event lies before the time up to which a buff it reads has been
    /// brought.
    TimeReversed,
    /// A strike or a life steal has no known source.
    UnknownSource,
    /// A strike met an armor of zero.
    ZeroArmor,
    /// A figure does not fit the machine's integers.
    Overflow,
}

/// The sources whose contributions a replay leaves out.
#[derive(PartialEq, Eq, Structural, Clone, Copy, Debug)]
pub struct Exclusions {
    pub doom: bool,
    pub geomancy: bool,
    pub earth_1: bool,
    pub earth_2: bool,
}

/// The state of a replay between two events.
pub struct SimState {
    pub weapon_set: WeaponSet,
    pub player: Map<u32, BuffStateView>,
    pub target: Map<u32, BuffStateView>,
    pub conditions: ConditionsView,
    pub damage: DamageView,
}

/// The build with `weapon_set` in hand.
pub open spec fn wielding(stats: BuildView, weapon_set: WeaponSet) -> BuildView {
    BuildView { weapon_set, ..stats }
}

/// The state in which a replay starts: nothing tracked, no conditions, no
/// damage.
pub open spec fn initial_state(stats: BuildView) -> SimState {
    SimState {
        weapon_set: stats.weapon_set,
        player: Map::empty(),
        target: Map::empty(),
        conditions: ConditionsView::empty(),
        damage: DamageView::empty(),
    }
}

/// Reading the stacks of the buff `skill_id` at `time`: the tracker with the
/// buff brought up to `time`, and the number of stacks that count.
pub open spec fn read_stacks(m: Map<u32, BuffStateView>, skill_id: u32, time: i64) -> Result<
    (Map<u32, BuffStateView>, u32),
    SimError,
> {
    if !admits_at(m, skill_id, time) {
        Err(SimError::TimeReversed)
    } else {
        Ok(
            (
                m.insert(skill_id, state_at(m, skill_id, time)),
                state_at(m, skill_id, time).stack_count() as u32,
            ),
        )
    }
}

/// The duration that `base_duration` of `skill_id` comes to under the build
/// at `time`, rounded to the nearest time unit, and the player's tracker
/// after it has been asked about the buff that gates a bonus. A condition
/// lasts longer by the multiplier of condition duration, a boon by that of
/// boon duration, any other buff as long as its base duration.
pub open spec fn scaled_duration(
    stats: BuildView,
    player: Map<u32, BuffStateView>,
    skill_id: u32,
    base_duration: u32,
    time: i64,
) -> Result<(Map<u32, BuffStateView>, i64), SimError> {
    match skill_type_of(skill_id) {
        SkillType::Unknown => Err(SimError::UnknownBuff),
        SkillType::Ability => Err(SimError::UnknownBuff),
        SkillType::GenericBuff => Ok((player, base_duration as i64)),
        SkillType::Boon => Ok(
            (
                player,
                round_div(base_duration * stats.boon_duration_units(), DURATION_SCALE as int) as i64,
            ),
        ),
        SkillType::Condition => match stats.spec_gating_buff(skill_id) {
            None => Ok(
                (
                    player,
                    round_div(
                        base_duration * stats.condition_duration_units(skill_id, false),
                        DURATION_SCALE as int,
                    ) as i64,
                ),
            ),
            Some(buff) => if !is_stacking_buff(buff) {
                Err(SimError::UnknownBuff)
            } else {
                match read_stacks(player, buff, time) {
                    Err(e) => Err(e),
                    Ok((player, stacks)) => Ok(
                        (
                            player,
                            round_div(
                                base_duration * stats.condition_duration_units(
                                    skill_id,
                                    stacks > 0,
                                ),
                                DURATION_SCALE as int,
                            ) as i64,
                        ),
                    ),
                }
            },
        },
    }
}

/// The health that a target of `max_health` has left after `damage`.
pub open spec fn health_left(max_health: u64, damage: u64) -> u64 {
    if damage <= max_health {
        (max_health - damage) as u64
    } else {
        0
    }
}

/// The exact damage of a strike, as a numerator over
/// [`strike_denominator`]: the base damage, the power, the coefficient, the
/// multiplier of a critical strike where it is one, the vulnerability of the
/// target and the multiplier of strike damage, all multiplied.
pub open spec fn strike_numerator(
    base_damage: u32,
    power: int,
    coefficient: u32,
    critical_factor: int,
    vulnerability: u32,
    power_damage_factor: int,
) -> int {
    base_damage * power * coefficient * (critical_factor * vulnerability_factor(vulnerability)
        * power_damage_factor)
}

/// The armor, and the scales of the coefficient, of the critical multiplier,
/// of vulnerability and of the multiplier of strike damage.
pub open spec fn strike_denominator(enemy_armor: u32) -> int {
    enemy_armor * 1_500_000_000_000
}

/// The exact damage of one full tick of one stack of `condition`, as a
/// numerator over [`TICK_DENOMINATOR`]: the base damage and what the
/// condition damage adds, by the multiplier of the condition's damage and the
/// vulnerability of the target.
pub open spec fn tick_numerator(
    condition: DamagingCondition,
    target_moving: bool,
    condition_damage: int,
    condition_damage_factor: int,
    vulnerability: u32,
) -> int {
    (100 * condition_base_damage(condition, target_moving) + condition_damage
        * condition_multiplier(condition, target_moving)) * condition_damage_factor
        * vulnerability_factor(vulnerability)
}

/// The scales of a tick's base damage, of the multiplier of condition damage
/// and of vulnerability.
pub const TICK_DENOMINATOR: u128 = 100_000_000_000;

/// The time that a stack with `duration` left is charged for when it ends
/// within the tick: what it has left, rounded up to the step in which the
/// game reckons.
pub open spec fn charged_time(duration: i64) -> int {
    if duration <= 0 {
        0
    } else {
        (duration + TICK_RATE_STEP - 1) / (TICK_RATE_STEP as int) * TICK_RATE_STEP
    }
}

/// The damage that one stack with `duration` left deals in a tick whose full
/// damage is `full` over [`TICK_DENOMINATOR`]. A stack that outlasts the tick
/// deals the full damage. A stack that ends within it deals the part that
/// falls to the time it is charged for.
pub open spec fn stack_tick_damage(full: int, duration: i64) -> int {
    if duration > TICK_LENGTH {
        round_div(full, TICK_DENOMINATOR as int)
    } else {
        round_div(full * charged_time(duration), TICK_DENOMINATOR * TICK_LENGTH)
    }
}

/// The damage that `stacks` deal together in one tick.
pub open spec fn tick_total(stacks: Seq<ConditionStack>, full: int) -> int
    decreases stacks.len(),
{
    if stacks.len() == 0 {
        0
    } else {
        tick_total(stacks.drop_last(), full) + stack_tick_damage(full, stacks.last().duration)
    }
}

/// The stacks that outlast a tick at `time`, each shorter by the tick.
pub open spec fn after_tick(stacks: Seq<ConditionStack>, time: i64) -> Seq<ConditionStack> {
    stacks.filter(|s: ConditionStack| s.duration > TICK_LENGTH).map_values(
        |s: ConditionStack|
            ConditionStack { duration: (s.duration - TICK_LENGTH) as i64, last_update: time },
    )
}

/// One condition's part in a tick: each of its stacks deals its damage, which
/// is added to the condition's account, and the stacks that end are dropped.
/// A condition without stacks leaves no trace.
pub open spec fn tick_condition(
    conditions: ConditionsView,
    damage: DamageView,
    condition: DamagingCondition,
    full: int,
    time: i64,
) -> Result<(ConditionsView, DamageView), SimError> {
    let stacks = conditions.stacks_of(condition);
    if stacks.len() == 0 {
        Ok((conditions, damage))
    } else if damage.total + tick_total(stacks, full) > u64::MAX {
        Err(SimError::Overflow)
    } else {
        Ok(
            (
                conditions.with_stacks(condition, after_tick(stacks, time)),
                damage.added(condition.spec_to_id(), tick_total(stacks, full)),
            ),
        )
    }
}

/// The five damaging conditions, in the order in which they tick.
pub open spec fn ticking_order() -> Seq<DamagingCondition> {
    seq![
        DamagingCondition::Bleeding,
        DamagingCondition::Burning,
        DamagingCondition::Confusion,
        DamagingCondition::Poisoned,
        DamagingCondition::Torment,
    ]
}

/// The part in a tick of the first `n` conditions of the ticking order.
pub open spec fn tick_conditions(
    stats: BuildView,
    conditions: ConditionsView,
    damage: DamageView,
    n: nat,
    target_moving: bool,
    might: u32,
    kallas_fervor: u32,
    vulnerability: u32,
    time: i64,
) -> Result<(ConditionsView, DamageView), SimError>
    decreases n,
{
    if n == 0 || n > 5 {
        Ok((conditions, damage))
    } else {
        match tick_conditions(
            stats,
            conditions,
            damage,
            (n - 1) as nat,
            target_moving,
            might,
            kallas_fervor,
            vulnerability,
            time,
        ) {
            Err(e) => Err(e),
            Ok((conditions, damage)) => {
                let condition = ticking_order()[n - 1];
                tick_condition(
                    conditions,
                    damage,
                    condition,
                    tick_numerator(
                        condition,
                        target_moving,
                        stats.effective_condition_damage(might),
                        stats.condition_damage_factor(condition, kallas_fervor),
                        vulnerability,
                    ),
                    time,
                )
            },
        }
    }
}

/// Whether the replay leaves out a condition applied by `source` while
/// `weapon_set` is in hand.
pub open spec fn is_excluded(
    exclusions: Exclusions,
    source: ConditionApplicationSource,
    weapon_set: WeaponSet,
) -> bool {
    match source {
        ConditionApplicationSource::Sigil(Sigil::Doom) => exclusions.doom,
        ConditionApplicationSource::Sigil(Sigil::Earth) => (exclusions.earth_1 && weapon_set
            == WeaponSet::Land1) || (exclusions.earth_2 && weapon_set == WeaponSet::Land2),
        ConditionApplicationSource::Skill(id) => id == skills::RING_OF_EARTH && exclusions.geomancy,
        _ => false,
    }
}

/// The state after a strike.
pub open spec fn after_physical_hit(
    stats: BuildView,
    enemy_max_health: u64,
    exclusions: Exclusions,
    s: SimState,
    time: i64,
    base_damage: u32,
    coefficient: u32,
    enemy_armor: u32,
    source: PhysicalHitSource,
    critical: bool,
) -> Result<SimState, SimError> {
    match source {
        PhysicalHitSource::Unknown => Err(SimError::UnknownSource),
        PhysicalHitSource::Skill(id) => if id == skills::RING_OF_EARTH && exclusions.geomancy {
            Ok(s)
        } else {
            match read_stacks(s.player, skills::MIGHT, time) {
                Err(e) => Err(e),
                Ok((player, might)) => match (if critical {
                    read_stacks(player, skills::KALLAS_FERVOR, time)
                } else {
                    Ok((player, 0u32))
                }) {
                    Err(e) => Err(e),
                    Ok((player, kallas_fervor)) => match read_stacks(
                        s.target,
                        skills::VULNERABILITY,
                        time,
                    ) {
                        Err(e) => Err(e),
                        Ok((target, vulnerability)) => if enemy_armor == 0 {
                            Err(SimError::ZeroArmor)
                        } else {
                            let numerator = strike_numerator(
                                base_damage,
                                wielding(stats, s.weapon_set).effective_power(might),
                                coefficient,
                                if critical {
                                    wielding(stats, s.weapon_set).critical_factor(kallas_fervor)
                                } else {
                                    DURATION_SCALE as int
                                },
                                vulnerability,
                                wielding(stats, s.weapon_set).power_damage_factor(
                                    vulnerability,
                                    health_left(enemy_max_health, s.damage.total),
                                    enemy_max_health,
                                ),
                            );
                            let damage = round_div(numerator, strike_denominator(enemy_armor));
                            if numerator > u128::MAX || s.damage.total + damage > u64::MAX {
                                Err(SimError::Overflow)
                            } else {
                                Ok(
                                    SimState {
                                        player,
                                        target,
                                        damage: s.damage.added(id, damage),
                                        ..s
                                    },
                                )
                            }
                        },
                    },
                },
            }
        },
    }
}

/// The state after the application of a buff to the player, or to the
/// target where `on_target`.
pub open spec fn after_buff_application(
    stats: BuildView,
    s: SimState,
    on_target: bool,
    time: i64,
    skill_id: u32,
    base_duration: u32,
) -> Result<SimState, SimError> {
    if !is_stacking_buff(skill_id) {
        Err(SimError::UnknownBuff)
    } else {
        match scaled_duration(
            wielding(stats, s.weapon_set),
            s.player,
            skill_id,
            base_duration,
            time,
        ) {
            Err(e) => Err(e),
            Ok((player, duration)) => {
                let tracker = if on_target {
                    s.target
                } else {
                    player
                };
                if !admits_at(tracker, skill_id, time) {
                    Err(SimError::TimeReversed)
                } else {
                    let tracker = tracker.insert(
                        skill_id,
                        state_at(tracker, skill_id, time).inserted(duration),
                    );
                    if on_target {
                        Ok(SimState { player, target: tracker, ..s })
                    } else {
                        Ok(SimState { player: tracker, ..s })
                    }
                }
            },
        }
    }
}

/// The state after the application of a condition to the target.
pub open spec fn after_condition_application(
    stats: BuildView,
    exclusions: Exclusions,
    s: SimState,
    time: i64,
    condition: DamagingCondition,
    base_duration: u32,
    source: ConditionApplicationSource,
) -> Result<SimState, SimError> {
    if is_excluded(exclusions, source, s.weapon_set) {
        Ok(s)
    } else {
        match scaled_duration(
            wielding(stats, s.weapon_set),
            s.player,
            condition.spec_to_id(),
            base_duration,
            time,
        ) {
            Err(e) => Err(e),
            Ok((player, duration)) => Ok(
                SimState {
                    player,
                    conditions: s.conditions.applied(condition, duration, time),
                    ..s
                },
            ),
        }
    }
}

/// The state after a tick of the conditions.
pub open spec fn after_condition_tick(
    stats: BuildView,
    s: SimState,
    time: i64,
    target_moving: bool,
) -> Result<SimState, SimError> {
    match read_stacks(s.player, skills::MIGHT, time) {
        Err(e) => Err(e),
        Ok((player, might)) => match read_stacks(player, skills::KALLAS_FERVOR, time) {
            Err(e) => Err(e),
            Ok((player, kallas_fervor)) => match read_stacks(
                s.target,
                skills::VULNERABILITY,
                time,
            ) {
                Err(e) => Err(e),
                Ok((target, vulnerability)) => match tick_conditions(
                    wielding(stats, s.weapon_set),
                    s.conditions,
                    s.damage,
                    5,
                    target_moving,
                    might,
                    kallas_fervor,
                    vulnerability,
                    time,
                ) {
                    Err(e) => Err(e),
                    Ok((conditions, damage)) => Ok(
                        SimState { player, target, conditions, damage, ..s },
                    ),
                },
            },
        },
    }
}

/// The state after a life steal: its base damage and what the power adds.
pub open spec fn after_life_steal(
    stats: BuildView,
    s: SimState,
    time: i64,
    base_damage: u32,
    power_scaling: u32,
    source: LifeStealSource,
) -> Result<SimState, SimError> {
    match source {
        LifeStealSource::Unknown => Err(SimError::UnknownSource),
        LifeStealSource::Buff(id) => match read_stacks(s.player, skills::MIGHT, time) {
            Err(e) => Err(e),
            Ok((player, might)) => {
                let damage = round_div(
                    100 * base_damage + wielding(stats, s.weapon_set).effective_power(might)
                        * power_scaling,
                    1000,
                );
                if s.damage.total + damage > u64::MAX {
                    Err(SimError::Overflow)
                } else {
                    Ok(SimState { player, damage: s.damage.added(id, damage), ..s })
                }
            },
        },
    }
}

/// The state after one event.
#[verifier::opaque]
pub open spec fn after_event(
    stats: BuildView,
    enemy_max_health: u64,
    exclusions: Exclusions,
    s: SimState,
    event: SimulationEvent,
) -> Result<SimState, SimError> {
    match event {
        SimulationEvent::PhysicalHit {
            time,
            base_damage,
            coefficient,
            enemy_armor,
            source,
            critical,
        } => after_physical_hit(
            stats,
            enemy_max_health,
            exclusions,
            s,
            time,
            base_damage,
            coefficient,
            enemy_armor,
            source,
            critical,
        ),
        SimulationEvent::SelfBuffApplication {
            time,
            skill_id,
            base_duration,
        } => after_buff_application(stats, s, false, time, skill_id, base_duration),
        SimulationEvent::TargetBuffApplication {
            time,
            skill_id,
            base_duration,
        } => after_buff_application(stats, s, true, time, skill_id, base_duration),
        SimulationEvent::TargetConditionApplication {
            time,
            condition,
            base_duration,
            source,
        } => after_condition_application(
            stats,
            exclusions,
            s,
            time,
            condition,
            base_duration,
            source,
        ),
        SimulationEvent::ConditionTick { time, target_moving } => after_condition_tick(
            stats,
            s,
            time,
            target_moving,
        ),
        SimulationEvent::LifeStealHit {
            time,
            base_damage,
            power_scaling,
            source,
        } => after_life_steal(stats, s, time, base_damage, power_scaling, source),
        SimulationEvent::WeaponSwap { time, weapon_set } => Ok(SimState { weapon_set, ..s }),
    }
}

/// The state after `events`, applied one by one in their order; the first
/// event that fails stops the replay.
pub open spec fn after_events(
    stats: BuildView,
    enemy_max_health: u64,
    exclusions: Exclusions,
    s: SimState,
    events: Seq<SimulationEvent>,
) -> Result<SimState, SimError>
    decreases events.len(),
{
    if events.len() == 0 {
        Ok(s)
    } else {
        match after_event(stats, enemy_max_health, exclusions, s, events[0]) {
            Err(e) => Err(e),
            Ok(next) => after_events(stats, enemy_max_health, exclusions, next, events.skip(1)),
        }
    }
}

/// What an event does to a state does not depend on the weapon set that the
/// build was handed over with: the state says which one is in hand.
pub proof fn lemma_after_event_of_any_hand(
    stats: BuildView,
    weapon_set: WeaponSet,
    enemy_max_health: u64,
    exclusions: Exclusions,
    s: SimState,
    event: SimulationEvent,
)
    ensures
        after_event(wielding(stats, weapon_set), enemy_max_health, exclusions, s, event)
            == after_event(stats, enemy_max_health, exclusions, s, event),
{
    reveal(after_event);
    assert(wielding(wielding(stats, weapon_set), s.weapon_set) == wielding(stats, s.weapon_set));
}

/// Reads the stacks of the buff `skill_id` at `time`.
fn stacks_at_time(uptimes: &mut SimBuffUptimes, skill_id: u32, time: i64) -> (r: Result<
    u32,
    SimError,
>)
    requires
        states_wf(old(uptimes)@),
        is_stacking_buff(skill_id),
    ensures
        states_wf(final(uptimes)@),
        match r {
            Ok(n) => read_stacks(old(uptimes)@, skill_id, time) == Ok::<_, SimError>(
                (final(uptimes)@, n),
            ) && n <= crate::gamedata::stack_limit_of(skill_id),
            Err(e) => read_stacks(old(uptimes)@, skill_id, time) == Err::<
                (Map<u32, BuffStateView>, u32),
                _,
            >(e),
        },
{
    let reversed = match uptimes.last_seen(skill_id) {
        Some(seen) => time < seen,
        None => false,
    };
    if reversed {
        Err(SimError::TimeReversed)
    } else {
        Ok(uptimes.get_stack_count(skill_id, time))
    }
}

/// A base duration under a duration multiplier of at most a doubling.
fn scale_duration(base_duration: u32, units: u32) -> (r: i64)
    requires
        units <= 3000,
    ensures
        r == round_div(base_duration * units, DURATION_SCALE as int),
        0 <= r <= 2 * base_duration + 1,
{
    assert(base_duration * units <= 3000 * base_duration) by (nonlinear_arith)
        requires
            0 <= units <= 3000,
            0 <= base_duration,
    ;
    let n: u128 = base_duration as u128 * units as u128;
    proof {
        lemma_round_div(n as int, 1500);
    }
    let q = rounded_quotient(n, DURATION_SCALE as u128);
    q as i64
}

/// The duration that `base_duration` of `skill_id` comes to under the build
/// at `time`.
fn get_duration(
    stats: &PlayerStats,
    player: &mut SimBuffUptimes,
    skill_id: u32,
    base_duration: u32,
    time: i64,
) -> (r: Result<i64, SimError>)
    requires
        states_wf(old(player)@),
    ensures
        states_wf(final(player)@),
        match r {
            Ok(d) => scaled_duration(stats@, old(player)@, skill_id, base_duration, time) == Ok::<
                _,
                SimError,
            >((final(player)@, d)) && 0 <= d <= 2 * base_duration + 1,
            Err(e) => scaled_duration(stats@, old(player)@, skill_id, base_duration, time) == Err::<
                (Map<u32, BuffStateView>, i64),
                _,
            >(e),
        },
{
    match get_skill_type(skill_id) {
        SkillType::Unknown => Err(SimError::UnknownBuff),
        SkillType::Ability => Err(SimError::UnknownBuff),
        SkillType::GenericBuff => Ok(base_duration as i64),
        SkillType::Boon => Ok(scale_duration(base_duration, stats.boon_duration())),
        SkillType::Condition => {
            match stats.gating_buff(skill_id) {
                None => Ok(scale_duration(base_duration, stats.condition_duration(skill_id, false))),
                Some(buff) => {
                    if !has_stacking_rules(buff) {
                        Err(SimError::UnknownBuff)
                    } else {
                        match stacks_at_time(player, buff, time) {
                            Err(e) => Err(e),
                            Ok(stacks) => Ok(
                                scale_duration(
                                    base_duration,
                                    stats.condition_duration(skill_id, stacks > 0),
                                ),
                            ),
                        }
                    }
                },
            }
        },
    }
}

/// The exact damage of a strike, rounded; nothing where the exact figure is
/// beyond 128 bits.
fn strike_damage(
    base_damage: u32,
    power: u64,
    coefficient: u32,
    critical_factor: u64,
    vulnerability: u32,
    power_damage_factor: u32,
    enemy_armor: u32,
) -> (r: Option<u128>)
    requires
        power <= 0x2_0000_0000,
        critical_factor <= 0x2_0000_0000,
        vulnerability <= 25,
        power_damage_factor <= 1475,
        enemy_armor > 0,
    ensures
        match r {
            None => strike_numerator(
                base_damage,
                power as int,
                coefficient,
                critical_factor as int,
                vulnerability,
                power_damage_factor as int,
            ) > u128::MAX,
            Some(dealt) => {
                &&& strike_numerator(
                    base_damage,
                    power as int,
                    coefficient,
                    critical_factor as int,
                    vulnerability,
                    power_damage_factor as int,
                ) <= u128::MAX
                &&& dealt == round_div(
                    strike_numerator(
                        base_damage,
                        power as int,
                        coefficient,
                        critical_factor as int,
                        vulnerability,
                        power_damage_factor as int,
                    ),
                    strike_denominator(enemy_armor),
                )
            },
        },
{
    assert(base_damage * power <= 0xffff_ffff * 0x2_0000_0000) by (nonlinear_arith)
        requires
            base_damage <= 0xffff_ffff,
            power <= 0x2_0000_0000,
    ;
    let a1: u128 = base_damage as u128 * power as u128;
    assert(a1 * coefficient <= 0xffff_ffff * 0x2_0000_0000 * 0xffff_ffff) by (nonlinear_arith)
        requires
            a1 <= 0xffff_ffff * 0x2_0000_0000,
            coefficient <= 0xffff_ffff,
    ;
    let a: u128 = a1 * coefficient as u128;
    let vf: u128 = 100 + vulnerability as u128;
    assert(critical_factor * vf <= 0x2_0000_0000 * 125) by (nonlinear_arith)
        requires
            critical_factor <= 0x2_0000_0000,
            vf <= 125,
    ;
    let b1: u128 = critical_factor as u128 * vf;
    assert(b1 * power_damage_factor <= 0x2_0000_0000 * 125 * 1475) by (nonlinear_arith)
        requires
            b1 <= 0x2_0000_0000 * 125,
            power_damage_factor <= 1475,
    ;
    let b: u128 = b1 * power_damage_factor as u128;
    let denominator: u128 = enemy_armor as u128 * 1_500_000_000_000;
    match a.checked_mul(b) {
        None => None,
        Some(numerator) => {
            proof {
                lemma_round_div(numerator as int, denominator as int);
            }
            Some(rounded_quotient(numerator, denominator))
        },
    }
}

/// What stacks deal in a tick does not shrink as stacks are added.
proof fn lemma_tick_total_grows(stacks: Seq<ConditionStack>, full: int, k: int)
    requires
        full >= 0,
        0 <= k <= stacks.len(),
    ensures
        0 <= tick_total(stacks.take(k), full) <= tick_total(stacks, full),
    decreases stacks.len() - k,
{
    lemma_tick_total_nonnegative(stacks.take(k), full);
    if k < stacks.len() {
        lemma_tick_total_grows(stacks, full, k + 1);
        assert(stacks.take(k + 1).drop_last() =~= stacks.take(k));
        lemma_stack_tick_damage_nonnegative(full, stacks[k].duration);
    } else {
        assert(stacks.take(k) =~= stacks);
    }
}

/// Stacks deal no damage below zero.
proof fn lemma_tick_total_nonnegative(stacks: Seq<ConditionStack>, full: int)
    requires
        full >= 0,
    ensures
        0 <= tick_total(stacks, full),
    decreases stacks.len(),
{
    if stacks.len() > 0 {
        lemma_tick_total_nonnegative(stacks.drop_last(), full);
        lemma_stack_tick_damage_nonnegative(full, stacks.last().duration);
    }
}

/// A stack deals no damage below zero, and is charged for no more than a
/// tick when it ends within one.
proof fn lemma_stack_tick_damage_nonnegative(full: int, duration: i64)
    requires
        full >= 0,
    ensures
        0 <= stack_tick_damage(full, duration),
        0 <= charged_time(duration),
        duration <= TICK_LENGTH ==> charged_time(duration) <= 1000,
{
    lemma_round_div(full, TICK_DENOMINATOR as int);
    assert(full * charged_time(duration) >= 0) by (nonlinear_arith)
        requires
            full >= 0,
            charged_time(duration) >= 0,
    ;
    lemma_round_div(full * charged_time(duration), TICK_DENOMINATOR * TICK_LENGTH);
}

/// The time that a stack which ends within the tick is charged for.
fn charged_for(duration: i64) -> (r: u128)
    requires
        duration <= TICK_LENGTH,
    ensures
        r == charged_time(duration),
        r <= 1000,
{
    if duration <= 0 {
        0
    } else {
        let steps: i64 = (duration + TICK_RATE_STEP - 1) / TICK_RATE_STEP;
        (steps * TICK_RATE_STEP) as u128
    }
}

/// One condition's part in a tick.
fn tick_one_condition(
    conditions: &mut TargetConditions,
    damage: &mut DamageDistribution,
    condition: DamagingCondition,
    full: u128,
    time: i64,
) -> (r: Result<(), SimError>)
    requires
        old(damage)@.wf(),
        full <= 100_000_000_000_000_000_000_000_000_000,
    ensures
        final(damage)@.wf(),
        match r {
            Ok(()) => tick_condition(old(conditions)@, old(damage)@, condition, full as int, time)
                == Ok::<_, SimError>((final(conditions)@, final(damage)@)),
            Err(e) => tick_condition(old(conditions)@, old(damage)@, condition, full as int, time)
                == Err::<(ConditionsView, DamageView), _>(e),
        },
{
    let ghost damage0 = damage@;
    let ghost stacks0 = conditions@.stacks_of(condition);
    let ghost outlasts = |s: ConditionStack| s.duration > TICK_LENGTH;
    let ghost shortened = |s: ConditionStack|
        ConditionStack { duration: (s.duration - TICK_LENGTH) as i64, last_update: time };
    let skill_id = condition.to_id();
    let mut kept: Vec<ConditionStack> = Vec::new();
    let mut k: usize = 0;
    {
        let stacks = conditions.stacks(condition);
        proof {
            reveal(Seq::filter);
            assert(stacks@.take(0).filter(outlasts) =~= Seq::<ConditionStack>::empty());
            assert(stacks@.take(0) =~= Seq::<ConditionStack>::empty());
        }
        while k < stacks.len()
            invariant
                k <= stacks@.len(),
                stacks@ == stacks0,
                stacks0 == old(conditions)@.stacks_of(condition),
                damage0 == old(damage)@,
                damage0.wf(),
                full <= 100_000_000_000_000_000_000_000_000_000,
                outlasts == |s: ConditionStack| s.duration > TICK_LENGTH,
                shortened == |s: ConditionStack|
                    (ConditionStack {
                        duration: (s.duration - TICK_LENGTH) as i64,
                        last_update: time,
                    }),
                kept@ =~= stacks@.take(k as int).filter(outlasts).map_values(shortened),
                damage@.wf(),
                skill_id == condition.spec_to_id(),
                damage0.total + tick_total(stacks@.take(k as int), full as int) <= u64::MAX,
                damage@ == if k == 0 {
                    damage0
                } else {
                    damage0.added(skill_id, tick_total(stacks@.take(k as int), full as int))
                },
            decreases stacks@.len() - k,
        {
            let stack = stacks[k];
            proof {
                reveal(Seq::filter);
                assert(stacks@.take(k + 1).drop_last() =~= stacks@.take(k as int));
                assert(stacks@.take(k + 1).last() == stack);
                lemma_tick_total_grows(stacks@, full as int, k + 1);
                lemma_tick_total_grows(stacks@, full as int, k as int);
                lemma_stack_tick_damage_nonnegative(full as int, stack.duration);
                lemma_part_within_sum(damage0.by_skill, skill_id);
            }
            let dealt: u128 = if stack.duration > TICK_LENGTH {
                rounded_quotient(full, TICK_DENOMINATOR)
            } else {
                let charged = charged_for(stack.duration);
                assert(full * charged <= 100_000_000_000_000_000_000_000_000_000 * 1000)
                    by (nonlinear_arith)
                    requires
                        full <= 100_000_000_000_000_000_000_000_000_000,
                        charged <= 1000,
                ;
                rounded_quotient(full * charged, TICK_DENOMINATOR * 1000)
            };
            assert(dealt == stack_tick_damage(full as int, stack.duration));
            proof {
                if k == 0 {
                    assert(stacks@.take(0).len() == 0);
                }
                assert(tick_total(stacks@.take(k + 1), full as int) == tick_total(
                    stacks@.take(k as int),
                    full as int,
                ) + dealt);
                assert(damage@.total == damage0.total + tick_total(
                    stacks@.take(k as int),
                    full as int,
                ));
            }
            if dealt > (u64::MAX - damage.total_damage()) as u128 {
                assert(damage0.total + tick_total(stacks0, full as int) > u64::MAX);
                return Err(SimError::Overflow);
            }
            let ghost before = damage@;
            damage.add_damage(skill_id, dealt as u64);
            proof {
                let so_far = tick_total(stacks@.take(k as int), full as int);
                assert(damage@.by_skill =~= damage0.added(
                    skill_id,
                    so_far + dealt,
                ).by_skill);
            }
            if stack.duration > TICK_LENGTH {
                kept.push(
                    ConditionStack { duration: stack.duration - TICK_LENGTH, last_update: time },
                );
            }
            k += 1;
        }
        proof {
            assert(stacks@.take(k as int) =~= stacks@);
        }
    }
    if k > 0 {
        conditions.set_stacks(condition, kept);
    }
    Ok(())
}

/// A replay in progress: the build with the weapon set in hand, the buffs on
/// the player and on the target, the conditions on the target and the damage
/// dealt so far.
pub struct Replay {
    pub stats: PlayerStats,
    pub player_uptimes: SimBuffUptimes,
    pub target_uptimes: SimBuffUptimes,
    pub target_conditions: TargetConditions,
    pub damage: DamageDistribution,
}

impl View for Replay {
    type V = SimState;

    open spec fn view(&self) -> SimState {
        SimState {
            weapon_set: self.stats.weapon_set,
            player: self.player_uptimes@,
            target: self.target_uptimes@,
            conditions: self.target_conditions@,
            damage: self.damage@,
        }
    }
}

impl Replay {
    /// Both trackers are well-formed, and the total damage is the sum of what
    /// the sources have dealt.
    pub open spec fn wf(&self) -> bool {
        &&& states_wf(self.player_uptimes@)
        &&& states_wf(self.target_uptimes@)
        &&& self.damage@.wf()
    }

    /// A replay of the build `stats` before its first event.
    pub fn new(stats: PlayerStats) -> (r: Self)
        ensures
            r.wf(),
            r.stats == stats,
            r@ == initial_state(stats@),
    {
        Replay {
            stats,
            player_uptimes: SimBuffUptimes::new(),
            target_uptimes: SimBuffUptimes::new(),
            target_conditions: TargetConditions::new(),
            damage: DamageDistribution::new(),
        }
    }

    /// Adds `dealt` to the account of `skill_id`, if the total stays within
    /// 64 bits.
    fn deal(&mut self, skill_id: u32, dealt: u128) -> (r: Result<(), SimError>)
        requires
            old(self).wf(),
        ensures
            final(self).wf(),
            final(self).stats == old(self).stats,
            final(self).player_uptimes == old(self).player_uptimes,
            final(self).target_uptimes == old(self).target_uptimes,
            final(self).target_conditions == old(self).target_conditions,
            match r {
                Ok(()) => old(self)@.damage.total + dealt <= u64::MAX && final(self).damage@ == old(
                    self,
                )@.damage.added(skill_id, dealt as int),
                Err(e) => e == SimError::Overflow && old(self)@.damage.total + dealt > u64::MAX,
            },
    {
        if dealt > (u64::MAX - self.damage.total_damage()) as u128 {
            Err(SimError::Overflow)
        } else {
            self.damage.add_damage(skill_id, dealt as u64);
            Ok(())
        }
    }

    fn physical_hit(
        &mut self,
        enemy_max_health: u64,
        exclusions: Exclusions,
        time: i64,
        base_damage: u32,
        coefficient: u32,
        enemy_armor: u32,
        source: PhysicalHitSource,
        critical: bool,
    ) -> (r: Result<(), SimError>)
        requires
            old(self).wf(),
        ensures
            final(self).wf(),
            final(self).stats == old(self).stats,
            match r {
                Ok(()) => after_physical_hit(
                    old(self).stats@,
                    enemy_max_health,
                    exclusions,
                    old(self)@,
                    time,
                    base_damage,
                    coefficient,
                    enemy_armor,
                    source,
                    critical,
                ) == Ok::<_, SimError>(final(self)@),
                Err(e) => after_physical_hit(
                    old(self).stats@,
                    enemy_max_health,
                    exclusions,
                    old(self)@,
                    time,
                    base_damage,
                    coefficient,
                    enemy_armor,
                    source,
                    critical,
                ) == Err::<SimState, _>(e),
            },
    {
        assert(wielding(self.stats@, self.stats.weapon_set) == self.stats@);
        match source {
            PhysicalHitSource::Unknown => Err(SimError::UnknownSource),
            PhysicalHitSource::Skill(id) => {
                if id == skills::RING_OF_EARTH && exclusions.geomancy {
                    return Ok(());
                }
                let might = match stacks_at_time(&mut self.player_uptimes, skills::MIGHT, time) {
                    Ok(n) => n,
                    Err(e) => {
                        return Err(e);
                    },
                };
                let kallas_fervor = if critical {
                    match stacks_at_time(&mut self.player_uptimes, skills::KALLAS_FERVOR, time) {
                        Ok(n) => n,
                        Err(e) => {
                            return Err(e);
                        },
                    }
                } else {
                    0
                };
                let vulnerability = match stacks_at_time(
                    &mut self.target_uptimes,
                    skills::VULNERABILITY,
                    time,
                ) {
                    Ok(n) => n,
                    Err(e) => {
                        return Err(e);
                    },
                };
                if enemy_armor == 0 {
                    return Err(SimError::ZeroArmor);
                }
                let power = self.stats.power(might);
                let critical_factor = if critical {
                    self.stats.critical_multiplier(kallas_fervor)
                } else {
                    DURATION_SCALE as u64
                };
                let total = self.damage.total_damage();
                let left = if total <= enemy_max_health {
                    enemy_max_health - total
                } else {
                    0
                };
                let factor = self.stats.power_damage_mult(vulnerability, left, enemy_max_health);
                match strike_damage(
                    base_damage,
                    power,
                    coefficient,
                    critical_factor,
                    vulnerability,
                    factor,
                    enemy_armor,
                ) {
                    None => Err(SimError::Overflow),
                    Some(dealt) => self.deal(id, dealt),
                }
            },
        }
    }

    fn buff_application(&mut self, on_target: bool, time: i64, skill_id: u32, base_duration: u32) -> (r:
        Result<(), SimError>)
        requires
            old(self).wf(),
        ensures
            final(self).wf(),
            final(self).stats == old(self).stats,
            match r {
                Ok(()) => after_buff_application(
                    old(self).stats@,
                    old(self)@,
                    on_target,
                    time,
                    skill_id,
                    base_duration,
                ) == Ok::<_, SimError>(final(self)@),
                Err(e) => after_buff_application(
                    old(self).stats@,
                    old(self)@,
                    on_target,
                    time,
                    skill_id,
                    base_duration,
                ) == Err::<SimState, _>(e),
            },
    {
        assert(wielding(self.stats@, self.stats.weapon_set) == self.stats@);
        if !has_stacking_rules(skill_id) {
            return Err(SimError::UnknownBuff);
        }
        let duration = match get_duration(
            &self.stats,
            &mut self.player_uptimes,
            skill_id,
            base_duration,
            time,
        ) {
            Ok(d) => d,
            Err(e) => {
                return Err(e);
            },
        };
        if on_target {
            let reversed = match self.target_uptimes.last_seen(skill_id) {
                Some(seen) => time < seen,
                None => false,
            };
            if reversed {
                return Err(SimError::TimeReversed);
            }
            self.target_uptimes.add_stack(skill_id, duration, time);
        } else {
            let reversed = match self.player_uptimes.last_seen(skill_id) {
                Some(seen) => time < seen,
                None => false,
            };
            if reversed {
                return Err(SimError::TimeReversed);
            }
            self.player_uptimes.add_stack(skill_id, duration, time);
        }
        Ok(())
    }

    fn condition_application(
        &mut self,
        exclusions: Exclusions,
        time: i64,
        condition: DamagingCondition,
        base_duration: u32,
        source: ConditionApplicationSource,
    ) -> (r: Result<(), SimError>)
        requires
            old(self).wf(),
        ensures
            final(self).wf(),
            final(self).stats == old(self).stats,
            match r {
                Ok(()) => after_condition_application(
                    old(self).stats@,
                    exclusions,
                    old(self)@,
                    time,
                    condition,
                    base_duration,
                    source,
                ) == Ok::<_, SimError>(final(self)@),
                Err(e) => after_condition_application(
                    old(self).stats@,
                    exclusions,
                    old(self)@,
                    time,
                    condition,
                    base_duration,
                    source,
                ) == Err::<SimState, _>(e),
            },
    {
        assert(wielding(self.stats@, self.stats.weapon_set) == self.stats@);
        let excluded = match source {
            ConditionApplicationSource::Sigil(Sigil::Doom) => exclusions.doom,
            ConditionApplicationSource::Sigil(Sigil::Earth) => (exclusions.earth_1
                && self.stats.weapon_set == WeaponSet::Land1) || (exclusions.earth_2
                && self.stats.weapon_set == WeaponSet::Land2),
            ConditionApplicationSource::Skill(id) => id == skills::RING_OF_EARTH
                && exclusions.geomancy,
            _ => false,
        };
        if excluded {
            return Ok(());
        }
        let duration = match get_duration(
            &self.stats,
            &mut self.player_uptimes,
            condition.to_id(),
            base_duration,
            time,
        ) {
            Ok(d) => d,
            Err(e) => {
                return Err(e);
            },
        };
        self.target_conditions.add_condition(condition, duration, time);
        Ok(())
    }

    /// The part in a tick of the first `n` conditions of the ticking order.
    fn tick_first(
        &mut self,
        n: usize,
        target_moving: bool,
        might: u32,
        kallas_fervor: u32,
        vulnerability: u32,
        time: i64,
    ) -> (r: Result<(), SimError>)
        requires
            old(self).wf(),
            n <= 5,
            might <= 25,
            kallas_fervor <= 5,
            vulnerability <= 25,
        ensures
            final(self).wf(),
            final(self).stats == old(self).stats,
            final(self).player_uptimes == old(self).player_uptimes,
            final(self).target_uptimes == old(self).target_uptimes,
            match r {
                Ok(()) => tick_conditions(
                    old(self).stats@,
                    old(self)@.conditions,
                    old(self)@.damage,
                    n as nat,
                    target_moving,
                    might,
                    kallas_fervor,
                    vulnerability,
                    time,
                ) == Ok::<_, SimError>((final(self)@.conditions, final(self)@.damage)),
                Err(e) => tick_conditions(
                    old(self).stats@,
                    old(self)@.conditions,
                    old(self)@.damage,
                    n as nat,
                    target_moving,
                    might,
                    kallas_fervor,
                    vulnerability,
                    time,
                ) == Err::<(ConditionsView, DamageView), _>(e),
            },
        decreases n,
    {
        if n == 0 {
            return Ok(());
        }
        match self.tick_first(n - 1, target_moving, might, kallas_fervor, vulnerability, time) {
            Err(e) => {
                return Err(e);
            },
            Ok(()) => {},
        }
        let condition = if n == 1 {
            DamagingCondition::Bleeding
        } else if n == 2 {
            DamagingCondition::Burning
        } else if n == 3 {
            DamagingCondition::Confusion
        } else if n == 4 {
            DamagingCondition::Poisoned
        } else {
            DamagingCondition::Torment
        };
        assert(condition == ticking_order()[n - 1]);
        let base = get_condition_base_damage(condition, target_moving) as u128;
        let multiplier = get_condition_multiplier(condition, target_moving) as u128;
        let condition_damage = self.stats.condition_damage(might) as u128;
        let factor = self.stats.condition_damage_mult(condition, kallas_fervor) as u128;
        let vf = vulnerability_multiplier(vulnerability) as u128;
        assert(condition_damage * multiplier <= 0x2_0000_0000 * 155) by (nonlinear_arith)
            requires
                condition_damage <= 0x2_0000_0000,
                multiplier <= 155,
        ;
        let per_stack: u128 = 100 * base + condition_damage * multiplier;
        assert(per_stack * factor <= 1_400_000_000_000 * 50_000_000_000_000) by (nonlinear_arith)
            requires
                per_stack <= 1_400_000_000_000,
                factor <= 50_000_000_000_000,
        ;
        let scaled: u128 = per_stack * factor;
        assert(scaled * vf <= 1_400_000_000_000 * 50_000_000_000_000 * 125) by (nonlinear_arith)
            requires
                scaled <= 1_400_000_000_000 * 50_000_000_000_000,
                vf <= 125,
        ;
        let full: u128 = scaled * vf;
        tick_one_condition(&mut self.target_conditions, &mut self.damage, condition, full, time)
    }

    fn condition_tick(&mut self, time: i64, target_moving: bool) -> (r: Result<(), SimError>)
        requires
            old(self).wf(),
        ensures
            final(self).wf(),
            final(self).stats == old(self).stats,
            match r {
                Ok(()) => after_condition_tick(old(self).stats@, old(self)@, time, target_moving)
                    == Ok::<_, SimError>(final(self)@),
                Err(e) => after_condition_tick(old(self).stats@, old(self)@, time, target_moving)
                    == Err::<SimState, _>(e),
            },
    {
        assert(wielding(self.stats@, self.stats.weapon_set) == self.stats@);
        let might = match stacks_at_time(&mut self.player_uptimes, skills::MIGHT, time) {
            Ok(n) => n,
            Err(e) => {
                return Err(e);
            },
        };
        let kallas_fervor = match stacks_at_time(
            &mut self.player_uptimes,
            skills::KALLAS_FERVOR,
            time,
        ) {
            Ok(n) => n,
            Err(e) => {
                return Err(e);
            },
        };
        let vulnerability = match stacks_at_time(
            &mut self.target_uptimes,
            skills::VULNERABILITY,
            time,
        ) {
            Ok(n) => n,
            Err(e) => {
                return Err(e);
            },
        };
        self.tick_first(5, target_moving, might, kallas_fervor, vulnerability, time)
    }

    fn life_steal(&mut self, time: i64, base_damage: u32, power_scaling: u32, source: LifeStealSource) -> (r:
        Result<(), SimError>)
        requires
            old(self).wf(),
        ensures
            final(self).wf(),
            final(self).stats == old(self).stats,
            match r {
                Ok(()) => after_life_steal(
                    old(self).stats@,
                    old(self)@,
                    time,
                    base_damage,
                    power_scaling,
                    source,
                ) == Ok::<_, SimError>(final(self)@),
                Err(e) => after_life_steal(
                    old(self).stats@,
                    old(self)@,
                    time,
                    base_damage,
                    power_scaling,
                    source,
                ) == Err::<SimState, _>(e),
            },
    {
        assert(wielding(self.stats@, self.stats.weapon_set) == self.stats@);
        match source {
            LifeStealSource::Unknown => Err(SimError::UnknownSource),
            LifeStealSource::Buff(id) => {
                let might = match stacks_at_time(&mut self.player_uptimes, skills::MIGHT, time) {
                    Ok(n) => n,
                    Err(e) => {
                        return Err(e);
                    },
                };
                let power = self.stats.power(might) as u128;
                assert(power * power_scaling <= 0x2_0000_0000 * 0xffff_ffff) by (nonlinear_arith)
                    requires
                        power <= 0x2_0000_0000,
                        power_scaling <= 0xffff_ffff,
                ;
                let exact: u128 = 100 * base_damage as u128 + power * power_scaling as u128;
                let dealt = rounded_quotient(exact, 1000);
                self.deal(id, dealt)
            },
        }
    }

    /// Applies one event. A replay that has failed is of no further use.
    pub fn apply(&mut self, event: &SimulationEvent, enemy_max_health: u64, exclusions: Exclusions) -> (r:
        Result<(), SimError>)
        requires
            old(self).wf(),
        ensures
            final(self).wf(),
            final(self).stats@ == wielding(old(self).stats@, final(self).stats.weapon_set),
            match r {
                Ok(()) => after_event(
                    old(self).stats@,
                    enemy_max_health,
                    exclusions,
                    old(self)@,
                    *event,
                ) == Ok::<_, SimError>(final(self)@),
                Err(e) => after_event(
                    old(self).stats@,
                    enemy_max_health,
                    exclusions,
                    old(self)@,
                    *event,
                ) == Err::<SimState, _>(e),
            },
    {
        reveal(after_event);
        assert(wielding(self.stats@, self.stats.weapon_set) == self.stats@);
        match *event {
            SimulationEvent::PhysicalHit {
                time,
                base_damage,
                coefficient,
                enemy_armor,
                source,
                critical,
            } => self.physical_hit(
                enemy_max_health,
                exclusions,
                time,
                base_damage,
                coefficient,
                enemy_armor,
                source,
                critical,
            ),
            SimulationEvent::SelfBuffApplication {
                time,
                skill_id,
                base_duration,
            } => self.buff_application(false, time, skill_id, base_duration),
            SimulationEvent::TargetBuffApplication {
                time,
                skill_id,
                base_duration,
            } => self.buff_application(true, time, skill_id, base_duration),
            SimulationEvent::TargetConditionApplication {
                time,
                condition,
                base_duration,
                source,
            } => self.condition_application(exclusions, time, condition, base_duration, source),
            SimulationEvent::ConditionTick { time, target_moving } => self.condition_tick(
                time,
                target_moving,
            ),
            SimulationEvent::LifeStealHit {
                time,
                base_damage,
                power_scaling,
                source,
            } => self.life_steal(time, base_damage, power_scaling, source),
            SimulationEvent::WeaponSwap { time, weapon_set } => {
                self.stats.weapon_set = weapon_set;
                Ok(())
            },
        }
    }
}

/// Replays `events` under the build `stats` against a target of
/// `enemy_max_health`, leaving out what the sources named by the four
/// switches contributed, and gives the damage dealt, source by source.
///
/// The result is a function of the arguments alone: the same events, build
/// and switches give the same distribution, whenever and wherever they are
/// replayed.
pub fn sim(
    stats: PlayerStats,
    events: &[SimulationEvent],
    skills: &[EvtcSkill],
    enemy_max_health: u64,
    remove_doom: bool,
    remove_geomancy: bool,
    remove_earth_1: bool,
    remove_earth_2: bool,
) -> (r: Result<DamageDistribution, SimError>)
    ensures
        match r {
            Ok(distribution) => {
                &&& after_events(
                    stats@,
                    enemy_max_health,
                    (Exclusions {
                        doom: remove_doom,
                        geomancy: remove_geomancy,
                        earth_1: remove_earth_1,
                        earth_2: remove_earth_2,
                    }),
                    initial_state(stats@),
                    events@,
                ) is Ok
                &&& distribution@ == after_events(
                    stats@,
                    enemy_max_health,
                    (Exclusions {
                        doom: remove_doom,
                        geomancy: remove_geomancy,
                        earth_1: remove_earth_1,
                        earth_2: remove_earth_2,
                    }),
                    initial_state(stats@),
                    events@,
                )->Ok_0.damage
                &&& distribution@.wf()
            },
            Err(e) => after_events(
                stats@,
                enemy_max_health,
                (Exclusions {
                    doom: remove_doom,
                    geomancy: remove_geomancy,
                    earth_1: remove_earth_1,
                    earth_2: remove_earth_2,
                }),
                initial_state(stats@),
                events@,
            ) == Err::<SimState, _>(e),
        },
{
    let exclusions = Exclusions {
        doom: remove_doom,
        geomancy: remove_geomancy,
        earth_1: remove_earth_1,
        earth_2: remove_earth_2,
    };
    let mut replay = Replay::new(stats);
    let mut k: usize = 0;
    assert(events@.skip(0) =~= events@);
    while k < events.len()
        invariant
            k <= events@.len(),
            replay.wf(),
            replay.stats@ == wielding(stats@, replay.stats.weapon_set),
            exclusions == (Exclusions {
                doom: remove_doom,
                geomancy: remove_geomancy,
                earth_1: remove_earth_1,
                earth_2: remove_earth_2,
            }),
            after_events(stats@, enemy_max_health, exclusions, replay@, events@.skip(k as int))
                == after_events(
                stats@,
                enemy_max_health,
                exclusions,
                initial_state(stats@),
                events@,
            ),
        decreases events@.len() - k,
    {
        proof {
            lemma_after_event_of_any_hand(
                stats@,
                replay.stats.weapon_set,
                enemy_max_health,
                exclusions,
                replay@,
                events@[k as int],
            );
            assert(events@.skip(k as int)[0] == events@[k as int]);
            assert(events@.skip(k as int).skip(1) =~= events@.skip(k + 1));
        }
        let ghost before = replay@;
        match replay.apply(&events[k], enemy_max_health, exclusions) {
            Err(e) => {
                assert(after_event(stats@, enemy_max_health, exclusions, before, events@[k as int])
                    == Err::<SimState, _>(e));
                assert(after_events(
                    stats@,
                    enemy_max_health,
                    exclusions,
                    before,
                    events@.skip(k as int),
                ) == Err::<SimState, _>(e));
                return Err(e);
            },
            Ok(()) => {},
        }
        k += 1;
    }
    Ok(replay.damage)
}

} // verus!
