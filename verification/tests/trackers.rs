use combat_resim::gamedata::{
    get_skill_type, get_stack_limit, get_stacking_type, has_stacking_rules, BuffStackingType,
    SkillType,
};
use combat_resim::ids::skills;
use combat_resim::{BuffUptimes, LogBuffUptimes, SimBuffState, SimBuffUptimes};

#[test]
fn duration_buff_with_limit_one_keeps_longer_stack() {
    let state = SimBuffState::new(BuffStackingType::Duration, 0, 1);
    let state = state.insert(3000);
    let state = state.insert(5000);
    let state = state.advance(4000);
    assert_eq!(state.active_duration(), Some(1000));
    assert_eq!(state.remaining_durations(), Vec::<i64>::new());
    assert_eq!(state.stack_count(), 1);
}

#[test]
fn duration_buff_with_limit_one_drops_shorter_newcomer() {
    let state = SimBuffState::new(BuffStackingType::Duration, 0, 1);
    let state = state.insert(5000).insert(3000).insert(5000);
    assert_eq!(state.active_duration(), Some(5000));
    assert_eq!(state.remaining_durations(), Vec::<i64>::new());
}

#[test]
fn intensity_buff_with_limit_two_evicts_shortest() {
    let state = SimBuffState::new(BuffStackingType::Intensity, 0, 2);
    let state = state.insert(1000).insert(2000).insert(3000);
    assert_eq!(state.remaining_durations(), vec![2000, 3000]);
    assert_eq!(state.stack_count(), 2);
}

#[test]
fn intensity_buff_keeps_stacks_when_newcomer_is_not_longer() {
    let state = SimBuffState::new(BuffStackingType::Intensity, 0, 2);
    let state = state.insert(1000).insert(2000).insert(1000);
    assert_eq!(state.remaining_durations(), vec![1000, 2000]);
    let state = state.insert(500);
    assert_eq!(state.remaining_durations(), vec![1000, 2000]);
}

#[test]
fn intensity_eviction_takes_first_of_equally_short_stacks() {
    let state = SimBuffState::new(BuffStackingType::Intensity, 0, 3);
    let state = state.insert(1000).insert(4000).insert(1000).insert(2000);
    // the first 1000 leaves, the last stack moves into its place
    assert_eq!(state.remaining_durations(), vec![1000, 4000, 2000]);
}

#[test]
fn intensity_buff_decays_every_stack() {
    let state = SimBuffState::new(BuffStackingType::Intensity, 100, 5);
    let state = state.insert(1000).insert(3000).insert(2000);
    let state = state.advance(1100);
    assert_eq!(state.remaining_durations(), vec![2000, 1000]);
    assert_eq!(state.stack_count(), 2);
    assert_eq!(state.last_update_time(), 1100);
    let state = state.advance(5000);
    assert_eq!(state.stack_count(), 0);
}

#[test]
fn intensity_buff_never_counts_more_than_its_limit() {
    let mut state = SimBuffState::new(BuffStackingType::Intensity, 0, 4);
    for k in 0..20 {
        state = state.insert(1000 + 37 * k);
        assert!(state.stack_count() <= 4);
        state = state.advance(10 * k);
        assert!(state.stack_count() <= 4);
    }
    assert_eq!(state.stack_count(), 4);
}

#[test]
fn duration_buff_counts_zero_or_one() {
    let mut state = SimBuffState::new(BuffStackingType::Duration, 0, 3);
    assert_eq!(state.stack_count(), 0);
    for k in 0..10 {
        state = state.insert(500 + 100 * k);
        assert_eq!(state.stack_count(), 1);
    }
    state = state.advance(100_000);
    assert_eq!(state.stack_count(), 0);
}

#[test]
fn duration_buff_promotes_longest_queued_stack() {
    let state = SimBuffState::new(BuffStackingType::Duration, 0, 9);
    let state = state.insert(1000).insert(2000).insert(5000).insert(3000);
    assert_eq!(state.active_duration(), Some(1000));
    assert_eq!(state.remaining_durations(), vec![2000, 5000, 3000]);
    // 1000 runs out at 1000, then the stack of 5000 runs for 500
    let state = state.advance(1500);
    assert_eq!(state.active_duration(), Some(4500));
    assert_eq!(state.remaining_durations(), vec![2000, 3000]);
    // 4500 more use it up, then the stack of 3000 runs for 500
    let state = state.advance(6500);
    assert_eq!(state.active_duration(), Some(2500));
    assert_eq!(state.remaining_durations(), vec![2000]);
    // everything runs out
    let state = state.advance(20_000);
    assert_eq!(state.active_duration(), None);
    assert_eq!(state.remaining_durations(), Vec::<i64>::new());
    assert_eq!(state.stack_count(), 0);
}

#[test]
fn duration_buff_ends_when_active_stack_runs_out_alone() {
    let state = SimBuffState::new(BuffStackingType::Duration, 0, 9);
    let state = state.insert(3000).advance(4000);
    assert_eq!(state.active_duration(), None);
    assert_eq!(state.stack_count(), 0);
}

#[test]
fn duration_buff_queue_holds_one_less_than_limit() {
    let state = SimBuffState::new(BuffStackingType::Duration, 0, 3);
    let state = state.insert(1000).insert(2000).insert(3000);
    assert_eq!(state.remaining_durations(), vec![2000, 3000]);
    // queue is full: 2500 replaces the shortest queued stack
    let state = state.insert(2500);
    assert_eq!(state.active_duration(), Some(1000));
    assert_eq!(state.remaining_durations(), vec![3000, 2500]);
    // 100 is not longer than the shortest queued stack
    let state = state.insert(100);
    assert_eq!(state.remaining_durations(), vec![3000, 2500]);
}

#[test]
fn advancing_by_nothing_changes_nothing() {
    let state = SimBuffState::new(BuffStackingType::Duration, 50, 9);
    let state = state.insert(1000).insert(700).advance(50);
    assert_eq!(state.active_duration(), Some(1000));
    assert_eq!(state.remaining_durations(), vec![700]);
}

#[test]
fn clearing_and_removing_shortest() {
    let state = SimBuffState::new(BuffStackingType::Intensity, 0, 5);
    let state = state.insert(300).insert(100).insert(200);
    let state = state.remove_shortest();
    assert_eq!(state.remaining_durations(), vec![300, 200]);
    let state = state.clear();
    assert_eq!(state.stack_count(), 0);
    let state = state.remove_shortest();
    assert_eq!(state.stack_count(), 0);

    let state = SimBuffState::new(BuffStackingType::Duration, 0, 5);
    let state = state.insert(300).insert(100).insert(200);
    let state = state.remove_shortest();
    assert_eq!(state.active_duration(), Some(300));
    assert_eq!(state.remaining_durations(), vec![200]);
    let state = state.remove_shortest().remove_shortest();
    assert_eq!(state.active_duration(), None);
}

#[test]
fn sim_tracker_follows_stacking_rules_of_each_buff() {
    let mut uptimes = SimBuffUptimes::new();
    assert_eq!(uptimes.last_seen(skills::MIGHT), None);
    for _ in 0..30 {
        uptimes.add_stack(skills::MIGHT, 10_000, 0);
    }
    assert_eq!(uptimes.get_stack_count(skills::MIGHT, 0), 25);
    assert_eq!(uptimes.last_seen(skills::MIGHT), Some(0));
    assert_eq!(uptimes.current_stack_count(skills::MIGHT), 25);
    for _ in 0..7 {
        uptimes.add_stack(skills::KALLAS_FERVOR, 10_000, 0);
    }
    assert_eq!(uptimes.get_stack_count(skills::KALLAS_FERVOR, 5), 5);
    for _ in 0..12 {
        uptimes.add_stack(skills::FURY, 1000, 0);
    }
    assert_eq!(uptimes.get_stack_count(skills::FURY, 0), 1);
    assert!(uptimes.is_applied(skills::FURY, 8999));
    assert!(!uptimes.is_applied(skills::FURY, 9000));
    assert!(!uptimes.is_applied(skills::VULNERABILITY, 9000));
    assert_eq!(uptimes.get_stack_count(skills::MIGHT, 9999), 25);
    assert_eq!(uptimes.get_stack_count(skills::MIGHT, 10_000), 0);
}

#[test]
fn sim_tracker_update_and_insert() {
    let mut uptimes = SimBuffUptimes::new();
    uptimes.update_state(skills::VULNERABILITY, 100);
    assert_eq!(uptimes.current_stack_count(skills::VULNERABILITY), 0);
    uptimes.insert_stack(skills::VULNERABILITY, 500);
    uptimes.insert_stack(skills::VULNERABILITY, 900);
    assert_eq!(uptimes.current_stack_count(skills::VULNERABILITY), 2);
    uptimes.update_state(skills::VULNERABILITY, 600);
    assert_eq!(uptimes.current_stack_count(skills::VULNERABILITY), 1);
}

#[test]
fn sim_tracker_removes_stacks() {
    let mut uptimes = SimBuffUptimes::new();
    uptimes.add_stack(skills::MIGHT, 3000, 0);
    uptimes.add_stack(skills::MIGHT, 1000, 0);
    uptimes.add_stack(skills::MIGHT, 2000, 0);
    uptimes.remove_stack(skills::MIGHT, 0);
    assert_eq!(uptimes.get_stack_count(skills::MIGHT, 0), 2);
    assert_eq!(uptimes.get_stack_count(skills::MIGHT, 1500), 2);
    uptimes.remove_last_stack(skills::MIGHT, 1600);
    assert_eq!(uptimes.get_stack_count(skills::MIGHT, 1600), 0);
}

#[test]
fn log_tracker_counts_stacks() {
    let mut buffs = LogBuffUptimes::new();
    assert_eq!(buffs.get_stack_count(skills::MIGHT, 0), 0);
    assert!(!buffs.is_applied(skills::MIGHT, 0));
    buffs.add_stack(skills::MIGHT, 5000, 10);
    buffs.add_stack(skills::MIGHT, 5000, 10);
    buffs.add_stack(skills::FURY, 5000, 10);
    assert_eq!(buffs.get_stack_count(skills::MIGHT, 1_000_000), 2);
    assert_eq!(buffs.count(skills::MIGHT), 2);
    assert!(buffs.is_applied(skills::FURY, 0));
    buffs.remove_stack(skills::MIGHT, 20);
    assert_eq!(buffs.get_stack_count(skills::MIGHT, 20), 1);
    buffs.add_stack(skills::MIGHT, 1, 30);
    buffs.remove_last_stack(skills::MIGHT, 40);
    assert_eq!(buffs.get_stack_count(skills::MIGHT, 40), 0);
    assert!(!buffs.is_applied(skills::MIGHT, 40));
    assert_eq!(buffs.get_stack_count(skills::FURY, 40), 1);
}

#[test]
fn skill_table() {
    assert_eq!(get_skill_type(skills::BLEEDING), SkillType::Condition);
    assert_eq!(get_skill_type(skills::BURNING), SkillType::Condition);
    assert_eq!(get_skill_type(skills::CONFUSION), SkillType::Condition);
    assert_eq!(get_skill_type(skills::POISONED), SkillType::Condition);
    assert_eq!(get_skill_type(skills::TORMENT), SkillType::Condition);
    assert_eq!(get_skill_type(skills::CHILLED), SkillType::Condition);
    assert_eq!(get_skill_type(skills::VULNERABILITY), SkillType::Condition);
    assert_eq!(get_skill_type(skills::MIGHT), SkillType::Boon);
    assert_eq!(get_skill_type(skills::FURY), SkillType::Boon);
    assert_eq!(get_skill_type(skills::KALLAS_FERVOR), SkillType::GenericBuff);
    assert_eq!(get_skill_type(skills::BATTLE_SCARS), SkillType::Unknown);
    assert_eq!(get_skill_type(0), SkillType::Unknown);

    assert_eq!(get_stack_limit(skills::MIGHT), 25);
    assert_eq!(get_stack_limit(skills::KALLAS_FERVOR), 5);
    assert_eq!(get_stack_limit(skills::VULNERABILITY), 25);
    assert_eq!(get_stack_limit(skills::FURY), 9);

    assert_eq!(get_stacking_type(skills::MIGHT), BuffStackingType::Intensity);
    assert_eq!(get_stacking_type(skills::KALLAS_FERVOR), BuffStackingType::Intensity);
    assert_eq!(get_stacking_type(skills::VULNERABILITY), BuffStackingType::Intensity);
    assert_eq!(get_stacking_type(skills::FURY), BuffStackingType::Duration);

    assert!(has_stacking_rules(skills::FURY));
    assert!(!has_stacking_rules(skills::BLEEDING));
}
