use gauge_battle::step_api::manager::RunManager;
use gauge_battle::step_api::{
    activate_trait, create_run, destroy_run, get_snapshot, reset_run, step, step_with_action, ActionInput,
};

#[test]
fn handles_start_at_one_and_count_up() {
    let mut manager = RunManager::new();
    assert_eq!(create_run(&mut manager, 1, 6), 1);
    assert_eq!(create_run(&mut manager, 2, 6), 2);
    assert_eq!(manager.create_run(3, 6), 3);
    assert_eq!(manager.runs.len(), 3);
    assert_eq!(manager.runs[&2].seed, 2);
}

#[test]
fn handles_saturate() {
    let mut manager = RunManager::new();
    manager.next_handle = u32::MAX - 1;
    assert_eq!(create_run(&mut manager, 1, 6), u32::MAX);
    assert_eq!(create_run(&mut manager, 2, 6), u32::MAX);
    assert_eq!(manager.runs.len(), 1);
    assert_eq!(manager.runs[&u32::MAX].seed, 2);
}

#[test]
fn a_step_on_an_unknown_handle_is_refused() {
    let mut manager = RunManager::new();
    let result = step(&mut manager, 41, 100, None);
    assert!(result.events.is_empty());
    assert!(!result.need_input);
    assert!(result.ended);
    assert_eq!(result.error, "invalid_handle:41");
    let result = step_with_action(&mut manager, 0, 100, "basic", 0);
    assert_eq!(result.error, "invalid_handle:0");
    assert!(result.ended);
    let result = step_with_action(&mut manager, 7, 100, "dance", 0);
    assert_eq!(result.error, "invalid_handle:7");
}

#[test]
fn a_step_with_an_unknown_action_is_refused_and_changes_nothing() {
    let mut manager = RunManager::new();
    let handle = create_run(&mut manager, 1, 6);
    let result = step_with_action(&mut manager, handle, 100, "dance", 2);
    assert!(result.events.is_empty());
    assert!(!result.need_input);
    assert!(!result.ended);
    assert_eq!(result.error, "invalid_action:dance");
    assert_eq!(manager.runs[&handle].node_index, 0);
    assert_eq!(manager.runs[&handle].elapsed_time, 0);
    let result = step_with_action(&mut manager, handle, 100, "Basic", 0);
    assert_eq!(result.error, "invalid_action:Basic");
    // On an ended run the flag says so.
    let over = create_run(&mut manager, 1, 0);
    assert!(step(&mut manager, over, 100, None).ended);
    let result = step_with_action(&mut manager, over, 100, "?", 0);
    assert!(result.ended);
    assert_eq!(result.error, "invalid_action:?");
}

#[test]
fn action_words_are_understood() {
    let mut manager = RunManager::new();
    let handle = create_run(&mut manager, 1, 6);
    let first = step_with_action(&mut manager, handle, 2900, "none", 0);
    assert!(first.error.is_empty());
    assert_eq!(first.events.len(), 3);
    assert!(first.need_input);
    let waiting = step_with_action(&mut manager, handle, 100, "", 0);
    assert!(waiting.need_input);
    assert!(waiting.events.is_empty());
    let acted = step_with_action(&mut manager, handle, 0, "skill", 99);
    assert!(acted.error.is_empty());
    assert!(acted.events[1].contains(r#""action_name":"Ruin Strike""#));
}

#[test]
fn skill_arguments_are_clamped_into_range() {
    for (arg, name) in [(-5, "Ember Lash"), (0, "Ember Lash"), (1, "Frost Bite"), (2, "Arc Jolt"), (3, "Ruin Strike"), (i32::MAX, "Ruin Strike")] {
        let mut manager = RunManager::new();
        let handle = create_run(&mut manager, 1, 6);
        let result = step_with_action(&mut manager, handle, 3000, "skill", arg);
        assert!(result
            .events
            .iter()
            .any(|l| l.contains(&format!(r#""kind":"ActionUsed","actor":"player","action_name":"{name}""#))));
    }
    let mut manager = RunManager::new();
    let handle = create_run(&mut manager, 1, 6);
    let result = step_with_action(&mut manager, handle, 3000, "basic", 3);
    assert!(result.events.iter().any(|l| l.contains(r#""action_name":"Basic Attack""#)));
}

#[test]
fn steps_through_the_registry_reach_the_run() {
    let mut manager = RunManager::new();
    let one = create_run(&mut manager, 1, 6);
    let two = create_run(&mut manager, 1, 6);
    let result = step(&mut manager, one, 3000, Some(ActionInput::skill_slot(7)));
    assert!(result.error.is_empty());
    assert!(result.events.iter().any(|l| l.contains(r#""action_name":"Ruin Strike""#)));
    assert_eq!(manager.runs[&one].elapsed_time, 3000);
    assert_eq!(manager.runs[&two].elapsed_time, 0);
    let result = step(&mut manager, two, 3000, Some(ActionInput::basic_attack()));
    assert!(result.events.iter().any(|l| l.contains(r#""action_name":"Basic Attack""#)));
}

#[test]
fn runs_of_one_registry_do_not_touch_each_other() {
    let mut manager = RunManager::new();
    let one = create_run(&mut manager, 9, 6);
    let two = create_run(&mut manager, 9, 6);
    let mut alone = RunManager::new();
    let only = create_run(&mut alone, 9, 6);
    for round in 0..400 {
        let a = step_with_action(&mut manager, one, 100, "basic", 0);
        if round % 3 == 0 {
            step_with_action(&mut manager, two, 700, "skill", 1);
        }
        let b = step_with_action(&mut alone, only, 100, "basic", 0);
        assert_eq!(a.events, b.events);
        assert_eq!(a.need_input, b.need_input);
        assert_eq!(a.ended, b.ended);
    }
}

#[test]
fn destroy_and_reset() {
    let mut manager = RunManager::new();
    let handle = create_run(&mut manager, 1, 6);
    step(&mut manager, handle, 1000, None);
    assert!(reset_run(&mut manager, handle));
    assert_eq!(manager.runs[&handle].elapsed_time, 0);
    assert_eq!(manager.runs[&handle].node_index, 0);
    assert!(!reset_run(&mut manager, handle + 1));
    destroy_run(&mut manager, handle);
    assert!(manager.runs.is_empty());
    assert!(!reset_run(&mut manager, handle));
    destroy_run(&mut manager, handle);
    assert_eq!(step(&mut manager, handle, 100, None).error, "invalid_handle:1");
    assert_eq!(create_run(&mut manager, 1, 6), 2);
}

#[test]
fn snapshots_through_the_registry() {
    let mut manager = RunManager::new();
    let handle = create_run(&mut manager, 1, 6);
    step(&mut manager, handle, 1000, None);
    let snap = get_snapshot(&manager, handle);
    assert_eq!(snap.run_state, "running");
    assert_eq!(snap.run_result, "none");
    assert_eq!(snap.node_index, 1);
    assert_eq!(snap.elapsed_time, 1000);
    assert_eq!(snap.player.hp, 14000);
    assert_eq!(snap.enemy.hp, 8400);
    assert_eq!(snap.enemy.action_gauge, 2_800_000_000);
    let none = get_snapshot(&manager, 99);
    assert_eq!(none.run_state, "ended");
    assert_eq!(none.run_result, "invalid_handle");
    assert_eq!(none.node_index, 0);
    assert_eq!(none.battle_index, 0);
    assert_eq!(none.elapsed_time, 0);
    assert_eq!(none.player.hp, 0);
    assert_eq!(none.player.max_hp, 0);
    assert_eq!(none.enemy.hp, 0);
    assert!(none.player.statuses.is_empty());
}

#[test]
fn traits_are_activated_through_the_registry() {
    let mut manager = RunManager::new();
    let handle = create_run(&mut manager, 1, 6);
    step(&mut manager, handle, 0, None);
    assert!(activate_trait(&mut manager, handle, "cinder_scholar"));
    assert!(!activate_trait(&mut manager, handle, "cinder_scholar"));
    assert!(!activate_trait(&mut manager, handle, "nobody"));
    assert!(!activate_trait(&mut manager, handle + 1, "ruthless"));
    assert_eq!(manager.runs[&handle].active_traits, vec!["cinder_scholar"]);
    assert_eq!(
        manager.runs[&handle].current_battle.as_ref().expect("a battle").traits,
        vec!["cinder_scholar"]
    );
}
