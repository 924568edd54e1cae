use gauge_battle::engine::turn_system::ActionKind;
use gauge_battle::skill::StatusType;
use gauge_battle::step_api::{recover_after_victory, ActionInput, ActiveRun, StepResult};

fn count(lines: &[String], needle: &str) -> usize {
    lines.iter().filter(|l| l.contains(needle)).count()
}

/// Steps a run a tenth of a second at a time, answering every request for
/// input with `action`, until it ends.
fn play(run: &mut ActiveRun, action: ActionKind, max_calls: usize) -> (Vec<String>, usize) {
    let mut lines = Vec::new();
    let mut need_input = false;
    for call in 1..=max_calls {
        let result = run.step_once(100, if need_input { Some(action) } else { None });
        assert!(result.error.is_empty());
        assert!(result.events.len() < 300);
        need_input = result.need_input;
        lines.extend(result.events);
        if result.ended {
            return (lines, call);
        }
    }
    panic!("the run did not end within {max_calls} calls");
}

#[test]
fn a_fresh_run_is_on_no_node() {
    let run = ActiveRun::new(9, 3);
    assert_eq!(run.seed, 9);
    assert_eq!(run.max_nodes, 3);
    assert_eq!(run.node_index, 0);
    assert_eq!(run.battle_index, 0);
    assert!(run.current_battle.is_none());
    assert!(!run.waiting_for_input);
    assert!(!run.ended);
    assert_eq!(run.result, "none");
    assert_eq!(run.elapsed_time, 0);
    assert_eq!(run.run.player_hp, 14000);
    assert_eq!(run.run.player_max_hp, 14000);
    assert_eq!(run.run.player_atk, 17);
    assert_eq!(run.run.player_speed, 3500);
    assert!(run.active_traits.is_empty());
    assert_eq!(run.current_node_type(), None);
    assert_eq!(ActiveRun::new(9, 77).max_nodes, 6);
}

#[test]
fn action_inputs_clamp_the_slot() {
    assert_eq!(ActionInput::basic_attack().to_kind(), ActionKind::BasicAttack);
    assert_eq!(ActionInput::skill_slot(0).to_kind(), ActionKind::SkillSlot(0));
    assert_eq!(ActionInput::skill_slot(3).to_kind(), ActionKind::SkillSlot(3));
    assert_eq!(ActionInput::skill_slot(4).to_kind(), ActionKind::SkillSlot(3));
    assert_eq!(ActionInput::skill_slot(u32::MAX).to_kind(), ActionKind::SkillSlot(3));
    assert_eq!(ActionInput { kind: 9, index: 2 }.to_kind(), ActionKind::BasicAttack);
}

#[test]
fn the_first_step_starts_run_node_and_battle() {
    let mut run = ActiveRun::new(5, 6);
    let result = run.step_once(0, None);
    assert_eq!(
        result.events,
        vec![
            r#"{"tick":0,"kind":"RunStart","seed":5}"#,
            r#"{"tick":0,"kind":"NodeStart","node_index":1,"node_type":"Battle"}"#,
            r#"{"tick":0,"kind":"BattleStart","battle_index":1,"enemy_name":"Rogue Drone"}"#,
        ]
    );
    assert!(!result.need_input);
    assert!(!result.ended);
    assert_eq!(run.node_index, 1);
    assert_eq!(run.battle_index, 1);
    assert_eq!(run.current_enemy_name, "Rogue Drone");
    let battle = run.current_battle.as_ref().expect("a battle");
    assert_eq!(battle.state.units.len(), 2);
    assert_eq!(battle.state.units[1].hp, 8400);
    assert_eq!(battle.state.units[1].atk, 11);
    assert_eq!(battle.state.units[1].speed, 2800);
    let again = run.step_once(0, None);
    assert!(again.events.is_empty());
}

#[test]
fn a_run_of_no_nodes_is_won_at_once() {
    let mut run = ActiveRun::new(5, 0);
    let result = run.step_once(100, None);
    assert_eq!(
        result.events,
        vec![
            r#"{"tick":0,"kind":"RunStart","seed":5}"#,
            r#"{"tick":0,"kind":"RunEnd","result":"win","final_node_index":0}"#,
        ]
    );
    assert!(result.ended);
    assert_eq!(run.result, "win");
    let after = run.step_once(100, Some(ActionKind::BasicAttack));
    assert!(after.events.is_empty());
    assert!(after.ended);
    assert!(!after.need_input);
}

#[test]
fn time_advances_in_tenths_of_a_second() {
    let mut run = ActiveRun::new(5, 6);
    let result = run.step_once(1000, None);
    assert!(!result.need_input);
    assert_eq!(run.elapsed_time, 1000);
    let battle = run.current_battle.as_ref().expect("a battle");
    assert_eq!(battle.state.tick, 10);
    assert_eq!(battle.state.units[0].action_gauge, 3_500_000_000);
    assert_eq!(battle.state.units[1].action_gauge, 2_800_000_000);
    run.step_once(250, None);
    assert_eq!(run.elapsed_time, 1250);
    let battle = run.current_battle.as_ref().expect("a battle");
    assert_eq!(battle.state.tick, 13);
    assert_eq!(battle.state.units[0].action_gauge, 4_375_000_000);
}

#[test]
fn the_run_suspends_when_the_player_is_ready() {
    let mut run = ActiveRun::new(5, 6);
    let result = run.step_once(10_000, None);
    assert!(result.need_input);
    assert!(!result.ended);
    assert!(run.waiting_for_input);
    // The player is ready after 29 tenths of a second; the rest of the time is not played.
    assert_eq!(run.elapsed_time, 2900);
    let battle = run.current_battle.as_ref().expect("a battle");
    assert_eq!(battle.state.tick, 29);
    assert_eq!(battle.state.units[0].action_gauge, 10_150_000_000);
    // Without an action the run stays suspended and nothing moves.
    let idle = run.step_once(10_000, None);
    assert!(idle.need_input);
    assert!(idle.events.is_empty());
    assert_eq!(run.elapsed_time, 2900);
    // With an action and no time the player acts at once.
    let acted = run.step_once(0, Some(ActionKind::BasicAttack));
    assert!(!acted.need_input);
    assert!(!run.waiting_for_input);
    assert_eq!(
        acted.events,
        vec![
            r#"{"tick":30,"kind":"TurnReady","actor":"player"}"#,
            r#"{"tick":30,"kind":"ActionUsed","actor":"player","action_name":"Basic Attack"}"#,
            r#"{"tick":30,"kind":"DamageDealt","src":"player","dst":"enemy","amount":17.00,"dst_hp_after":67.00}"#,
        ]
    );
    assert_eq!(run.elapsed_time, 2900);
    let battle = run.current_battle.as_ref().expect("a battle");
    assert_eq!(battle.state.units[0].action_gauge, 150_000_000);
    assert_eq!(battle.state.units[1].action_gauge, 29 * 280_000_000);
}

#[test]
fn an_action_given_early_waits_for_the_turn() {
    let mut run = ActiveRun::new(5, 6);
    let result = run.step_once(3000, Some(ActionKind::BasicAttack));
    assert!(!result.need_input);
    assert_eq!(count(&result.events, r#""kind":"ActionUsed","actor":"player""#), 1);
    assert_eq!(run.elapsed_time, 3000);
}

#[test]
fn basic_attacks_beat_the_first_enemy() {
    let mut run = ActiveRun::new(1, 1);
    let (lines, calls) = play(&mut run, ActionKind::BasicAttack, 10_000);
    assert_eq!(calls, 144);
    assert!(run.ended);
    assert_eq!(run.result, "win");
    assert_eq!(count(&lines, r#""kind":"BattleEnd""#), 1);
    assert_eq!(count(&lines, r#""kind":"BattleEnd","result":"win","player_hp_after":107.00}"#), 1);
    assert_eq!(
        lines.last().expect("a line"),
        r#"{"tick":144,"kind":"RunEnd","result":"win","final_node_index":1}"#
    );
    assert_eq!(count(&lines, r#""kind":"DamageDealt","src":"player""#), 5);
    assert_eq!(count(&lines, r#""kind":"DamageDealt","src":"enemy""#), 3);
    // 107.00 left, plus a fifth of 140.00.
    assert_eq!(run.run.player_hp, 13500);
    assert!(run.current_battle.is_none());
}

#[test]
fn the_same_seed_and_actions_give_the_same_trace() {
    for seed in [1u64, 2, 77] {
        let mut first = ActiveRun::new(seed, 6);
        let mut second = ActiveRun::new(seed, 6);
        for id in ["overcharge", "cinder_scholar", "frozen_momentum", "shatterpoint"] {
            first.activate_trait(id);
            second.activate_trait(id);
        }
        let mut need_input = false;
        let mut turn = 0u32;
        for _ in 0..20_000 {
            let action = if need_input {
                turn += 1;
                Some(ActionKind::SkillSlot(turn % 4))
            } else {
                None
            };
            let a = first.step_once(100, action);
            let b = second.step_once(100, action);
            assert_eq!(a.events, b.events);
            assert_eq!(a.need_input, b.need_input);
            assert_eq!(a.ended, b.ended);
            need_input = a.need_input;
            if a.ended {
                break;
            }
        }
        assert!(first.ended);
        assert_eq!(first.result, second.result);
        assert_eq!(first.run.player_hp, second.run.player_hp);
        assert_eq!(first.run.rng.state, second.run.rng.state);
    }
}

#[test]
fn hit_points_stay_within_bounds_all_along() {
    let mut run = ActiveRun::new(3, 6);
    run.activate_trait("overcharge");
    run.activate_trait("ruthless");
    let mut need_input = false;
    for _ in 0..20_000 {
        let result = run.step_once(100, if need_input { Some(ActionKind::SkillSlot(0)) } else { None });
        need_input = result.need_input;
        assert!(0 <= run.run.player_hp && run.run.player_hp <= run.run.player_max_hp);
        if let Some(battle) = &run.current_battle {
            for unit in &battle.state.units {
                assert!(0 <= unit.hp && unit.hp <= unit.max_hp);
            }
            assert!(battle.state.tick <= 20_000);
        }
        if result.ended {
            break;
        }
    }
    assert!(run.ended);
}

#[test]
fn a_player_without_speed_never_acts() {
    let mut run = ActiveRun::new(4, 6);
    run.run.player_speed = 0;
    let mut lines = Vec::new();
    for _ in 0..10_000 {
        let result = run.step_once(100, Some(ActionKind::BasicAttack));
        assert!(!result.need_input);
        lines.extend(result.events);
        if let Some(battle) = &run.current_battle {
            assert_eq!(battle.state.units[0].action_gauge, 0);
        }
        if result.ended {
            break;
        }
    }
    assert!(run.ended);
    assert_eq!(run.result, "lose");
    assert_eq!(run.run.player_hp, 0);
    assert_eq!(count(&lines, r#""kind":"TurnReady","actor":"player""#), 0);
    // 140.00 / 11.00: the thirteenth hit is the last.
    assert_eq!(count(&lines, r#""kind":"TurnReady","actor":"enemy""#), 13);
    assert_eq!(count(&lines, r#""kind":"BattleEnd","result":"lose","player_hp_after":0.00}"#), 1);
    assert_eq!(
        lines.last().expect("a line"),
        r#"{"tick":465,"kind":"RunEnd","result":"lose","final_node_index":1}"#
    );
}

#[test]
fn overcharge_punishes_a_shock_within_the_same_step() {
    let mut run = ActiveRun::new(11, 6);
    assert!(run.activate_trait("overcharge"));
    let mut need_input = false;
    let mut seen = false;
    for _ in 0..5_000 {
        let result = run.step_once(100, if need_input { Some(ActionKind::SkillSlot(2)) } else { None });
        assert!(result.events.len() < 300);
        need_input = result.need_input;
        if let Some(at) = result
            .events
            .iter()
            .position(|l| l.contains(r#""kind":"StatusApplied","src":"player","dst":"enemy","status":"Shock""#))
        {
            let triggered = result.events[at..]
                .iter()
                .position(|l| l.contains(r#""kind":"TraitTriggered","trait_name":"Overcharge","trigger_type":"OnStatusApplied""#))
                .expect("the trait fires in the same step");
            assert_eq!(triggered, 1);
            assert!(result.events[at + 2]
                .contains(r#""kind":"DamageDealt","src":"player","dst":"enemy","amount":3.00"#));
            assert!(result.events[at + 3].contains(
                r#""kind":"TraitEffectApplied","trait_name":"Overcharge","effect_summary":"DealPureDamage 3.00""#
            ));
            seen = true;
        }
        if result.ended {
            break;
        }
    }
    assert!(seen);
}

#[test]
fn a_battle_that_reaches_the_tick_limit_is_lost() {
    let mut run = ActiveRun::new(5, 6);
    run.step_once(0, None);
    run.current_battle.as_mut().expect("a battle").state.tick = 19_999;
    let result = run.step_once(100, None);
    assert!(result.ended);
    assert!(!result.need_input);
    assert_eq!(
        result.events,
        vec![
            r#"{"tick":20000,"kind":"BattleEnd","result":"lose","player_hp_after":140.00}"#,
            r#"{"tick":20000,"kind":"RunEnd","result":"lose","final_node_index":1}"#,
        ]
    );
    assert_eq!(run.result, "lose");
    assert_eq!(run.run.player_hp, 0);
    assert_eq!(run.elapsed_time, 100);
    assert!(run.current_battle.is_none());
}

#[test]
fn the_tick_before_the_last_leaves_the_battle_on() {
    let mut run = ActiveRun::new(5, 6);
    run.step_once(0, None);
    run.current_battle.as_mut().expect("a battle").state.tick = 19_998;
    let result = run.step_once(100, None);
    assert!(!result.ended);
    assert_eq!(run.current_battle.as_ref().expect("a battle").state.tick, 19_999);
    let result = run.step_once(0, None);
    assert!(!result.ended);
    assert!(run.is_well_formed());
    let result = run.step_once(1, None);
    assert!(result.ended);
}

#[test]
fn at_the_tick_limit_the_player_is_not_asked_any_more() {
    let mut run = ActiveRun::new(5, 6);
    run.step_once(0, None);
    {
        let battle = run.current_battle.as_mut().expect("a battle");
        battle.state.tick = 19_999;
        battle.state.units[0].action_gauge = 10_000_000_000 - 1;
    }
    let result = run.step_once(100, None);
    assert!(!result.need_input);
    assert!(result.ended);
    assert_eq!(run.result, "lose");
    assert!(!run.waiting_for_input);
    assert_eq!(result.events.len(), 2);
}

#[test]
fn a_victory_starts_the_next_node_in_the_same_step() {
    let mut run = ActiveRun::new(1, 6);
    let mut need_input = false;
    let mut lines: Vec<String> = Vec::new();
    for _ in 0..1_000 {
        let result = run.step_once(100, if need_input { Some(ActionKind::BasicAttack) } else { None });
        need_input = result.need_input;
        let won = count(&result.events, r#""kind":"BattleEnd","result":"win""#) == 1;
        if won {
            lines = result.events;
            break;
        }
    }
    let n = lines.len();
    assert!(n >= 3);
    assert!(lines[n - 3].contains(r#""kind":"BattleEnd","result":"win","player_hp_after":107.00}"#));
    assert_eq!(lines[n - 2], r#"{"tick":144,"kind":"NodeStart","node_index":2,"node_type":"Battle"}"#);
    assert_eq!(
        lines[n - 1],
        r#"{"tick":144,"kind":"BattleStart","battle_index":2,"enemy_name":"Rogue Drone"}"#
    );
    assert_eq!(run.node_index, 2);
    assert_eq!(run.run.player_hp, 13500);
    let battle = run.current_battle.as_ref().expect("the next battle");
    assert_eq!(battle.state.tick, 0);
    assert_eq!(battle.state.units[0].hp, 13500);
    assert_eq!(battle.state.units[0].action_gauge, 0);
    assert!(!run.waiting_for_input);
}

#[test]
fn the_sixth_node_is_the_boss() {
    let mut run = ActiveRun::new(1, 6);
    run.node_index = 5;
    run.battle_index = 5;
    let result = run.step_once(0, None);
    assert_eq!(
        result.events,
        vec![
            r#"{"tick":0,"kind":"NodeStart","node_index":6,"node_type":"Boss"}"#,
            r#"{"tick":0,"kind":"BattleStart","battle_index":6,"enemy_name":"Overstack Core"}"#,
        ]
    );
    let battle = run.current_battle.as_ref().expect("the boss battle");
    assert_eq!(battle.state.units[1].hp, 22000);
    assert_eq!(battle.state.units[1].max_hp, 22000);
    assert_eq!(battle.state.units[1].atk, 14);
    assert_eq!(battle.state.units[1].speed, 3200);
}

#[test]
fn victory_recovers_a_fifth_of_the_maximum() {
    assert_eq!(recover_after_victory(10700, 14000), 13500);
    assert_eq!(recover_after_victory(12000, 14000), 14000);
    assert_eq!(recover_after_victory(0, 14000), 2800);
    assert_eq!(recover_after_victory(5, 12), 7);
    assert_eq!(recover_after_victory(1, 13), 4);
}

#[test]
fn traits_are_activated_once_and_only_if_known() {
    let mut run = ActiveRun::new(1, 6);
    assert!(run.activate_trait("ruthless"));
    assert!(!run.activate_trait("ruthless"));
    assert!(!run.activate_trait("ruthlessness"));
    assert!(run.activate_trait("hemorrhage"));
    assert_eq!(run.active_traits, vec!["ruthless", "hemorrhage"]);
    run.step_once(0, None);
    assert_eq!(run.current_battle.as_ref().expect("a battle").traits, vec!["ruthless", "hemorrhage"]);
}

#[test]
fn reset_returns_to_the_start() {
    let mut run = ActiveRun::new(8, 2);
    run.activate_trait("overcharge");
    run.step_once(5000, Some(ActionKind::BasicAttack));
    run.reset();
    assert_eq!(run.seed, 8);
    assert_eq!(run.max_nodes, 2);
    assert_eq!(run.node_index, 0);
    assert!(run.current_battle.is_none());
    assert_eq!(run.elapsed_time, 0);
    assert!(run.active_traits.is_empty());
    assert!(run.events.is_empty());
    assert_eq!(run.run.rng.state, 8 ^ 0x9E37_79B9_7F4A_7C15);
    let result: StepResult = run.step_once(0, None);
    assert_eq!(result.events[0], r#"{"tick":0,"kind":"RunStart","seed":8}"#);
}

#[test]
fn the_snapshot_shows_both_sides() {
    let mut run = ActiveRun::new(5, 6);
    let before = run.snapshot();
    assert_eq!(before.run_state, "running");
    assert_eq!(before.run_result, "none");
    assert_eq!(before.node_index, 0);
    assert_eq!(before.player.hp, 14000);
    assert_eq!(before.player.max_hp, 14000);
    assert_eq!(before.enemy.hp, 0);
    assert_eq!(before.enemy.max_hp, 0);
    run.step_once(500, None);
    {
        let battle = run.current_battle.as_mut().expect("a battle");
        battle.apply_status(0, 1, StatusType::Burn, 10_000, 4000, 2, 100, 0);
        battle.apply_status(0, 1, StatusType::Freeze, 10_000, 3000, 1, 100, 0);
        battle.runtime[1].statuses[1].duration = 0;
        battle.events.clear();
    }
    let snap = run.snapshot();
    assert_eq!(snap.node_index, 1);
    assert_eq!(snap.battle_index, 1);
    assert_eq!(snap.elapsed_time, 500);
    assert_eq!(snap.player.action_gauge, 1_750_000_000);
    assert!(snap.player.statuses.is_empty());
    assert_eq!(snap.enemy.hp, 8400);
    assert_eq!(snap.enemy.max_hp, 8400);
    assert_eq!(snap.enemy.action_gauge, 1_400_000_000);
    assert_eq!(snap.enemy.statuses.len(), 1);
    assert_eq!(snap.enemy.statuses[0].status_type, "Burn");
    assert_eq!(snap.enemy.statuses[0].stacks, 2);
    assert_eq!(snap.enemy.statuses[0].duration, 4000);
}

#[test]
fn the_snapshot_of_an_ended_run() {
    let mut run = ActiveRun::new(5, 0);
    run.step_once(0, None);
    let snap = run.snapshot();
    assert_eq!(snap.run_state, "ended");
    assert_eq!(snap.run_result, "win");
    assert_eq!(snap.enemy.hp, 0);
    assert_eq!(snap.player.hp, 14000);
}

#[test]
fn well_formedness_can_be_checked() {
    let mut run = ActiveRun::new(5, 6);
    assert!(run.is_well_formed());
    run.step_once(3000, Some(ActionKind::SkillSlot(0)));
    assert!(run.is_well_formed());
    assert!(run.current_battle.as_ref().expect("a battle").is_well_formed());
    let mut broken = ActiveRun::new(5, 6);
    broken.run.player_hp = broken.run.player_max_hp + 1;
    assert!(!broken.is_well_formed());
    let mut broken = ActiveRun::new(5, 6);
    broken.node_index = 7;
    assert!(!broken.is_well_formed());
    let mut broken = ActiveRun::new(5, 6);
    broken.battle_index = 1;
    assert!(!broken.is_well_formed());
    let mut broken = ActiveRun::new(5, 6);
    broken.step_once(0, None);
    broken.current_battle.as_mut().expect("a battle").state.units[1].hp = -1;
    assert!(!broken.is_well_formed());
    let mut broken = ActiveRun::new(5, 6);
    broken.step_once(0, None);
    broken.current_battle.as_mut().expect("a battle").state.tick = 20_000;
    assert!(!broken.is_well_formed());
    let mut broken = ActiveRun::new(5, 6);
    broken.step_once(0, None);
    {
        let battle = broken.current_battle.as_mut().expect("a battle");
        battle.apply_status(0, 1, StatusType::Burn, 10_000, 4000, 1, 100, 0);
        battle.events.clear();
        let copy = battle.runtime[1].statuses[0];
        battle.runtime[1].statuses.push(copy);
    }
    assert!(!broken.is_well_formed());
    let mut broken = ActiveRun::new(5, 6);
    broken.step_once(0, None);
    broken.current_battle.as_mut().expect("a battle").runtime.pop();
    assert!(!broken.is_well_formed());
}

#[test]
fn a_battle_nobody_can_decide_ends_in_defeat_at_the_tick_limit() {
    let mut run = ActiveRun::new(5, 6);
    run.step_once(0, None);
    {
        let battle = run.current_battle.as_mut().expect("a battle");
        battle.state.units[0].speed = 0;
        battle.state.units[1].speed = 0;
    }
    let result = run.step_once(3_000_000, None);
    assert!(result.ended);
    assert_eq!(run.result, "lose");
    // 20 000 sub-steps of a tenth of a second were played, and no more.
    assert_eq!(run.elapsed_time, 2_000_000);
    assert_eq!(
        result.events,
        vec![
            r#"{"tick":20000,"kind":"BattleEnd","result":"lose","player_hp_after":140.00}"#,
            r#"{"tick":20000,"kind":"RunEnd","result":"lose","final_node_index":1}"#,
        ]
    );
}

#[test]
fn a_trait_activated_during_a_battle_reacts_at_once() {
    let mut run = ActiveRun::new(1, 6);
    run.step_once(0, None);
    assert!(run.current_battle.as_ref().expect("a battle").traits.is_empty());
    assert!(run.activate_trait("overcharge"));
    assert_eq!(run.current_battle.as_ref().expect("a battle").traits, vec!["overcharge"]);
    assert!(run.is_well_formed());
    {
        let battle = run.current_battle.as_mut().expect("a battle");
        battle.apply_status(0, 1, StatusType::Shock, 10_000, 4000, 1, 100, 0);
        assert_eq!(battle.state.units[1].hp, 8400 - 300);
        battle.events.clear();
    }
    // Known already: nothing is added, here or there.
    assert!(!run.activate_trait("overcharge"));
    assert_eq!(run.current_battle.as_ref().expect("a battle").traits.len(), 1);
    // A list of the battle that is not the list of the run is not in order.
    run.current_battle.as_mut().expect("a battle").traits.push("ruthless");
    assert!(!run.is_well_formed());
}
