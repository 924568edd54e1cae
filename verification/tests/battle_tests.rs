use gauge_battle::battle::{create_battle, play_battle, player_hp_after_battle, run_battle};
use gauge_battle::event::Event;
use gauge_battle::model::{
    find_unit_index, has_alive, living_indices, team_to_actor, BattleOutcome, RunState, Team,
};
use gauge_battle::rng::SimpleRng;
use gauge_battle::run::{run_records, run_run_internal};
use gauge_battle::run_run;

#[test]
fn a_battle_lines_up_the_player_and_the_pack() {
    let state = create_battle(12345, 14000, 17, 3500, 3, 8400, 11, 2800);
    assert_eq!(state.tick, 0);
    assert_eq!(state.delta_time, 1000);
    assert_eq!(state.units.len(), 4);
    let player = state.units[0];
    assert_eq!(player.id, 0);
    assert_eq!(player.team, Team::Player);
    assert_eq!(player.hp, 12345);
    assert_eq!(player.max_hp, 14000);
    assert_eq!(player.atk, 17);
    assert_eq!(player.speed, 3500);
    assert_eq!(player.action_gauge, 0);
    for (i, enemy) in state.units.iter().enumerate().skip(1) {
        assert_eq!(enemy.id as usize, i);
        assert_eq!(enemy.team, Team::Enemy);
        assert_eq!(enemy.hp, 8400);
        assert_eq!(enemy.max_hp, 8400);
        assert_eq!(enemy.atk, 11);
        assert_eq!(enemy.speed, 2800);
        assert_eq!(enemy.action_gauge, 0);
    }
    assert_eq!(create_battle(1, 1, 1, 1, 0, 1, 1, 1).units.len(), 1);
}

#[test]
fn units_are_alive_while_they_have_hit_points() {
    let mut state = create_battle(1, 14000, 17, 3500, 2, 8400, 11, 2800);
    assert!(state.units[0].is_alive());
    state.units[0].hp = 0;
    assert!(!state.units[0].is_alive());
    assert!(!has_alive(&state.units, Team::Player));
    assert!(has_alive(&state.units, Team::Enemy));
    state.units[1].hp = 0;
    assert_eq!(living_indices(&state.units, Team::Enemy), vec![2]);
    assert_eq!(find_unit_index(&state.units, Team::Enemy, false), Some(1));
    assert_eq!(find_unit_index(&state.units, Team::Enemy, true), Some(2));
    assert_eq!(find_unit_index(&state.units, Team::Player, true), None);
    assert_eq!(player_hp_after_battle(&state), 0);
    state.units[0].hp = 77;
    assert_eq!(player_hp_after_battle(&state), 77);
}

#[test]
fn team_labels() {
    assert_eq!(team_to_actor(Team::Player), "player");
    assert_eq!(team_to_actor(Team::Enemy), "enemy");
    assert_eq!(Team::Player.opponent(), Team::Enemy);
    assert_eq!(Team::Enemy.opponent(), Team::Player);
}

#[test]
fn a_run_state_starts_with_the_player_stats() {
    let run = RunState::new(3);
    assert_eq!(run.seed, 3);
    assert_eq!(run.rng.state, SimpleRng::new(3).state);
    assert_eq!(run.floor, 1);
    assert_eq!(run.stage, 0);
    assert_eq!(run.meta_placeholder, 0);
    assert_eq!(run.player_hp, 14000);
    assert_eq!(run.player_max_hp, 14000);
    assert_eq!(run.player_atk, 17);
    assert_eq!(run.player_speed, 3500);
}

#[test]
fn an_unattended_battle_against_a_drone_is_won() {
    let mut state = create_battle(14000, 14000, 17, 3500, 1, 8400, 11, 2800);
    let mut rng = SimpleRng::new(1);
    let mut logs = vec![String::from("kept")];
    let outcome = run_battle(&mut state, &mut rng, 4, "Rogue Drone", &mut logs);
    assert_eq!(outcome, BattleOutcome::Victory);
    assert_eq!(state.tick, 15);
    assert_eq!(state.units[0].hp, 10700);
    assert_eq!(state.units[1].hp, 0);
    // One target each way: the generator is never asked.
    assert_eq!(rng.state, SimpleRng::new(1).state);
    assert_eq!(logs.len(), 1 + 1 + 8 * 6 + 1);
    assert_eq!(logs[0], "kept");
    assert_eq!(
        logs[1],
        r#"{"tick":0,"kind":"BattleStart","battle_index":4,"enemy_name":"Rogue Drone"}"#
    );
    assert_eq!(
        &logs[2..8],
        &[
            r#"{"tick":3,"kind":"TurnReady","actor":"player"}"#,
            r#"{"tick":3,"kind":"ActionUsed","actor":"player","action_name":"basic_attack"}"#,
            r#"{"tick":3,"kind":"DamageDealt","src":"player","dst":"enemy","amount":17.00,"dst_hp_after":67.00}"#,
            r#"{"tick":3,"kind":"StatusApplied","src":"player","dst":"enemy","status":"burn","stacks":1,"duration":1}"#,
            r#"{"tick":3,"kind":"StatusTick","dst":"enemy","status":"burn","amount":0.00,"dst_hp_after":67.00}"#,
            r#"{"tick":3,"kind":"StatusExpired","dst":"enemy","status":"burn"}"#,
        ]
    );
    // The enemy is first ready on the fourth tick.
    assert_eq!(logs[8], r#"{"tick":4,"kind":"TurnReady","actor":"enemy"}"#);
    assert_eq!(
        logs.last().expect("a line"),
        r#"{"tick":15,"kind":"BattleEnd","result":"win","player_hp_after":107.00}"#
    );
}

#[test]
fn an_unattended_battle_against_the_boss_is_lost() {
    let mut state = create_battle(11500, 14000, 17, 3500, 1, 22000, 14, 3200);
    let mut rng = SimpleRng::new(1);
    let mut records = Vec::new();
    let outcome = play_battle(&mut state, &mut rng, 6, "Overstack Core", &mut records);
    assert_eq!(outcome, BattleOutcome::Defeat);
    assert_eq!(state.tick, 29);
    assert_eq!(state.units[0].hp, 0);
    assert!(matches!(
        records.last().expect("a record").event,
        Event::BattleEnd { result: "lose", player_hp_after: 0 }
    ));
}

#[test]
fn the_fuller_gauge_goes_first_within_a_tick() {
    // Both are ready on the first tick; the enemy is faster and strikes first.
    let mut state = create_battle(5000, 5000, 17, 10_000, 1, 5000, 11, 12_000);
    let mut rng = SimpleRng::new(1);
    let mut records = Vec::new();
    play_battle(&mut state, &mut rng, 1, "Rogue Drone", &mut records);
    assert!(matches!(records[1].event, Event::TurnReady { actor: "enemy" }));
    assert!(matches!(records[7].event, Event::TurnReady { actor: "player" }));
    // With equal gauges the roster decides.
    let mut state = create_battle(5000, 5000, 17, 10_000, 1, 5000, 11, 10_000);
    let mut records = Vec::new();
    play_battle(&mut state, &mut rng, 1, "Rogue Drone", &mut records);
    assert!(matches!(records[1].event, Event::TurnReady { actor: "player" }));
    assert!(matches!(records[7].event, Event::TurnReady { actor: "enemy" }));
}

#[test]
fn a_unit_killed_earlier_in_the_tick_does_not_act() {
    let mut state = create_battle(1000, 1000, 2000, 10_000, 1, 1000, 11, 10_000);
    let mut rng = SimpleRng::new(1);
    let mut records = Vec::new();
    let outcome = play_battle(&mut state, &mut rng, 1, "Rogue Drone", &mut records);
    assert_eq!(outcome, BattleOutcome::Victory);
    assert_eq!(state.units[0].hp, 1000);
    assert_eq!(records.len(), 1 + 6 + 1);
}

#[test]
fn a_battle_nobody_can_decide_is_lost_at_the_tick_limit() {
    let mut state = create_battle(5000, 14000, 17, 0, 1, 8400, 11, 0);
    let mut rng = SimpleRng::new(1);
    let mut logs = Vec::new();
    let outcome = run_battle(&mut state, &mut rng, 1, "Rogue Drone", &mut logs);
    assert_eq!(outcome, BattleOutcome::Defeat);
    assert_eq!(state.tick, 20_000);
    assert_eq!(
        logs,
        vec![
            r#"{"tick":0,"kind":"BattleStart","battle_index":1,"enemy_name":"Rogue Drone"}"#,
            r#"{"tick":20000,"kind":"BattleEnd","result":"lose","player_hp_after":50.00}"#,
        ]
    );
    // Already at the limit: declared lost without a tick.
    let outcome = run_battle(&mut state, &mut rng, 1, "Rogue Drone", &mut logs);
    assert_eq!(outcome, BattleOutcome::Defeat);
    assert_eq!(state.tick, 20_000);
    assert_eq!(
        &logs[2..],
        &[
            r#"{"tick":20000,"kind":"BattleStart","battle_index":1,"enemy_name":"Rogue Drone"}"#,
            r#"{"tick":20000,"kind":"BattleEnd","result":"lose","player_hp_after":50.00}"#,
        ]
    );
}

#[test]
fn targets_are_drawn_among_several_enemies() {
    let mut state = create_battle(14000, 14000, 17, 3500, 2, 8400, 11, 100);
    let mut rng = SimpleRng::new(42);
    let mut records = Vec::new();
    play_battle(&mut state, &mut rng, 1, "Rogue Drone", &mut records);
    // The first draw of seed 42 is odd: the second enemy is hit first.
    assert!(matches!(
        records[3].event,
        Event::DamageDealt { src: "player", dst: "enemy", amount: 1700, dst_hp_after: 6700 }
    ));
    assert_ne!(rng.state, SimpleRng::new(42).state);
}

#[test]
fn an_unattended_run_of_one_node() {
    let logs = run_run_internal(1, 1);
    assert_eq!(logs.len(), 53);
    assert_eq!(logs[0], r#"{"tick":0,"kind":"RunStart","seed":1}"#);
    assert_eq!(logs[1], r#"{"tick":0,"kind":"NodeStart","node_index":1,"node_type":"Battle"}"#);
    assert_eq!(
        logs[2],
        r#"{"tick":0,"kind":"BattleStart","battle_index":1,"enemy_name":"Rogue Drone"}"#
    );
    assert_eq!(logs[3], r#"{"tick":3,"kind":"TurnReady","actor":"player"}"#);
    assert_eq!(logs[51], r#"{"tick":15,"kind":"BattleEnd","result":"win","player_hp_after":107.00}"#);
    assert_eq!(logs[52], r#"{"tick":15,"kind":"RunEnd","result":"win","final_node_index":1}"#);
}

#[test]
fn an_unattended_run_falls_to_the_boss() {
    let logs = run_run_internal(1, 6);
    assert_eq!(logs.len(), 368);
    assert_eq!(
        logs[logs.len() - 2],
        r#"{"tick":29,"kind":"BattleEnd","result":"lose","player_hp_after":0.00}"#
    );
    assert_eq!(
        logs[logs.len() - 1],
        r#"{"tick":29,"kind":"RunEnd","result":"lose","final_node_index":6}"#
    );
    let wins: Vec<&String> = logs.iter().filter(|l| l.contains(r#""result":"win""#)).collect();
    assert_eq!(
        wins,
        vec![
            r#"{"tick":15,"kind":"BattleEnd","result":"win","player_hp_after":107.00}"#,
            r#"{"tick":15,"kind":"BattleEnd","result":"win","player_hp_after":102.00}"#,
            r#"{"tick":15,"kind":"BattleEnd","result":"win","player_hp_after":97.00}"#,
            r#"{"tick":15,"kind":"BattleEnd","result":"win","player_hp_after":92.00}"#,
            r#"{"tick":15,"kind":"BattleEnd","result":"win","player_hp_after":87.00}"#,
        ]
    );
    assert!(logs.contains(&String::from(
        r#"{"tick":15,"kind":"NodeStart","node_index":6,"node_type":"Boss"}"#
    )));
    assert!(logs.contains(&String::from(
        r#"{"tick":0,"kind":"BattleStart","battle_index":6,"enemy_name":"Overstack Core"}"#
    )));
    assert_eq!(run_run_internal(1, 9), logs);
    assert_eq!(run_run_internal(2, 6).len(), 368);
}

#[test]
fn an_unattended_run_of_no_nodes() {
    assert_eq!(
        run_run_internal(12, 0),
        vec![
            r#"{"tick":0,"kind":"RunStart","seed":12}"#,
            r#"{"tick":0,"kind":"RunEnd","result":"win","final_node_index":0}"#,
        ]
    );
}

#[test]
fn cleared_nodes_are_counted() {
    assert_eq!(run_run(1, 0), 0);
    assert_eq!(run_run(1, 1), 1);
    assert_eq!(run_run(1, 5), 5);
    assert_eq!(run_run(1, 6), 5);
    assert_eq!(run_run(1, 1000), 5);
    let (records, cleared) = run_records(1, 3);
    assert_eq!(cleared, 3);
    assert_eq!(records.len(), 1 + 3 * 51 + 1);
}
