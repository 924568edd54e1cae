//! A whole run played unattended: battle nodes, then the boss.

use vstd::prelude::*;
use crate::battle::{
    battle_roster, create_battle, play_battle, player_hp_after_battle, player_hp_of, Skirmish,
    BATTLE_TICK_MS,
};
use crate::event::{Event, Record};
use crate::log::lines_of;
use crate::model::{BattleOutcome, RunState};
use crate::rng::SimpleRng;
use crate::step_api::{
    is_boss_node, recover_after_victory, recovered_hp, BOSS_ATK, BOSS_HP, BOSS_SPEED, DRONE_ATK,
    DRONE_HP, DRONE_SPEED, NODE_COUNT,
};
use crate::text::views;

verus! {

/// The word of a played node in the trace.
pub open spec fn node_word(node: u32) -> &'static str {
    if is_boss_node(node) {
        "Boss"
    } else {
        "Battle"
    }
}

/// The name of the enemy met on a node.
pub open spec fn enemy_name_of(node: u32) -> &'static str {
    if is_boss_node(node) {
        "Overstack Core"
    } else {
        "Rogue Drone"
    }
}

/// The battle a run meets on a node, before its first tick.
pub open spec fn encounter(run: RunState, node: u32, records: Seq<Record>) -> Skirmish {
    Skirmish {
        units: if is_boss_node(node) {
            battle_roster(
                run.player_hp,
                run.player_max_hp,
                run.player_atk,
                run.player_speed,
                1,
                BOSS_HP,
                BOSS_ATK,
                BOSS_SPEED,
            )
        } else {
            battle_roster(
                run.player_hp,
                run.player_max_hp,
                run.player_atk,
                run.player_speed,
                1,
                DRONE_HP,
                DRONE_ATK,
                DRONE_SPEED,
            )
        },
        rng: run.rng.state,
        records,
    }
}

/// The trace of an unattended run that has played `played` of its `limit`
/// nodes: each further node is announced and fought; a victory carries the
/// hit points left plus the recovery into the next node, a defeat ends the
/// run. A run that has played every node is won. Returned with the trace:
/// the number of nodes cleared.
///
/// The records of a battle carry the tick of the battle they happened on;
/// those of the run itself carry `tick`, the tick the last battle ended on
/// (zero before the first).
pub open spec fn campaign(
    run: RunState,
    records: Seq<Record>,
    played: u32,
    limit: u32,
    tick: u32,
) -> (Seq<Record>, u32)
    decreases limit - played,
{
    if played >= limit {
        (
            records.push(
                Record { tick, event: Event::RunEnd { result: "win", final_node_index: played } },
            ),
            played,
        )
    } else {
        let node = (played + 1) as u32;
        let (after, outcome, ended_on) = encounter(
            run,
            node,
            records.push(
                Record {
                    tick,
                    event: Event::NodeStart { node_index: node, node_type: node_word(node) },
                },
            ),
        ).run(BATTLE_TICK_MS, 0, node, enemy_name_of(node));
        match outcome {
            BattleOutcome::Victory => campaign(
                RunState {
                    stage: node,
                    player_hp: recovered_hp(player_hp_of(after.units), run.player_max_hp),
                    rng: SimpleRng { state: after.rng },
                    ..run
                },
                after.records,
                node,
                limit,
                ended_on,
            ),
            BattleOutcome::Defeat => (
                after.records.push(
                    Record {
                        tick: ended_on,
                        event: Event::RunEnd { result: "lose", final_node_index: node },
                    },
                ),
                played,
            ),
        }
    }
}

/// The number of nodes a run of at most `max_nodes` plays.
pub open spec fn node_limit(max_nodes: u32) -> u32 {
    if max_nodes <= NODE_COUNT {
        max_nodes
    } else {
        NODE_COUNT
    }
}

/// The trace of a whole unattended run, and the number of nodes it cleared.
pub open spec fn run_result(seed: u64, max_nodes: u32) -> (Seq<Record>, u32) {
    campaign(
        RunState {
            seed,
            rng: SimpleRng { state: crate::rng::seeded(seed) },
            floor: 1,
            stage: 0,
            meta_placeholder: 0,
            player_hp: crate::model::PLAYER_START_HP,
            player_max_hp: crate::model::PLAYER_START_HP,
            player_atk: crate::model::PLAYER_START_ATK,
            player_speed: crate::model::PLAYER_START_SPEED,
        },
        seq![Record { tick: 0, event: Event::RunStart { seed } }],
        0,
        node_limit(max_nodes),
        0,
    )
}

/// The trace of a whole unattended run.
pub open spec fn run_trace(seed: u64, max_nodes: u32) -> Seq<Record> {
    run_result(seed, max_nodes).0
}

/// The number of nodes a whole unattended run clears.
pub open spec fn cleared_nodes(seed: u64, max_nodes: u32) -> u32 {
    run_result(seed, max_nodes).1
}

/// Plays a whole run unattended and returns its trace as records, and the
/// number of nodes it cleared.
pub fn run_records(seed: u64, max_nodes: u32) -> (r: (Vec<Record>, u32))
    ensures
        r.0@ == run_trace(seed, max_nodes),
        r.1 == cleared_nodes(seed, max_nodes),
        r.1 <= node_limit(max_nodes),
{
    let mut run = RunState::new(seed);
    let mut records: Vec<Record> = Vec::new();
    let limit: u32 = if max_nodes <= NODE_COUNT {
        max_nodes
    } else {
        NODE_COUNT
    };
    records.push(Record { tick: 0, event: Event::RunStart { seed } });
    assert(records@ =~= seq![Record { tick: 0, event: Event::RunStart { seed } }]);
    let mut played: u32 = 0;
    let mut tick: u32 = 0;
    while played < limit
        invariant
            played <= limit <= NODE_COUNT,
            limit == node_limit(max_nodes),
            campaign(run, records@, played, limit, tick) == run_result(seed, max_nodes),
        decreases limit - played,
    {
        let node = played + 1;
        let boss = node == NODE_COUNT;
        records.push(
            Record {
                tick,
                event: Event::NodeStart {
                    node_index: node,
                    node_type: if boss {
                        "Boss"
                    } else {
                        "Battle"
                    },
                },
            },
        );
        let mut battle = if boss {
            create_battle(
                run.player_hp,
                run.player_max_hp,
                run.player_atk,
                run.player_speed,
                1,
                BOSS_HP,
                BOSS_ATK,
                BOSS_SPEED,
            )
        } else {
            create_battle(
                run.player_hp,
                run.player_max_hp,
                run.player_atk,
                run.player_speed,
                1,
                DRONE_HP,
                DRONE_ATK,
                DRONE_SPEED,
            )
        };
        let enemy_name = if boss {
            "Overstack Core"
        } else {
            "Rogue Drone"
        };
        run.stage = node;
        let outcome = play_battle(&mut battle, &mut run.rng, node, enemy_name, &mut records);
        tick = battle.tick;
        match outcome {
            BattleOutcome::Victory => {
                run.player_hp = recover_after_victory(
                    player_hp_after_battle(&battle),
                    run.player_max_hp,
                );
            },
            BattleOutcome::Defeat => {
                run.player_hp = 0;
                records.push(
                    Record {
                        tick,
                        event: Event::RunEnd { result: "lose", final_node_index: node },
                    },
                );
                return (records, played);
            },
        }
        played = node;
    }
    run.meta_placeholder = played;
    records.push(Record { tick, event: Event::RunEnd { result: "win", final_node_index: played } });
    (records, played)
}

/// Plays a whole run unattended and returns its trace, one line per event.
pub fn run_run_internal(seed: u64, max_nodes: u32) -> (logs: Vec<String>)
    ensures
        views(logs@) == lines_of(run_trace(seed, max_nodes)),
{
    crate::log::render_records(&run_records(seed, max_nodes).0)
}

} // verus!
