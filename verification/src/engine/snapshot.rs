//! The read-only projection of a run for display.

use vstd::prelude::*;
use crate::engine::combat_state::{ActiveStatus, Combat, CombatModel};
use crate::model::{find_unit, find_unit_index, Team};
use crate::step_api::{ActiveRun, RunModel};

verus! {

/// A status as shown to the player. `duration` is what is left, in milliseconds.
#[derive(Clone, Copy, Debug)]
pub struct StatusSnapshot {
    pub status_type: &'static str,
    pub stacks: u32,
    pub duration: i64,
}

/// One side of the battle as shown to the player.
///
/// Hit points are in hundredths, the gauge in `1e-8` points.
#[derive(Debug)]
pub struct UnitSnapshot {
    pub hp: i64,
    pub max_hp: i64,
    pub action_gauge: u64,
    pub statuses: Vec<StatusSnapshot>,
}

/// The state of a run as shown to the player.
#[derive(Debug)]
pub struct Snapshot {
    /// `"running"` or `"ended"`.
    pub run_state: &'static str,
    pub run_result: &'static str,
    pub node_index: u32,
    pub battle_index: u32,
    /// Simulated time played so far, in milliseconds.
    pub elapsed_time: u64,
    pub player: UnitSnapshot,
    pub enemy: UnitSnapshot,
}

/// What a [`UnitSnapshot`] holds, as mathematical values.
pub struct UnitShown {
    pub hp: i64,
    pub max_hp: i64,
    pub action_gauge: u64,
    pub statuses: Seq<StatusSnapshot>,
}

impl View for UnitSnapshot {
    type V = UnitShown;

    open spec fn view(&self) -> UnitShown {
        UnitShown {
            hp: self.hp,
            max_hp: self.max_hp,
            action_gauge: self.action_gauge,
            statuses: self.statuses@,
        }
    }
}

/// The statuses among the first `n` of a row that have time left, as shown.
pub open spec fn shown_statuses(statuses: Seq<ActiveStatus>, n: int) -> Seq<StatusSnapshot>
    decreases n,
{
    if n <= 0 || n > statuses.len() {
        Seq::empty()
    } else if statuses[n - 1].duration > 0 {
        shown_statuses(statuses, n - 1).push(
            StatusSnapshot {
                status_type: statuses[n - 1].status_type.name(),
                stacks: statuses[n - 1].stacks,
                duration: statuses[n - 1].duration,
            },
        )
    } else {
        shown_statuses(statuses, n - 1)
    }
}

/// A side with nothing on it.
pub open spec fn blank_side(hp: i64, max_hp: i64) -> UnitShown {
    UnitShown { hp, max_hp, action_gauge: 0, statuses: Seq::empty() }
}

/// The first unit of `team` of an arena as shown; the first unit of the
/// roster stands in when the team has none, and a blank side when the roster
/// is empty.
pub open spec fn shown_side(b: CombatModel, team: Team) -> UnitShown {
    let idx = match find_unit(b.units, team, false, 0) {
        Some(i) => i,
        None => 0,
    };
    if idx < b.units.len() && idx < b.ledgers.len() {
        UnitShown {
            hp: b.units[idx].hp,
            max_hp: b.units[idx].max_hp,
            action_gauge: b.units[idx].action_gauge,
            statuses: shown_statuses(
                b.ledgers[idx].statuses,
                b.ledgers[idx].statuses.len() as int,
            ),
        }
    } else {
        blank_side(0, 0)
    }
}

/// The player's side of a run as shown: the unit in battle, or the hit
/// points the run carries between battles.
pub open spec fn shown_player(m: RunModel) -> UnitShown {
    match m.battle {
        Some(b) => shown_side(b, Team::Player),
        None => blank_side(m.run.player_hp, m.run.player_max_hp),
    }
}

/// The enemy's side of a run as shown; blank between battles.
pub open spec fn shown_enemy(m: RunModel) -> UnitShown {
    match m.battle {
        Some(b) => shown_side(b, Team::Enemy),
        None => blank_side(0, 0),
    }
}

/// The lifecycle word of a run.
pub open spec fn run_state_word(ended: bool) -> &'static str {
    if ended {
        "ended"
    } else {
        "running"
    }
}

impl Combat {
    /// The statuses of a unit that have time left, as shown.
    pub fn to_status_snapshots(&self, unit_idx: usize) -> (out: Vec<StatusSnapshot>)
        requires
            unit_idx < self.runtime@.len(),
        ensures
            out@ == shown_statuses(
                self@.ledgers[unit_idx as int].statuses,
                self@.ledgers[unit_idx as int].statuses.len() as int,
            ),
    {
        let row = &self.runtime[unit_idx].statuses;
        let mut out: Vec<StatusSnapshot> = Vec::new();
        let mut j: usize = 0;
        while j < row.len()
            invariant
                j <= row@.len(),
                out@ == shown_statuses(row@, j as int),
            decreases row@.len() - j,
        {
            if row[j].duration > 0 {
                out.push(
                    StatusSnapshot {
                        status_type: row[j].status_type.as_str(),
                        stacks: row[j].stacks,
                        duration: row[j].duration,
                    },
                );
            }
            j = j + 1;
        }
        out
    }

    /// One side of the battle as shown.
    pub fn side_snapshot(&self, team: Team) -> (side: UnitSnapshot)
        ensures
            side@ == shown_side(self@, team),
    {
        let idx = match find_unit_index(&self.state.units, team, false) {
            Some(i) => i,
            None => 0,
        };
        if idx < self.state.units.len() && idx < self.runtime.len() {
            UnitSnapshot {
                hp: self.state.units[idx].hp,
                max_hp: self.state.units[idx].max_hp,
                action_gauge: self.state.units[idx].action_gauge,
                statuses: self.to_status_snapshots(idx),
            }
        } else {
            UnitSnapshot { hp: 0, max_hp: 0, action_gauge: 0, statuses: Vec::new() }
        }
    }
}

impl ActiveRun {
    /// The state of the run for display.
    pub fn snapshot(&self) -> (snap: Snapshot)
        ensures
            snap.run_state == run_state_word(self@.ended),
            snap.run_result == self@.result,
            snap.node_index == self@.node_index,
            snap.battle_index == self@.battle_index,
            snap.elapsed_time == self@.elapsed,
            snap.player@ == shown_player(self@),
            snap.enemy@ == shown_enemy(self@),
    {
        let (player, enemy) = match &self.current_battle {
            Some(combat) => (combat.side_snapshot(Team::Player), combat.side_snapshot(Team::Enemy)),
            None => (
                UnitSnapshot {
                    hp: self.run.player_hp,
                    max_hp: self.run.player_max_hp,
                    action_gauge: 0,
                    statuses: Vec::new(),
                },
                UnitSnapshot { hp: 0, max_hp: 0, action_gauge: 0, statuses: Vec::new() },
            ),
        };
        Snapshot {
            run_state: if self.ended {
                "ended"
            } else {
                "running"
            },
            run_result: self.result,
            node_index: self.node_index,
            battle_index: self.battle_index,
            elapsed_time: self.elapsed_time,
            player,
            enemy,
        }
    }
}

} // verus!
