//! The stepwise run: a cooperative state machine that advances simulated
//! time in sub-steps, suspends when the player has to choose an action, and
//! walks a fixed sequence of encounters.

pub mod manager;

use vstd::prelude::*;
use crate::battle::{battle_roster, create_battle};
use crate::engine::combat_state::{Combat, CombatModel, Ledger};
use crate::engine::trait_system::battle_end_context;
use crate::engine::turn_system::{ActionKind, TurnStop};
use crate::event::{Event, Record};
use crate::fixed::{min_int, round_div, sat_i64, SUBSTEP_MS, TICK_LIMIT};
use crate::model::{find_unit, find_unit_index, BattleOutcome, NodeType, RunState, Team};
use crate::rng::SimpleRng;
use crate::engine::snapshot::{
    blank_side, run_state_word, shown_enemy, shown_player, Snapshot, UnitSnapshot,
};
use crate::step_api::manager::{same_but, RunManager};
use crate::text::{decimal, push_decimal, str_eq, views};
use crate::trait_spec::{id_texts, trait_model_by_id, TraitId};
use vstd::string::StringExecFns;

verus! {

/// Number of planned nodes of a run: five battles and a boss.
pub const NODE_COUNT: u32 = 6;

/// Hit points of a common enemy, in hundredths.
pub const DRONE_HP: i64 = 8_400;

pub const DRONE_ATK: i32 = 11;

/// Speed of a common enemy, in hundredths.
pub const DRONE_SPEED: u32 = 2_800;

/// Hit points of the boss, in hundredths.
pub const BOSS_HP: i64 = 22_000;

pub const BOSS_ATK: i32 = 14;

/// Speed of the boss, in hundredths.
pub const BOSS_SPEED: u32 = 3_200;

/// Share of the maximum hit points a victory gives back, in percent.
pub const VICTORY_RECOVERY_PCT: i64 = 20;

/// The kind of the node at a position of the plan, counted from one.
pub open spec fn planned_node(node_index: u32) -> Option<NodeType> {
    if 1 <= node_index < NODE_COUNT {
        Some(NodeType::Battle)
    } else if node_index == NODE_COUNT {
        Some(NodeType::Boss)
    } else {
        None
    }
}

/// Whether the node at a position of the plan is the boss.
pub open spec fn is_boss_node(node_index: u32) -> bool {
    planned_node(node_index) == Some(NodeType::Boss)
}

/// A player action as the host hands it over: `kind` 1 is a skill slot,
/// anything else the basic attack.
#[derive(Clone, Copy, Debug)]
pub struct ActionInput {
    pub kind: u8,
    pub index: u32,
}

/// The action an input stands for; a slot past the last selects the last.
pub open spec fn action_of(input: ActionInput) -> ActionKind {
    if input.kind == 1 {
        ActionKind::SkillSlot(
            if input.index <= 3 {
                input.index
            } else {
                3
            },
        )
    } else {
        ActionKind::BasicAttack
    }
}

impl ActionInput {
    pub fn basic_attack() -> (a: ActionInput)
        ensures
            a.kind == 0,
            a.index == 0,
            action_of(a) == ActionKind::BasicAttack,
    {
        ActionInput { kind: 0, index: 0 }
    }

    pub fn skill_slot(index: u32) -> (a: ActionInput)
        ensures
            a.kind == 1,
            a.index == index,
    {
        ActionInput { kind: 1, index }
    }

    pub fn to_kind(&self) -> (k: ActionKind)
        ensures
            k == action_of(*self),
    {
        if self.kind == 1 {
            ActionKind::SkillSlot(
                if self.index <= 3 {
                    self.index
                } else {
                    3
                },
            )
        } else {
            ActionKind::BasicAttack
        }
    }
}

/// What a step hands back to the host.
pub struct StepResult {
    /// The trace of the step, one JSON object per line, in order.
    pub events: Vec<String>,
    /// Whether the run is suspended until the player chooses an action.
    pub need_input: bool,
    pub ended: bool,
    /// Empty unless the step was refused.
    pub error: String,
}

/// One run of the game.
pub struct ActiveRun {
    pub seed: u64,
    pub max_nodes: u32,
    pub run: RunState,
    pub node_index: u32,
    pub battle_index: u32,
    pub current_battle: Option<Combat>,
    pub current_enemy_name: &'static str,
    pub waiting_for_input: bool,
    pub ended: bool,
    pub result: &'static str,
    /// Simulated time played so far, in milliseconds.
    pub elapsed_time: u64,
    pub active_traits: Vec<TraitId>,
    /// The trace of the step in progress.
    pub events: Vec<Record>,
    /// The tick the events of the run itself are tagged with.
    pub log_tick: u32,
}

/// What an [`ActiveRun`] holds, as mathematical values.
pub struct RunModel {
    pub seed: u64,
    pub max_nodes: u32,
    pub run: RunState,
    pub node_index: u32,
    pub battle_index: u32,
    pub battle: Option<CombatModel>,
    pub enemy_name: &'static str,
    pub waiting: bool,
    pub ended: bool,
    pub result: &'static str,
    pub elapsed: u64,
    pub traits: Seq<TraitId>,
    pub events: Seq<Record>,
    pub log_tick: u32,
}

impl View for ActiveRun {
    type V = RunModel;

    open spec fn view(&self) -> RunModel {
        RunModel {
            seed: self.seed,
            max_nodes: self.max_nodes,
            run: self.run,
            node_index: self.node_index,
            battle_index: self.battle_index,
            battle: match self.current_battle {
                Some(c) => Some(c@),
                None => None,
            },
            enemy_name: self.current_enemy_name,
            waiting: self.waiting_for_input,
            ended: self.ended,
            result: self.result,
            elapsed: self.elapsed_time,
            traits: self.active_traits@,
            events: self.events@,
            log_tick: self.log_tick,
        }
    }
}

/// The arena of a new battle of a run against one enemy.
pub open spec fn new_arena(
    run: RunState,
    traits: Seq<TraitId>,
    enemy_hp: i64,
    enemy_atk: i32,
    enemy_speed: u32,
) -> CombatModel {
    let units = battle_roster(
        run.player_hp,
        run.player_max_hp,
        run.player_atk,
        run.player_speed,
        1,
        enemy_hp,
        enemy_atk,
        enemy_speed,
    );
    CombatModel {
        units,
        ledgers: Seq::new(units.len(), |i: int| Ledger::fresh()),
        tick: 0,
        delta_time: crate::battle::BATTLE_TICK_MS,
        rng: run.rng.state,
        traits,
        events: Seq::empty(),
    }
}

/// The hit points the player has after a victory: those left in battle plus
/// a fixed share of the maximum, capped at the maximum.
pub open spec fn recovered_hp(hp: i64, max_hp: i64) -> i64 {
    sat_i64(min_int(hp + round_div(max_hp * VICTORY_RECOVERY_PCT, 100), max_hp as int))
}

impl RunModel {
    /// The state every run starts in.
    pub open spec fn initial(seed: u64, max_nodes: u32) -> RunModel {
        RunModel {
            seed,
            max_nodes: if max_nodes <= NODE_COUNT {
                max_nodes
            } else {
                NODE_COUNT
            },
            run: RunState {
                seed,
                rng: SimpleRng { state: crate::rng::seeded(seed) },
                floor: 1,
                stage: 0,
                meta_placeholder: 0,
                player_hp: crate::model::PLAYER_START_HP,
                player_max_hp: crate::model::PLAYER_START_HP,
                player_atk: crate::model::PLAYER_START_ATK,
                player_speed: crate::model::PLAYER_START_SPEED,
            },
            node_index: 0,
            battle_index: 0,
            battle: None,
            enemy_name: "",
            waiting: false,
            ended: false,
            result: "none",
            elapsed: 0,
            traits: Seq::empty(),
            events: Seq::empty(),
            log_tick: 0,
        }
    }

    /// The plan is respected, the player's hit points are within bounds, and
    /// a battle in progress is well formed, has handed over its trace, has
    /// ticks left to play before the limit, and lets the traits of the run
    /// react: its list names the active traits of the run, in order.
    pub open spec fn wf(self) -> bool {
        &&& self.max_nodes <= NODE_COUNT
        &&& self.node_index <= self.max_nodes
        &&& self.battle_index == self.node_index
        &&& 0 <= self.run.player_hp <= self.run.player_max_hp
        &&& self.battle matches Some(b) ==> b.wf() && b.events.len() == 0 && !self.ended && b.tick
            < TICK_LIMIT && id_texts(b.traits) == id_texts(self.traits)
    }

    /// The run with `event` appended to the trace of the step, tagged with the log tick.
    pub open spec fn emit(self, event: Event) -> RunModel {
        RunModel { events: self.events.push(Record { tick: self.log_tick, event }), ..self }
    }

    /// The run with the trait named `id` appended to its active traits, if
    /// `id` names a known trait that is not active yet. The trait reacts
    /// from then on, in a battle in progress too.
    pub open spec fn activate_trait(self, id: Seq<char>) -> RunModel {
        match trait_model_by_id(id) {
            Some(t) => if trait_listed(self.traits, id, self.traits.len() as int) {
                self
            } else {
                RunModel {
                    traits: self.traits.push(t.id),
                    battle: match self.battle {
                        Some(b) => Some(CombatModel { traits: b.traits.push(t.id), ..b }),
                        None => None,
                    },
                    ..self
                }
            },
            None => self,
        }
    }

    /// The run after it made sure a battle is in progress. With a battle on
    /// or the run over, nothing happens. With every node played the run ends
    /// in a win. Otherwise the next node starts: a boss fight on the last
    /// planned node, a common fight on the others.
    pub open spec fn ensure_battle_started(self) -> RunModel {
        if self.battle is Some || self.ended {
            self
        } else if self.node_index >= self.max_nodes {
            RunModel { ended: true, result: "win", ..self }.emit(
                Event::RunEnd { result: "win", final_node_index: self.node_index },
            )
        } else {
            let node_index = (self.node_index + 1) as u32;
            let battle_index = (self.battle_index + 1) as u32;
            let boss = is_boss_node(node_index);
            let enemy_name = if boss {
                "Overstack Core"
            } else {
                "Rogue Drone"
            };
            RunModel {
                node_index,
                battle_index,
                enemy_name,
                battle: Some(
                    if boss {
                        new_arena(self.run, self.traits, BOSS_HP, BOSS_ATK, BOSS_SPEED)
                    } else {
                        new_arena(self.run, self.traits, DRONE_HP, DRONE_ATK, DRONE_SPEED)
                    },
                ),
                ..self
            }.emit(
                Event::NodeStart {
                    node_index,
                    node_type: if boss {
                        "Boss"
                    } else {
                        "Battle"
                    },
                },
            ).emit(Event::BattleStart { battle_index, enemy_name })
        }
    }

    /// The run after the battle `b` ended with `outcome`: the trace of the
    /// battle joins the trace of the step and the generator returns to the
    /// run. A victory keeps the player's hit points and adds the recovery; on
    /// the last node it ends the run in a win. A defeat zeroes the hit points
    /// and ends the run.
    pub open spec fn finalize(self, outcome: BattleOutcome, b: CombatModel) -> RunModel {
        let flushed = RunModel { events: self.events + b.events, battle: None, waiting: false, ..self };
        match outcome {
            BattleOutcome::Victory => {
                let hp = match find_unit(b.units, Team::Player, false, 0) {
                    Some(i) => b.units[i].hp,
                    None => self.run.player_hp,
                };
                let after = RunModel {
                    run: RunState {
                        player_hp: recovered_hp(hp, self.run.player_max_hp),
                        rng: SimpleRng { state: b.rng },
                        ..self.run
                    },
                    ..flushed
                };
                if after.node_index >= after.max_nodes {
                    RunModel { ended: true, result: "win", ..after }.emit(
                        Event::RunEnd { result: "win", final_node_index: after.node_index },
                    )
                } else {
                    after
                }
            },
            BattleOutcome::Defeat => RunModel {
                run: RunState { player_hp: 0, rng: SimpleRng { state: b.rng }, ..self.run },
                ended: true,
                result: "lose",
                ..flushed
            }.emit(Event::RunEnd { result: "lose", final_node_index: self.node_index }),
        }
    }
}

/// What a sub-step leaves behind.
pub struct SubStep {
    pub run: RunModel,
    /// The arena, if the battle goes on.
    pub battle: Option<CombatModel>,
    /// The player action still queued.
    pub queued: Option<ActionKind>,
    pub need_input: bool,
}

impl RunModel {
    /// The tick that tags the events of the run itself at the start of a step.
    pub open spec fn sim_tick(self) -> u32 {
        match self.battle {
            Some(b) => b.tick,
            None => 0,
        }
    }

    /// The run with the battle `b` in progress; the trace of the battle
    /// joins the trace of the step.
    pub open spec fn with_battle(self, b: CombatModel) -> RunModel {
        RunModel {
            events: self.events + b.events,
            battle: Some(CombatModel { events: Seq::empty(), ..b }),
            ..self
        }
    }

    /// The run after the battle `b` was declared lost for lasting too long.
    #[verifier::opaque]
    pub open spec fn force_defeat(self, b: CombatModel) -> RunModel {
        self.finalize(
            BattleOutcome::Defeat,
            b.emit(
                Event::BattleEnd {
                    result: "lose",
                    player_hp_after: crate::battle::player_hp_of(b.units),
                },
            ).dispatch(battle_end_context(), 0),
        )
    }

    /// One sub-step of `step_dt` milliseconds of a run fighting in `b`: the
    /// tick advances, statuses tick, living units gain gauge, and the ready
    /// units take their turns. A battle that ends is closed at once.
    #[verifier::opaque]
    pub open spec fn sub_step(self, b: CombatModel, step_dt: u32, queued: Option<ActionKind>)
        -> SubStep {
        let b0 = CombatModel { tick: (b.tick + 1) as u32, ..b };
        let r0 = RunModel {
            log_tick: b0.tick,
            elapsed: if self.elapsed + step_dt > u64::MAX {
                u64::MAX
            } else {
                (self.elapsed + step_dt) as u64
            },
            ..self
        };
        let (ticked, b1) = b0.tick_statuses(step_dt);
        match ticked {
            Some(outcome) => SubStep {
                run: r0.finalize(outcome, b1),
                battle: None,
                queued,
                need_input: false,
            },
            None => {
                let b2 = if step_dt > 0 {
                    b1.accrue(step_dt)
                } else {
                    b1
                };
                let (b3, left, stop) = b2.take_turns(queued);
                let r1 = RunModel {
                    waiting: if stop is NeedInput {
                        true
                    } else if queued is Some && left is None {
                        false
                    } else {
                        r0.waiting
                    },
                    ..r0
                };
                match stop {
                    TurnStop::Ended(outcome) => SubStep {
                        run: r1.finalize(outcome, b3),
                        battle: None,
                        queued: left,
                        need_input: false,
                    },
                    TurnStop::NeedInput => SubStep {
                        run: r1,
                        battle: Some(b3),
                        queued: left,
                        need_input: true,
                    },
                    TurnStop::Idle => SubStep {
                        run: r1,
                        battle: Some(b3),
                        queued: left,
                        need_input: false,
                    },
                }
            },
        }
    }

    /// The run after it played `remaining` milliseconds in the battle `b`, in
    /// sub-steps of at most [`SUBSTEP_MS`], and whether it stopped to ask the
    /// player for an action. It stops early when the battle ends. A battle
    /// that reaches [`TICK_LIMIT`] ticks undecided is declared lost at once,
    /// whether or not the player was about to be asked. While the run waits
    /// for the player and an action is queued, a sub-step of no time is
    /// played to let the player act.
    ///
    /// Every sub-step costs the battle a tick, so the run comes to a halt.
    pub open spec fn advance(
        self,
        b: CombatModel,
        remaining: u32,
        queued: Option<ActionKind>,
    ) -> (RunModel, bool)
        decreases ticks_left(b.tick),
        when self.wf() && self.battle is None && !self.ended && b.wf()
    {
        if b.tick >= TICK_LIMIT {
            (self.force_defeat(b), false)
        } else if !(remaining > 0 || (self.waiting && queued is Some)) {
            (self.with_battle(b), false)
        } else {
            let step_dt = if remaining < SUBSTEP_MS {
                remaining
            } else {
                SUBSTEP_MS
            };
            let after = self.sub_step(b, step_dt, queued);
            match after.battle {
                Some(b2) => if after.need_input && b2.tick < TICK_LIMIT {
                    (after.run.with_battle(b2), true)
                } else {
                    proof {
                        lemma_sub_step_keeps_wf(self, b, step_dt, queued);
                    }
                    after.run.advance(
                        b2,
                        if after.need_input {
                            0
                        } else {
                            (remaining - step_dt) as u32
                        },
                        after.queued,
                    )
                },
                None => (after.run, false),
            }
        }
    }

    /// One step of the run: `dt` milliseconds of simulated time and, maybe,
    /// the action the player chose. Returned: the run after the step, its
    /// `events` holding the trace of the step, and whether the run now needs
    /// an action from the player.
    ///
    /// A run that is over stays as it is. The first step reports the start
    /// of the run. A step makes sure a battle is in progress; a run that
    /// waits for the player and gets no action stays suspended; otherwise
    /// time advances. When the battle ended and the run goes on, the next
    /// node starts within the same step.
    pub open spec fn step(self, dt: u32, action: Option<ActionKind>) -> (RunModel, bool) {
        let m0 = RunModel { events: Seq::empty(), log_tick: self.sim_tick(), ..self };
        if m0.ended {
            (m0, false)
        } else {
            let m1 = if m0.node_index == 0 && m0.battle is None {
                m0.emit(Event::RunStart { seed: m0.seed })
            } else {
                m0
            };
            let m2 = m1.ensure_battle_started();
            if m2.ended {
                (m2, false)
            } else if m2.waiting && action is None {
                (m2, true)
            } else {
                match m2.battle {
                    Some(b) => {
                        let (m3, need_input) = RunModel { battle: None, ..m2 }.advance(
                            b,
                            dt,
                            action,
                        );
                        (
                            if m3.battle is None && !m3.ended {
                                m3.ensure_battle_started()
                            } else {
                                m3
                            },
                            need_input,
                        )
                    },
                    None => (m2, false),
                }
            }
        }
    }
}

/// Number of ticks a battle at `tick` may still play before it is declared lost.
pub open spec fn ticks_left(tick: u32) -> nat {
    if tick < TICK_LIMIT {
        (TICK_LIMIT - tick) as nat
    } else {
        0
    }
}

/// Whether `id` is among the first `n` identifiers of a list.
pub open spec fn trait_listed(traits: Seq<TraitId>, id: Seq<char>, n: int) -> bool {
    exists|i: int| 0 <= i < n && i < traits.len() && (#[trigger] traits[i])@ == id
}

/// A copy of a list of trait identifiers.
fn copy_ids(ids: &Vec<TraitId>) -> (out: Vec<TraitId>)
    ensures
        out@ == ids@,
{
    let mut out: Vec<TraitId> = Vec::new();
    let mut i: usize = 0;
    while i < ids.len()
        invariant
            i <= ids@.len(),
            out@ == ids@.take(i as int),
        decreases ids@.len() - i,
    {
        out.push(ids[i]);
        assert(out@ =~= ids@.take(i + 1));
        i = i + 1;
    }
    assert(ids@.take(ids@.len() as int) =~= ids@);
    out
}

/// Whether two lists name the same traits in the same order.
fn same_ids(a: &Vec<TraitId>, b: &Vec<TraitId>) -> (r: bool)
    ensures
        r == (id_texts(a@) == id_texts(b@)),
{
    if a.len() != b.len() {
        assert(id_texts(a@).len() != id_texts(b@).len());
        return false;
    }
    let mut i: usize = 0;
    while i < a.len()
        invariant
            i <= a@.len(),
            a@.len() == b@.len(),
            forall|k: int| 0 <= k < i ==> (#[trigger] a@[k])@ == b@[k]@,
        decreases a@.len() - i,
    {
        if !str_eq(a[i], b[i]) {
            assert(id_texts(a@)[i as int] != id_texts(b@)[i as int]);
            return false;
        }
        i = i + 1;
    }
    assert(id_texts(a@) =~= id_texts(b@));
    true
}

/// Whether a list of identifiers holds `id`.
fn is_listed(ids: &Vec<TraitId>, id: &str) -> (r: bool)
    ensures
        r == trait_listed(ids@, id@, ids@.len() as int),
{
    let mut i: usize = 0;
    while i < ids.len()
        invariant
            i <= ids@.len(),
            !trait_listed(ids@, id@, i as int),
        decreases ids@.len() - i,
    {
        if crate::text::str_eq(ids[i], id) {
            return true;
        }
        i = i + 1;
    }
    false
}

/// The hit points the player has after a victory.
pub fn recover_after_victory(hp: i64, max_hp: i64) -> (r: i64)
    ensures
        r == recovered_hp(hp, max_hp),
        0 <= hp && 0 <= max_hp ==> 0 <= r <= max_hp,
{
    let m: i128 = max_hp as i128;
    let recover = round_div_by_100(m * 20);
    let total: i128 = hp as i128 + recover;
    if total < m {
        crate::fixed::saturate(total)
    } else {
        max_hp
    }
}

fn round_div_by_100(n: i128) -> (r: i128)
    requires
        -0x1_0000_0000_0000_0000_0000 <= n <= 0x1_0000_0000_0000_0000_0000,
    ensures
        r == round_div(n as int, 100),
        n >= 0 ==> 0 <= r <= n,
        n <= 0 ==> n <= r <= 0,
{
    crate::fixed::round_div_wide(n, 100)
}

impl ActiveRun {
    /// The run is well formed when its model is and so is the arena of a
    /// battle in progress.
    pub open spec fn wf(&self) -> bool {
        &&& self@.wf()
        &&& self.current_battle matches Some(c) ==> c.wf()
    }

    /// Checks that the run is well formed: the plan is respected, hit points
    /// are within bounds, and a battle in progress is in order.
    pub fn is_well_formed(&self) -> (r: bool)
        ensures
            r == self.wf(),
    {
        if self.max_nodes > NODE_COUNT || self.node_index > self.max_nodes || self.battle_index
            != self.node_index || self.run.player_hp < 0 || self.run.player_hp
            > self.run.player_max_hp {
            return false;
        }
        match &self.current_battle {
            Some(combat) => combat.is_well_formed() && combat.events.len() == 0 && !self.ended
                && combat.state.tick < TICK_LIMIT && same_ids(&combat.traits, &self.active_traits),
            None => true,
        }
    }

    /// A fresh run of at most `max_nodes` nodes (six at most), with no trait active.
    pub fn new(seed: u64, max_nodes: u32) -> (r: ActiveRun)
        ensures
            r@ == RunModel::initial(seed, max_nodes),
            r.wf(),
    {
        ActiveRun {
            seed,
            max_nodes: if max_nodes <= NODE_COUNT {
                max_nodes
            } else {
                NODE_COUNT
            },
            run: RunState::new(seed),
            node_index: 0,
            battle_index: 0,
            current_battle: None,
            current_enemy_name: "",
            waiting_for_input: false,
            ended: false,
            result: "none",
            elapsed_time: 0,
            active_traits: Vec::new(),
            events: Vec::new(),
            log_tick: 0,
        }
    }

    /// Puts the run back into the state it was created in.
    pub fn reset(&mut self)
        ensures
            final(self)@ == RunModel::initial(old(self).seed, old(self).max_nodes),
            final(self).wf(),
    {
        *self = ActiveRun::new(self.seed, self.max_nodes);
    }

    /// Activates a trait, for the battle in progress and for those to come.
    /// Returns whether the list changed: an unknown identifier or an active
    /// trait changes nothing.
    pub fn activate_trait(&mut self, id: &str) -> (added: bool)
        requires
            old(self).wf(),
        ensures
            final(self)@ == old(self)@.activate_trait(id@),
            added == (final(self)@.traits.len() > old(self)@.traits.len()),
            final(self).wf(),
    {
        match crate::trait_spec::trait_by_id(id) {
            Some(t) => {
                if is_listed(&self.active_traits, id) {
                    false
                } else {
                    self.active_traits.push(t.id);
                    match &mut self.current_battle {
                        Some(combat) => {
                            combat.traits.push(t.id);
                        },
                        None => {},
                    }
                    proof {
                        if let Some(b) = old(self)@.battle {
                            assert(id_texts(b.traits.push(t.id)) =~= id_texts(b.traits).push(
                                t.id@,
                            ));
                            assert(id_texts(old(self)@.traits.push(t.id)) =~= id_texts(
                                old(self)@.traits,
                            ).push(t.id@));
                        }
                    }
                    true
                }
            },
            None => false,
        }
    }

    /// The kind of the node the run is on, if it is on one.
    pub fn current_node_type(&self) -> (r: Option<NodeType>)
        ensures
            r == planned_node(self.node_index),
    {
        if self.node_index == 0 {
            None
        } else if self.node_index < NODE_COUNT {
            Some(NodeType::Battle)
        } else if self.node_index == NODE_COUNT {
            Some(NodeType::Boss)
        } else {
            None
        }
    }

    /// Sets the tick the events of the run itself are tagged with from now on.
    pub fn set_log_tick(&mut self, tick: u32)
        ensures
            final(self)@ == (RunModel { log_tick: tick, ..old(self)@ }),
            final(self).current_battle == old(self).current_battle,
    {
        self.log_tick = tick;
    }

    /// Appends an event to the trace of the step.
    fn emit(&mut self, event: Event)
        ensures
            final(self)@ == old(self)@.emit(event),
            final(self).current_battle == old(self).current_battle,
    {
        let tick = self.log_tick;
        self.events.push(Record { tick, event });
    }

    /// Makes sure a battle is in progress, starting the next node if need be.
    pub fn ensure_battle_started(&mut self)
        requires
            old(self).wf(),
        ensures
            final(self)@ == old(self)@.ensure_battle_started(),
            final(self).wf(),
            !final(self).ended ==> final(self).current_battle is Some,
    {
        if self.current_battle.is_some() || self.ended {
            return ;
        }
        if self.node_index >= self.max_nodes {
            self.ended = true;
            self.result = "win";
            self.emit(Event::RunEnd { result: "win", final_node_index: self.node_index });
            return ;
        }
        self.node_index = self.node_index + 1;
        let boss = match self.current_node_type() {
            Some(NodeType::Boss) => true,
            _ => false,
        };
        self.emit(
            Event::NodeStart {
                node_index: self.node_index,
                node_type: if boss {
                    "Boss"
                } else {
                    "Battle"
                },
            },
        );
        self.battle_index = self.battle_index + 1;
        let state = if boss {
            create_battle(
                self.run.player_hp,
                self.run.player_max_hp,
                self.run.player_atk,
                self.run.player_speed,
                1,
                BOSS_HP,
                BOSS_ATK,
                BOSS_SPEED,
            )
        } else {
            create_battle(
                self.run.player_hp,
                self.run.player_max_hp,
                self.run.player_atk,
                self.run.player_speed,
                1,
                DRONE_HP,
                DRONE_ATK,
                DRONE_SPEED,
            )
        };
        let enemy_name = if boss {
            "Overstack Core"
        } else {
            "Rogue Drone"
        };
        let combat = Combat::new(state, self.run.rng, copy_ids(&self.active_traits));
        assert(combat@.wf());
        self.current_enemy_name = enemy_name;
        self.current_battle = Some(combat);
        self.emit(Event::BattleStart { battle_index: self.battle_index, enemy_name });
    }

    /// Closes the battle that was fought in `combat`.
    pub fn finalize_battle(&mut self, outcome: BattleOutcome, combat: Combat)
        requires
            old(self).wf(),
            combat.wf(),
        ensures
            final(self)@ == old(self)@.finalize(outcome, combat@),
            final(self).wf(),
            final(self).current_battle is None,
    {
        let mut combat = combat;
        self.events.append(&mut combat.events);
        self.run.rng = combat.rng;
        self.current_battle = None;
        self.waiting_for_input = false;
        match outcome {
            BattleOutcome::Victory => {
                let hp = match find_unit_index(&combat.state.units, Team::Player, false) {
                    Some(i) => combat.state.units[i].hp,
                    None => self.run.player_hp,
                };
                self.run.player_hp = recover_after_victory(hp, self.run.player_max_hp);
                if self.node_index >= self.max_nodes {
                    self.ended = true;
                    self.result = "win";
                    self.emit(Event::RunEnd { result: "win", final_node_index: self.node_index });
                }
            },
            BattleOutcome::Defeat => {
                self.run.player_hp = 0;
                self.ended = true;
                self.result = "lose";
                self.emit(Event::RunEnd { result: "lose", final_node_index: self.node_index });
            },
        }
    }
}

impl ActiveRun {
    /// Puts the arena back into the run as the battle in progress.
    fn resume_battle(&mut self, combat: Combat)
        requires
            old(self).wf(),
            old(self).current_battle is None,
            !old(self).ended,
            combat.wf(),
            combat@.tick < TICK_LIMIT,
            id_texts(combat@.traits) == id_texts(old(self)@.traits),
        ensures
            final(self)@ == old(self)@.with_battle(combat@),
            final(self).wf(),
            final(self).current_battle is Some,
    {
        let mut combat = combat;
        self.events.append(&mut combat.events);
        self.current_battle = Some(combat);
    }

    /// Declares the battle fought in `combat` lost.
    fn force_defeat(&mut self, combat: Combat)
        requires
            old(self).wf(),
            combat.wf(),
        ensures
            final(self)@ == old(self)@.force_defeat(combat@),
            final(self).wf(),
            final(self).current_battle is None,
    {
        reveal(RunModel::force_defeat);
        let mut combat = combat;
        let player_hp_after = crate::battle::player_hp_after_battle(&combat.state);
        combat.emit(Event::BattleEnd { result: "lose", player_hp_after });
        combat.emit_battle_end_triggers();
        self.finalize_battle(BattleOutcome::Defeat, combat);
    }

    /// Plays one sub-step of `step_dt` milliseconds of the battle fought in
    /// `combat`. Returns the arena if the battle goes on, the action still
    /// queued, and whether the player has to choose.
    fn sub_step(&mut self, combat: Combat, step_dt: u32, queued: Option<ActionKind>) -> (r: (
        Option<Combat>,
        Option<ActionKind>,
        bool,
    ))
        requires
            old(self).wf(),
            old(self).current_battle is None,
            !old(self).ended,
            combat.wf(),
            combat@.tick < TICK_LIMIT,
        ensures
            final(self)@ == old(self)@.sub_step(combat@, step_dt, queued).run,
            match r.0 {
                Some(c) => old(self)@.sub_step(combat@, step_dt, queued).battle == Some(c@)
                    && c.wf() && c@.tick == combat@.tick + 1 && !final(self).ended && c@.traits
                    == combat@.traits,
                None => old(self)@.sub_step(combat@, step_dt, queued).battle is None,
            },
            r.1 == old(self)@.sub_step(combat@, step_dt, queued).queued,
            r.2 == old(self)@.sub_step(combat@, step_dt, queued).need_input,
            final(self).wf(),
            final(self).current_battle is None,
            final(self)@.traits == old(self)@.traits,
    {
        reveal(RunModel::sub_step);
        let mut combat = combat;
        let tick = combat.advance_sim_tick();
        self.set_log_tick(tick);
        self.elapsed_time = self.elapsed_time.saturating_add(step_dt as u64);
        if let Some(outcome) = combat.tick_statuses(step_dt) {
            self.finalize_battle(outcome, combat);
            return (None, queued, false);
        }
        if step_dt > 0 {
            combat.accrue_gauges(step_dt);
        }
        let (left, stop) = combat.take_turns(queued);
        if queued.is_some() && left.is_none() {
            self.waiting_for_input = false;
        }
        match stop {
            TurnStop::Ended(outcome) => {
                self.finalize_battle(outcome, combat);
                (None, left, false)
            },
            TurnStop::NeedInput => {
                self.waiting_for_input = true;
                (Some(combat), left, true)
            },
            TurnStop::Idle => (Some(combat), left, false),
        }
    }

    /// Plays `dt` milliseconds of the battle in progress.
    fn advance(&mut self, dt: u32, action: Option<ActionKind>) -> (need_input: bool)
        requires
            old(self).wf(),
            old(self).current_battle is Some,
            !old(self).ended,
        ensures
            (final(self)@, need_input) == (RunModel { battle: None, ..old(self)@ }).advance(
                old(self)@.battle->0,
                dt,
                action,
            ),
            final(self).wf(),
    {
        let mut combat = match self.current_battle.take() {
            Some(c) => c,
            None => {
                return false;
            },
        };
        let mut remaining = dt;
        let mut queued = action;
        loop
            invariant
                self.wf(),
                self.current_battle is None,
                !self.ended,
                combat.wf(),
                combat@.tick <= TICK_LIMIT,
                id_texts(combat@.traits) == id_texts(self@.traits),
                self@.advance(combat@, remaining, queued) == (RunModel {
                    battle: None,
                    ..old(self)@
                }).advance(old(self)@.battle->0, dt, action),
            decreases ticks_left(combat@.tick),
        {
            if combat.state.tick >= TICK_LIMIT {
                self.force_defeat(combat);
                return false;
            }
            if !(remaining > 0 || (self.waiting_for_input && queued.is_some())) {
                self.resume_battle(combat);
                return false;
            }
            let step_dt = if remaining < SUBSTEP_MS {
                remaining
            } else {
                SUBSTEP_MS
            };
            let (battle, left, need_input) = self.sub_step(combat, step_dt, queued);
            match battle {
                Some(c) => {
                    if need_input && c.state.tick < TICK_LIMIT {
                        self.resume_battle(c);
                        return true;
                    }
                    combat = c;
                },
                None => {
                    return false;
                },
            }
            remaining = if need_input {
                0
            } else {
                remaining - step_dt
            };
            queued = left;
        }
    }

    /// Plays one step and leaves its trace in `events`. Returns whether the
    /// run now needs an action from the player.
    pub fn step_records(&mut self, dt: u32, action: Option<ActionKind>) -> (need_input: bool)
        requires
            old(self).wf(),
        ensures
            (final(self)@, need_input) == old(self)@.step(dt, action),
            final(self).wf(),
    {
        self.events = Vec::new();
        let tick = match &self.current_battle {
            Some(c) => c.sim_tick(),
            None => 0,
        };
        self.set_log_tick(tick);
        if self.ended {
            return false;
        }
        if self.node_index == 0 && self.current_battle.is_none() {
            self.emit(Event::RunStart { seed: self.seed });
        }
        self.ensure_battle_started();
        if self.ended {
            return false;
        }
        if self.waiting_for_input && action.is_none() {
            return true;
        }
        let need_input = self.advance(dt, action);
        if self.current_battle.is_none() && !self.ended {
            self.ensure_battle_started();
        }
        need_input
    }
}

impl ActiveRun {
    /// Plays one step: `dt` milliseconds of simulated time and, maybe, the
    /// action the player chose.
    pub fn step_once(&mut self, dt: u32, action: Option<ActionKind>) -> (result: StepResult)
        requires
            old(self).wf(),
        ensures
            final(self)@ == old(self)@.step(dt, action).0,
            crate::text::views(result.events@) == crate::log::lines_of(final(self)@.events),
            result.need_input == old(self)@.step(dt, action).1,
            result.ended == final(self)@.ended,
            result.error@.len() == 0,
            final(self).wf(),
    {
        let need_input = self.step_records(dt, action);
        StepResult {
            events: crate::log::render_records(&self.events),
            need_input,
            ended: self.ended,
            error: String::new(),
        }
    }
}

broadcast use vstd::std_specs::hash::group_hash_axioms;

/// What the host asked for with an action word and its argument: `Some` of
/// the action to queue (`None` for no action), or `None` for a word that
/// names no action. A skill slot out of range is clamped into range.
pub open spec fn parse_action(action_kind: Seq<char>, action_arg: i32) -> Option<
    Option<ActionKind>,
> {
    if action_kind == "none"@ || action_kind == ""@ {
        Some(None)
    } else if action_kind == "basic"@ {
        Some(Some(ActionKind::BasicAttack))
    } else if action_kind == "skill"@ {
        Some(
            Some(
                ActionKind::SkillSlot(
                    if action_arg < 0 {
                        0
                    } else if action_arg > 3 {
                        3
                    } else {
                        action_arg as u32
                    },
                ),
            ),
        )
    } else {
        None
    }
}

/// The result of a step that was refused with `error`: no events, no progress.
pub open spec fn is_refusal(result: StepResult, ended: bool, error: Seq<char>) -> bool {
    &&& result.events@.len() == 0
    &&& !result.need_input
    &&& result.ended == ended
    &&& result.error@ == error
}

/// `result` is what the step of `before` with `dt` and `action` hands back,
/// and `after` is the run it leaves.
pub open spec fn is_step_of(
    before: RunModel,
    after: RunModel,
    dt: u32,
    action: Option<ActionKind>,
    result: StepResult,
) -> bool {
    &&& after == before.step(dt, action).0
    &&& views(result.events@) == crate::log::lines_of(after.events)
    &&& result.need_input == before.step(dt, action).1
    &&& result.ended == after.ended
    &&& result.error@.len() == 0
}

/// The error of a step on a handle that names no run.
pub open spec fn invalid_handle_text(handle: u32) -> Seq<char> {
    "invalid_handle:"@ + decimal(handle as nat)
}

/// The error of a step with an action word that names no action.
pub open spec fn invalid_action_text(action_kind: Seq<char>) -> Seq<char> {
    "invalid_action:"@ + action_kind
}

fn refusal(ended: bool, error: String) -> (result: StepResult)
    ensures
        is_refusal(result, ended, error@),
{
    StepResult { events: Vec::new(), need_input: false, ended, error }
}

fn invalid_handle(handle: u32) -> (result: StepResult)
    ensures
        is_refusal(result, true, invalid_handle_text(handle)),
{
    let mut error = String::new();
    error.append("invalid_handle:");
    push_decimal(&mut error, handle as u128);
    assert(error@ =~= invalid_handle_text(handle));
    refusal(true, error)
}

/// Steps the run of `handle`, if there is one.
fn step_run(manager: &mut RunManager, handle: u32, dt: u32, action: Option<ActionKind>) -> (result:
    StepResult)
    requires
        old(manager).wf(),
    ensures
        final(manager).wf(),
        final(manager).next_handle == old(manager).next_handle,
        if old(manager).runs@.contains_key(handle) {
            &&& same_but(old(manager).runs@, final(manager).runs@, handle)
            &&& is_step_of(
                old(manager).runs@[handle]@,
                final(manager).runs@[handle]@,
                dt,
                action,
                result,
            )
        } else {
            &&& final(manager).runs@ == old(manager).runs@
            &&& is_refusal(result, true, invalid_handle_text(handle))
        },
{
    match manager.runs.remove(&handle) {
        Some(run) => {
            let mut run = run;
            let result = run.step_once(dt, action);
            manager.runs.insert(handle, run);
            assert(manager.runs@.dom() =~= old(manager).runs@.dom());
            result
        },
        None => {
            assert(manager.runs@ =~= old(manager).runs@);
            invalid_handle(handle)
        },
    }
}

/// Creates a run in the registry and returns its handle.
pub fn create_run(manager: &mut RunManager, seed: u32, max_nodes: u32) -> (handle: u32)
    requires
        old(manager).wf(),
    ensures
        handle == crate::step_api::manager::handle_after(old(manager).next_handle),
        handle >= 1,
        final(manager).next_handle == handle,
        final(manager).runs@.contains_key(handle),
        final(manager).runs@[handle]@ == RunModel::initial(seed as u64, max_nodes),
        final(manager).runs@.remove(handle) == old(manager).runs@.remove(handle),
        final(manager).wf(),
{
    manager.create_run(seed, max_nodes)
}

/// Drops the run of a handle, if there is one.
pub fn destroy_run(manager: &mut RunManager, handle: u32)
    requires
        old(manager).wf(),
    ensures
        final(manager).runs@ == old(manager).runs@.remove(handle),
        final(manager).next_handle == old(manager).next_handle,
        final(manager).wf(),
{
    manager.destroy_run(handle)
}

/// Puts the run of a handle back into its initial state. Returns whether
/// the handle names a run.
pub fn reset_run(manager: &mut RunManager, handle: u32) -> (found: bool)
    requires
        old(manager).wf(),
    ensures
        found == old(manager).runs@.contains_key(handle),
        found ==> same_but(old(manager).runs@, final(manager).runs@, handle) && final(manager).runs@[handle]@
            == RunModel::initial(
            old(manager).runs@[handle].seed,
            old(manager).runs@[handle].max_nodes,
        ),
        !found ==> final(manager).runs@ == old(manager).runs@,
        final(manager).next_handle == old(manager).next_handle,
        final(manager).wf(),
{
    manager.reset_run(handle)
}

/// Activates a trait for the run of `handle`, from the battle in progress on.
/// Returns whether the list of active traits changed: an unknown handle, an
/// unknown identifier or an active trait changes nothing.
pub fn activate_trait(manager: &mut RunManager, handle: u32, trait_id: &str) -> (added: bool)
    requires
        old(manager).wf(),
    ensures
        final(manager).wf(),
        final(manager).next_handle == old(manager).next_handle,
        if old(manager).runs@.contains_key(handle) {
            &&& same_but(old(manager).runs@, final(manager).runs@, handle)
            &&& final(manager).runs@[handle]@ == old(manager).runs@[handle]@.activate_trait(
                trait_id@,
            )
            &&& added == (final(manager).runs@[handle]@.traits.len() > old(
                manager,
            ).runs@[handle]@.traits.len())
        } else {
            &&& final(manager).runs@ == old(manager).runs@
            &&& !added
        },
{
    match manager.runs.remove(&handle) {
        Some(run) => {
            let mut run = run;
            let added = run.activate_trait(trait_id);
            manager.runs.insert(handle, run);
            assert(manager.runs@.dom() =~= old(manager).runs@.dom());
            added
        },
        None => {
            assert(manager.runs@ =~= old(manager).runs@);
            false
        },
    }
}

/// Steps the run of `handle` by `dt` milliseconds with the action the
/// player chose, if any. A handle that names no run is refused with
/// `invalid_handle:` and the handle; nothing changes then.
pub fn step(manager: &mut RunManager, handle: u32, dt: u32, player_action: Option<ActionInput>)
    -> (result: StepResult)
    requires
        old(manager).wf(),
    ensures
        final(manager).wf(),
        final(manager).next_handle == old(manager).next_handle,
        if old(manager).runs@.contains_key(handle) {
            &&& same_but(old(manager).runs@, final(manager).runs@, handle)
            &&& is_step_of(
                old(manager).runs@[handle]@,
                final(manager).runs@[handle]@,
                dt,
                match player_action {
                    Some(a) => Some(action_of(a)),
                    None => None,
                },
                result,
            )
        } else {
            &&& final(manager).runs@ == old(manager).runs@
            &&& is_refusal(result, true, invalid_handle_text(handle))
        },
{
    let action = match player_action {
        Some(a) => Some(a.to_kind()),
        None => None,
    };
    step_run(manager, handle, dt, action)
}

/// Steps the run of `handle` with an action given as a word: `"none"` or
/// the empty word for no action, `"basic"` for the basic attack, `"skill"`
/// for the skill slot `action_arg`. A handle that names no run is refused
/// with `invalid_handle:` and the handle; any other word with
/// `invalid_action:` and the word. A refused step changes nothing.
pub fn step_with_action(
    manager: &mut RunManager,
    handle: u32,
    dt: u32,
    action_kind: &str,
    action_arg: i32,
) -> (result: StepResult)
    requires
        old(manager).wf(),
    ensures
        final(manager).wf(),
        final(manager).next_handle == old(manager).next_handle,
        if !old(manager).runs@.contains_key(handle) {
            &&& final(manager).runs@ == old(manager).runs@
            &&& is_refusal(result, true, invalid_handle_text(handle))
        } else {
            match parse_action(action_kind@, action_arg) {
                Some(action) => {
                    &&& same_but(old(manager).runs@, final(manager).runs@, handle)
                    &&& is_step_of(
                        old(manager).runs@[handle]@,
                        final(manager).runs@[handle]@,
                        dt,
                        action,
                        result,
                    )
                },
                None => {
                    &&& final(manager).runs@ == old(manager).runs@
                    &&& is_refusal(
                        result,
                        old(manager).runs@[handle].ended,
                        invalid_action_text(action_kind@),
                    )
                },
            }
        },
{
    let ended = match manager.runs.get(&handle) {
        Some(run) => run.ended,
        None => {
            return invalid_handle(handle);
        },
    };
    let action = if str_eq(action_kind, "none") || str_eq(action_kind, "") {
        None
    } else if str_eq(action_kind, "basic") {
        Some(ActionKind::BasicAttack)
    } else if str_eq(action_kind, "skill") {
        Some(
            ActionKind::SkillSlot(
                if action_arg < 0 {
                    0
                } else if action_arg > 3 {
                    3
                } else {
                    action_arg as u32
                },
            ),
        )
    } else {
        let mut error = String::new();
        error.append("invalid_action:");
        error.append(action_kind);
        assert(error@ =~= invalid_action_text(action_kind@));
        return refusal(ended, error);
    };
    step_run(manager, handle, dt, action)
}

/// The state of the run of `handle` for display. A handle that names no
/// run shows an ended run with the result `invalid_handle` and blank sides.
pub fn get_snapshot(manager: &RunManager, handle: u32) -> (snap: Snapshot)
    ensures
        if manager.runs@.contains_key(handle) {
            let run = manager.runs@[handle]@;
            &&& snap.run_state == run_state_word(run.ended)
            &&& snap.run_result == run.result
            &&& snap.node_index == run.node_index
            &&& snap.battle_index == run.battle_index
            &&& snap.elapsed_time == run.elapsed
            &&& snap.player@ == shown_player(run)
            &&& snap.enemy@ == shown_enemy(run)
        } else {
            &&& snap.run_state == "ended"
            &&& snap.run_result == "invalid_handle"
            &&& snap.node_index == 0
            &&& snap.battle_index == 0
            &&& snap.elapsed_time == 0
            &&& snap.player@ == blank_side(0, 0)
            &&& snap.enemy@ == blank_side(0, 0)
        },
{
    match manager.runs.get(&handle) {
        Some(run) => run.snapshot(),
        None => Snapshot {
            run_state: "ended",
            run_result: "invalid_handle",
            node_index: 0,
            battle_index: 0,
            elapsed_time: 0,
            player: UnitSnapshot { hp: 0, max_hp: 0, action_gauge: 0, statuses: Vec::new() },
            enemy: UnitSnapshot { hp: 0, max_hp: 0, action_gauge: 0, statuses: Vec::new() },
        },
    }
}

/// Hit points stay within bounds: in a well-formed run the player carries
/// between zero and the maximum, and so does every unit of a battle in
/// progress. A fresh run is well formed, and every operation on a run keeps
/// it so.
pub proof fn lemma_hit_points_in_bounds(run: RunModel)
    requires
        run.wf(),
    ensures
        0 <= run.run.player_hp <= run.run.player_max_hp,
        run.battle matches Some(b) ==> forall|i: int|
            0 <= i < b.units.len() ==> 0 <= (#[trigger] b.units[i]).hp <= b.units[i].max_hp,
        RunModel::initial(run.seed, run.max_nodes).wf(),
{
}

/// Closing a battle keeps the run well formed.
pub proof fn lemma_finalize_keeps_wf(run: RunModel, outcome: BattleOutcome, b: CombatModel)
    requires
        run.wf(),
        b.wf(),
    ensures
        run.finalize(outcome, b).wf(),
        run.finalize(outcome, b).battle is None,
{
    crate::model::lemma_find_unit(b.units, Team::Player, false, 0);
}

/// Starting the next node keeps the run well formed, and leaves a run that
/// goes on with a battle in progress.
pub proof fn lemma_ensure_battle_started_keeps_wf(run: RunModel)
    requires
        run.wf(),
    ensures
        run.ensure_battle_started().wf(),
        !run.ensure_battle_started().ended ==> run.ensure_battle_started().battle is Some,
{
}

/// A sub-step keeps the run well formed, and a battle that goes on is well
/// formed, one tick older and otherwise the same battle: the same units,
/// and no status-power multiplier lower than before.
pub proof fn lemma_sub_step_keeps_wf(
    run: RunModel,
    b: CombatModel,
    step_dt: u32,
    queued: Option<ActionKind>,
)
    requires
        run.wf(),
        run.battle is None,
        !run.ended,
        b.wf(),
        b.tick < TICK_LIMIT,
    ensures
        ({
            let after = run.sub_step(b, step_dt, queued);
            &&& after.run.wf()
            &&& after.run.battle is None
            &&& after.run.traits == run.traits
            &&& after.battle matches Some(b2) ==> b2.wf() && b2.tick == b.tick + 1
                && !after.run.ended && b2.same_battle(
                CombatModel { tick: (b.tick + 1) as u32, ..b },
            )
        }),
{
    reveal(RunModel::sub_step);
    let b0 = CombatModel { tick: (b.tick + 1) as u32, ..b };
    assert(b0.wf());
    crate::engine::upkeep::lemma_tick_statuses_keeps_cast(b0, step_dt);
    let (ticked, b1) = b0.tick_statuses(step_dt);
    let r0 = RunModel {
        log_tick: b0.tick,
        elapsed: if run.elapsed + step_dt > u64::MAX {
            u64::MAX
        } else {
            (run.elapsed + step_dt) as u64
        },
        ..run
    };
    match ticked {
        Some(outcome) => {
            lemma_finalize_keeps_wf(r0, outcome, b1);
        },
        None => {
            let b2 = if step_dt > 0 {
                b1.accrue(step_dt)
            } else {
                b1
            };
            crate::engine::upkeep::lemma_accrue_keeps_battle(b1, step_dt);
            crate::engine::upkeep::lemma_take_turns_keeps_battle(b2, queued);
            let (b3, left, stop) = b2.take_turns(queued);
            let r1 = RunModel {
                waiting: if stop is NeedInput {
                    true
                } else if queued is Some && left is None {
                    false
                } else {
                    r0.waiting
                },
                ..r0
            };
            if let TurnStop::Ended(outcome) = stop {
                lemma_finalize_keeps_wf(r1, outcome, b3);
            }
        },
    }
}

/// Playing on in a battle keeps the run well formed, whatever happens.
pub proof fn lemma_advance_keeps_wf(
    run: RunModel,
    b: CombatModel,
    remaining: u32,
    queued: Option<ActionKind>,
)
    requires
        run.wf(),
        run.battle is None,
        !run.ended,
        b.wf(),
        b.tick <= TICK_LIMIT,
        id_texts(b.traits) == id_texts(run.traits),
    ensures
        run.advance(b, remaining, queued).0.wf(),
    decreases ticks_left(b.tick),
{
    if b.tick >= TICK_LIMIT {
        reveal(RunModel::force_defeat);
        let lost = b.emit(
            Event::BattleEnd {
                result: "lose",
                player_hp_after: crate::battle::player_hp_of(b.units),
            },
        );
        crate::engine::upkeep::lemma_dispatch_evolves(lost, battle_end_context(), 0);
        lemma_finalize_keeps_wf(
            run,
            BattleOutcome::Defeat,
            lost.dispatch(battle_end_context(), 0),
        );
    } else if !(remaining > 0 || (run.waiting && queued is Some)) {
    } else {
        let step_dt = if remaining < SUBSTEP_MS {
            remaining
        } else {
            SUBSTEP_MS
        };
        lemma_sub_step_keeps_wf(run, b, step_dt, queued);
        let after = run.sub_step(b, step_dt, queued);
        if let Some(b2) = after.battle {
            if !(after.need_input && b2.tick < TICK_LIMIT) {
                lemma_advance_keeps_wf(
                    after.run,
                    b2,
                    if after.need_input {
                        0
                    } else {
                        (remaining - step_dt) as u32
                    },
                    after.queued,
                );
            }
        }
    }
}

/// A step keeps a run well formed. With [`lemma_hit_points_in_bounds`]:
/// however a run is stepped, hit points never leave their bounds and no
/// battle plays past the tick limit.
pub proof fn lemma_step_keeps_wf(run: RunModel, dt: u32, action: Option<ActionKind>)
    requires
        run.wf(),
    ensures
        run.step(dt, action).0.wf(),
{
    let m0 = RunModel { events: Seq::empty(), log_tick: run.sim_tick(), ..run };
    if !m0.ended {
        let m1 = if m0.node_index == 0 && m0.battle is None {
            m0.emit(Event::RunStart { seed: m0.seed })
        } else {
            m0
        };
        lemma_ensure_battle_started_keeps_wf(m1);
        let m2 = m1.ensure_battle_started();
        if !m2.ended && !(m2.waiting && action is None) {
            if let Some(b) = m2.battle {
                let taken = RunModel { battle: None, ..m2 };
                lemma_advance_keeps_wf(taken, b, dt, action);
                let (m3, need_input) = taken.advance(b, dt, action);
                lemma_ensure_battle_started_keeps_wf(m3);
            }
        }
    }
}

/// A sub-step does nothing for a stalled player: the run does not ask for
/// an action, the queued action stays queued, and if the battle goes on the
/// player is stalled still, with the gauges it had.
pub proof fn lemma_sub_step_leaves_stalled_player(
    run: RunModel,
    b: CombatModel,
    step_dt: u32,
    queued: Option<ActionKind>,
)
    requires
        run.wf(),
        run.battle is None,
        !run.ended,
        b.wf(),
        b.tick < TICK_LIMIT,
        b.player_stalled(),
    ensures
        ({
            let after = run.sub_step(b, step_dt, queued);
            &&& !after.need_input
            &&& after.battle matches Some(b2) ==> b2.player_stalled() && b2.same_player_gauges(b)
                && after.run.waiting == run.waiting && after.queued == queued
        }),
{
    reveal(RunModel::sub_step);
    let b0 = CombatModel { tick: (b.tick + 1) as u32, ..b };
    assert(b0.wf() && b0.player_stalled());
    crate::engine::upkeep::lemma_tick_statuses_keeps_cast(b0, step_dt);
    crate::engine::upkeep::lemma_stalled_player_gains_nothing(b0, step_dt);
    let (ticked, b1) = b0.tick_statuses(step_dt);
    if ticked is None {
        let b2 = if step_dt > 0 {
            b1.accrue(step_dt)
        } else {
            b1
        };
        crate::engine::upkeep::lemma_accrue_keeps_battle(b1, step_dt);
        crate::engine::upkeep::lemma_stalled_player_takes_no_turn(b2, queued);
        crate::engine::upkeep::lemma_take_turns_keeps_battle(b2, queued);
        let b3 = b2.take_turns(queued).0;
        assert forall|i: int|
            0 <= i < b3.units.len() && (#[trigger] b3.units[i]).team == Team::Player implies b3.units[i].action_gauge
            == b.units[i].action_gauge by {
            assert(b2.units[i].team == b3.units[i].team);
            assert(b1.units[i].team == b2.units[i].team);
        }
    }
}

/// A player without speed never acts: while every unit of the player has
/// no speed and a gauge short of full, playing on never stops to ask for an
/// action, and as long as the battle goes on the player's gauges stay where
/// they are. Gauge grows by speed times time only.
pub proof fn lemma_stalled_player_never_acts(
    run: RunModel,
    b: CombatModel,
    remaining: u32,
    queued: Option<ActionKind>,
)
    requires
        run.wf(),
        run.battle is None,
        !run.ended,
        !run.waiting,
        b.wf(),
        b.tick <= TICK_LIMIT,
        b.player_stalled(),
    ensures
        ({
            let (after, need_input) = run.advance(b, remaining, queued);
            &&& !need_input
            &&& after.battle matches Some(last) ==> last.player_stalled()
                && last.same_player_gauges(b)
        }),
    decreases ticks_left(b.tick),
{
    if b.tick >= TICK_LIMIT {
        reveal(RunModel::force_defeat);
    } else if !(remaining > 0 || (run.waiting && queued is Some)) {
    } else {
        let step_dt = if remaining < SUBSTEP_MS {
            remaining
        } else {
            SUBSTEP_MS
        };
        lemma_sub_step_keeps_wf(run, b, step_dt, queued);
        lemma_sub_step_leaves_stalled_player(run, b, step_dt, queued);
        let after = run.sub_step(b, step_dt, queued);
        if let Some(b2) = after.battle {
            let rest = (remaining - step_dt) as u32;
            lemma_stalled_player_never_acts(after.run, b2, rest, after.queued);
            let last_run = after.run.advance(b2, rest, after.queued).0;
            if let Some(last) = last_run.battle {
                assert forall|i: int|
                    0 <= i < last.units.len() && (#[trigger] last.units[i]).team
                        == Team::Player implies last.units[i].action_gauge
                    == b.units[i].action_gauge by {
                    lemma_advance_keeps_battle(after.run, b2, rest, after.queued);
                    assert(b2.units[i].team == last.units[i].team);
                }
            }
        }
    }
}

/// Playing on in a battle keeps its cast: as long as the battle goes on,
/// it has the units it had, team by team.
pub proof fn lemma_advance_keeps_battle(
    run: RunModel,
    b: CombatModel,
    remaining: u32,
    queued: Option<ActionKind>,
)
    requires
        run.wf(),
        run.battle is None,
        !run.ended,
        b.wf(),
        b.tick <= TICK_LIMIT,
    ensures
        run.advance(b, remaining, queued).0.battle matches Some(last) ==> last.units.len()
            == b.units.len() && forall|i: int|
            0 <= i < b.units.len() ==> (#[trigger] last.units[i]).team == b.units[i].team
                && last.units[i].speed == b.units[i].speed && last.units[i].hp <= b.units[i].hp,
    decreases ticks_left(b.tick),
{
    if b.tick >= TICK_LIMIT {
        reveal(RunModel::force_defeat);
    } else if !(remaining > 0 || (run.waiting && queued is Some)) {
    } else {
        let step_dt = if remaining < SUBSTEP_MS {
            remaining
        } else {
            SUBSTEP_MS
        };
        lemma_sub_step_keeps_wf(run, b, step_dt, queued);
        let after = run.sub_step(b, step_dt, queued);
        if let Some(b2) = after.battle {
            if !(after.need_input && b2.tick < TICK_LIMIT) {
                lemma_advance_keeps_battle(
                    after.run,
                    b2,
                    if after.need_input {
                        0
                    } else {
                        (remaining - step_dt) as u32
                    },
                    after.queued,
                );
            }
        }
    }
}

/// A run whose player is stalled is never suspended by a step.
pub proof fn lemma_stalled_player_is_never_asked(
    run: RunModel,
    dt: u32,
    action: Option<ActionKind>,
)
    requires
        run.wf(),
        !run.ended,
        !run.waiting,
        run.battle matches Some(b) && b.player_stalled(),
    ensures
        !run.step(dt, action).1,
{
    let m0 = RunModel { events: Seq::empty(), log_tick: run.sim_tick(), ..run };
    let taken = RunModel { battle: None, ..m0 };
    lemma_stalled_player_never_acts(taken, run.battle->0, dt, action);
}

/// A stunned unit waits: a unit that is not ready and is stunned for longer
/// than the time to play keeps its gauge, Freeze or Haste notwithstanding,
/// and takes no turn, for as long as the battle goes on.
pub proof fn lemma_stunned_unit_waits(
    run: RunModel,
    b: CombatModel,
    remaining: u32,
    queued: Option<ActionKind>,
    who: int,
)
    requires
        run.wf(),
        run.battle is None,
        !run.ended,
        b.wf(),
        b.tick <= TICK_LIMIT,
        0 <= who < b.units.len(),
        !crate::engine::turn_system::is_ready(b.units[who]),
        crate::engine::combat_state::lasting(
            b.ledgers[who].statuses,
            crate::skill::StatusType::Stun,
            remaining as int,
        ),
    ensures
        run.advance(b, remaining, queued).0.battle matches Some(last) ==> who < last.units.len()
            && last.units[who].action_gauge == b.units[who].action_gauge
            && !crate::engine::turn_system::is_ready(last.units[who]),
    decreases ticks_left(b.tick),
{
    if b.tick >= TICK_LIMIT {
        reveal(RunModel::force_defeat);
    } else if !(remaining > 0 || (run.waiting && queued is Some)) {
    } else {
        let step_dt = if remaining < SUBSTEP_MS {
            remaining
        } else {
            SUBSTEP_MS
        };
        let rest = remaining - step_dt;
        lemma_sub_step_keeps_wf(run, b, step_dt, queued);
        let after = run.sub_step(b, step_dt, queued);
        assert(after.battle matches Some(b2) ==> b2.units[who].action_gauge
            == b.units[who].action_gauge && !crate::engine::turn_system::is_ready(b2.units[who])
            && crate::engine::combat_state::lasting(
            b2.ledgers[who].statuses,
            crate::skill::StatusType::Stun,
            rest,
        ) && crate::engine::combat_state::lasting(
            b2.ledgers[who].statuses,
            crate::skill::StatusType::Stun,
            0,
        )) by {
            reveal(RunModel::sub_step);
            let b0 = CombatModel { tick: (b.tick + 1) as u32, ..b };
            assert(b0.wf());
            crate::engine::upkeep::lemma_stunned_unit_keeps_gauge(b0, step_dt, queued, who, rest);
            crate::engine::upkeep::lemma_stunned_unit_keeps_gauge(b0, step_dt, queued, who, 0);
        }
        if let Some(b2) = after.battle {
            if !(after.need_input && b2.tick < TICK_LIMIT) {
                lemma_stunned_unit_waits(
                    after.run,
                    b2,
                    if after.need_input {
                        0
                    } else {
                        rest as u32
                    },
                    after.queued,
                    who,
                );
            }
        }
    }
}

/// A battle never plays past the tick limit: a battle that has reached the
/// limit undecided is declared lost, which ends the run in defeat; and a
/// battle that is still on after playing on has ticks left.
pub proof fn lemma_tick_limit_forces_defeat(
    run: RunModel,
    b: CombatModel,
    remaining: u32,
    queued: Option<ActionKind>,
)
    requires
        run.wf(),
        run.battle is None,
        !run.ended,
        b.wf(),
        b.tick <= TICK_LIMIT,
        id_texts(b.traits) == id_texts(run.traits),
    ensures
        b.tick == TICK_LIMIT ==> {
            let (after, need_input) = run.advance(b, remaining, queued);
            &&& after.ended
            &&& after.result == "lose"
            &&& after.battle is None
            &&& after.run.player_hp == 0
            &&& !need_input
        },
        run.advance(b, remaining, queued).0.battle matches Some(last) ==> last.tick < TICK_LIMIT,
{
    reveal(RunModel::force_defeat);
    lemma_advance_keeps_wf(run, b, remaining, queued);
}

/// A step is a function of the run and of what is submitted: whenever two
/// runs in the same state are stepped with the same time and the same
/// action, they end in the same state and hand back the same lines, the
/// same flags and no error. Two runs created from one seed and fed the same
/// actions therefore produce the same trace, step after step.
pub proof fn lemma_steps_agree(
    first: RunModel,
    second: RunModel,
    dt: u32,
    action: Option<ActionKind>,
    first_after: RunModel,
    second_after: RunModel,
    first_result: StepResult,
    second_result: StepResult,
)
    requires
        first == second,
        is_step_of(first, first_after, dt, action, first_result),
        is_step_of(second, second_after, dt, action, second_result),
    ensures
        first_after == second_after,
        views(first_result.events@) == views(second_result.events@),
        first_result.need_input == second_result.need_input,
        first_result.ended == second_result.ended,
        first_result.error@ == second_result.error@,
{
    assert(first_result.error@ =~= second_result.error@);
}

} // verus!
