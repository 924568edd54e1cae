//! Battles: setting one up, and playing one out unattended.

use vstd::prelude::*;
use crate::engine::trait_system::hit;
use crate::engine::turn_system::{gauge_after, gauge_after_for, gauge_gain, is_ready};
use crate::event::{Event, Record};
use crate::fixed::{damage_amount, GAUGE_FULL, TICK_LIMIT};
use crate::log::lines_of;
use crate::model::{
    actor_label, any_alive, find_unit, find_unit_index, has_alive,
    living_indices, living_of, opponent_of, team_to_actor, BattleOutcome, BattleState, Team, Unit,
};
use crate::rng::{range_of, SimpleRng};
use crate::text::views;

verus! {

/// Length of a tick of an unattended battle, in milliseconds.
pub const BATTLE_TICK_MS: u32 = 1_000;

/// The player unit of a new battle.
pub open spec fn player_unit(hp: i64, max_hp: i64, atk: i32, speed: u32) -> Unit {
    Unit { id: 0, team: Team::Player, hp, max_hp, atk, speed, action_gauge: 0 }
}

/// The `id`-th enemy of a new battle, at full hit points.
pub open spec fn enemy_unit(id: u32, hp: i64, atk: i32, speed: u32) -> Unit {
    Unit { id, team: Team::Enemy, hp, max_hp: hp, atk, speed, action_gauge: 0 }
}

/// The roster of a new battle: the player first, then `enemy_count` equal
/// enemies numbered from one, all with empty gauges.
pub open spec fn battle_roster(
    player_hp: i64,
    player_max_hp: i64,
    player_atk: i32,
    player_speed: u32,
    enemy_count: u32,
    enemy_hp: i64,
    enemy_atk: i32,
    enemy_speed: u32,
) -> Seq<Unit> {
    Seq::new(
        (enemy_count + 1) as nat,
        |i: int|
            if i == 0 {
                player_unit(player_hp, player_max_hp, player_atk, player_speed)
            } else {
                enemy_unit(i as u32, enemy_hp, enemy_atk, enemy_speed)
            },
    )
}

/// Creates a battle of one player unit against a pack of equal enemies.
///
/// Hit points are in hundredths, speeds in hundredths of a gauge point per second.
pub fn create_battle(
    player_hp: i64,
    player_max_hp: i64,
    player_atk: i32,
    player_speed: u32,
    enemy_count: u32,
    enemy_hp: i64,
    enemy_atk: i32,
    enemy_speed: u32,
) -> (state: BattleState)
    ensures
        state.units@ == battle_roster(
            player_hp,
            player_max_hp,
            player_atk,
            player_speed,
            enemy_count,
            enemy_hp,
            enemy_atk,
            enemy_speed,
        ),
        state.delta_time == BATTLE_TICK_MS,
        state.tick == 0,
{
    let mut units: Vec<Unit> = Vec::new();
    units.push(
        Unit {
            id: 0,
            team: Team::Player,
            hp: player_hp,
            max_hp: player_max_hp,
            atk: player_atk,
            speed: player_speed,
            action_gauge: 0,
        },
    );
    let mut idx: u32 = 0;
    while idx < enemy_count
        invariant
            idx <= enemy_count,
            units@.len() == idx + 1,
            forall|i: int|
                0 <= i < units@.len() ==> #[trigger] units@[i] == battle_roster(
                    player_hp,
                    player_max_hp,
                    player_atk,
                    player_speed,
                    enemy_count,
                    enemy_hp,
                    enemy_atk,
                    enemy_speed,
                )[i],
        decreases enemy_count - idx,
    {
        units.push(
            Unit {
                id: idx + 1,
                team: Team::Enemy,
                hp: enemy_hp,
                max_hp: enemy_hp,
                atk: enemy_atk,
                speed: enemy_speed,
                action_gauge: 0,
            },
        );
        idx = idx + 1;
    }
    assert(units@ =~= battle_roster(
        player_hp,
        player_max_hp,
        player_atk,
        player_speed,
        enemy_count,
        enemy_hp,
        enemy_atk,
        enemy_speed,
    ));
    BattleState { units, delta_time: BATTLE_TICK_MS, tick: 0 }
}

/// The hit points of the first player unit of a roster, zero without one.
pub open spec fn player_hp_of(units: Seq<Unit>) -> i64 {
    match find_unit(units, Team::Player, false, 0) {
        Some(i) => units[i].hp,
        None => 0,
    }
}

/// The hit points the player leaves a battle with.
pub fn player_hp_after_battle(state: &BattleState) -> (hp: i64)
    ensures
        hp == player_hp_of(state.units@),
{
    match find_unit_index(&state.units, Team::Player, false) {
        Some(i) => state.units[i].hp,
        None => 0,
    }
}

/// The roster, the generator and the trace of an unattended battle.
pub struct Skirmish {
    pub units: Seq<Unit>,
    pub rng: u64,
    pub records: Seq<Record>,
}

/// The damage of a plain attack: the attack power, at least the minimum.
pub open spec fn plain_damage(atk: i32) -> i64 {
    damage_amount(atk * 100)
}

/// Where a unit with `gauge` goes into a turn order: before the first unit
/// from `at` on whose gauge is lower.
pub open spec fn slot_for(order: Seq<usize>, units: Seq<Unit>, gauge: u64, at: nat) -> nat
    decreases order.len() - at,
{
    if at >= order.len() {
        order.len()
    } else if units[order[at as int] as int].action_gauge < gauge {
        at
    } else {
        slot_for(order, units, gauge, at + 1)
    }
}

/// The turn order of the ready units among the first `n`: fullest gauge
/// first, roster order among equals.
pub open spec fn turn_order(units: Seq<Unit>, n: int) -> Seq<usize>
    decreases n,
{
    if n <= 0 || n > units.len() {
        Seq::empty()
    } else {
        let earlier = turn_order(units, n - 1);
        if is_ready(units[n - 1]) {
            earlier.insert(
                slot_for(earlier, units, units[n - 1].action_gauge, 0) as int,
                (n - 1) as usize,
            )
        } else {
            earlier
        }
    }
}

/// Whether `order` lists units by falling gauge, earlier units first among equals.
pub open spec fn by_falling_gauge(order: Seq<usize>, units: Seq<Unit>) -> bool {
    forall|k: int, l: int|
        0 <= k < l < order.len() ==> {
            let a = units[(#[trigger] order[k]) as int].action_gauge;
            let b = units[(#[trigger] order[l]) as int].action_gauge;
            a > b || (a == b && order[k] < order[l])
        }
}

/// Where a unit goes into a turn order: behind every unit at least as full,
/// before the first that is less full.
pub proof fn lemma_slot_for(order: Seq<usize>, units: Seq<Unit>, gauge: u64, at: nat)
    requires
        at <= order.len(),
    ensures
        at <= slot_for(order, units, gauge, at) <= order.len(),
        forall|k: int|
            at <= k < slot_for(order, units, gauge, at) ==> units[(#[trigger] order[k]) as int].action_gauge
                >= gauge,
        slot_for(order, units, gauge, at) < order.len() ==> units[order[slot_for(
            order,
            units,
            gauge,
            at,
        ) as int] as int].action_gauge < gauge,
    decreases order.len() - at,
{
    if at < order.len() && units[order[at as int] as int].action_gauge >= gauge {
        lemma_slot_for(order, units, gauge, at + 1);
    }
}

/// Putting a unit into its slot keeps a turn order in order, provided the
/// unit comes later in the roster than all that are listed.
pub proof fn lemma_insert_keeps_order(order: Seq<usize>, units: Seq<Unit>, who: usize)
    requires
        by_falling_gauge(order, units),
        forall|k: int| 0 <= k < order.len() ==> (#[trigger] order[k]) < who,
    ensures
        by_falling_gauge(
            order.insert(
                slot_for(order, units, units[who as int].action_gauge, 0) as int,
                who,
            ),
            units,
        ),
{
    let gauge = units[who as int].action_gauge;
    let p = slot_for(order, units, gauge, 0) as int;
    lemma_slot_for(order, units, gauge, 0);
    let after = order.insert(p, who);
    assert forall|k: int, l: int| 0 <= k < l < after.len() implies {
        let a = units[(#[trigger] after[k]) as int].action_gauge;
        let b = units[(#[trigger] after[l]) as int].action_gauge;
        a > b || (a == b && after[k] < after[l])
    } by {
        if l < p {
            assert(after[k] == order[k] && after[l] == order[l]);
        } else if l == p {
            assert(after[k] == order[k]);
        } else if k < p {
            assert(after[k] == order[k] && after[l] == order[l - 1]);
        } else if k == p {
            assert(after[l] == order[l - 1]);
            if p < l - 1 {
                let first = order[p];
                let last = order[l - 1];
                assert(units[first as int].action_gauge >= units[last as int].action_gauge);
            }
        } else {
            assert(after[k] == order[k - 1] && after[l] == order[l - 1]);
        }
    }
}

/// Every entry of a turn order names a ready unit among the first `n`.
pub proof fn lemma_turn_order_lists_ready_units(units: Seq<Unit>, n: int)
    requires
        0 <= n <= units.len() <= usize::MAX,
    ensures
        forall|k: int|
            0 <= k < turn_order(units, n).len() ==> (#[trigger] turn_order(units, n)[k]) < n
                && is_ready(units[turn_order(units, n)[k] as int]),
    decreases n,
{
    if n > 0 {
        lemma_turn_order_lists_ready_units(units, n - 1);
        let earlier = turn_order(units, n - 1);
        let order = turn_order(units, n);
        if is_ready(units[n - 1]) {
            let p = slot_for(earlier, units, units[n - 1].action_gauge, 0) as int;
            lemma_slot_for(earlier, units, units[n - 1].action_gauge, 0);
            assert forall|k: int| 0 <= k < order.len() implies (#[trigger] order[k]) < n
                && is_ready(units[order[k] as int]) by {
                if k < p {
                    assert(order[k] == earlier[k]);
                } else if k > p {
                    assert(order[k] == earlier[k - 1]);
                }
            }
        }
    }
}

/// Every ready unit among the first `n` is in the turn order.
pub proof fn lemma_turn_order_misses_nobody(units: Seq<Unit>, n: int, who: int)
    requires
        0 <= who < n <= units.len() <= usize::MAX,
        is_ready(units[who]),
    ensures
        turn_order(units, n).contains(who as usize),
    decreases n,
{
    let earlier = turn_order(units, n - 1);
    let order = turn_order(units, n);
    if is_ready(units[n - 1]) {
        let p = slot_for(earlier, units, units[n - 1].action_gauge, 0) as int;
        lemma_slot_for(earlier, units, units[n - 1].action_gauge, 0);
        if who == n - 1 {
            assert(order[p] == who as usize);
        } else {
            lemma_turn_order_misses_nobody(units, n - 1, who);
            let k = choose|k: int| 0 <= k < earlier.len() && earlier[k] == who as usize;
            if k < p {
                assert(order[k] == who as usize);
            } else {
                assert(order[k + 1] == who as usize);
            }
        }
    } else {
        lemma_turn_order_misses_nobody(units, n - 1, who);
    }
}

/// A turn order lists the fullest gauge first, and the earlier unit first
/// among equals.
pub proof fn lemma_turn_order_is_ordered(units: Seq<Unit>, n: int)
    requires
        0 <= n <= units.len() <= usize::MAX,
    ensures
        by_falling_gauge(turn_order(units, n), units),
    decreases n,
{
    if n > 0 {
        lemma_turn_order_is_ordered(units, n - 1);
        lemma_turn_order_lists_ready_units(units, n - 1);
        if is_ready(units[n - 1]) {
            lemma_insert_keeps_order(turn_order(units, n - 1), units, (n - 1) as usize);
        }
    }
}

/// The roster with the gauges of the first `n` units advanced by one tick
/// of `dt` milliseconds at full speed; dead units gain nothing.
pub open spec fn charged(units: Seq<Unit>, dt: u32, n: int) -> Seq<Unit> {
    Seq::new(
        units.len(),
        |i: int|
            if i < n && units[i].alive() {
                Unit {
                    action_gauge: gauge_after(
                        units[i].action_gauge,
                        gauge_gain(units[i].speed, dt, 1000),
                    ),
                    ..units[i]
                }
            } else {
                units[i]
            },
    )
}

impl Skirmish {
    /// The battle with `event`, which happened on `tick`, appended to its trace.
    pub open spec fn emit(self, tick: u32, event: Event) -> Skirmish {
        Skirmish { records: self.records.push(Record { tick, event }), ..self }
    }

    /// The turn of `actor` on `tick` of an unattended battle. A unit that is dead or
    /// whose gauge is not full does nothing. Otherwise it spends one full
    /// gauge and, if an opponent lives, hits one the generator picks with a
    /// plain attack; the hit and a momentary burn are reported. Then the
    /// battle is won if no enemy lives, else lost if no player unit lives.
    pub open spec fn turn(self, actor: usize, tick: u32) -> (Skirmish, Option<BattleOutcome>) {
        let unit = self.units[actor as int];
        if !is_ready(unit) {
            (self, None)
        } else {
            let units = self.units.update(
                actor as int,
                Unit { action_gauge: (unit.action_gauge - GAUGE_FULL) as u64, ..unit },
            );
            let targets = living_of(units, opponent_of(unit.team), units.len() as int);
            if targets.len() == 0 {
                (Skirmish { units, ..self }, None)
            } else {
                let (k, rng) = range_of(self.rng, targets.len());
                let target = targets[k as int];
                let src = actor_label(unit.team);
                let dst = actor_label(opponent_of(unit.team));
                let dealt = plain_damage(unit.atk);
                let struck = hit(units[target as int], dealt);
                let after = Skirmish {
                    units: units.update(target as int, struck),
                    rng,
                    records: self.records,
                }.emit(tick, Event::TurnReady { actor: src }).emit(
                    tick,
                    Event::ActionUsed { actor: src, action_name: "basic_attack" },
                ).emit(
                    tick,
                    Event::DamageDealt { src, dst, amount: dealt, dst_hp_after: struck.hp },
                ).emit(
                    tick,
                    Event::StatusApplied { src, dst, status: "burn", stacks: 1, duration: 1 },
                ).emit(
                    tick,
                    Event::StatusTick { dst, status: "burn", amount: 0, dst_hp_after: struck.hp },
                ).emit(tick, Event::StatusExpired { dst, status: "burn" });
                if !any_alive(after.units, Team::Enemy) {
                    (
                        after.emit(
                    tick,
                            Event::BattleEnd {
                                result: "win",
                                player_hp_after: player_hp_of(after.units),
                            },
                        ),
                        Some(BattleOutcome::Victory),
                    )
                } else if !any_alive(after.units, Team::Player) {
                    (
                        after.emit(tick, Event::BattleEnd { result: "lose", player_hp_after: 0 }),
                        Some(BattleOutcome::Defeat),
                    )
                } else {
                    (after, None)
                }
            }
        }
    }

    /// The turns of the units of `order` from position `at` on, until the
    /// battle is decided.
    pub open spec fn turns(self, order: Seq<usize>, at: nat, tick: u32) -> (
        Skirmish,
        Option<BattleOutcome>,
    )
        decreases order.len() - at,
    {
        if at >= order.len() {
            (self, None)
        } else {
            let (next, outcome) = self.turn(order[at as int], tick);
            if outcome is Some {
                (next, outcome)
            } else {
                next.turns(order, at + 1, tick)
            }
        }
    }

    /// The tick numbered `tick` of an unattended battle: living units gain
    /// their speed times `dt` milliseconds in gauge, then the ready units act
    /// in turn order. What happens is recorded under that tick.
    pub open spec fn tick(self, dt: u32, tick: u32) -> (Skirmish, Option<BattleOutcome>) {
        let units = charged(self.units, dt, self.units.len() as int);
        Skirmish { units, ..self }.turns(turn_order(units, units.len() as int), 0, tick)
    }

    /// An unattended battle that has played `tick` ticks: further ticks are
    /// played until the battle is decided; at [`TICK_LIMIT`] it is declared
    /// lost. Every record carries the tick it happened on. Returned with the
    /// battle: its outcome and the tick it ended on.
    pub open spec fn play(self, dt: u32, tick: u32) -> (Skirmish, BattleOutcome, u32)
        decreases TICK_LIMIT - tick,
    {
        if tick >= TICK_LIMIT {
            (
                self.emit(
                    tick,
                    Event::BattleEnd { result: "lose", player_hp_after: player_hp_of(self.units) },
                ),
                BattleOutcome::Defeat,
                tick,
            )
        } else {
            let (next, outcome) = self.tick(dt, (tick + 1) as u32);
            match outcome {
                Some(o) => (next, o, (tick + 1) as u32),
                None => next.play(dt, (tick + 1) as u32),
            }
        }
    }

    /// A whole unattended battle: its start is reported under the tick it
    /// starts on, then it is played.
    pub open spec fn run(self, dt: u32, tick: u32, battle_index: u32, enemy_name: &'static str)
        -> (Skirmish, BattleOutcome, u32) {
        self.emit(tick, Event::BattleStart { battle_index, enemy_name }).play(dt, tick)
    }
}

/// Puts the ready units into turn order.
fn order_ready(units: &Vec<Unit>) -> (order: Vec<usize>)
    ensures
        order@ == turn_order(units@, units@.len() as int),
        forall|k: int| 0 <= k < order@.len() ==> (#[trigger] order@[k]) < units@.len(),
{
    let mut order: Vec<usize> = Vec::new();
    let mut i: usize = 0;
    while i < units.len()
        invariant
            i <= units@.len(),
            order@ == turn_order(units@, i as int),
            order@.len() <= i,
            forall|k: int| 0 <= k < order@.len() ==> (#[trigger] order@[k]) < i,
        decreases units@.len() - i,
    {
        if units[i].is_alive() && units[i].action_gauge >= GAUGE_FULL {
            let gauge = units[i].action_gauge;
            let mut at: usize = 0;
            while at < order.len() && units[order[at]].action_gauge >= gauge
                invariant
                    at <= order@.len(),
                    i < units@.len(),
                    forall|k: int| 0 <= k < order@.len() ==> (#[trigger] order@[k]) < i,
                    slot_for(order@, units@, gauge, 0) == slot_for(order@, units@, gauge, at as nat),
                decreases order@.len() - at,
            {
                at = at + 1;
            }
            order.insert(at, i);
        }
        i = i + 1;
    }
    order
}

/// Advances the gauge of every living unit by one tick of `dt` milliseconds.
fn charge_gauges(state: &mut BattleState, dt: u32)
    ensures
        final(state).units@ == charged(old(state).units@, dt, old(state).units@.len() as int),
        final(state).tick == old(state).tick,
        final(state).delta_time == old(state).delta_time,
{
    let n = state.units.len();
    let mut i: usize = 0;
    assert(state.units@ =~= charged(old(state).units@, dt, 0));
    while i < n
        invariant
            i <= n,
            n == old(state).units@.len(),
            state.tick == old(state).tick,
            state.delta_time == old(state).delta_time,
            state.units@ == charged(old(state).units@, dt, i as int),
        decreases n - i,
    {
        let unit = state.units[i];
        if unit.is_alive() {
            state.units[i].action_gauge = gauge_after_for(unit.action_gauge, unit.speed, dt, 1000);
        }
        assert(state.units@ =~= charged(old(state).units@, dt, i + 1));
        i = i + 1;
    }
}

/// The damage of a plain attack.
fn plain_damage_for(atk: i32) -> (r: i64)
    ensures
        r == plain_damage(atk),
        r >= 1,
{
    crate::fixed::to_damage(atk as i128 * 100)
}

/// The battle a state, a generator and a trace stand for.
pub open spec fn skirmish_of(state: BattleState, rng: SimpleRng, records: Seq<Record>) -> Skirmish {
    Skirmish { units: state.units@, rng: rng.state, records }
}

/// Plays the turn of `actor_idx` in an unattended battle.
fn play_turn(
    state: &mut BattleState,
    rng: &mut SimpleRng,
    records: &mut Vec<Record>,
    actor_idx: usize,
) -> (outcome: Option<BattleOutcome>)
    requires
        actor_idx < old(state).units@.len(),
    ensures
        (skirmish_of(*final(state), *final(rng), final(records)@), outcome) == skirmish_of(
            *old(state),
            *old(rng),
            old(records)@,
        ).turn(actor_idx, old(state).tick),
        final(state).units@.len() == old(state).units@.len(),
        final(state).tick == old(state).tick,
        final(state).delta_time == old(state).delta_time,
{
    let tick = state.tick;
    let unit = state.units[actor_idx];
    if !unit.is_alive() || unit.action_gauge < GAUGE_FULL {
        return None;
    }
    state.units[actor_idx].action_gauge = unit.action_gauge - GAUGE_FULL;
    let ghost spent = state.units@;
    let target_team = unit.team.opponent();
    let targets = living_indices(&state.units, target_team);
    if targets.len() == 0 {
        return None;
    }
    let target_idx = targets[rng.range_usize(targets.len())];
    let src = team_to_actor(unit.team);
    let dst = team_to_actor(target_team);
    let dealt = plain_damage_for(unit.atk);
    let hp = state.units[target_idx].hp;
    let hp_after: i64 = if hp > dealt {
        hp - dealt
    } else {
        0
    };
    state.units[target_idx].hp = hp_after;
    assert(state.units@ =~= spent.update(target_idx as int, hit(spent[target_idx as int], dealt)));
    records.push(Record { tick, event: Event::TurnReady { actor: src } });
    records.push(
        Record { tick, event: Event::ActionUsed { actor: src, action_name: "basic_attack" } },
    );
    records.push(
        Record {
            tick,
            event: Event::DamageDealt { src, dst, amount: dealt, dst_hp_after: hp_after },
        },
    );
    records.push(
        Record {
            tick,
            event: Event::StatusApplied { src, dst, status: "burn", stacks: 1, duration: 1 },
        },
    );
    records.push(
        Record {
            tick,
            event: Event::StatusTick { dst, status: "burn", amount: 0, dst_hp_after: hp_after },
        },
    );
    records.push(Record { tick, event: Event::StatusExpired { dst, status: "burn" } });
    if !has_alive(&state.units, Team::Enemy) {
        let player_hp_after = player_hp_after_battle(state);
        records.push(
            Record { tick, event: Event::BattleEnd { result: "win", player_hp_after } },
        );
        return Some(BattleOutcome::Victory);
    }
    if !has_alive(&state.units, Team::Player) {
        records.push(
            Record { tick, event: Event::BattleEnd { result: "lose", player_hp_after: 0 } },
        );
        return Some(BattleOutcome::Defeat);
    }
    None
}

/// Plays the tick an unattended battle is on.
fn play_tick(state: &mut BattleState, rng: &mut SimpleRng, records: &mut Vec<Record>) -> (outcome:
    Option<BattleOutcome>)
    ensures
        (skirmish_of(*final(state), *final(rng), final(records)@), outcome) == skirmish_of(
            *old(state),
            *old(rng),
            old(records)@,
        ).tick(old(state).delta_time, old(state).tick),
        final(state).tick == old(state).tick,
        final(state).delta_time == old(state).delta_time,
{
    charge_gauges(state, state.delta_time);
    let order = order_ready(&state.units);
    let ghost goal = skirmish_of(*state, *rng, records@).turns(order@, 0, state.tick);
    let mut at: usize = 0;
    while at < order.len()
        invariant
            at <= order@.len(),
            state.tick == old(state).tick,
            state.delta_time == old(state).delta_time,
            forall|k: int| 0 <= k < order@.len() ==> (#[trigger] order@[k]) < state.units@.len(),
            skirmish_of(*state, *rng, records@).turns(order@, at as nat, state.tick) == goal,
            goal == skirmish_of(*old(state), *old(rng), old(records)@).tick(old(state).delta_time, old(state).tick),
        decreases order@.len() - at,
    {
        let outcome = play_turn(state, rng, records, order[at]);
        if outcome.is_some() {
            return outcome;
        }
        at = at + 1;
    }
    None
}

/// Plays an unattended battle to its end, appending its trace to `records`.
pub fn play_battle(
    state: &mut BattleState,
    rng: &mut SimpleRng,
    battle_index: u32,
    enemy_name: &'static str,
    records: &mut Vec<Record>,
) -> (outcome: BattleOutcome)
    ensures
        (skirmish_of(*final(state), *final(rng), final(records)@), outcome, final(state).tick)
            == skirmish_of(*old(state), *old(rng), old(records)@).run(
            old(state).delta_time,
            old(state).tick,
            battle_index,
            enemy_name,
        ),
        final(state).delta_time == old(state).delta_time,
{
    records.push(
        Record { tick: state.tick, event: Event::BattleStart { battle_index, enemy_name } },
    );
    let ghost goal = skirmish_of(*state, *rng, records@).play(state.delta_time, state.tick);
    while state.tick < TICK_LIMIT
        invariant
            state.delta_time == old(state).delta_time,
            skirmish_of(*state, *rng, records@).play(state.delta_time, state.tick) == goal,
            goal == skirmish_of(*old(state), *old(rng), old(records)@).run(
                old(state).delta_time,
                old(state).tick,
                battle_index,
                enemy_name,
            ),
        decreases TICK_LIMIT - state.tick,
    {
        state.tick = state.tick + 1;
        if let Some(outcome) = play_tick(state, rng, records) {
            return outcome;
        }
    }
    let player_hp_after = player_hp_after_battle(state);
    records.push(
        Record { tick: state.tick, event: Event::BattleEnd { result: "lose", player_hp_after } },
    );
    BattleOutcome::Defeat
}

/// Runs an unattended battle until victory or defeat is decided, and
/// appends its trace to `logs`, one line per event.
pub fn run_battle(
    state: &mut BattleState,
    rng: &mut SimpleRng,
    battle_index: u32,
    enemy_name: &'static str,
    logs: &mut Vec<String>,
) -> (outcome: BattleOutcome)
    ensures
        ({
            let (after, o, tick) = skirmish_of(*old(state), *old(rng), Seq::empty()).run(
                old(state).delta_time,
                old(state).tick,
                battle_index,
                enemy_name,
            );
            &&& outcome == o
            &&& final(state).units@ == after.units
            &&& final(state).tick == tick
            &&& final(rng).state == after.rng
            &&& views(final(logs)@) == views(old(logs)@) + lines_of(after.records)
        }),
        final(state).delta_time == old(state).delta_time,
{
    let mut records: Vec<Record> = Vec::new();
    let outcome = play_battle(state, rng, battle_index, enemy_name, &mut records);
    let mut lines = crate::log::render_records(&records);
    let ghost rendered = views(lines@);
    logs.append(&mut lines);
    assert(views(logs@) =~= views(old(logs)@) + rendered);
    outcome
}

/// An unattended battle ends within the tick limit, and one that reaches
/// the limit undecided is lost.
pub proof fn lemma_play_within_limit(s: Skirmish, dt: u32, tick: u32)
    requires
        tick <= TICK_LIMIT,
    ensures
        s.play(dt, tick).2 <= TICK_LIMIT,
        tick == TICK_LIMIT ==> s.play(dt, tick).1 == BattleOutcome::Defeat,
    decreases TICK_LIMIT - tick,
{
    if tick < TICK_LIMIT {
        let (next, outcome) = s.tick(dt, (tick + 1) as u32);
        if outcome is None {
            lemma_play_within_limit(next, dt, (tick + 1) as u32);
        }
    }
}

} // verus!
