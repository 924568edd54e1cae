//! The arena of one battle: roster, per-unit ledgers, generator, active
//! traits and trace; and the condition evaluator over it.

use vstd::prelude::*;
use crate::event::{Event, Record};
use crate::fixed::{max_int, CHANCE_ONE, PCT_FLOOR, PCT_ONE};
use crate::model::{
    actor_label, find_unit, find_unit_index, living_indices, living_of, team_to_actor,
    BattleState, Team, Unit,
};
use crate::rng::{draw_of, next_state, range_of, SimpleRng};
use crate::skill::{Condition, ConditionList, EffectTarget, StatusType};
use crate::trait_spec::{TraitId, TriggerType};

verus! {

/// Depth at which a chain of trait reactions is cut off.
pub const TRAIT_CHAIN_DEPTH_MAX: u8 = 4;

/// A status a unit currently carries.
///
/// `duration` and `tick_meter` are in milliseconds, `power` in hundredths.
#[derive(Clone, Copy, Debug)]
pub struct ActiveStatus {
    pub status_type: StatusType,
    pub stacks: u32,
    pub duration: i64,
    pub power: i64,
    pub tick_meter: u64,
}

/// Per-status power multipliers of one unit, in percent.
#[derive(Clone, Copy, Debug)]
pub struct PowerTable {
    pub burn: u32,
    pub freeze: u32,
    pub shock: u32,
    pub brk: u32,
    pub bleed: u32,
    pub stun: u32,
    pub might: u32,
    pub haste: u32,
}

impl PowerTable {
    /// The table every unit starts a battle with.
    pub open spec fn neutral() -> PowerTable {
        PowerTable {
            burn: PCT_ONE,
            freeze: PCT_ONE,
            shock: PCT_ONE,
            brk: PCT_ONE,
            bleed: PCT_ONE,
            stun: PCT_ONE,
            might: PCT_ONE,
            haste: PCT_ONE,
        }
    }

    pub open spec fn get(&self, status_type: StatusType) -> u32 {
        match status_type {
            StatusType::Burn => self.burn,
            StatusType::Freeze => self.freeze,
            StatusType::Shock => self.shock,
            StatusType::Break => self.brk,
            StatusType::Bleed => self.bleed,
            StatusType::Stun => self.stun,
            StatusType::Might => self.might,
            StatusType::Haste => self.haste,
        }
    }

    pub open spec fn set(&self, status_type: StatusType, value: u32) -> PowerTable {
        match status_type {
            StatusType::Burn => PowerTable { burn: value, ..*self },
            StatusType::Freeze => PowerTable { freeze: value, ..*self },
            StatusType::Shock => PowerTable { shock: value, ..*self },
            StatusType::Break => PowerTable { brk: value, ..*self },
            StatusType::Bleed => PowerTable { bleed: value, ..*self },
            StatusType::Stun => PowerTable { stun: value, ..*self },
            StatusType::Might => PowerTable { might: value, ..*self },
            StatusType::Haste => PowerTable { haste: value, ..*self },
        }
    }

    /// The multiplier in force for a status: the stored one, never below the floor.
    pub open spec fn effective(&self, status_type: StatusType) -> u32 {
        if self.get(status_type) >= PCT_FLOOR {
            self.get(status_type)
        } else {
            PCT_FLOOR
        }
    }

    /// The table after a raise to `mul`: the entry never goes down, nor below the floor.
    pub open spec fn raised(&self, status_type: StatusType, mul: u32) -> PowerTable {
        let floor = if mul >= PCT_FLOOR {
            mul
        } else {
            PCT_FLOOR
        };
        if floor > self.get(status_type) {
            self.set(status_type, floor)
        } else {
            *self
        }
    }

    pub fn new() -> (t: PowerTable)
        ensures
            t == PowerTable::neutral(),
    {
        PowerTable {
            burn: PCT_ONE,
            freeze: PCT_ONE,
            shock: PCT_ONE,
            brk: PCT_ONE,
            bleed: PCT_ONE,
            stun: PCT_ONE,
            might: PCT_ONE,
            haste: PCT_ONE,
        }
    }

    #[verifier::when_used_as_spec(get)]
    pub fn value(&self, status_type: StatusType) -> (r: u32)
        ensures
            r == self.get(status_type),
    {
        match status_type {
            StatusType::Burn => self.burn,
            StatusType::Freeze => self.freeze,
            StatusType::Shock => self.shock,
            StatusType::Break => self.brk,
            StatusType::Bleed => self.bleed,
            StatusType::Stun => self.stun,
            StatusType::Might => self.might,
            StatusType::Haste => self.haste,
        }
    }

    pub fn store(&mut self, status_type: StatusType, value: u32)
        ensures
            *final(self) == old(self).set(status_type, value),
    {
        match status_type {
            StatusType::Burn => self.burn = value,
            StatusType::Freeze => self.freeze = value,
            StatusType::Shock => self.shock = value,
            StatusType::Break => self.brk = value,
            StatusType::Bleed => self.bleed = value,
            StatusType::Stun => self.stun = value,
            StatusType::Might => self.might = value,
            StatusType::Haste => self.haste = value,
        }
    }
}

/// The mutable ledger of one unit, parallel to the roster by index.
///
/// The two bonuses are in ten-thousandths.
#[derive(Debug)]
pub struct UnitRuntime {
    pub statuses: Vec<ActiveStatus>,
    pub proc_bonus: i64,
    pub res_bonus: i64,
    pub status_power_mult: PowerTable,
}

/// What a [`UnitRuntime`] holds, as mathematical values.
pub struct Ledger {
    pub statuses: Seq<ActiveStatus>,
    pub proc_bonus: i64,
    pub res_bonus: i64,
    pub status_power_mult: PowerTable,
}

impl View for UnitRuntime {
    type V = Ledger;

    open spec fn view(&self) -> Ledger {
        Ledger {
            statuses: self.statuses@,
            proc_bonus: self.proc_bonus,
            res_bonus: self.res_bonus,
            status_power_mult: self.status_power_mult,
        }
    }
}

impl Ledger {
    /// The ledger a unit enters a battle with.
    pub open spec fn fresh() -> Ledger {
        Ledger {
            statuses: Seq::empty(),
            proc_bonus: 0,
            res_bonus: 0,
            status_power_mult: PowerTable::neutral(),
        }
    }
}

/// The ledgers of a runtime vector, index by index.
pub open spec fn ledgers_of(runtime: Seq<UnitRuntime>) -> Seq<Ledger> {
    Seq::new(runtime.len(), |i: int| runtime[i]@)
}

/// What a condition or an effect may know about the event that fired it.
#[derive(Clone, Copy, Debug)]
pub struct TriggerContext {
    pub trigger_type: TriggerType,
    pub src_idx: Option<usize>,
    pub dst_idx: Option<usize>,
    pub applied_status: Option<StatusType>,
}

impl TriggerContext {
    /// Both indices, where present, address a unit of a roster of `n`.
    pub open spec fn fits(&self, n: nat) -> bool {
        &&& self.src_idx matches Some(i) ==> i < n
        &&& self.dst_idx matches Some(i) ==> i < n
    }
}

/// Index of the first status of the given type at or after `from`.
pub open spec fn find_status(statuses: Seq<ActiveStatus>, status_type: StatusType, from: int)
    -> Option<int>
    decreases statuses.len() - from,
{
    if from < 0 || from >= statuses.len() {
        None
    } else if statuses[from].status_type == status_type {
        Some(from)
    } else {
        find_status(statuses, status_type, from + 1)
    }
}

/// Whether the list holds a status of the given type that has time left.
pub open spec fn has_live_status(statuses: Seq<ActiveStatus>, status_type: StatusType) -> bool {
    exists|j: int|
        0 <= j < statuses.len() && (#[trigger] statuses[j]).status_type == status_type
            && statuses[j].duration > 0
}

/// Whether the list holds a status of the given type with more than `rest`
/// milliseconds left.
pub open spec fn lasting(statuses: Seq<ActiveStatus>, status_type: StatusType, rest: int) -> bool {
    exists|j: int|
        0 <= j < statuses.len() && (#[trigger] statuses[j]).status_type == status_type
            && statuses[j].duration > rest
}

/// Number of statuses among the first `n` that have time left.
pub open spec fn live_count(statuses: Seq<ActiveStatus>, n: int) -> nat
    decreases n,
{
    if n <= 0 || n > statuses.len() {
        0
    } else if statuses[n - 1].duration > 0 {
        live_count(statuses, n - 1) + 1
    } else {
        live_count(statuses, n - 1)
    }
}

/// No two statuses of the list share a type.
pub open spec fn distinct_types(statuses: Seq<ActiveStatus>) -> bool {
    forall|i: int, j: int|
        0 <= i < j < statuses.len() ==> (#[trigger] statuses[i]).status_type != (
        #[trigger] statuses[j]).status_type
}

/// Whether a unit's hit-point ratio is strictly below `ratio` ten-thousandths.
/// A unit without maximum counts as ratio zero.
pub open spec fn hp_ratio_below(unit: Unit, ratio: i32) -> bool {
    if unit.max_hp <= 0 {
        0 < ratio
    } else {
        max_int(unit.hp as int, 0) * CHANCE_ONE < ratio * unit.max_hp
    }
}

/// Whether a draw succeeds against a chance strictly between zero and one:
/// `draw / u32::MAX < chance / 10000`.
pub open spec fn roll_hits(draw: u32, chance: int) -> bool {
    draw * CHANCE_ONE < chance * u32::MAX
}

/// What the first status search finds is in range, of the type, and the first such.
pub proof fn lemma_find_status(statuses: Seq<ActiveStatus>, status_type: StatusType, from: int)
    requires
        0 <= from,
    ensures
        find_status(statuses, status_type, from) matches Some(i) ==> from <= i < statuses.len()
            && statuses[i].status_type == status_type && forall|j: int|
            from <= j < i ==> (#[trigger] statuses[j]).status_type != status_type,
        find_status(statuses, status_type, from) is None ==> forall|j: int|
            from <= j < statuses.len() ==> (#[trigger] statuses[j]).status_type != status_type,
    decreases statuses.len() - from,
{
    if from < statuses.len() && statuses[from].status_type != status_type {
        lemma_find_status(statuses, status_type, from + 1);
    }
}

/// Finds the first status of the given type.
pub fn find_status_index(statuses: &Vec<ActiveStatus>, status_type: StatusType) -> (r: Option<
    usize,
>)
    ensures
        match r {
            Some(i) => find_status(statuses@, status_type, 0) == Some(i as int) && i
                < statuses@.len(),
            None => find_status(statuses@, status_type, 0) is None,
        },
{
    let mut j: usize = 0;
    while j < statuses.len()
        invariant
            j <= statuses@.len(),
            find_status(statuses@, status_type, 0) == find_status(statuses@, status_type, j as int),
        decreases statuses@.len() - j,
    {
        if statuses[j].status_type == status_type {
            return Some(j);
        }
        j = j + 1;
    }
    None
}

/// Whether no two statuses of a row share a type.
pub fn has_distinct_types(statuses: &Vec<ActiveStatus>) -> (r: bool)
    ensures
        r == distinct_types(statuses@),
{
    let mut j: usize = 0;
    while j < statuses.len()
        invariant
            j <= statuses@.len(),
            forall|a: int, b: int|
                0 <= a < b < j ==> (#[trigger] statuses@[a]).status_type != (
                #[trigger] statuses@[b]).status_type,
        decreases statuses@.len() - j,
    {
        let mut i: usize = 0;
        while i < j
            invariant
                i <= j < statuses@.len(),
                forall|a: int|
                    0 <= a < i ==> (#[trigger] statuses@[a]).status_type
                        != statuses@[j as int].status_type,
            decreases j - i,
        {
            if statuses[i].status_type == statuses[j].status_type {
                return false;
            }
            i = i + 1;
        }
        j = j + 1;
    }
    true
}

/// The arena of one battle.
pub struct Combat {
    pub state: BattleState,
    pub runtime: Vec<UnitRuntime>,
    pub rng: SimpleRng,
    pub traits: Vec<TraitId>,
    pub events: Vec<Record>,
}

/// What a [`Combat`] holds, as mathematical values.
pub struct CombatModel {
    pub units: Seq<Unit>,
    pub ledgers: Seq<Ledger>,
    pub tick: u32,
    pub delta_time: u32,
    pub rng: u64,
    pub traits: Seq<TraitId>,
    pub events: Seq<Record>,
}

impl View for Combat {
    type V = CombatModel;

    open spec fn view(&self) -> CombatModel {
        CombatModel {
            units: self.state.units@,
            ledgers: ledgers_of(self.runtime@),
            tick: self.state.tick,
            delta_time: self.state.delta_time,
            rng: self.rng.state,
            traits: self.traits@,
            events: self.events@,
        }
    }
}

impl CombatModel {
    /// One ledger per unit, hit points within bounds, one status per type and
    /// unit; and the roster is no longer than an index can count.
    pub open spec fn wf(self) -> bool {
        &&& self.units.len() == self.ledgers.len()
        &&& self.units.len() <= usize::MAX
        &&& forall|i: int| 0 <= i < self.units.len() ==> (#[trigger] self.units[i]).hp_in_range()
        &&& forall|i: int|
            0 <= i < self.ledgers.len() ==> distinct_types((#[trigger] self.ledgers[i]).statuses)
    }

    /// The arena with `event` appended to the trace, tagged with the current tick.
    pub open spec fn emit(self, event: Event) -> CombatModel {
        CombatModel { events: self.events.push(Record { tick: self.tick, event }), ..self }
    }

    pub open spec fn with_rng(self, rng: u64) -> CombatModel {
        CombatModel { rng, ..self }
    }

    pub open spec fn with_unit(self, idx: int, unit: Unit) -> CombatModel {
        CombatModel { units: self.units.update(idx, unit), ..self }
    }

    pub open spec fn with_ledger(self, idx: int, ledger: Ledger) -> CombatModel {
        CombatModel { ledgers: self.ledgers.update(idx, ledger), ..self }
    }

    pub open spec fn with_statuses(self, idx: int, statuses: Seq<ActiveStatus>) -> CombatModel {
        self.with_ledger(idx, Ledger { statuses, ..self.ledgers[idx] })
    }

    /// The trace label of the unit at `idx`.
    pub open spec fn label(self, idx: int) -> &'static str {
        actor_label(self.units[idx].team)
    }

    /// No unit lost anything of a status it carried in `before`: every entry
    /// is still in its place, with at least as many stacks, as much
    /// duration and as much power.
    pub open spec fn statuses_grew(self, before: CombatModel) -> bool {
        &&& self.ledgers.len() == before.ledgers.len()
        &&& forall|i: int, j: int|
            0 <= i < before.ledgers.len() && 0 <= j < before.ledgers[i].statuses.len() ==> {
                let b = #[trigger] before.ledgers[i].statuses[j];
                let a = self.ledgers[i].statuses[j];
                &&& j < self.ledgers[i].statuses.len()
                &&& a.status_type == b.status_type
                &&& a.stacks >= b.stacks
                &&& a.duration >= b.duration
                &&& a.power >= b.power
            }
    }

    /// The battle is the one of `before`: the same units in the same order,
    /// whatever their gauges, at the same tick with the same active traits;
    /// no unit has more hit points than in `before`, and no status-power
    /// multiplier is lower.
    pub open spec fn same_battle(self, before: CombatModel) -> bool {
        &&& self.units.len() == before.units.len()
        &&& self.ledgers.len() == before.ledgers.len()
        &&& self.tick == before.tick
        &&& self.delta_time == before.delta_time
        &&& self.traits == before.traits
        &&& forall|i: int, status_type: StatusType|
            0 <= i < before.ledgers.len() ==> self.ledgers[i].status_power_mult.get(status_type)
                >= #[trigger] before.ledgers[i].status_power_mult.get(status_type)
        &&& forall|i: int|
            0 <= i < self.units.len() ==> {
                let a = #[trigger] self.units[i];
                let b = before.units[i];
                &&& a.id == b.id
                &&& a.team == b.team
                &&& a.max_hp == b.max_hp
                &&& a.atk == b.atk
                &&& a.speed == b.speed
                &&& a.hp <= b.hp
            }
    }

    /// The battle is the one of `before` and no gauge has moved.
    pub open spec fn same_cast(self, before: CombatModel) -> bool {
        &&& self.same_battle(before)
        &&& forall|i: int|
            0 <= i < self.units.len() ==> (#[trigger] self.units[i]).action_gauge
                == before.units[i].action_gauge
    }

    /// The same arena with the proc bonus of `idx` raised by `amount`, saturating.
    pub open spec fn add_proc_bonus(self, idx: int, amount: i32) -> CombatModel {
        let l = self.ledgers[idx];
        self.with_ledger(
            idx,
            Ledger { proc_bonus: crate::fixed::sat_add(l.proc_bonus, amount as i64), ..l },
        )
    }

    /// The same arena with the resist bonus of `idx` raised by `amount`, saturating.
    pub open spec fn add_res_bonus(self, idx: int, amount: i32) -> CombatModel {
        let l = self.ledgers[idx];
        self.with_ledger(
            idx,
            Ledger { res_bonus: crate::fixed::sat_add(l.res_bonus, amount as i64), ..l },
        )
    }

    /// The power multiplier `idx` applies to statuses of the given type.
    pub open spec fn power_mul(self, idx: int, status_type: StatusType) -> u32 {
        self.ledgers[idx].status_power_mult.effective(status_type)
    }

    /// The same arena with that multiplier raised to `mul` if it was lower.
    pub open spec fn raise_power_mul(self, idx: int, status_type: StatusType, mul: u32)
        -> CombatModel {
        let l = self.ledgers[idx];
        self.with_ledger(
            idx,
            Ledger { status_power_mult: l.status_power_mult.raised(status_type, mul), ..l },
        )
    }

    /// A roll against `chance` ten-thousandths. A chance of zero or less fails
    /// and a chance of one or more succeeds, neither costing a draw.
    pub open spec fn roll(self, chance: int) -> (bool, CombatModel) {
        if chance <= 0 {
            (false, self)
        } else if chance >= CHANCE_ONE {
            (true, self)
        } else {
            let s = next_state(self.rng);
            (roll_hits(draw_of(s), chance), self.with_rng(s))
        }
    }

    /// The verdict of a condition, and the arena after the draws it cost.
    pub open spec fn eval(self, condition: Condition, ctx: TriggerContext) -> (bool, CombatModel)
        decreases condition,
    {
        match condition {
            Condition::Always => (true, self),
            Condition::SrcIsPlayer => (
                ctx.src_idx matches Some(i) && self.units[i as int].team == Team::Player,
                self,
            ),
            Condition::DstIsEnemy => (
                ctx.dst_idx matches Some(i) && self.units[i as int].team == Team::Enemy,
                self,
            ),
            Condition::AppliedStatusIs(status_type) => (
                ctx.applied_status == Some(status_type),
                self,
            ),
            Condition::RandomRollBelow(p) => self.roll(p as int),
            Condition::TargetHPBelow(ratio) => (
                ctx.dst_idx matches Some(i) && hp_ratio_below(self.units[i as int], ratio),
                self,
            ),
            Condition::TargetHasStatus(status_type) => (
                ctx.dst_idx matches Some(i) && has_live_status(
                    self.ledgers[i as int].statuses,
                    status_type,
                ),
                self,
            ),
            Condition::TargetStatusCountAtLeast(n) => (
                ctx.dst_idx matches Some(i) && live_count(
                    self.ledgers[i as int].statuses,
                    self.ledgers[i as int].statuses.len() as int,
                ) >= n,
                self,
            ),
            Condition::All(list) => self.eval_all(list, ctx),
        }
    }

    /// The conjunction of a list: every member is evaluated, in order.
    pub open spec fn eval_all(self, list: ConditionList, ctx: TriggerContext) -> (
        bool,
        CombatModel,
    )
        decreases list,
    {
        match list {
            ConditionList::Nil => (true, self),
            ConditionList::Cons(head, tail) => {
                let (a, m1) = self.eval(*head, ctx);
                let (b, m2) = m1.eval_all(*tail, ctx);
                (a && b, m2)
            },
        }
    }

    /// The unit an effect aimed at `target` lands on.
    pub open spec fn resolve_target(self, target: EffectTarget, ctx: TriggerContext) -> Option<
        usize,
    > {
        match target {
            EffectTarget::Src => ctx.src_idx,
            EffectTarget::Dst => ctx.dst_idx,
            EffectTarget::Player => match find_unit(self.units, Team::Player, false, 0) {
                Some(i) => Some(i as usize),
                None => None,
            },
            EffectTarget::Enemy => match find_unit(self.units, Team::Enemy, true, 0) {
                Some(i) => Some(i as usize),
                None => match find_unit(self.units, Team::Enemy, false, 0) {
                    Some(i) => Some(i as usize),
                    None => None,
                },
            },
        }
    }

    /// A living unit of `team` picked by the generator, if there is one.
    pub open spec fn pick_target(self, team: Team) -> (Option<usize>, CombatModel) {
        let targets = living_of(self.units, team, self.units.len() as int);
        if targets.len() == 0 {
            (None, self)
        } else {
            let (k, s) = range_of(self.rng, targets.len());
            (Some(targets[k as int]), self.with_rng(s))
        }
    }
}

impl Combat {
    /// The arena is well formed when its model is and the two vectors run in parallel.
    pub open spec fn wf(&self) -> bool {
        &&& self@.wf()
        &&& self.state.units@.len() == self.runtime@.len()
    }

    /// Checks that the arena is well formed: one ledger per unit, hit points
    /// within bounds, one status per type and unit.
    pub fn is_well_formed(&self) -> (r: bool)
        ensures
            r == self.wf(),
    {
        let n = self.state.units.len();
        if self.runtime.len() != n {
            return false;
        }
        let mut i: usize = 0;
        while i < n
            invariant
                i <= n,
                n == self.state.units@.len(),
                n == self.runtime@.len(),
                forall|k: int| 0 <= k < i ==> (#[trigger] self@.units[k]).hp_in_range(),
                forall|k: int|
                    0 <= k < i ==> distinct_types((#[trigger] self@.ledgers[k]).statuses),
            decreases n - i,
        {
            let unit = &self.state.units[i];
            if unit.hp < 0 || unit.hp > unit.max_hp {
                assert(!self@.units[i as int].hp_in_range());
                return false;
            }
            if !has_distinct_types(&self.runtime[i].statuses) {
                assert(!distinct_types(self@.ledgers[i as int].statuses));
                return false;
            }
            i = i + 1;
        }
        true
    }

    /// Sets up the arena of a battle: every unit gets a fresh ledger.
    pub fn new(state: BattleState, rng: SimpleRng, traits: Vec<TraitId>) -> (c: Combat)
        ensures
            c@.units == state.units@,
            c@.ledgers == Seq::new(state.units@.len(), |i: int| Ledger::fresh()),
            c@.tick == state.tick,
            c@.delta_time == state.delta_time,
            c@.rng == rng.state,
            c@.traits == traits@,
            c@.events == Seq::<Record>::empty(),
            c.state.units@.len() == c.runtime@.len(),
    {
        let mut runtime: Vec<UnitRuntime> = Vec::new();
        let mut i: usize = 0;
        while i < state.units.len()
            invariant
                i <= state.units@.len(),
                runtime@.len() == i,
                forall|k: int| 0 <= k < i ==> (#[trigger] runtime@[k])@ == Ledger::fresh(),
            decreases state.units@.len() - i,
        {
            runtime.push(
                UnitRuntime {
                    statuses: Vec::new(),
                    proc_bonus: 0,
                    res_bonus: 0,
                    status_power_mult: PowerTable::new(),
                },
            );
            i = i + 1;
        }
        let c = Combat { state, runtime, rng, traits, events: Vec::new() };
        assert(c@.ledgers =~= Seq::new(state.units@.len(), |i: int| Ledger::fresh()));
        c
    }

    /// Appends an event to the trace, tagged with the current tick.
    pub fn emit(&mut self, event: Event)
        ensures
            final(self)@ == old(self)@.emit(event),
            final(self).state == old(self).state,
            final(self).runtime == old(self).runtime,
            final(self).rng == old(self).rng,
            final(self).traits == old(self).traits,
    {
        let tick = self.state.tick;
        self.events.push(Record { tick, event });
    }

    pub fn unit_count(&self) -> (n: usize)
        ensures
            n == self@.units.len(),
    {
        self.state.units.len()
    }

    pub fn sim_tick(&self) -> (t: u32)
        ensures
            t == self@.tick,
    {
        self.state.tick
    }

    /// Moves the battle on to its next tick and returns it.
    pub fn advance_sim_tick(&mut self) -> (tick: u32)
        ensures
            final(self)@ == (CombatModel {
                tick: if old(self)@.tick == u32::MAX {
                    u32::MAX
                } else {
                    (old(self)@.tick + 1) as u32
                },
                ..old(self)@
            }),
            tick == final(self)@.tick,
            final(self).wf() == old(self).wf(),
    {
        self.state.tick = self.state.tick.saturating_add(1);
        self.state.tick
    }

    /// The trace label of the unit at `idx`.
    pub fn actor_label_for_idx(&self, idx: usize) -> (r: &'static str)
        requires
            idx < self@.units.len(),
        ensures
            r == self@.label(idx as int),
    {
        team_to_actor(self.state.units[idx].team)
    }

    pub fn add_proc_bonus(&mut self, unit_idx: usize, amount: i32)
        requires
            old(self).wf(),
            unit_idx < old(self)@.units.len(),
        ensures
            final(self)@ == old(self)@.add_proc_bonus(unit_idx as int, amount),
            final(self).wf(),
            final(self)@.same_cast(old(self)@),
            final(self)@.statuses_grew(old(self)@),
    {
        let bonus = crate::fixed::add_sat(self.runtime[unit_idx].proc_bonus, amount as i64);
        self.runtime[unit_idx].proc_bonus = bonus;
        assert(self@.ledgers =~= old(self)@.add_proc_bonus(unit_idx as int, amount).ledgers);
    }

    pub fn add_res_bonus(&mut self, unit_idx: usize, amount: i32)
        requires
            old(self).wf(),
            unit_idx < old(self)@.units.len(),
        ensures
            final(self)@ == old(self)@.add_res_bonus(unit_idx as int, amount),
            final(self).wf(),
            final(self)@.same_cast(old(self)@),
            final(self)@.statuses_grew(old(self)@),
    {
        let bonus = crate::fixed::add_sat(self.runtime[unit_idx].res_bonus, amount as i64);
        self.runtime[unit_idx].res_bonus = bonus;
        assert(self@.ledgers =~= old(self)@.add_res_bonus(unit_idx as int, amount).ledgers);
    }

    /// The power multiplier `unit_idx` applies to statuses of the given type, in percent.
    pub fn status_power_mul_for(&self, unit_idx: usize, status_type: StatusType) -> (r: u32)
        requires
            self.wf(),
            unit_idx < self@.units.len(),
        ensures
            r == self@.power_mul(unit_idx as int, status_type),
            r >= PCT_FLOOR,
    {
        let stored = self.runtime[unit_idx].status_power_mult.value(status_type);
        if stored >= PCT_FLOOR {
            stored
        } else {
            PCT_FLOOR
        }
    }

    /// Raises a power multiplier; it never goes down.
    pub fn update_status_power_mul(&mut self, unit_idx: usize, status_type: StatusType, mul: u32)
        requires
            old(self).wf(),
            unit_idx < old(self)@.units.len(),
        ensures
            final(self)@ == old(self)@.raise_power_mul(unit_idx as int, status_type, mul),
            final(self).wf(),
            final(self)@.same_cast(old(self)@),
            final(self)@.statuses_grew(old(self)@),
            final(self)@.power_mul(unit_idx as int, status_type) >= old(self)@.power_mul(
                unit_idx as int,
                status_type,
            ),
    {
        let floor = if mul >= PCT_FLOOR {
            mul
        } else {
            PCT_FLOOR
        };
        if floor > self.runtime[unit_idx].status_power_mult.value(status_type) {
            self.runtime[unit_idx].status_power_mult.store(status_type, floor);
        }
        assert(self@.ledgers =~= old(self)@.raise_power_mul(
            unit_idx as int,
            status_type,
            mul,
        ).ledgers);
    }

    /// Rolls against a chance in ten-thousandths.
    pub fn roll_success(&mut self, chance: i64) -> (hit: bool)
        ensures
            (hit, final(self)@) == old(self)@.roll(chance as int),
            final(self)@ == old(self)@.with_rng(final(self)@.rng),
            final(self).wf() == old(self).wf(),
    {
        if chance <= 0 {
            return false;
        }
        if chance >= CHANCE_ONE {
            return true;
        }
        let draw = self.rng.next_u32();
        (draw as u64) * (CHANCE_ONE as u64) < (chance as u64) * (u32::MAX as u64)
    }

    /// Whether the unit carries a status of the given type that has time left.
    pub fn has_status(&self, unit_idx: usize, status_type: StatusType) -> (r: bool)
        requires
            self.wf(),
            unit_idx < self@.units.len(),
        ensures
            r == has_live_status(self@.ledgers[unit_idx as int].statuses, status_type),
    {
        let row = &self.runtime[unit_idx].statuses;
        let mut j: usize = 0;
        while j < row.len()
            invariant
                j <= row@.len(),
                row@ == self@.ledgers[unit_idx as int].statuses,
                forall|k: int|
                    0 <= k < j ==> !((#[trigger] row@[k]).status_type == status_type
                        && row@[k].duration > 0),
            decreases row@.len() - j,
        {
            if row[j].status_type == status_type && row[j].duration > 0 {
                return true;
            }
            j = j + 1;
        }
        false
    }

    /// Number of statuses of the unit that have time left.
    pub fn status_count(&self, unit_idx: usize) -> (n: usize)
        requires
            self.wf(),
            unit_idx < self@.units.len(),
        ensures
            n == live_count(
                self@.ledgers[unit_idx as int].statuses,
                self@.ledgers[unit_idx as int].statuses.len() as int,
            ),
    {
        let row = &self.runtime[unit_idx].statuses;
        let mut n: usize = 0;
        let mut j: usize = 0;
        while j < row.len()
            invariant
                j <= row@.len(),
                n <= j,
                n == live_count(row@, j as int),
            decreases row@.len() - j,
        {
            if row[j].duration > 0 {
                n = n + 1;
            }
            j = j + 1;
        }
        n
    }

    /// Whether the hit-point ratio of the unit is strictly below `ratio` ten-thousandths.
    pub fn target_hp_below(&self, unit_idx: usize, ratio: i32) -> (r: bool)
        requires
            unit_idx < self@.units.len(),
        ensures
            r == hp_ratio_below(self@.units[unit_idx as int], ratio),
    {
        let unit = &self.state.units[unit_idx];
        if unit.max_hp <= 0 {
            0 < ratio
        } else {
            let hp: i128 = if unit.hp > 0 {
                unit.hp as i128
            } else {
                0
            };
            let one: i128 = CHANCE_ONE as i128;
            assert(one == 10_000);
            let lhs: i128 = hp * one;
            let r: i128 = ratio as i128;
            let m: i128 = unit.max_hp as i128;
            assert(-0x4000_0000_0000_0000_0000_0000 <= r * m <= 0x4000_0000_0000_0000_0000_0000)
                by (nonlinear_arith)
                requires
                    -0x8000_0000 <= r <= 0x8000_0000,
                    0 <= m <= 0x8000_0000_0000_0000,
            ;
            lhs < r * m
        }
    }

    pub fn trigger_matches(expected: TriggerType, actual: TriggerType) -> (r: bool)
        ensures
            r == (expected == actual),
    {
        expected == actual
    }

    /// Evaluates a condition. Only a random roll touches the arena: it costs a draw.
    pub fn evaluate_condition(&mut self, condition: &Condition, context: TriggerContext) -> (r:
        bool)
        requires
            old(self).wf(),
            context.fits(old(self)@.units.len()),
        ensures
            (r, final(self)@) == old(self)@.eval(*condition, context),
            final(self)@ == old(self)@.with_rng(final(self)@.rng),
            final(self).wf(),
        decreases condition,
    {
        match condition {
            Condition::Always => true,
            Condition::SrcIsPlayer => match context.src_idx {
                Some(i) => self.state.units[i].team == Team::Player,
                None => false,
            },
            Condition::DstIsEnemy => match context.dst_idx {
                Some(i) => self.state.units[i].team == Team::Enemy,
                None => false,
            },
            Condition::AppliedStatusIs(status_type) => match context.applied_status {
                Some(applied) => applied == *status_type,
                None => false,
            },
            Condition::RandomRollBelow(p) => self.roll_success(*p as i64),
            Condition::TargetHPBelow(ratio) => match context.dst_idx {
                Some(i) => self.target_hp_below(i, *ratio),
                None => false,
            },
            Condition::TargetHasStatus(status_type) => match context.dst_idx {
                Some(i) => self.has_status(i, *status_type),
                None => false,
            },
            Condition::TargetStatusCountAtLeast(n) => match context.dst_idx {
                Some(i) => self.status_count(i) >= *n as usize,
                None => false,
            },
            Condition::All(list) => {
                assert(decreases_to!(*condition => condition->All_0));
                self.evaluate_all(list, context)
            },
        }
    }

    /// Evaluates every condition of a list, in order, and returns their conjunction.
    pub fn evaluate_all(&mut self, list: &ConditionList, context: TriggerContext) -> (r: bool)
        requires
            old(self).wf(),
            context.fits(old(self)@.units.len()),
        ensures
            (r, final(self)@) == old(self)@.eval_all(*list, context),
            final(self)@ == old(self)@.with_rng(final(self)@.rng),
            final(self).wf(),
        decreases list,
    {
        match list {
            ConditionList::Nil => true,
            ConditionList::Cons(head, tail) => {
                let a = self.evaluate_condition(head, context);
                let b = self.evaluate_all(tail, context);
                a && b
            },
        }
    }

    /// The unit an effect aimed at `target` lands on: the source or the
    /// destination of the context, the player, or the first living enemy
    /// (any enemy if none lives).
    pub fn resolve_effect_target(&self, target: EffectTarget, context: TriggerContext) -> (r:
        Option<usize>)
        requires
            context.fits(self@.units.len()),
        ensures
            r == self@.resolve_target(target, context),
            r matches Some(i) ==> i < self@.units.len(),
    {
        match target {
            EffectTarget::Src => context.src_idx,
            EffectTarget::Dst => context.dst_idx,
            EffectTarget::Player => find_unit_index(&self.state.units, Team::Player, false),
            EffectTarget::Enemy => match find_unit_index(&self.state.units, Team::Enemy, true) {
                Some(i) => Some(i),
                None => find_unit_index(&self.state.units, Team::Enemy, false),
            },
        }
    }

    /// Picks a living unit of `target_team` with the generator.
    pub fn pick_target_index(&mut self, target_team: Team) -> (r: Option<usize>)
        ensures
            (r, final(self)@) == old(self)@.pick_target(target_team),
            final(self)@ == old(self)@.with_rng(final(self)@.rng),
            final(self).wf() == old(self).wf(),
            r matches Some(i) ==> i < old(self)@.units.len() && old(self)@.units[i as int].alive()
                && old(self)@.units[i as int].team == target_team,
    {
        let targets = living_indices(&self.state.units, target_team);
        if targets.len() == 0 {
            None
        } else {
            let k = self.rng.range_usize(targets.len());
            Some(targets[k])
        }
    }
}

} // verus!
