//! Turns: gauge accrual, turn order, and the execution of a skill.

use vstd::prelude::*;
use crate::engine::combat_state::{Combat, CombatModel, TriggerContext};
use crate::engine::status_system::{
    buff_stacks, buff_stacks_for, buff_status, buff_status_for, gauge_multiplier,
};
use crate::engine::trait_system::at_least_one;
use crate::event::Event;
use crate::fixed::{
    clamp, damage_amount, round_div, AMP_ONE, CHANCE_ONE, GAUGE_FULL, PCT_FLOOR,
};
use crate::model::{any_alive, has_alive, opponent_of, BattleOutcome, Team, Unit};
use crate::skill::{
    basic_attack, basic_attack_model, player_skill_for_slot, slot_skill_model, EffectSpec,
    SkillModel, SkillSpec,
};
use crate::trait_spec::TriggerType;

verus! {

/// What a unit does with its turn.
#[derive(Clone, Copy, Debug, PartialEq, Eq, Structural)]
pub enum ActionKind {
    BasicAttack,
    SkillSlot(u32),
}

/// Why a round of turns came to a halt.
#[derive(Clone, Copy, Debug, PartialEq, Eq, Structural)]
pub enum TurnStop {
    /// No unit is ready to act.
    Idle,
    /// The player is next and has not said what to do.
    NeedInput,
    /// The battle is over.
    Ended(BattleOutcome),
}

/// The skill an action stands for.
pub open spec fn skill_for_action(action: ActionKind) -> SkillModel {
    match action {
        ActionKind::BasicAttack => basic_attack_model(),
        ActionKind::SkillSlot(slot) => slot_skill_model(slot),
    }
}

/// The skill a unit of `team` uses: the chosen one for the player, the basic
/// attack for an enemy.
pub open spec fn skill_of_turn(team: Team, action: ActionKind) -> SkillModel {
    if team == Team::Player {
        skill_for_action(action)
    } else {
        basic_attack_model()
    }
}

/// The context of a skill `actor` uses on `target`.
pub open spec fn action_context(actor: usize, target: usize) -> TriggerContext {
    TriggerContext {
        trigger_type: TriggerType::OnActionUsed,
        src_idx: Some(actor),
        dst_idx: Some(target),
        applied_status: None,
    }
}

/// The damage of a skill hit, in hundredths:
/// `atk x base x multiplier x amplifier + flat bonuses`, at least the minimum.
/// `base` and `multiplier` are percentages, `amp` is in ten-thousandths.
pub open spec fn skill_damage(
    atk: i32,
    base: u32,
    multiplier: u32,
    amp: u32,
    flat_bonus: Option<i64>,
    flat: i64,
) -> i64 {
    damage_amount(
        round_div(atk * base * multiplier * amp, 1_000_000) + (match flat_bonus {
            Some(b) => b as int,
            None => 0,
        }) + flat,
    )
}

/// The cumulative amplifier after one more amplifier of `pct` percent (at
/// least the floor) took effect, saturating.
pub open spec fn amp_after(amp: u32, pct: u32) -> u32 {
    clamp(
        round_div(
            amp * (if pct >= PCT_FLOOR {
                pct
            } else {
                PCT_FLOOR
            }),
            100,
        ),
        0,
        u32::MAX as int,
    ) as u32
}

/// The gauge a unit gains in `dt` milliseconds at `mult` thousandths of its speed.
pub open spec fn gauge_gain(speed: u32, dt: u32, mult: u32) -> int {
    speed * dt * mult
}

/// A gauge after a gain, saturating.
pub open spec fn gauge_after(gauge: u64, gain: int) -> u64 {
    clamp(gauge + gain, 0, u64::MAX as int) as u64
}

/// Whether a unit may act: alive with a full gauge.
pub open spec fn is_ready(unit: Unit) -> bool {
    unit.alive() && unit.action_gauge >= GAUGE_FULL
}

/// Among the first `n` units, the ready one with the fullest gauge; the
/// earliest in the roster among equals.
pub open spec fn next_ready(units: Seq<Unit>, n: int) -> Option<int>
    decreases n,
{
    if n <= 0 || n > units.len() {
        None
    } else {
        let earlier = next_ready(units, n - 1);
        if is_ready(units[n - 1]) {
            match earlier {
                Some(b) => if units[b].action_gauge >= units[n - 1].action_gauge {
                    earlier
                } else {
                    Some(n - 1)
                },
                None => Some(n - 1),
            }
        } else {
            earlier
        }
    }
}

/// The unit `next_ready` names is ready, and none is readier: no ready unit
/// has a fuller gauge, and none before it has one as full.
pub proof fn lemma_next_ready(units: Seq<Unit>, n: int)
    requires
        0 <= n <= units.len(),
    ensures
        match next_ready(units, n) {
            Some(b) => {
                &&& 0 <= b < n
                &&& is_ready(units[b])
                &&& forall|i: int|
                    0 <= i < n && is_ready(#[trigger] units[i]) ==> units[i].action_gauge
                        <= units[b].action_gauge
                &&& forall|i: int|
                    0 <= i < b && is_ready(#[trigger] units[i]) ==> units[i].action_gauge
                        < units[b].action_gauge
            },
            None => forall|i: int| 0 <= i < n ==> !is_ready(#[trigger] units[i]),
        },
    decreases n,
{
    if n > 0 {
        lemma_next_ready(units, n - 1);
    }
}

/// Total of the gauges of the first `n` units.
pub open spec fn gauge_sum(units: Seq<Unit>, n: int) -> nat
    decreases n,
{
    if n <= 0 || n > units.len() {
        0
    } else {
        gauge_sum(units, n - 1) + units[n - 1].action_gauge as nat
    }
}

/// Units that differ only in hit points have the same gauge total.
pub proof fn lemma_gauge_sum_same(a: Seq<Unit>, b: Seq<Unit>, n: int)
    requires
        a.len() == b.len(),
        0 <= n <= a.len(),
        forall|i: int| 0 <= i < a.len() ==> (#[trigger] a[i]).action_gauge == b[i].action_gauge,
    ensures
        gauge_sum(a, n) == gauge_sum(b, n),
    decreases n,
{
    if n > 0 {
        lemma_gauge_sum_same(a, b, n - 1);
    }
}

/// Spending gauge on one unit lowers the total by as much.
pub proof fn lemma_gauge_sum_spent(a: Seq<Unit>, b: Seq<Unit>, who: int, spent: nat, n: int)
    requires
        a.len() == b.len(),
        0 <= n <= a.len(),
        0 <= who < a.len(),
        forall|i: int|
            0 <= i < a.len() && i != who ==> (#[trigger] a[i]).action_gauge == b[i].action_gauge,
        a[who].action_gauge + spent == b[who].action_gauge,
    ensures
        gauge_sum(a, n) + (if who < n {
            spent
        } else {
            0
        }) == gauge_sum(b, n),
    decreases n,
{
    if n > 0 {
        lemma_gauge_sum_spent(a, b, who, spent, n - 1);
    }
}

impl CombatModel {
    /// The arena after one effect of the acting unit's skill ran, and the
    /// cumulative damage amplifier after it.
    pub open spec fn skill_effect(
        self,
        actor: usize,
        target: usize,
        skill: SkillModel,
        effect: EffectSpec,
        amp: u32,
    ) -> (CombatModel, u32) {
        let ctx = action_context(actor, target);
        match effect {
            EffectSpec::DealDamage { multiplier, flat } => (
                self.deal_damage(
                    actor,
                    target,
                    skill_damage(
                        self.units[actor as int].atk,
                        skill.base_damage_multiplier,
                        multiplier,
                        amp,
                        skill.flat_bonus_damage,
                        flat,
                    ),
                    0,
                ),
                amp,
            ),
            EffectSpec::ApplyStatus { status_type, base_chance, duration, stacks, power } => (
                self.apply_status(
                    actor,
                    target,
                    status_type,
                    base_chance,
                    duration,
                    stacks,
                    power,
                    0,
                ),
                amp,
            ),
            EffectSpec::ConditionalDamageAmp { condition, amp: pct } => {
                let (holds, m1) = self.eval(condition, ctx);
                (
                    m1,
                    if holds {
                        amp_after(amp, pct)
                    } else {
                        amp
                    },
                )
            },
            EffectSpec::ConditionalApplyStatus {
                condition,
                status_type,
                base_chance,
                duration,
                stacks,
                power,
            } => {
                let (holds, m1) = self.eval(condition, ctx);
                (
                    if holds {
                        m1.apply_status(
                            actor,
                            target,
                            status_type,
                            base_chance,
                            duration,
                            stacks,
                            power,
                            0,
                        )
                    } else {
                        m1
                    },
                    amp,
                )
            },
            EffectSpec::SelfBuff { stat, amount, duration } => (
                self.apply_status(
                    actor,
                    actor,
                    buff_status(stat),
                    CHANCE_ONE as i32,
                    duration,
                    buff_stacks(amount),
                    amount,
                    0,
                ),
                amp,
            ),
            EffectSpec::AddProcBonus { amount } => (self.add_proc_bonus(actor as int, amount), amp),
            EffectSpec::AddResBonus { amount } => (self.add_res_bonus(actor as int, amount), amp),
            EffectSpec::ModifyStatusPower { status_type, mul } => (
                self.raise_power_mul(actor as int, status_type, mul),
                amp,
            ),
            EffectSpec::AddStatusStacks { target: aim, status_type, stacks } => (
                match self.resolve_target(aim, ctx) {
                    Some(dst) => self.apply_status(
                        actor,
                        dst,
                        status_type,
                        CHANCE_ONE as i32,
                        1000,
                        at_least_one(stacks),
                        100,
                        0,
                    ),
                    None => self,
                },
                amp,
            ),
            EffectSpec::DealPureDamage { target: aim, amount } => (
                match self.resolve_target(aim, ctx) {
                    Some(dst) => self.deal_damage(actor, dst, damage_amount(amount as int), 0),
                    None => self,
                },
                amp,
            ),
        }
    }

    /// The arena after the effects of a skill from position `at` on ran, in order.
    pub open spec fn skill_effects(
        self,
        actor: usize,
        target: usize,
        skill: SkillModel,
        at: nat,
        amp: u32,
    ) -> CombatModel
        decreases skill.effects.len() - at,
    {
        if at >= skill.effects.len() {
            self
        } else {
            let (next, amp_next) = self.skill_effect(
                actor,
                target,
                skill,
                skill.effects[at as int],
                amp,
            );
            next.skill_effects(actor, target, skill, at + 1, amp_next)
        }
    }

    /// The arena after `actor` used `skill` on `target`: the turn and the
    /// action are reported, the traits react to the action, then the effects
    /// run in order, starting from a neutral amplifier.
    pub open spec fn execute_skill(self, actor: usize, target: usize, skill: SkillModel)
        -> CombatModel {
        self.emit(Event::TurnReady { actor: self.label(actor as int) }).emit(
            Event::ActionUsed { actor: self.label(actor as int), action_name: skill.name },
        ).dispatch(action_context(actor, target), 0).skill_effects(actor, target, skill, 0, AMP_ONE)
    }

    /// The arena with one full gauge taken from `actor`.
    pub open spec fn spend_gauge(self, actor: int) -> CombatModel {
        self.with_unit(
            actor,
            Unit {
                action_gauge: (self.units[actor].action_gauge - GAUGE_FULL) as u64,
                ..self.units[actor]
            },
        )
    }

    /// Whether the unit at `actor` can take a turn: it is alive, its gauge is
    /// full, and an opponent lives.
    pub open spec fn can_act(self, actor: int) -> bool {
        is_ready(self.units[actor]) && any_alive(
            self.units,
            opponent_of(self.units[actor].team),
        )
    }

    /// The turn of `actor`. A unit that is dead, whose gauge is not full, or
    /// that has no living opponent does nothing: no outcome, no event, no
    /// change. Otherwise it picks a living opponent, spends one full gauge
    /// and uses its skill on the opponent; then the battle is checked for
    /// its end.
    pub open spec fn execute_turn(self, actor: usize, action: ActionKind) -> (
        Option<BattleOutcome>,
        CombatModel,
    ) {
        let unit = self.units[actor as int];
        if !self.can_act(actor as int) {
            (None, self)
        } else {
            let (target, m1) = self.pick_target(opponent_of(unit.team));
            match target {
                Some(t) => m1.spend_gauge(actor as int).execute_skill(
                    actor,
                    t,
                    skill_of_turn(unit.team, action),
                ).check_end(),
                None => (None, self),
            }
        }
    }

    /// The arena after the ready units took their turns, one at a time: each
    /// time the readiest unit acts, an enemy with its basic attack, the
    /// player with the queued action. The round halts when nobody is ready,
    /// when the player is next and no action is queued, when the unit that
    /// is next has no living opponent, or when the battle ends. Returned
    /// with the arena: the action still queued, and why the round halted.
    ///
    /// Every turn costs one full gauge, so the round comes to an end.
    pub open spec fn take_turns(self, queued: Option<ActionKind>) -> (
        CombatModel,
        Option<ActionKind>,
        TurnStop,
    )
        decreases gauge_sum(self.units, self.units.len() as int),
        when self.wf()
    {
        match next_ready(self.units, self.units.len() as int) {
            None => (self, queued, TurnStop::Idle),
            Some(i) => if self.units[i].team == Team::Player && queued is None {
                (self, queued, TurnStop::NeedInput)
            } else if !self.can_act(i) {
                (self, queued, TurnStop::Idle)
            } else {
                let by_player = self.units[i].team == Team::Player;
                let action = match queued {
                    Some(a) if by_player => a,
                    _ => ActionKind::BasicAttack,
                };
                let left = if by_player {
                    None
                } else {
                    queued
                };
                let (outcome, m) = self.execute_turn(i as usize, action);
                match outcome {
                    Some(o) => (m, left, TurnStop::Ended(o)),
                    None => {
                        proof {
                            lemma_next_ready(self.units, self.units.len() as int);
                            crate::engine::upkeep::lemma_turn_spends_one_gauge(
                                self,
                                i as usize,
                                action,
                            );
                        }
                        m.take_turns(left)
                    },
                }
            },
        }
    }

    /// The arena with the gauges of the first `n` units advanced by `dt`
    /// milliseconds: a living unit gains `speed x dt x multiplier`.
    pub open spec fn accrued_upto(self, dt: u32, n: int) -> CombatModel {
        CombatModel {
            units: Seq::new(
                self.units.len(),
                |i: int|
                    if i < n && self.units[i].alive() {
                        Unit {
                            action_gauge: gauge_after(
                                self.units[i].action_gauge,
                                gauge_gain(
                                    self.units[i].speed,
                                    dt,
                                    gauge_multiplier(self.ledgers[i].statuses),
                                ),
                            ),
                            ..self.units[i]
                        }
                    } else {
                        self.units[i]
                    },
            ),
            ..self
        }
    }

    /// The arena with every gauge advanced by `dt` milliseconds.
    pub open spec fn accrue(self, dt: u32) -> CombatModel {
        self.accrued_upto(dt, self.units.len() as int)
    }
}

/// The damage of a skill hit.
pub fn skill_damage_for(
    atk: i32,
    base: u32,
    multiplier: u32,
    amp: u32,
    flat_bonus: Option<i64>,
    flat: i64,
) -> (r: i64)
    ensures
        r == skill_damage(atk, base, multiplier, amp, flat_bonus, flat),
        r >= 1,
{
    let a: i128 = atk as i128;
    let b: i128 = base as i128;
    let m: i128 = multiplier as i128;
    let p: i128 = amp as i128;
    assert(-0x7fff_ffff_8000_0000 <= a * b <= 0x7fff_ffff_8000_0000) by (nonlinear_arith)
        requires
            -0x8000_0000 <= a <= 0x8000_0000,
            0 <= b <= 0xffff_ffff,
    ;
    let ab: i128 = a * b;
    assert(-0x7fff_ffff_0000_0000_8000_0000 <= ab * m <= 0x7fff_ffff_0000_0000_8000_0000)
        by (nonlinear_arith)
        requires
            -0x7fff_ffff_8000_0000 <= ab <= 0x7fff_ffff_8000_0000,
            0 <= m <= 0xffff_ffff,
    ;
    let abm: i128 = ab * m;
    assert(-0x7fff_fffe_8000_0001_7fff_ffff_8000_0000 <= abm * p
        <= 0x7fff_fffe_8000_0001_7fff_ffff_8000_0000) by (nonlinear_arith)
        requires
            -0x7fff_ffff_0000_0000_8000_0000 <= abm <= 0x7fff_ffff_0000_0000_8000_0000,
            0 <= p <= 0xffff_ffff,
    ;
    let product: i128 = abm * p;
    assert(product == atk * base * multiplier * amp) by (nonlinear_arith)
        requires
            product == ((a * b) * m) * p,
            a == atk,
            b == base,
            m == multiplier,
            p == amp,
    ;
    let scaled = crate::fixed::round_div_wide(product, 1_000_000);
    let bonus: i128 = match flat_bonus {
        Some(v) => v as i128,
        None => 0,
    };
    crate::fixed::to_damage(scaled + bonus + flat as i128)
}

/// The cumulative amplifier after one more amplifier took effect.
pub fn amp_after_for(amp: u32, pct: u32) -> (r: u32)
    ensures
        r == amp_after(amp, pct),
{
    let p: u32 = if pct >= PCT_FLOOR {
        pct
    } else {
        PCT_FLOOR
    };
    let a: i128 = amp as i128;
    let b: i128 = p as i128;
    assert(0 <= a * b <= 0xffff_ffff_0000_0000) by (nonlinear_arith)
        requires
            0 <= a <= 0xffff_ffff,
            0 <= b <= 0xffff_ffff,
    ;
    let scaled = crate::fixed::round_div_wide(a * b, 100);
    if scaled > 0xffff_ffff {
        u32::MAX
    } else {
        scaled as u32
    }
}

/// A gauge after `dt` milliseconds at `mult` thousandths of `speed`.
pub fn gauge_after_for(gauge: u64, speed: u32, dt: u32, mult: u32) -> (r: u64)
    ensures
        r == gauge_after(gauge, gauge_gain(speed, dt, mult)),
{
    let s: u128 = speed as u128;
    let d: u128 = dt as u128;
    let m: u128 = mult as u128;
    assert(0 <= s * d <= 0xffff_ffff_0000_0000) by (nonlinear_arith)
        requires
            0 <= s <= 0xffff_ffff,
            0 <= d <= 0xffff_ffff,
    ;
    let sd: u128 = s * d;
    assert(0 <= sd * m <= 0xffff_ffff_0000_0000_0000_0000) by (nonlinear_arith)
        requires
            0 <= sd <= 0xffff_ffff_0000_0000,
            0 <= m <= 0xffff_ffff,
    ;
    let total: u128 = gauge as u128 + sd * m;
    if total > 0xffff_ffff_ffff_ffff {
        u64::MAX
    } else {
        total as u64
    }
}

/// The unit that acts next, if any is ready.
pub fn find_ready(units: &Vec<Unit>) -> (r: Option<usize>)
    ensures
        match r {
            Some(i) => next_ready(units@, units@.len() as int) == Some(i as int) && i
                < units@.len() && is_ready(units@[i as int]),
            None => next_ready(units@, units@.len() as int) is None,
        },
{
    let mut best: Option<usize> = None;
    let mut i: usize = 0;
    while i < units.len()
        invariant
            i <= units@.len(),
            match best {
                Some(b) => next_ready(units@, i as int) == Some(b as int) && b < i && is_ready(
                    units@[b as int],
                ),
                None => next_ready(units@, i as int) is None,
            },
        decreases units@.len() - i,
    {
        if units[i].is_alive() && units[i].action_gauge >= GAUGE_FULL {
            match best {
                Some(b) => {
                    if units[b].action_gauge < units[i].action_gauge {
                        best = Some(i);
                    }
                },
                None => {
                    best = Some(i);
                },
            }
        }
        i = i + 1;
    }
    best
}

/// The skill an action stands for.
pub fn choose_skill_for_action(action: ActionKind) -> (s: SkillSpec)
    ensures
        s@ == skill_for_action(action),
{
    match action {
        ActionKind::BasicAttack => basic_attack(),
        ActionKind::SkillSlot(slot) => player_skill_for_slot(slot),
    }
}

impl Combat {
    /// Runs one effect of the acting unit's skill and returns the cumulative
    /// damage amplifier after it.
    fn run_skill_effect(
        &mut self,
        actor_idx: usize,
        target_idx: usize,
        skill: &SkillSpec,
        effect: &EffectSpec,
        amp: u32,
    ) -> (amp_next: u32)
        requires
            old(self).wf(),
            actor_idx < old(self)@.units.len(),
            target_idx < old(self)@.units.len(),
        ensures
            (final(self)@, amp_next) == old(self)@.skill_effect(
                actor_idx,
                target_idx,
                skill@,
                *effect,
                amp,
            ),
            final(self).wf(),
            final(self)@.same_cast(old(self)@),
            final(self)@.statuses_grew(old(self)@),
    {
        let context = TriggerContext {
            trigger_type: TriggerType::OnActionUsed,
            src_idx: Some(actor_idx),
            dst_idx: Some(target_idx),
            applied_status: None,
        };
        match effect {
            EffectSpec::DealDamage { multiplier, flat } => {
                let amount = skill_damage_for(
                    self.state.units[actor_idx].atk,
                    skill.base_damage_multiplier,
                    *multiplier,
                    amp,
                    skill.flat_bonus_damage,
                    *flat,
                );
                self.apply_damage(actor_idx, target_idx, amount, 0);
                amp
            },
            EffectSpec::ApplyStatus { status_type, base_chance, duration, stacks, power } => {
                self.apply_status(
                    actor_idx,
                    target_idx,
                    *status_type,
                    *base_chance,
                    *duration,
                    *stacks,
                    *power,
                    0,
                );
                amp
            },
            EffectSpec::ConditionalDamageAmp { condition, amp: pct } => {
                if self.evaluate_condition(condition, context) {
                    amp_after_for(amp, *pct)
                } else {
                    amp
                }
            },
            EffectSpec::ConditionalApplyStatus {
                condition,
                status_type,
                base_chance,
                duration,
                stacks,
                power,
            } => {
                if self.evaluate_condition(condition, context) {
                    self.apply_status(
                        actor_idx,
                        target_idx,
                        *status_type,
                        *base_chance,
                        *duration,
                        *stacks,
                        *power,
                        0,
                    );
                }
                amp
            },
            EffectSpec::SelfBuff { stat, amount, duration } => {
                self.apply_status(
                    actor_idx,
                    actor_idx,
                    buff_status_for(*stat),
                    CHANCE_ONE as i32,
                    *duration,
                    buff_stacks_for(*amount),
                    *amount,
                    0,
                );
                amp
            },
            EffectSpec::AddProcBonus { amount } => {
                self.add_proc_bonus(actor_idx, *amount);
                amp
            },
            EffectSpec::AddResBonus { amount } => {
                self.add_res_bonus(actor_idx, *amount);
                amp
            },
            EffectSpec::ModifyStatusPower { status_type, mul } => {
                self.update_status_power_mul(actor_idx, *status_type, *mul);
                amp
            },
            EffectSpec::AddStatusStacks { target, status_type, stacks } => {
                if let Some(dst_idx) = self.resolve_effect_target(*target, context) {
                    let stacks: u32 = if *stacks >= 1 {
                        *stacks
                    } else {
                        1
                    };
                    self.apply_status(
                        actor_idx,
                        dst_idx,
                        *status_type,
                        CHANCE_ONE as i32,
                        1000,
                        stacks,
                        100,
                        0,
                    );
                }
                amp
            },
            EffectSpec::DealPureDamage { target, amount } => {
                if let Some(dst_idx) = self.resolve_effect_target(*target, context) {
                    self.apply_damage(
                        actor_idx,
                        dst_idx,
                        crate::fixed::to_damage(*amount as i128),
                        0,
                    );
                }
                amp
            },
        }
    }

    /// Has `actor_idx` use `skill` on `target_idx`.
    pub fn execute_skill(&mut self, actor_idx: usize, target_idx: usize, skill: &SkillSpec)
        requires
            old(self).wf(),
            actor_idx < old(self)@.units.len(),
            target_idx < old(self)@.units.len(),
        ensures
            final(self)@ == old(self)@.execute_skill(actor_idx, target_idx, skill@),
            final(self).wf(),
            final(self)@.same_cast(old(self)@),
            final(self)@.statuses_grew(old(self)@),
    {
        let actor = self.actor_label_for_idx(actor_idx);
        self.emit(Event::TurnReady { actor });
        self.emit(Event::ActionUsed { actor, action_name: skill.name });
        let context = TriggerContext {
            trigger_type: TriggerType::OnActionUsed,
            src_idx: Some(actor_idx),
            dst_idx: Some(target_idx),
            applied_status: None,
        };
        self.process_trait_triggers(context, 0);
        let ghost goal = self@.skill_effects(actor_idx, target_idx, skill@, 0, AMP_ONE);
        let mut amp: u32 = AMP_ONE;
        let n = skill.effects.len();
        let mut at: usize = 0;
        while at < n
            invariant
                at <= n,
                n == skill@.effects.len(),
                self.wf(),
                self@.same_cast(old(self)@),
                self@.statuses_grew(old(self)@),
                actor_idx < self@.units.len(),
                target_idx < self@.units.len(),
                self@.skill_effects(actor_idx, target_idx, skill@, at as nat, amp) == goal,
            decreases n - at,
        {
            amp = self.run_skill_effect(actor_idx, target_idx, skill, &skill.effects[at], amp);
            at = at + 1;
        }
    }

    /// Plays the turn of `actor_idx`.
    pub fn execute_turn(&mut self, actor_idx: usize, action: ActionKind) -> (outcome: Option<
        BattleOutcome,
    >)
        requires
            old(self).wf(),
            actor_idx < old(self)@.units.len(),
        ensures
            (outcome, final(self)@) == old(self)@.execute_turn(actor_idx, action),
            final(self).wf(),
            !old(self)@.can_act(actor_idx as int) ==> outcome is None && final(self)@ == old(
                self,
            )@,
            old(self)@.can_act(actor_idx as int) ==> final(self)@.same_cast(
                old(self)@.spend_gauge(actor_idx as int),
            ),
    {
        let unit = self.state.units[actor_idx];
        if !unit.is_alive() || unit.action_gauge < GAUGE_FULL {
            return None;
        }
        proof {
            crate::model::lemma_any_alive_is_living(self@.units, opponent_of(unit.team));
        }
        let target_idx = match self.pick_target_index(unit.team.opponent()) {
            Some(t) => t,
            None => {
                return None;
            },
        };
        let ghost picked = self@;
        self.state.units[actor_idx].action_gauge = unit.action_gauge - GAUGE_FULL;
        assert(self@.units =~= picked.spend_gauge(actor_idx as int).units);
        let skill = if unit.team == Team::Player {
            choose_skill_for_action(action)
        } else {
            basic_attack()
        };
        self.execute_skill(actor_idx, target_idx, &skill);
        self.check_and_emit_battle_end()
    }

    /// Advances the gauge of every living unit by `dt` milliseconds.
    pub fn accrue_gauges(&mut self, dt: u32)
        requires
            old(self).wf(),
        ensures
            final(self)@ == old(self)@.accrue(dt),
            final(self).wf(),
    {
        let n = self.state.units.len();
        let mut i: usize = 0;
        assert(self@.units =~= old(self)@.accrued_upto(dt, 0).units);
        while i < n
            invariant
                i <= n,
                n == old(self)@.units.len(),
                self.wf(),
                self@ == old(self)@.accrued_upto(dt, i as int),
            decreases n - i,
        {
            let mult = self.gauge_speed_multiplier(i);
            let unit = self.state.units[i];
            if unit.is_alive() {
                self.state.units[i].action_gauge = gauge_after_for(
                    unit.action_gauge,
                    unit.speed,
                    dt,
                    mult,
                );
            }
            assert(self@.units =~= old(self)@.accrued_upto(dt, i + 1).units);
            i = i + 1;
        }
    }
}

impl Combat {
    /// Lets the ready units take their turns until nobody is ready, the
    /// player has to choose, the unit that is next has no living opponent,
    /// or the battle ends.
    pub fn take_turns(&mut self, queued: Option<ActionKind>) -> (r: (Option<ActionKind>, TurnStop))
        requires
            old(self).wf(),
        ensures
            (final(self)@, r.0, r.1) == old(self)@.take_turns(queued),
            final(self).wf(),
            final(self)@.same_battle(old(self)@),
    {
        let mut pending = queued;
        loop
            invariant
                self.wf(),
                self@.same_battle(old(self)@),
                self@.take_turns(pending) == old(self)@.take_turns(queued),
            decreases gauge_sum(self@.units, self@.units.len() as int),
        {
            let actor_idx = match find_ready(&self.state.units) {
                Some(i) => i,
                None => {
                    return (pending, TurnStop::Idle);
                },
            };
            let team = self.state.units[actor_idx].team;
            if team == Team::Player && pending.is_none() {
                return (pending, TurnStop::NeedInput);
            }
            if !has_alive(&self.state.units, team.opponent()) {
                return (pending, TurnStop::Idle);
            }
            let action = match pending {
                Some(a) => if team == Team::Player {
                    a
                } else {
                    ActionKind::BasicAttack
                },
                None => ActionKind::BasicAttack,
            };
            if team == Team::Player {
                pending = None;
            }
            proof {
                crate::engine::upkeep::lemma_turn_spends_one_gauge(self@, actor_idx, action);
            }
            if let Some(o) = self.execute_turn(actor_idx, action) {
                return (pending, TurnStop::Ended(o));
            }
        }
    }
}

/// A unit gains no gauge while it is stunned, whatever else it carries, nor
/// while it has no speed: its gauge stays where it is.
pub proof fn lemma_no_gauge_without_speed(
    statuses: Seq<crate::engine::combat_state::ActiveStatus>,
    gauge: u64,
    speed: u32,
    dt: u32,
    mult: u32,
)
    ensures
        crate::engine::combat_state::has_live_status(statuses, crate::skill::StatusType::Stun)
            ==> gauge_multiplier(statuses) == 0,
        gauge_after(gauge, gauge_gain(speed, dt, 0)) == gauge,
        gauge_after(gauge, gauge_gain(0, dt, mult)) == gauge,
{
    assert(speed * dt * 0 == 0) by (nonlinear_arith);
    assert(0 * dt * mult == 0) by (nonlinear_arith);
}

} // verus!
