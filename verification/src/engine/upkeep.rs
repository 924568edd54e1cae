//! What every operation of the engine keeps: a well-formed arena stays well
//! formed, its cast stays the same, and nothing that only adds to the
//! ledgers ever takes from them.

use vstd::prelude::*;
use crate::engine::combat_state::{
    distinct_types, find_status, lasting, lemma_find_status, CombatModel, TriggerContext,
    TRAIT_CHAIN_DEPTH_MAX,
};
use crate::engine::status_system::{
    lemma_merged_distinct, lemma_power_raised_distinct, merged, power_raised,
};
use crate::engine::trait_system::{
    at_least_one, chain_room, damage_context, status_chance, status_context,
};
use crate::engine::status_system::{
    aged_row, all_ticks, lemma_all_ticks_in_range, lemma_kept_distinct, PendingTick,
};
use crate::engine::trait_system::battle_end_context;
use crate::engine::turn_system::{
    action_context, gauge_sum, is_ready, lemma_gauge_sum_same, lemma_gauge_sum_spent, ActionKind,
};
use crate::fixed::{scale_pct, GAUGE_FULL};
use crate::model::{lemma_living_of, opponent_of};
use crate::skill::{Condition, ConditionList, EffectSpec, SkillModel, StatusType};
use crate::trait_spec::{trait_model_by_id, RuleModel, TraitId};

verus! {

impl CombatModel {
    /// Every status of every unit has time left.
    pub open spec fn all_live(self) -> bool {
        forall|i: int, j: int|
            0 <= i < self.ledgers.len() && 0 <= j < self.ledgers[i].statuses.len() ==> (
            #[trigger] self.ledgers[i].statuses[j]).duration > 0
    }

    /// `self` came out of `before` by operations that only hit units and
    /// add to ledgers: it is well formed, has the cast of `before`, every
    /// status of `before` is still there, no weaker, and if every status
    /// had time left then, every status has now.
    pub open spec fn evolved_from(self, before: CombatModel) -> bool {
        &&& self.wf()
        &&& self.same_cast(before)
        &&& self.statuses_grew(before)
        &&& before.all_live() ==> self.all_live()
    }
}

/// Evaluating a condition changes nothing but the generator.
pub proof fn lemma_eval_only_draws(m: CombatModel, condition: Condition, ctx: TriggerContext)
    ensures
        m.eval(condition, ctx).1 == m.with_rng(m.eval(condition, ctx).1.rng),
    decreases condition,
{
    match condition {
        Condition::All(list) => {
            lemma_eval_all_only_draws(m, list, ctx);
        },
        _ => {},
    }
}

/// Evaluating a list of conditions changes nothing but the generator.
pub proof fn lemma_eval_all_only_draws(m: CombatModel, list: ConditionList, ctx: TriggerContext)
    ensures
        m.eval_all(list, ctx).1 == m.with_rng(m.eval_all(list, ctx).1.rng),
    decreases list,
{
    match list {
        ConditionList::Nil => {},
        ConditionList::Cons(head, tail) => {
            lemma_eval_only_draws(m, *head, ctx);
            lemma_eval_all_only_draws(m.eval(*head, ctx).1, *tail, ctx);
        },
    }
}

/// Merging a status into a ledger keeps the arena evolving.
pub proof fn lemma_merge_evolves(
    m: CombatModel,
    dst: int,
    status_type: StatusType,
    stacks: u32,
    duration: i64,
    power: i64,
)
    requires
        m.wf(),
        0 <= dst < m.units.len(),
    ensures
        m.with_statuses(
            dst,
            merged(m.ledgers[dst].statuses, status_type, stacks, duration, power),
        ).evolved_from(m),
{
    let row = m.ledgers[dst].statuses;
    lemma_merged_distinct(row, status_type, stacks, duration, power);
    lemma_find_status(row, status_type, 0);
}

/// Raising the power of a status keeps the arena evolving.
pub proof fn lemma_power_raise_evolves(
    m: CombatModel,
    dst: int,
    status_type: StatusType,
    power: i64,
)
    requires
        m.wf(),
        0 <= dst < m.units.len(),
    ensures
        m.with_statuses(
            dst,
            power_raised(m.ledgers[dst].statuses, status_type, power),
        ).evolved_from(m),
{
    let row = m.ledgers[dst].statuses;
    lemma_power_raised_distinct(row, status_type, power);
    lemma_find_status(row, status_type, 0);
}

/// A hit, reactions included, keeps the arena evolving: hit points stay
/// within bounds and no ledger loses anything.
pub proof fn lemma_deal_damage_evolves(
    m: CombatModel,
    src: usize,
    dst: usize,
    amount: i64,
    depth: nat,
)
    requires
        m.wf(),
        src < m.units.len(),
        dst < m.units.len(),
    ensures
        m.deal_damage(src, dst, amount, depth).evolved_from(m),
    decreases chain_room(depth), 1nat, 0nat,
{
    let dealt = if amount >= 1 {
        amount
    } else {
        1
    };
    let target = crate::engine::trait_system::hit(m.units[dst as int], dealt);
    let m1 = m.with_unit(dst as int, target).emit(
        crate::event::Event::DamageDealt {
            src: m.label(src as int),
            dst: m.label(dst as int),
            amount: dealt,
            dst_hp_after: target.hp,
        },
    );
    assert(m1.evolved_from(m));
    if depth < TRAIT_CHAIN_DEPTH_MAX {
        lemma_dispatch_evolves(m1, damage_context(src, dst), depth + 1);
    }
}

/// Applying a status, reactions included, keeps the arena evolving: what
/// the target carried of any status is still there, no weaker.
pub proof fn lemma_apply_status_evolves(
    m: CombatModel,
    src: usize,
    dst: usize,
    status_type: StatusType,
    base_chance: i32,
    duration: i64,
    stacks: u32,
    power: i64,
    depth: nat,
)
    requires
        m.wf(),
        src < m.units.len(),
        dst < m.units.len(),
    ensures
        m.apply_status(src, dst, status_type, base_chance, duration, stacks, power, depth)
            .evolved_from(m),
    decreases chain_room(depth), 1nat, 0nat,
{
    let (landed, m1) = m.roll(status_chance(m, src as int, dst as int, base_chance));
    if landed {
        let adjusted = scale_pct(power, m1.power_mul(src as int, status_type));
        let merged_in = m1.with_statuses(
            dst as int,
            merged(
                m1.ledgers[dst as int].statuses,
                status_type,
                at_least_one(stacks),
                duration,
                adjusted,
            ),
        );
        lemma_merge_evolves(m1, dst as int, status_type, at_least_one(stacks), duration, adjusted);
        let m2 = merged_in.emit(
            crate::event::Event::StatusApplied {
                src: m.label(src as int),
                dst: m.label(dst as int),
                status: status_type.name(),
                stacks: at_least_one(stacks),
                duration: crate::engine::status_system::reported_seconds(duration),
            },
        );
        assert(m2.evolved_from(m));
        let m3 = if depth >= TRAIT_CHAIN_DEPTH_MAX {
            m2
        } else {
            m2.dispatch(status_context(src, dst, status_type), depth + 1)
        };
        if depth < TRAIT_CHAIN_DEPTH_MAX {
            lemma_dispatch_evolves(m2, status_context(src, dst, status_type), depth + 1);
        }
        assert(m3.evolved_from(m));
        let boosted = scale_pct(power, m3.power_mul(src as int, status_type));
        if boosted > adjusted {
            lemma_power_raise_evolves(m3, dst as int, status_type, boosted);
        }
    }
}

/// In a row with one status per type, the status of a type is found where it is.
pub proof fn lemma_find_status_at(
    statuses: Seq<crate::engine::combat_state::ActiveStatus>,
    status_type: StatusType,
    at: int,
)
    requires
        distinct_types(statuses),
        0 <= at < statuses.len(),
        statuses[at].status_type == status_type,
    ensures
        find_status(statuses, status_type, 0) == Some(at),
{
    lemma_find_status(statuses, status_type, 0);
    let found = find_status(statuses, status_type, 0);
    assert(found is Some);
    let i = found->0;
    if i < at {
        assert(statuses[i].status_type != statuses[at].status_type);
    } else if at < i {
        assert(statuses[at].status_type != statuses[i].status_type);
    }
}

/// Applying a status a unit already carries, when it is certain to land:
/// the unit still carries exactly one status of the type, in the same
/// place, with at least the stacks added up (saturating), at least the
/// longer of the two durations, and at least the greater of the old power
/// and the new power scaled by the multiplier of the source. Whatever the
/// traits do in reaction can only add to that. When nothing reacts (no
/// trait is active, or the chain is at its limit) these are the exact
/// values and every other status is untouched.
pub proof fn lemma_apply_status_lands(
    m: CombatModel,
    src: usize,
    dst: usize,
    status_type: StatusType,
    base_chance: i32,
    duration: i64,
    stacks: u32,
    power: i64,
    depth: nat,
    at: int,
)
    requires
        m.wf(),
        src < m.units.len(),
        dst < m.units.len(),
        status_chance(m, src as int, dst as int, base_chance) >= crate::fixed::CHANCE_ONE,
        find_status(m.ledgers[dst as int].statuses, status_type, 0) == Some(at),
    ensures
        ({
            let after = m.apply_status(
                src,
                dst,
                status_type,
                base_chance,
                duration,
                stacks,
                power,
                depth,
            );
            let old_entry = m.ledgers[dst as int].statuses[at];
            let entry = after.ledgers[dst as int].statuses[at];
            let scaled = scale_pct(power, m.power_mul(src as int, status_type));
            let merged_entry = crate::engine::status_system::reapplied(
                old_entry,
                at_least_one(stacks),
                duration,
                scaled,
            );
            &&& after.evolved_from(m)
            &&& find_status(after.ledgers[dst as int].statuses, status_type, 0) == Some(at)
            &&& entry.stacks >= merged_entry.stacks >= old_entry.stacks
            &&& entry.duration >= merged_entry.duration >= old_entry.duration
            &&& entry.duration >= duration
            &&& entry.power >= merged_entry.power >= old_entry.power
            &&& entry.power >= scaled
            &&& (depth >= TRAIT_CHAIN_DEPTH_MAX || m.traits.len() == 0) ==> after.units == m.units
                && after.ledgers == m.ledgers.update(
                dst as int,
                crate::engine::combat_state::Ledger {
                    statuses: m.ledgers[dst as int].statuses.update(at, merged_entry),
                    ..m.ledgers[dst as int]
                },
            )
        }),
{
    lemma_apply_status_evolves(m, src, dst, status_type, base_chance, duration, stacks, power, depth);
    let row = m.ledgers[dst as int].statuses;
    lemma_find_status(row, status_type, 0);
    let adjusted = scale_pct(power, m.power_mul(src as int, status_type));
    let merged_row = merged(row, status_type, at_least_one(stacks), duration, adjusted);
    lemma_merge_evolves(m, dst as int, status_type, at_least_one(stacks), duration, adjusted);
    let m2 = m.with_statuses(dst as int, merged_row).emit(
        crate::event::Event::StatusApplied {
            src: m.label(src as int),
            dst: m.label(dst as int),
            status: status_type.name(),
            stacks: at_least_one(stacks),
            duration: crate::engine::status_system::reported_seconds(duration),
        },
    );
    assert(m2.ledgers[dst as int].statuses[at] == crate::engine::status_system::reapplied(
        row[at],
        at_least_one(stacks),
        duration,
        adjusted,
    ));
    let m3 = if depth >= TRAIT_CHAIN_DEPTH_MAX {
        m2
    } else {
        m2.dispatch(status_context(src, dst, status_type), depth + 1)
    };
    if depth < TRAIT_CHAIN_DEPTH_MAX {
        lemma_dispatch_evolves(m2, status_context(src, dst, status_type), depth + 1);
        if m.traits.len() == 0 {
            assert(m3 == m2);
        }
    }
    assert(m3.statuses_grew(m2));
    let row3 = m3.ledgers[dst as int].statuses;
    assert(row3[at].status_type == status_type);
    lemma_find_status_at(row3, status_type, at);
    let boosted = scale_pct(power, m3.power_mul(src as int, status_type));
    let after = m.apply_status(src, dst, status_type, base_chance, duration, stacks, power, depth);
    if boosted > adjusted {
        lemma_power_raise_evolves(m3, dst as int, status_type, boosted);
    }
    lemma_find_status_at(after.ledgers[dst as int].statuses, status_type, at);
}

/// The reactions of the active traits keep the arena evolving.
pub proof fn lemma_dispatch_evolves(m: CombatModel, ctx: TriggerContext, depth: nat)
    requires
        m.wf(),
        ctx.fits(m.units.len()),
    ensures
        m.dispatch(ctx, depth).evolved_from(m),
    decreases chain_room(depth), 6nat, 0nat,
{
    if depth < TRAIT_CHAIN_DEPTH_MAX {
        lemma_dispatch_traits_evolves(m, ctx, depth, m.traits, 0);
    }
}

/// The reactions of the traits from position `at` on keep the arena evolving.
pub proof fn lemma_dispatch_traits_evolves(
    m: CombatModel,
    ctx: TriggerContext,
    depth: nat,
    traits: Seq<TraitId>,
    at: nat,
)
    requires
        m.wf(),
        ctx.fits(m.units.len()),
    ensures
        m.dispatch_traits(ctx, depth, traits, at).evolved_from(m),
    decreases chain_room(depth), 5nat, traits.len() - at,
{
    if at < traits.len() {
        let next = match trait_model_by_id(traits[at as int]@) {
            Some(t) => m.dispatch_rules(ctx, depth, t.name, t.triggers, 0),
            None => m,
        };
        if let Some(t) = trait_model_by_id(traits[at as int]@) {
            lemma_dispatch_rules_evolves(m, ctx, depth, t.name, t.triggers, 0);
        }
        lemma_dispatch_traits_evolves(next, ctx, depth, traits, at + 1);
    }
}

/// The reactions of the rules of a trait from position `at` on keep the arena evolving.
pub proof fn lemma_dispatch_rules_evolves(
    m: CombatModel,
    ctx: TriggerContext,
    depth: nat,
    trait_name: &'static str,
    rules: Seq<RuleModel>,
    at: nat,
)
    requires
        m.wf(),
        ctx.fits(m.units.len()),
    ensures
        m.dispatch_rules(ctx, depth, trait_name, rules, at).evolved_from(m),
    decreases chain_room(depth), 4nat, rules.len() - at,
{
    if at < rules.len() {
        let rule = rules[at as int];
        let next = if rule.trigger != ctx.trigger_type {
            m
        } else {
            let (holds, m1) = m.eval(rule.condition, ctx);
            lemma_eval_only_draws(m, rule.condition, ctx);
            if !holds {
                m1
            } else {
                let m2 = m1.emit(
                    crate::event::Event::TraitTriggered {
                        trait_name,
                        trigger_type: rule.trigger.name(),
                    },
                );
                lemma_run_effects_evolves(m2, trait_name, rule.effects, ctx, depth + 1, 0);
                m2.run_effects(trait_name, rule.effects, ctx, depth + 1, 0)
            }
        };
        assert(next.evolved_from(m));
        lemma_dispatch_rules_evolves(next, ctx, depth, trait_name, rules, at + 1);
    }
}

/// The effects of a rule from position `at` on keep the arena evolving.
pub proof fn lemma_run_effects_evolves(
    m: CombatModel,
    trait_name: &'static str,
    effects: Seq<EffectSpec>,
    ctx: TriggerContext,
    depth: nat,
    at: nat,
)
    requires
        m.wf(),
        ctx.fits(m.units.len()),
    ensures
        m.run_effects(trait_name, effects, ctx, depth, at).evolved_from(m),
    decreases chain_room(depth), 3nat, effects.len() - at,
{
    if at < effects.len() {
        lemma_trait_effect_evolves(m, trait_name, effects[at as int], ctx, depth);
        lemma_run_effects_evolves(
            m.trait_effect(trait_name, effects[at as int], ctx, depth),
            trait_name,
            effects,
            ctx,
            depth,
            at + 1,
        );
    }
}

/// Appending an event changes nothing but the trace.
pub proof fn lemma_emit_evolves(m: CombatModel, before: CombatModel, event: crate::event::Event)
    requires
        m.evolved_from(before),
    ensures
        m.emit(event).evolved_from(before),
{
}

/// The effects that only touch the ledger of the source keep the arena evolving.
pub proof fn lemma_ledger_effects_evolve(
    m: CombatModel,
    src: int,
    amount: i32,
    status_type: StatusType,
    mul: u32,
)
    requires
        m.wf(),
        0 <= src < m.units.len(),
    ensures
        m.add_proc_bonus(src, amount).evolved_from(m),
        m.add_res_bonus(src, amount).evolved_from(m),
        m.raise_power_mul(src, status_type, mul).evolved_from(m),
{
}

/// One effect of a trait rule keeps the arena evolving.
pub proof fn lemma_trait_effect_evolves(
    m: CombatModel,
    trait_name: &'static str,
    effect: EffectSpec,
    ctx: TriggerContext,
    depth: nat,
)
    requires
        m.wf(),
        ctx.fits(m.units.len()),
    ensures
        m.trait_effect(trait_name, effect, ctx, depth).evolved_from(m),
    decreases chain_room(depth), 2nat, 0nat,
{
    if depth < TRAIT_CHAIN_DEPTH_MAX {
        match effect {
            EffectSpec::DealDamage { multiplier, flat } => {
                if let (Some(src), Some(dst)) = (ctx.src_idx, ctx.dst_idx) {
                    lemma_deal_damage_evolves(
                        m,
                        src,
                        dst,
                        crate::engine::trait_system::trait_damage(
                            m.units[src as int].atk,
                            multiplier,
                            flat,
                        ),
                        depth,
                    );
                }
            },
            EffectSpec::ApplyStatus { status_type, base_chance, duration, stacks, power } => {
                if let (Some(src), Some(dst)) = (ctx.src_idx, ctx.dst_idx) {
                    lemma_apply_status_evolves(
                        m,
                        src,
                        dst,
                        status_type,
                        base_chance,
                        duration,
                        stacks,
                        power,
                        depth,
                    );
                }
            },
            EffectSpec::ConditionalDamageAmp { condition, amp } => {
                lemma_eval_only_draws(m, condition, ctx);
                let (holds, m1) = m.eval(condition, ctx);
                if holds {
                    lemma_trait_effect_evolves(
                        m1,
                        trait_name,
                        EffectSpec::DealDamage { multiplier: amp, flat: 0 },
                        ctx,
                        depth + 1,
                    );
                }
            },
            EffectSpec::ConditionalApplyStatus {
                condition,
                status_type,
                base_chance,
                duration,
                stacks,
                power,
            } => {
                lemma_eval_only_draws(m, condition, ctx);
                let (holds, m1) = m.eval(condition, ctx);
                if holds {
                    lemma_trait_effect_evolves(
                        m1,
                        trait_name,
                        EffectSpec::ApplyStatus { status_type, base_chance, duration, stacks, power },
                        ctx,
                        depth + 1,
                    );
                }
            },
            EffectSpec::SelfBuff { stat, amount, duration } => {
                if let Some(src) = ctx.src_idx {
                    lemma_apply_status_evolves(
                        m,
                        src,
                        src,
                        crate::engine::status_system::buff_status(stat),
                        crate::fixed::CHANCE_ONE as i32,
                        duration,
                        crate::engine::status_system::buff_stacks(amount),
                        amount,
                        depth,
                    );
                }
            },
            EffectSpec::AddProcBonus { amount } => {
                if let Some(src) = ctx.src_idx {
                    lemma_ledger_effects_evolve(m, src as int, amount, StatusType::Burn, 0);
                }
            },
            EffectSpec::AddResBonus { amount } => {
                if let Some(src) = ctx.src_idx {
                    lemma_ledger_effects_evolve(m, src as int, amount, StatusType::Burn, 0);
                }
            },
            EffectSpec::ModifyStatusPower { status_type, mul } => {
                if let Some(src) = ctx.src_idx {
                    lemma_ledger_effects_evolve(m, src as int, 0, status_type, mul);
                }
            },
            EffectSpec::AddStatusStacks { target, status_type, stacks } => {
                lemma_resolve_target_in_range(m, target, ctx);
                if let Some(dst) = m.resolve_target(target, ctx) {
                    lemma_apply_status_evolves(
                        m,
                        match ctx.src_idx {
                            Some(src) => src,
                            None => dst,
                        },
                        dst,
                        status_type,
                        crate::fixed::CHANCE_ONE as i32,
                        1000,
                        at_least_one(stacks),
                        100,
                        depth,
                    );
                }
            },
            EffectSpec::DealPureDamage { target, amount } => {
                lemma_resolve_target_in_range(m, target, ctx);
                if let Some(dst) = m.resolve_target(target, ctx) {
                    lemma_deal_damage_evolves(
                        m,
                        match ctx.src_idx {
                            Some(src) => src,
                            None => dst,
                        },
                        dst,
                        crate::fixed::damage_amount(amount as int),
                        depth,
                    );
                }
            },
        }
    }
}

/// The unit an effect lands on is one of the roster.
pub proof fn lemma_resolve_target_in_range(
    m: CombatModel,
    target: crate::skill::EffectTarget,
    ctx: TriggerContext,
)
    requires
        m.wf(),
        ctx.fits(m.units.len()),
    ensures
        m.resolve_target(target, ctx) matches Some(i) ==> i < m.units.len(),
{
    crate::model::lemma_find_unit(m.units, crate::model::Team::Player, false, 0);
    crate::model::lemma_find_unit(m.units, crate::model::Team::Enemy, true, 0);
    crate::model::lemma_find_unit(m.units, crate::model::Team::Enemy, false, 0);
}

/// One effect of a skill keeps the arena evolving.
pub proof fn lemma_skill_effect_evolves(
    m: CombatModel,
    actor: usize,
    target: usize,
    skill: SkillModel,
    effect: EffectSpec,
    amp: u32,
)
    requires
        m.wf(),
        actor < m.units.len(),
        target < m.units.len(),
    ensures
        m.skill_effect(actor, target, skill, effect, amp).0.evolved_from(m),
{
    let ctx = action_context(actor, target);
    match effect {
        EffectSpec::DealDamage { multiplier, flat } => {
            lemma_deal_damage_evolves(
                m,
                actor,
                target,
                crate::engine::turn_system::skill_damage(
                    m.units[actor as int].atk,
                    skill.base_damage_multiplier,
                    multiplier,
                    amp,
                    skill.flat_bonus_damage,
                    flat,
                ),
                0,
            );
        },
        EffectSpec::ApplyStatus { status_type, base_chance, duration, stacks, power } => {
            lemma_apply_status_evolves(
                m,
                actor,
                target,
                status_type,
                base_chance,
                duration,
                stacks,
                power,
                0,
            );
        },
        EffectSpec::ConditionalDamageAmp { condition, amp: pct } => {
            lemma_eval_only_draws(m, condition, ctx);
        },
        EffectSpec::ConditionalApplyStatus {
            condition,
            status_type,
            base_chance,
            duration,
            stacks,
            power,
        } => {
            lemma_eval_only_draws(m, condition, ctx);
            let (holds, m1) = m.eval(condition, ctx);
            if holds {
                lemma_apply_status_evolves(
                    m1,
                    actor,
                    target,
                    status_type,
                    base_chance,
                    duration,
                    stacks,
                    power,
                    0,
                );
            }
        },
        EffectSpec::SelfBuff { stat, amount, duration } => {
            lemma_apply_status_evolves(
                m,
                actor,
                actor,
                crate::engine::status_system::buff_status(stat),
                crate::fixed::CHANCE_ONE as i32,
                duration,
                crate::engine::status_system::buff_stacks(amount),
                amount,
                0,
            );
        },
        EffectSpec::AddProcBonus { amount } => {
            lemma_ledger_effects_evolve(m, actor as int, amount, StatusType::Burn, 0);
        },
        EffectSpec::AddResBonus { amount } => {
            lemma_ledger_effects_evolve(m, actor as int, amount, StatusType::Burn, 0);
        },
        EffectSpec::ModifyStatusPower { status_type, mul } => {
            lemma_ledger_effects_evolve(m, actor as int, 0, status_type, mul);
        },
        EffectSpec::AddStatusStacks { target: aim, status_type, stacks } => {
            lemma_resolve_target_in_range(m, aim, ctx);
            if let Some(dst) = m.resolve_target(aim, ctx) {
                lemma_apply_status_evolves(
                    m,
                    actor,
                    dst,
                    status_type,
                    crate::fixed::CHANCE_ONE as i32,
                    1000,
                    at_least_one(stacks),
                    100,
                    0,
                );
            }
        },
        EffectSpec::DealPureDamage { target: aim, amount } => {
            lemma_resolve_target_in_range(m, aim, ctx);
            if let Some(dst) = m.resolve_target(aim, ctx) {
                lemma_deal_damage_evolves(
                    m,
                    actor,
                    dst,
                    crate::fixed::damage_amount(amount as int),
                    0,
                );
            }
        },
    }
}

/// The effects of a skill from position `at` on keep the arena evolving.
pub proof fn lemma_skill_effects_evolve(
    m: CombatModel,
    actor: usize,
    target: usize,
    skill: SkillModel,
    at: nat,
    amp: u32,
)
    requires
        m.wf(),
        actor < m.units.len(),
        target < m.units.len(),
    ensures
        m.skill_effects(actor, target, skill, at, amp).evolved_from(m),
    decreases skill.effects.len() - at,
{
    if at < skill.effects.len() {
        lemma_skill_effect_evolves(m, actor, target, skill, skill.effects[at as int], amp);
        let (next, amp_next) = m.skill_effect(actor, target, skill, skill.effects[at as int], amp);
        lemma_skill_effects_evolve(next, actor, target, skill, at + 1, amp_next);
    }
}

/// Using a skill keeps the arena evolving.
pub proof fn lemma_execute_skill_evolves(
    m: CombatModel,
    actor: usize,
    target: usize,
    skill: SkillModel,
)
    requires
        m.wf(),
        actor < m.units.len(),
        target < m.units.len(),
    ensures
        m.execute_skill(actor, target, skill).evolved_from(m),
{
    let m1 = m.emit(crate::event::Event::TurnReady { actor: m.label(actor as int) }).emit(
        crate::event::Event::ActionUsed { actor: m.label(actor as int), action_name: skill.name },
    );
    assert(m1.evolved_from(m));
    lemma_dispatch_evolves(m1, action_context(actor, target), 0);
    let m2 = m1.dispatch(action_context(actor, target), 0);
    lemma_skill_effects_evolve(m2, actor, target, skill, 0, crate::fixed::AMP_ONE);
}

/// Checking for the end of the battle keeps the arena evolving.
pub proof fn lemma_check_end_evolves(m: CombatModel)
    requires
        m.wf(),
    ensures
        m.check_end().1.evolved_from(m),
{
    let player_hp_after = match crate::model::find_unit(
        m.units,
        crate::model::Team::Player,
        false,
        0,
    ) {
        Some(i) => m.units[i].hp,
        None => 0,
    };
    lemma_dispatch_evolves(
        m.emit(crate::event::Event::BattleEnd { result: "win", player_hp_after }),
        battle_end_context(),
        0,
    );
    lemma_dispatch_evolves(
        m.emit(crate::event::Event::BattleEnd { result: "lose", player_hp_after: 0 }),
        battle_end_context(),
        0,
    );
}

/// A turn costs the acting unit exactly one full gauge and nobody else
/// any: the arena stays well formed, the battle stays the same, and the
/// total of the gauges drops by one full gauge. A unit that cannot act
/// (dead, gauge not full, or no living opponent) changes nothing.
pub proof fn lemma_turn_spends_one_gauge(m: CombatModel, actor: usize, action: ActionKind)
    requires
        m.wf(),
        actor < m.units.len(),
    ensures
        m.execute_turn(actor, action).1.wf(),
        m.execute_turn(actor, action).1.same_battle(m),
        m.execute_turn(actor, action).1.statuses_grew(m),
        !m.can_act(actor as int) ==> m.execute_turn(actor, action) == (
            None::<crate::model::BattleOutcome>,
            m,
        ),
        m.can_act(actor as int) ==> {
            let after = m.execute_turn(actor, action).1;
            &&& after.same_cast(m.spend_gauge(actor as int))
            &&& after.units[actor as int].action_gauge + GAUGE_FULL
                == m.units[actor as int].action_gauge
            &&& gauge_sum(after.units, after.units.len() as int) + GAUGE_FULL == gauge_sum(
                m.units,
                m.units.len() as int,
            )
        },
{
    let unit = m.units[actor as int];
    if m.can_act(actor as int) {
        let team = opponent_of(unit.team);
        crate::model::lemma_any_alive_is_living(m.units, team);
        lemma_living_of(m.units, team, m.units.len() as int);
        let (target, m1) = m.pick_target(team);
        assert(target is Some);
        let t = target->0;
        let spent = m1.spend_gauge(actor as int);
        assert(spent.wf());
        assert(spent.same_cast(m.spend_gauge(actor as int)));
        let skill = crate::engine::turn_system::skill_of_turn(unit.team, action);
        lemma_execute_skill_evolves(spent, actor, t, skill);
        lemma_check_end_evolves(spent.execute_skill(actor, t, skill));
        let after = m.execute_turn(actor, action).1;
        assert(after.same_cast(m.spend_gauge(actor as int)));
        let n = m.units.len() as int;
        lemma_gauge_sum_same(after.units, m.spend_gauge(actor as int).units, n);
        lemma_gauge_sum_spent(
            m.spend_gauge(actor as int).units,
            m.units,
            actor as int,
            GAUGE_FULL as nat,
            n,
        );
    }
}

/// Ageing the statuses keeps the arena well formed and the cast the same.
pub proof fn lemma_ageing_keeps_cast(m: CombatModel, dt: u32, n: int)
    requires
        m.wf(),
    ensures
        m.aged_upto(dt, n).wf(),
        m.aged_upto(dt, n).same_cast(m),
{
    let after = m.aged_upto(dt, n);
    assert forall|i: int| 0 <= i < after.ledgers.len() implies distinct_types(
        (#[trigger] after.ledgers[i]).statuses,
    ) by {
        let row = m.ledgers[i].statuses;
        assert(distinct_types(row));
        if i < n {
            assert forall|a: int, b: int| 0 <= a < b < row.len() implies (#[trigger] aged_row(
                row,
                dt,
            )[a]).status_type != (#[trigger] aged_row(row, dt)[b]).status_type by {
                assert(row[a].status_type != row[b].status_type);
            }
        }
    }
}

/// A due tick, reactions included, keeps the arena evolving.
pub proof fn lemma_tick_hit_evolves(m: CombatModel, tick: PendingTick)
    requires
        m.wf(),
        tick.unit_idx < m.units.len(),
        tick.amount >= 1,
    ensures
        m.tick_hit(tick).evolved_from(m),
{
    let unit = m.units[tick.unit_idx as int];
    let after = if unit.alive() {
        crate::engine::trait_system::hit(unit, tick.amount)
    } else {
        unit
    };
    let m1 = m.with_unit(tick.unit_idx as int, after).emit(
        crate::event::Event::StatusTick {
            dst: m.label(tick.unit_idx as int),
            status: tick.status_type.name(),
            amount: tick.amount,
            dst_hp_after: after.hp,
        },
    );
    assert(m1.evolved_from(m));
    lemma_dispatch_evolves(
        m1,
        crate::engine::status_system::tick_context(tick.unit_idx, tick.status_type),
        0,
    );
}

/// The due ticks from position `at` on keep the arena evolving.
pub proof fn lemma_apply_ticks_evolve(m: CombatModel, ticks: Seq<PendingTick>, at: nat)
    requires
        m.wf(),
        forall|k: int|
            0 <= k < ticks.len() ==> (#[trigger] ticks[k]).unit_idx < m.units.len()
                && ticks[k].amount >= 1,
    ensures
        m.apply_ticks(ticks, at).evolved_from(m),
    decreases ticks.len() - at,
{
    if at < ticks.len() {
        lemma_tick_hit_evolves(m, ticks[at as int]);
        lemma_apply_ticks_evolve(m.tick_hit(ticks[at as int]), ticks, at + 1);
    }
}

/// Reporting the run-out statuses of a row changes nothing but the trace.
pub proof fn lemma_expiry_report_only_traces(
    m: CombatModel,
    unit_idx: int,
    row: Seq<crate::engine::combat_state::ActiveStatus>,
    at: nat,
)
    ensures
        m.expiry_reported(unit_idx, row, at) == (CombatModel {
            events: m.expiry_reported(unit_idx, row, at).events,
            ..m
        }),
    decreases row.len() - at,
{
    if at < row.len() {
        let next = if row[at as int].duration <= 0 {
            m.emit(
                crate::event::Event::StatusExpired {
                    dst: m.label(unit_idx),
                    status: row[at as int].status_type.name(),
                },
            )
        } else {
            m
        };
        lemma_expiry_report_only_traces(next, unit_idx, row, at + 1);
    }
}

/// Expiring the run-out statuses of one unit keeps the arena well formed
/// and the cast the same, and leaves that unit no status without time.
pub proof fn lemma_expire_row_keeps_cast(m: CombatModel, unit_idx: int)
    requires
        m.wf(),
        0 <= unit_idx < m.units.len(),
    ensures
        m.expire_row(unit_idx).wf(),
        m.expire_row(unit_idx).same_cast(m),
        forall|j: int|
            0 <= j < m.expire_row(unit_idx).ledgers[unit_idx].statuses.len() ==> (
            #[trigger] m.expire_row(unit_idx).ledgers[unit_idx].statuses[j]).duration > 0,
{
    let row = m.ledgers[unit_idx].statuses;
    lemma_expiry_report_only_traces(m, unit_idx, row, 0);
    lemma_kept_distinct(row, row.len() as int);
}

/// Expiring the run-out statuses of the units from `at` up to `n` keeps the
/// arena well formed and the cast the same. Each of those units is left
/// with the statuses it had that have time left, in their order; the other
/// ledgers are untouched.
pub proof fn lemma_expire_all_keeps_cast(m: CombatModel, at: nat, n: nat)
    requires
        m.wf(),
        n <= m.units.len(),
    ensures
        m.expire_all(at, n).wf(),
        m.expire_all(at, n).same_cast(m),
        m.expire_all(at, n).units == m.units,
        forall|i: int|
            0 <= i < m.ledgers.len() ==> (#[trigger] m.expire_all(at, n).ledgers[i]).statuses == (
            if at <= i < n {
                crate::engine::status_system::kept_of(
                    m.ledgers[i].statuses,
                    m.ledgers[i].statuses.len() as int,
                )
            } else {
                m.ledgers[i].statuses
            }),
    decreases n - at,
{
    if at < n {
        lemma_expire_row_keeps_cast(m, at as int);
        lemma_expiry_report_only_traces(m, at as int, m.ledgers[at as int].statuses, 0);
        lemma_expire_all_keeps_cast(m.expire_row(at as int), at + 1, n);
    }
}

/// A tick of the status engine keeps the arena well formed and the cast
/// the same: no unit gains hit points, gauges and maxima stay.
pub proof fn lemma_tick_statuses_keeps_cast(m: CombatModel, dt: u32)
    requires
        m.wf(),
    ensures
        m.tick_statuses(dt).1.wf(),
        m.tick_statuses(dt).1.same_cast(m),
{
    if dt != 0 {
        let n = m.ledgers.len();
        let aged = m.aged_upto(dt, n as int);
        lemma_ageing_keeps_cast(m, dt, n as int);
        let ticks = all_ticks(m.ledgers, dt, n as int);
        lemma_all_ticks_in_range(m.ledgers, dt, n as int);
        lemma_apply_ticks_evolve(aged, ticks, 0);
        let ticked = aged.apply_ticks(ticks, 0);
        lemma_expire_all_keeps_cast(ticked, 0, n);
        let expired = ticked.expire_all(0, n);
        lemma_check_end_evolves(expired);
    }
}

/// What an arena grew out of still has its time: a unit that carried a
/// status of a type with more than `rest` left still carries one.
pub proof fn lemma_grown_keeps_lasting(
    after: CombatModel,
    before: CombatModel,
    unit_idx: int,
    status_type: StatusType,
    rest: int,
)
    requires
        after.statuses_grew(before),
        0 <= unit_idx < before.ledgers.len(),
        lasting(before.ledgers[unit_idx].statuses, status_type, rest),
    ensures
        lasting(after.ledgers[unit_idx].statuses, status_type, rest),
{
    let row = before.ledgers[unit_idx].statuses;
    let j = choose|j: int|
        0 <= j < row.len() && (#[trigger] row[j]).status_type == status_type && row[j].duration
            > rest;
    assert(before.ledgers[unit_idx].statuses[j].duration > rest);
    assert(after.ledgers[unit_idx].statuses[j].status_type == status_type);
}

/// After a tick of the status engine over some time, every status that is
/// left has time left: whatever ran out is gone.
pub proof fn lemma_tick_leaves_no_run_out_status(m: CombatModel, dt: u32)
    requires
        m.wf(),
        dt > 0,
    ensures
        m.tick_statuses(dt).1.all_live(),
{
    let n = m.ledgers.len();
    let aged = m.aged_upto(dt, n as int);
    lemma_ageing_keeps_cast(m, dt, n as int);
    let ticks = all_ticks(m.ledgers, dt, n as int);
    lemma_all_ticks_in_range(m.ledgers, dt, n as int);
    lemma_apply_ticks_evolve(aged, ticks, 0);
    let ticked = aged.apply_ticks(ticks, 0);
    lemma_expire_all_keeps_cast(ticked, 0, n);
    let expired = ticked.expire_all(0, n);
    assert forall|i: int, j: int|
        0 <= i < expired.ledgers.len() && 0 <= j < expired.ledgers[i].statuses.len() implies (
    #[trigger] expired.ledgers[i].statuses[j]).duration > 0 by {
        let row = ticked.ledgers[i].statuses;
        crate::engine::status_system::lemma_kept_of_is_the_live_part(row, row.len() as int);
        assert(expired.ledgers[i].statuses == crate::engine::status_system::kept_of(
            row,
            row.len() as int,
        ));
    }
    lemma_check_end_evolves(expired);
}

/// A status with more time left than passes outlasts the tick: a unit that
/// carries a status of a type with more than `dt + rest` left carries one
/// with more than `rest` left afterwards. A stunned unit whose stun has more
/// time than passes is still stunned, and gains no gauge.
pub proof fn lemma_status_outlasts_tick(
    m: CombatModel,
    dt: u32,
    unit_idx: int,
    status_type: StatusType,
    rest: int,
)
    requires
        m.wf(),
        0 <= unit_idx < m.ledgers.len(),
        rest >= 0,
        lasting(m.ledgers[unit_idx].statuses, status_type, dt + rest),
    ensures
        lasting(m.tick_statuses(dt).1.ledgers[unit_idx].statuses, status_type, rest),
        crate::engine::combat_state::has_live_status(
            m.tick_statuses(dt).1.ledgers[unit_idx].statuses,
            status_type,
        ),
        status_type == StatusType::Stun ==> crate::engine::status_system::gauge_multiplier(
            m.tick_statuses(dt).1.ledgers[unit_idx].statuses,
        ) == 0,
{
    let row0 = m.ledgers[unit_idx].statuses;
    let at = choose|j: int|
        0 <= j < row0.len() && (#[trigger] row0[j]).status_type == status_type
            && row0[j].duration > dt + rest;
    let after_row = m.tick_statuses(dt).1.ledgers[unit_idx].statuses;
    if dt == 0 {
        assert(row0[at].duration > rest);
    } else {
        let n = m.ledgers.len();
        let aged = m.aged_upto(dt, n as int);
        lemma_ageing_keeps_cast(m, dt, n as int);
        assert(aged.ledgers[unit_idx].statuses[at].status_type == status_type);
        assert(aged.ledgers[unit_idx].statuses[at].duration > rest);
        let ticks = all_ticks(m.ledgers, dt, n as int);
        lemma_all_ticks_in_range(m.ledgers, dt, n as int);
        lemma_apply_ticks_evolve(aged, ticks, 0);
        let ticked = aged.apply_ticks(ticks, 0);
        lemma_grown_keeps_lasting(ticked, aged, unit_idx, status_type, rest);
        lemma_expire_all_keeps_cast(ticked, 0, n);
        let expired = ticked.expire_all(0, n);
        let row = ticked.ledgers[unit_idx].statuses;
        crate::engine::status_system::lemma_kept_of_is_the_live_part(row, row.len() as int);
        let j = choose|j: int|
            0 <= j < row.len() && (#[trigger] row[j]).status_type == status_type
                && row[j].duration > rest;
        let kept = crate::engine::status_system::kept_of(row, row.len() as int);
        assert(crate::engine::status_system::listed_among(kept, row[j], kept.len() as int));
        let k = choose|k: int| 0 <= k < kept.len() && #[trigger] kept[k] == row[j];
        assert(kept[k].status_type == status_type && kept[k].duration > rest);
        assert(lasting(expired.ledgers[unit_idx].statuses, status_type, rest));
        lemma_check_end_evolves(expired);
        lemma_grown_keeps_lasting(expired.check_end().1, expired, unit_idx, status_type, rest);
    }
    let w = choose|j: int|
        0 <= j < after_row.len() && (#[trigger] after_row[j]).status_type == status_type
            && after_row[j].duration > rest;
    assert(after_row[w].duration > 0);
}

/// A status with no more time left than passes runs out, unless something
/// renews it: when no periodic damage comes due and the battle goes on, the
/// unit carries no status of that type afterwards.
pub proof fn lemma_status_runs_out(m: CombatModel, dt: u32, unit_idx: int, at: int)
    requires
        m.wf(),
        dt > 0,
        0 <= unit_idx < m.ledgers.len(),
        0 <= at < m.ledgers[unit_idx].statuses.len(),
        m.ledgers[unit_idx].statuses[at].duration <= dt,
        all_ticks(m.ledgers, dt, m.ledgers.len() as int).len() == 0,
        m.tick_statuses(dt).0 is None,
    ensures
        find_status(
            m.tick_statuses(dt).1.ledgers[unit_idx].statuses,
            m.ledgers[unit_idx].statuses[at].status_type,
            0,
        ) is None,
        crate::engine::status_system::gauge_multiplier(
            m.tick_statuses(dt).1.ledgers[unit_idx].statuses,
        ) == crate::engine::status_system::gauge_multiplier(
            crate::engine::status_system::kept_of(
                aged_row(m.ledgers[unit_idx].statuses, dt),
                m.ledgers[unit_idx].statuses.len() as int,
            ),
        ),
{
    let status_type = m.ledgers[unit_idx].statuses[at].status_type;
    let n = m.ledgers.len();
    let aged = m.aged_upto(dt, n as int);
    lemma_ageing_keeps_cast(m, dt, n as int);
    let row = aged.ledgers[unit_idx].statuses;
    assert(row == aged_row(m.ledgers[unit_idx].statuses, dt));
    assert(row[at].status_type == status_type && row[at].duration <= 0);
    lemma_expire_all_keeps_cast(aged, 0, n);
    crate::engine::status_system::lemma_kept_of_by_type(row, status_type);
    assert(distinct_types(row));
    if crate::engine::combat_state::has_live_status(row, status_type) {
        let j = choose|j: int|
            0 <= j < row.len() && (#[trigger] row[j]).status_type == status_type
                && row[j].duration > 0;
        assert(j != at);
        if j < at {
            assert(row[j].status_type != row[at].status_type);
        } else {
            assert(row[at].status_type != row[j].status_type);
        }
    }
}

/// Gauge accrual keeps the arena well formed and the battle the same.
pub proof fn lemma_accrue_keeps_battle(m: CombatModel, dt: u32)
    requires
        m.wf(),
    ensures
        m.accrue(dt).wf(),
        m.accrue(dt).same_battle(m),
{
}

/// A round of turns keeps the arena well formed and the battle the same,
/// and takes nothing from the ledgers.
pub proof fn lemma_take_turns_keeps_battle(m: CombatModel, queued: Option<ActionKind>)
    requires
        m.wf(),
    ensures
        m.take_turns(queued).0.wf(),
        m.take_turns(queued).0.same_battle(m),
        m.take_turns(queued).0.statuses_grew(m),
    decreases gauge_sum(m.units, m.units.len() as int),
{
    crate::engine::turn_system::lemma_next_ready(m.units, m.units.len() as int);
    if let Some(i) = crate::engine::turn_system::next_ready(m.units, m.units.len() as int) {
        let by_player = m.units[i].team == crate::model::Team::Player;
        if !(by_player && queued is None) && m.can_act(i) {
            let action = match queued {
                Some(a) if by_player => a,
                _ => ActionKind::BasicAttack,
            };
            let left = if by_player {
                None
            } else {
                queued
            };
            lemma_turn_spends_one_gauge(m, i as usize, action);
            let (outcome, after) = m.execute_turn(i as usize, action);
            if outcome is None {
                lemma_take_turns_keeps_battle(after, left);
            }
        }
    }
}

impl CombatModel {
    /// No unit of the player can act or come to act by itself: each has no
    /// speed and a gauge short of full.
    pub open spec fn player_stalled(self) -> bool {
        forall|i: int|
            0 <= i < self.units.len() && (#[trigger] self.units[i]).team
                == crate::model::Team::Player ==> self.units[i].speed == 0
                && self.units[i].action_gauge < GAUGE_FULL
    }

    /// The units of the player have the gauges they had in `before`.
    pub open spec fn same_player_gauges(self, before: CombatModel) -> bool {
        forall|i: int|
            0 <= i < self.units.len() && (#[trigger] self.units[i]).team
                == crate::model::Team::Player ==> self.units[i].action_gauge
                == before.units[i].action_gauge
    }
}

/// A unit that is not ready keeps its gauge through a round of turns: only
/// the unit that acts pays, and only a ready unit acts.
pub proof fn lemma_idle_unit_keeps_gauge(m: CombatModel, queued: Option<ActionKind>, who: int)
    requires
        m.wf(),
        0 <= who < m.units.len(),
        !is_ready(m.units[who]),
    ensures
        m.take_turns(queued).0.units[who].action_gauge == m.units[who].action_gauge,
        !is_ready(m.take_turns(queued).0.units[who]),
    decreases gauge_sum(m.units, m.units.len() as int),
{
    crate::engine::turn_system::lemma_next_ready(m.units, m.units.len() as int);
    if let Some(i) = crate::engine::turn_system::next_ready(m.units, m.units.len() as int) {
        let by_player = m.units[i].team == crate::model::Team::Player;
        if !(by_player && queued is None) && m.can_act(i) {
            let action = match queued {
                Some(a) if by_player => a,
                _ => ActionKind::BasicAttack,
            };
            let left = if by_player {
                None
            } else {
                queued
            };
            lemma_turn_spends_one_gauge(m, i as usize, action);
            let (outcome, after) = m.execute_turn(i as usize, action);
            assert(after.units[who].action_gauge == m.spend_gauge(i).units[who].action_gauge);
            if outcome is None {
                lemma_idle_unit_keeps_gauge(after, left, who);
            }
        }
    }
}

/// The turn of a unit of the enemy leaves a stalled player stalled, with
/// the gauges it had.
pub proof fn lemma_enemy_turn_keeps_player_stalled(m: CombatModel, actor: int, after: CombatModel)
    requires
        m.player_stalled(),
        0 <= actor < m.units.len(),
        m.units[actor].team != crate::model::Team::Player,
        after.same_cast(m.spend_gauge(actor)) || after == m,
    ensures
        after.player_stalled(),
        after.same_player_gauges(m),
{
    if after != m {
        let spent = m.spend_gauge(actor);
        assert forall|i: int|
            0 <= i < after.units.len() && (#[trigger] after.units[i]).team
                == crate::model::Team::Player implies after.units[i].speed == 0
            && after.units[i].action_gauge < GAUGE_FULL && after.units[i].action_gauge
            == m.units[i].action_gauge by {
            assert(spent.units[i].team == after.units[i].team);
            assert(i != actor);
            assert(spent.units[i] == m.units[i]);
            assert(m.units[i].team == crate::model::Team::Player);
        }
    }
}

/// While the player is stalled, a round of turns never waits for the
/// player, wastes no queued action on it, and leaves the player's gauges
/// where they are.
pub proof fn lemma_stalled_player_takes_no_turn(m: CombatModel, queued: Option<ActionKind>)
    requires
        m.wf(),
        m.player_stalled(),
    ensures
        !(m.take_turns(queued).2 is NeedInput),
        m.take_turns(queued).1 == queued,
        m.take_turns(queued).0.player_stalled(),
        m.take_turns(queued).0.same_player_gauges(m),
    decreases gauge_sum(m.units, m.units.len() as int),
{
    crate::engine::turn_system::lemma_next_ready(m.units, m.units.len() as int);
    let next = crate::engine::turn_system::next_ready(m.units, m.units.len() as int);
    if let Some(i) = next {
        assert(is_ready(m.units[i]));
        assert(m.units[i].team != crate::model::Team::Player);
        if m.can_act(i) {
            lemma_turn_spends_one_gauge(m, i as usize, ActionKind::BasicAttack);
            let (outcome, after) = m.execute_turn(i as usize, ActionKind::BasicAttack);
            lemma_enemy_turn_keeps_player_stalled(m, i, after);
            if outcome is None {
                lemma_stalled_player_takes_no_turn(after, queued);
                let last = after.take_turns(queued).0;
                assert(m.take_turns(queued) == after.take_turns(queued));
                assert forall|k: int|
                    0 <= k < last.units.len() && (#[trigger] last.units[k]).team
                        == crate::model::Team::Player implies last.units[k].action_gauge
                    == m.units[k].action_gauge by {
                    lemma_take_turns_keeps_battle(after, queued);
                    assert(after.units[k].team == last.units[k].team);
                }
            } else {
                assert(m.take_turns(queued) == (after, queued, crate::engine::turn_system::TurnStop::Ended(outcome->0)));
            }
        } else {
            assert(m.take_turns(queued) == (m, queued, crate::engine::turn_system::TurnStop::Idle));
        }
    } else {
        assert(m.take_turns(queued) == (m, queued, crate::engine::turn_system::TurnStop::Idle));
    }
}

/// While the player is stalled, time does not help it: a tick of the
/// status engine and the accrual of gauge that follows leave the player
/// stalled, with the gauges it had.
pub proof fn lemma_stalled_player_gains_nothing(m: CombatModel, dt: u32)
    requires
        m.wf(),
        m.player_stalled(),
    ensures
        m.tick_statuses(dt).1.player_stalled(),
        m.tick_statuses(dt).1.same_player_gauges(m),
        m.tick_statuses(dt).1.accrue(dt).player_stalled(),
        m.tick_statuses(dt).1.accrue(dt).same_player_gauges(m),
{
    lemma_tick_statuses_keeps_cast(m, dt);
    let ticked = m.tick_statuses(dt).1;
    assert(ticked.player_stalled());
    assert forall|i: int|
        0 <= i < ticked.units.len() && (#[trigger] ticked.accrue(dt).units[i]).team
            == crate::model::Team::Player implies ticked.accrue(dt).units[i].speed == 0
        && ticked.accrue(dt).units[i].action_gauge == m.units[i].action_gauge by {
        assert(ticked.units[i].team == crate::model::Team::Player);
        crate::engine::turn_system::lemma_no_gauge_without_speed(
            ticked.ledgers[i].statuses,
            ticked.units[i].action_gauge,
            0,
            dt,
            crate::engine::status_system::gauge_multiplier(ticked.ledgers[i].statuses),
        );
    }
}

/// A unit that is not ready and is stunned for longer than passes gets
/// nowhere: after the tick of the status engine, the accrual of gauge and
/// the round of turns that make a sub-step, its gauge is where it was, it
/// is still not ready, and it is still stunned for what is left.
pub proof fn lemma_stunned_unit_keeps_gauge(
    m: CombatModel,
    dt: u32,
    queued: Option<ActionKind>,
    who: int,
    rest: int,
)
    requires
        m.wf(),
        0 <= who < m.units.len(),
        !is_ready(m.units[who]),
        rest >= 0,
        lasting(m.ledgers[who].statuses, StatusType::Stun, dt + rest),
    ensures
        ({
            let ticked = m.tick_statuses(dt).1;
            let charged = if dt > 0 {
                ticked.accrue(dt)
            } else {
                ticked
            };
            let after = charged.take_turns(queued).0;
            &&& after.units[who].action_gauge == m.units[who].action_gauge
            &&& !is_ready(after.units[who])
            &&& lasting(after.ledgers[who].statuses, StatusType::Stun, rest)
        }),
{
    lemma_tick_statuses_keeps_cast(m, dt);
    lemma_status_outlasts_tick(m, dt, who, StatusType::Stun, rest);
    let ticked = m.tick_statuses(dt).1;
    let charged = if dt > 0 {
        ticked.accrue(dt)
    } else {
        ticked
    };
    lemma_accrue_keeps_battle(ticked, dt);
    crate::engine::turn_system::lemma_no_gauge_without_speed(
        ticked.ledgers[who].statuses,
        ticked.units[who].action_gauge,
        ticked.units[who].speed,
        dt,
        0,
    );
    assert(charged.units[who].action_gauge == m.units[who].action_gauge);
    assert(charged.units[who].hp <= m.units[who].hp);
    assert(charged.ledgers == ticked.ledgers);
    lemma_idle_unit_keeps_gauge(charged, queued, who);
    lemma_take_turns_keeps_battle(charged, queued);
    lemma_grown_keeps_lasting(
        charged.take_turns(queued).0,
        charged,
        who,
        StatusType::Stun,
        rest,
    );
}

/// Overcharge answers a shock at once: in an arena whose only active trait
/// is Overcharge, a shock that a unit of the player lands for certain
/// appends exactly four records: the status applied, the trait triggered,
/// the pure damage of three points dealt to the target, and the report of
/// the effect. Nothing reacts to that damage.
pub proof fn lemma_overcharge_answers_shock(
    m: CombatModel,
    src: usize,
    dst: usize,
    base_chance: i32,
    duration: i64,
    stacks: u32,
    power: i64,
)
    requires
        m.wf(),
        src < m.units.len(),
        dst < m.units.len(),
        m.traits.len() == 1,
        m.traits[0]@ == "overcharge"@,
        m.units[src as int].team == crate::model::Team::Player,
        status_chance(m, src as int, dst as int, base_chance) >= crate::fixed::CHANCE_ONE,
    ensures
        ({
            let after = m.apply_status(
                src,
                dst,
                StatusType::Shock,
                base_chance,
                duration,
                stacks,
                power,
                0,
            );
            let n = m.events.len() as int;
            let struck = crate::engine::trait_system::hit(m.units[dst as int], 300);
            &&& after.events.len() == n + 4
            &&& after.events.subrange(0, n) == m.events
            &&& after.events[n].event == (crate::event::Event::StatusApplied {
                src: m.label(src as int),
                dst: m.label(dst as int),
                status: "Shock",
                stacks: at_least_one(stacks),
                duration: crate::engine::status_system::reported_seconds(duration),
            })
            &&& after.events[n + 1].event == (crate::event::Event::TraitTriggered {
                trait_name: "Overcharge",
                trigger_type: "OnStatusApplied",
            })
            &&& after.events[n + 2].event == (crate::event::Event::DamageDealt {
                src: m.label(src as int),
                dst: m.label(dst as int),
                amount: 300,
                dst_hp_after: struck.hp,
            })
            &&& after.events[n + 3].event == (crate::event::Event::TraitEffectApplied {
                trait_name: "Overcharge",
                effect_summary: crate::event::EffectSummary::DealPureDamage { amount: 300 },
            })
            &&& after.units == m.units.update(dst as int, struck)
        }),
{
    reveal_strlit("overcharge");
    reveal_strlit("cinder_scholar");
    reveal_strlit("frozen_momentum");
    assert("overcharge"@.len() != "cinder_scholar"@.len());
    assert("overcharge"@.len() != "frozen_momentum"@.len());
    let model = crate::trait_spec::overcharge_model();
    assert(trait_model_by_id(m.traits[0]@) == Some(model));
    let adjusted = scale_pct(power, m.power_mul(src as int, StatusType::Shock));
    let ctx = status_context(src, dst, StatusType::Shock);
    let m2 = m.with_statuses(
        dst as int,
        merged(
            m.ledgers[dst as int].statuses,
            StatusType::Shock,
            at_least_one(stacks),
            duration,
            adjusted,
        ),
    ).emit(
        crate::event::Event::StatusApplied {
            src: m.label(src as int),
            dst: m.label(dst as int),
            status: StatusType::Shock.name(),
            stacks: at_least_one(stacks),
            duration: crate::engine::status_system::reported_seconds(duration),
        },
    );
    lemma_merge_evolves(m, dst as int, StatusType::Shock, at_least_one(stacks), duration, adjusted);
    let rule = model.triggers[0];
    assert(model.triggers.len() == 1);
    // The rule fires: the source is of the player and the status is a shock.
    reveal_with_fuel(CombatModel::eval_all, 4);
    reveal_with_fuel(CombatModel::eval, 4);
    assert(rule.condition == Condition::All(
        crate::skill::list2(
            Condition::SrcIsPlayer,
            Condition::AppliedStatusIs(StatusType::Shock),
        ),
    ));
    assert(m2.units[src as int].team == crate::model::Team::Player);
    assert(m2.eval(Condition::SrcIsPlayer, ctx) == (true, m2));
    assert(m2.eval(Condition::AppliedStatusIs(StatusType::Shock), ctx) == (true, m2));
    assert(m2.eval_all(ConditionList::Nil, ctx) == (true, m2));
    assert(m2.eval_all(
        ConditionList::Cons(
            Box::new(Condition::AppliedStatusIs(StatusType::Shock)),
            Box::new(ConditionList::Nil),
        ),
        ctx,
    ) == (true, m2));
    assert(m2.eval_all(
        crate::skill::list2(
            Condition::SrcIsPlayer,
            Condition::AppliedStatusIs(StatusType::Shock),
        ),
        ctx,
    ) == (true, m2));
    assert(m2.eval(rule.condition, ctx) == (true, m2));
    let m3 = m2.emit(
        crate::event::Event::TraitTriggered {
            trait_name: model.name,
            trigger_type: rule.trigger.name(),
        },
    );
    // The effect: pure damage on the target, to which nothing reacts.
    let dctx = damage_context(src, dst);
    let struck = crate::engine::trait_system::hit(m3.units[dst as int], 300);
    let m4 = m3.with_unit(dst as int, struck).emit(
        crate::event::Event::DamageDealt {
            src: m3.label(src as int),
            dst: m3.label(dst as int),
            amount: 300,
            dst_hp_after: struck.hp,
        },
    );
    reveal_with_fuel(CombatModel::dispatch_traits, 3);
    reveal_with_fuel(CombatModel::dispatch_rules, 3);
    reveal_with_fuel(CombatModel::run_effects, 3);
    assert(m4.dispatch_rules(dctx, 3, model.name, model.triggers, 0) == m4);
    assert(m4.dispatch(dctx, 3) == m4);
    assert(m3.deal_damage(src, dst, 300, 2) == m4);
    let m5 = m4.report(
        model.name,
        crate::event::EffectSummary::DealPureDamage { amount: 300 },
    );
    assert(m3.trait_effect(model.name, rule.effects[0], ctx, 2) == m5);
    assert(m3.run_effects(model.name, rule.effects, ctx, 2, 0) == m5);
    assert(m2.dispatch_rules(ctx, 1, model.name, model.triggers, 0) == m5);
    assert(m2.dispatch(ctx, 1) == m5);
    assert(m5.ledgers == m2.ledgers);
    let after = m.apply_status(src, dst, StatusType::Shock, base_chance, duration, stacks, power, 0);
    assert(after == m5);
    let n = m.events.len() as int;
    assert(after.events =~= m.events.push(m2.events[n]).push(m3.events[n + 1]).push(
        m4.events[n + 2],
    ).push(m5.events[n + 3]));
    assert(after.events.subrange(0, n) =~= m.events);
}

} // verus!
