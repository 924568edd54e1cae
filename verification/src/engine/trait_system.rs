//! Effect resolution and trigger dispatch: damage, status application, and
//! the trait rules that react to them, cut off at a fixed chain depth.

use vstd::prelude::*;
use crate::engine::combat_state::{
    Combat, CombatModel, TriggerContext, TRAIT_CHAIN_DEPTH_MAX,
};
use crate::engine::status_system::{
    buff_stacks, buff_status, merged, power_raised, reported_seconds,
};
use crate::event::{EffectSummary, Event};
use crate::fixed::{clamp, damage_amount, scale_pct, CHANCE_ONE, MIN_DAMAGE};
use crate::model::Unit;
use crate::skill::{EffectSpec, StatusType};
use crate::trait_spec::{trait_model_by_id, RuleModel, TraitId, TriggerType};

verus! {

/// How many more levels a chain at `depth` may still go down.
pub open spec fn chain_room(depth: nat) -> nat {
    if depth < TRAIT_CHAIN_DEPTH_MAX {
        (TRAIT_CHAIN_DEPTH_MAX - depth) as nat
    } else {
        0
    }
}

/// The context of a hit from `src` on `dst`.
pub open spec fn damage_context(src: usize, dst: usize) -> TriggerContext {
    TriggerContext {
        trigger_type: TriggerType::OnDamageDealt,
        src_idx: Some(src),
        dst_idx: Some(dst),
        applied_status: None,
    }
}

/// The context of a status that `src` applied to `dst`.
pub open spec fn status_context(src: usize, dst: usize, status_type: StatusType)
    -> TriggerContext {
    TriggerContext {
        trigger_type: TriggerType::OnStatusApplied,
        src_idx: Some(src),
        dst_idx: Some(dst),
        applied_status: Some(status_type),
    }
}

/// A unit after it took `dealt` hundredths of damage: hit points never go below zero.
pub open spec fn hit(unit: Unit, dealt: i64) -> Unit {
    Unit {
        hp: if unit.hp - dealt > 0 {
            (unit.hp - dealt) as i64
        } else {
            0
        },
        ..unit
    }
}

/// The damage of a trait hit: `atk x multiplier + flat`, at least the minimum.
pub open spec fn trait_damage(atk: i32, multiplier: u32, flat: i64) -> i64 {
    damage_amount(atk * multiplier + flat)
}

/// The chance, clamped to `[0, 1]`, that `src` lands a status on `dst`:
/// the base chance plus the proc bonus of the source less the resistance of
/// the destination.
pub open spec fn status_chance(m: CombatModel, src: int, dst: int, base_chance: i32) -> int {
    clamp(
        base_chance + m.ledgers[src].proc_bonus - m.ledgers[dst].res_bonus,
        0,
        CHANCE_ONE as int,
    )
}

/// At least one stack.
pub open spec fn at_least_one(stacks: u32) -> u32 {
    if stacks >= 1 {
        stacks
    } else {
        1
    }
}

impl CombatModel {
    /// The arena after `src` dealt `amount` to `dst`, reactions included.
    pub open spec fn deal_damage(self, src: usize, dst: usize, amount: i64, depth: nat)
        -> CombatModel
        decreases chain_room(depth), 1nat, 0nat,
    {
        let dealt = if amount >= MIN_DAMAGE {
            amount
        } else {
            MIN_DAMAGE
        };
        let target = hit(self.units[dst as int], dealt);
        let m1 = self.with_unit(dst as int, target).emit(
            Event::DamageDealt {
                src: self.label(src as int),
                dst: self.label(dst as int),
                amount: dealt,
                dst_hp_after: target.hp,
            },
        );
        if depth >= TRAIT_CHAIN_DEPTH_MAX {
            m1
        } else {
            m1.dispatch(damage_context(src, dst), depth + 1)
        }
    }

    /// The arena after `src` tried to apply a status to `dst`, reactions included.
    ///
    /// The roll decides; on success the status merges into the ledger of
    /// `dst` with its power scaled by the multiplier of `src`, the reactions
    /// run, and a multiplier they raised is applied to the status just merged.
    pub open spec fn apply_status(
        self,
        src: usize,
        dst: usize,
        status_type: StatusType,
        base_chance: i32,
        duration: i64,
        stacks: u32,
        power: i64,
        depth: nat,
    ) -> CombatModel
        decreases chain_room(depth), 1nat, 0nat,
    {
        let (landed, m1) = self.roll(status_chance(self, src as int, dst as int, base_chance));
        if !landed {
            m1
        } else {
            let adjusted = scale_pct(power, m1.power_mul(src as int, status_type));
            let m2 = m1.with_statuses(
                dst as int,
                merged(
                    m1.ledgers[dst as int].statuses,
                    status_type,
                    at_least_one(stacks),
                    duration,
                    adjusted,
                ),
            ).emit(
                Event::StatusApplied {
                    src: self.label(src as int),
                    dst: self.label(dst as int),
                    status: status_type.name(),
                    stacks: at_least_one(stacks),
                    duration: reported_seconds(duration),
                },
            );
            let m3 = if depth >= TRAIT_CHAIN_DEPTH_MAX {
                m2
            } else {
                m2.dispatch(status_context(src, dst, status_type), depth + 1)
            };
            let boosted = scale_pct(power, m3.power_mul(src as int, status_type));
            if boosted > adjusted {
                m3.with_statuses(
                    dst as int,
                    power_raised(m3.ledgers[dst as int].statuses, status_type, boosted),
                )
            } else {
                m3
            }
        }
    }

    /// The arena after every active trait reacted to `ctx`. At the depth
    /// limit nothing reacts.
    pub open spec fn dispatch(self, ctx: TriggerContext, depth: nat) -> CombatModel
        decreases chain_room(depth), 6nat, 0nat,
    {
        if depth >= TRAIT_CHAIN_DEPTH_MAX {
            self
        } else {
            self.dispatch_traits(ctx, depth, self.traits, 0)
        }
    }

    /// The arena after the traits from position `at` on reacted, in activation order.
    pub open spec fn dispatch_traits(
        self,
        ctx: TriggerContext,
        depth: nat,
        traits: Seq<TraitId>,
        at: nat,
    ) -> CombatModel
        decreases chain_room(depth), 5nat, traits.len() - at,
    {
        if at >= traits.len() {
            self
        } else {
            let next = match trait_model_by_id(traits[at as int]@) {
                Some(t) => self.dispatch_rules(ctx, depth, t.name, t.triggers, 0),
                None => self,
            };
            next.dispatch_traits(ctx, depth, traits, at + 1)
        }
    }

    /// The arena after the rules of one trait from position `at` on reacted,
    /// in declaration order. A rule fires when its trigger is the one of the
    /// context and its condition holds.
    pub open spec fn dispatch_rules(
        self,
        ctx: TriggerContext,
        depth: nat,
        trait_name: &'static str,
        rules: Seq<RuleModel>,
        at: nat,
    ) -> CombatModel
        decreases chain_room(depth), 4nat, rules.len() - at,
    {
        if at >= rules.len() {
            self
        } else {
            let rule = rules[at as int];
            let next = if rule.trigger != ctx.trigger_type {
                self
            } else {
                let (holds, m1) = self.eval(rule.condition, ctx);
                if !holds {
                    m1
                } else {
                    m1.emit(
                        Event::TraitTriggered {
                            trait_name,
                            trigger_type: rule.trigger.name(),
                        },
                    ).run_effects(trait_name, rule.effects, ctx, depth + 1, 0)
                }
            };
            next.dispatch_rules(ctx, depth, trait_name, rules, at + 1)
        }
    }

    /// The arena after the effects of a rule from position `at` on ran, in order.
    pub open spec fn run_effects(
        self,
        trait_name: &'static str,
        effects: Seq<EffectSpec>,
        ctx: TriggerContext,
        depth: nat,
        at: nat,
    ) -> CombatModel
        decreases chain_room(depth), 3nat, effects.len() - at,
    {
        if at >= effects.len() {
            self
        } else {
            self.trait_effect(trait_name, effects[at as int], ctx, depth).run_effects(
                trait_name,
                effects,
                ctx,
                depth,
                at + 1,
            )
        }
    }

    /// The arena with the report of an applied trait effect appended.
    pub open spec fn report(self, trait_name: &'static str, effect_summary: EffectSummary)
        -> CombatModel {
        self.emit(Event::TraitEffectApplied { trait_name, effect_summary })
    }

    /// The arena after one effect of a trait rule ran. At the depth limit
    /// the effect is dropped.
    pub open spec fn trait_effect(
        self,
        trait_name: &'static str,
        effect: EffectSpec,
        ctx: TriggerContext,
        depth: nat,
    ) -> CombatModel
        decreases chain_room(depth), 2nat, 0nat,
    {
        if depth >= TRAIT_CHAIN_DEPTH_MAX {
            self
        } else {
            match effect {
                EffectSpec::DealDamage { multiplier, flat } => match (ctx.src_idx, ctx.dst_idx) {
                    (Some(src), Some(dst)) => self.deal_damage(
                        src,
                        dst,
                        trait_damage(self.units[src as int].atk, multiplier, flat),
                        depth,
                    ).report(trait_name, EffectSummary::DealDamage { multiplier, flat }),
                    _ => self,
                },
                EffectSpec::ApplyStatus { status_type, base_chance, duration, stacks, power } => {
                    match (ctx.src_idx, ctx.dst_idx) {
                        (Some(src), Some(dst)) => self.apply_status(
                            src,
                            dst,
                            status_type,
                            base_chance,
                            duration,
                            stacks,
                            power,
                            depth,
                        ).report(trait_name, EffectSummary::ApplyStatus { status: status_type }),
                        _ => self,
                    }
                },
                EffectSpec::ConditionalDamageAmp { condition, amp } => {
                    let (holds, m1) = self.eval(condition, ctx);
                    if holds {
                        m1.trait_effect(
                            trait_name,
                            EffectSpec::DealDamage { multiplier: amp, flat: 0 },
                            ctx,
                            depth + 1,
                        )
                    } else {
                        m1
                    }
                },
                EffectSpec::ConditionalApplyStatus {
                    condition,
                    status_type,
                    base_chance,
                    duration,
                    stacks,
                    power,
                } => {
                    let (holds, m1) = self.eval(condition, ctx);
                    if holds {
                        m1.trait_effect(
                            trait_name,
                            EffectSpec::ApplyStatus {
                                status_type,
                                base_chance,
                                duration,
                                stacks,
                                power,
                            },
                            ctx,
                            depth + 1,
                        )
                    } else {
                        m1
                    }
                },
                EffectSpec::SelfBuff { stat, amount, duration } => match ctx.src_idx {
                    Some(src) => self.apply_status(
                        src,
                        src,
                        buff_status(stat),
                        CHANCE_ONE as i32,
                        duration,
                        buff_stacks(amount),
                        amount,
                        depth,
                    ).report(trait_name, EffectSummary::SelfBuff { status: buff_status(stat) }),
                    None => self,
                },
                EffectSpec::AddProcBonus { amount } => (match ctx.src_idx {
                    Some(src) => self.add_proc_bonus(src as int, amount),
                    None => self,
                }).report(trait_name, EffectSummary::AddProcBonus { amount }),
                EffectSpec::AddResBonus { amount } => (match ctx.src_idx {
                    Some(src) => self.add_res_bonus(src as int, amount),
                    None => self,
                }).report(trait_name, EffectSummary::AddResBonus { amount }),
                EffectSpec::ModifyStatusPower { status_type, mul } => (match ctx.src_idx {
                    Some(src) => self.raise_power_mul(src as int, status_type, mul),
                    None => self,
                }).report(
                    trait_name,
                    EffectSummary::ModifyStatusPower { status: status_type, mul },
                ),
                EffectSpec::AddStatusStacks { target, status_type, stacks } => {
                    match self.resolve_target(target, ctx) {
                        Some(dst) => self.apply_status(
                            match ctx.src_idx {
                                Some(src) => src,
                                None => dst,
                            },
                            dst,
                            status_type,
                            CHANCE_ONE as i32,
                            1000,
                            at_least_one(stacks),
                            100,
                            depth,
                        ).report(
                            trait_name,
                            EffectSummary::AddStatusStacks {
                                status: status_type,
                                stacks: at_least_one(stacks),
                            },
                        ),
                        None => self,
                    }
                },
                EffectSpec::DealPureDamage { target, amount } => {
                    match self.resolve_target(target, ctx) {
                        Some(dst) => self.deal_damage(
                            match ctx.src_idx {
                                Some(src) => src,
                                None => dst,
                            },
                            dst,
                            damage_amount(amount as int),
                            depth,
                        ).report(
                            trait_name,
                            EffectSummary::DealPureDamage { amount: damage_amount(amount as int) },
                        ),
                        None => self,
                    }
                },
            }
        }
    }
}

impl Combat {
    /// Deals `amount` (at least the minimum) from `src_idx` to `dst_idx`,
    /// reports it, and lets the active traits react one level deeper.
    pub fn apply_damage(&mut self, src_idx: usize, dst_idx: usize, amount: i64, trait_depth: u8)
        requires
            old(self).wf(),
            src_idx < old(self)@.units.len(),
            dst_idx < old(self)@.units.len(),
        ensures
            final(self)@ == old(self)@.deal_damage(src_idx, dst_idx, amount, trait_depth as nat),
            final(self).wf(),
            final(self)@.same_cast(old(self)@),
            final(self)@.statuses_grew(old(self)@),
        decreases chain_room(trait_depth as nat), 1nat, 0nat,
    {
        let src_label = self.actor_label_for_idx(src_idx);
        let dst_label = self.actor_label_for_idx(dst_idx);
        let dealt: i64 = if amount >= MIN_DAMAGE {
            amount
        } else {
            MIN_DAMAGE
        };
        let hp = self.state.units[dst_idx].hp;
        let hp_after: i64 = if hp > dealt {
            hp - dealt
        } else {
            0
        };
        self.state.units[dst_idx].hp = hp_after;
        assert(self@.units =~= old(self)@.units.update(
            dst_idx as int,
            hit(old(self)@.units[dst_idx as int], dealt),
        ));
        self.emit(
            Event::DamageDealt { src: src_label, dst: dst_label, amount: dealt, dst_hp_after: hp_after },
        );
        if trait_depth < TRAIT_CHAIN_DEPTH_MAX {
            let context = TriggerContext {
                trigger_type: TriggerType::OnDamageDealt,
                src_idx: Some(src_idx),
                dst_idx: Some(dst_idx),
                applied_status: None,
            };
            self.process_trait_triggers(context, trait_depth + 1);
        }
    }

    /// Tries to apply a status from `src_idx` to `dst_idx`.
    pub fn apply_status(
        &mut self,
        src_idx: usize,
        dst_idx: usize,
        status_type: StatusType,
        base_chance: i32,
        duration: i64,
        stacks: u32,
        power: i64,
        trait_depth: u8,
    )
        requires
            old(self).wf(),
            src_idx < old(self)@.units.len(),
            dst_idx < old(self)@.units.len(),
        ensures
            final(self)@ == old(self)@.apply_status(
                src_idx,
                dst_idx,
                status_type,
                base_chance,
                duration,
                stacks,
                power,
                trait_depth as nat,
            ),
            final(self).wf(),
            final(self)@.same_cast(old(self)@),
            final(self)@.statuses_grew(old(self)@),
        decreases chain_room(trait_depth as nat), 1nat, 0nat,
    {
        let src_label = self.actor_label_for_idx(src_idx);
        let dst_label = self.actor_label_for_idx(dst_idx);
        let raw: i128 = base_chance as i128 + self.runtime[src_idx].proc_bonus as i128
            - self.runtime[dst_idx].res_bonus as i128;
        let chance: i64 = if raw < 0 {
            0
        } else if raw > CHANCE_ONE as i128 {
            CHANCE_ONE
        } else {
            raw as i64
        };
        if !self.roll_success(chance) {
            return ;
        }
        let adjusted = crate::fixed::scale_by_pct(
            power,
            self.status_power_mul_for(src_idx, status_type),
        );
        let stacks: u32 = if stacks >= 1 {
            stacks
        } else {
            1
        };
        self.merge_status(dst_idx, status_type, stacks, duration, adjusted);
        self.emit(
            Event::StatusApplied {
                src: src_label,
                dst: dst_label,
                status: status_type.as_str(),
                stacks,
                duration: crate::engine::status_system::duration_seconds(duration),
            },
        );
        if trait_depth < TRAIT_CHAIN_DEPTH_MAX {
            let context = TriggerContext {
                trigger_type: TriggerType::OnStatusApplied,
                src_idx: Some(src_idx),
                dst_idx: Some(dst_idx),
                applied_status: Some(status_type),
            };
            self.process_trait_triggers(context, trait_depth + 1);
        }
        let boosted = crate::fixed::scale_by_pct(
            power,
            self.status_power_mul_for(src_idx, status_type),
        );
        if boosted > adjusted {
            self.raise_status_power(dst_idx, status_type, boosted);
        }
    }

    /// Lets every active trait react to `context`: traits in activation
    /// order, rules in declaration order. At the depth limit the chain is
    /// cut off and nothing happens.
    pub fn process_trait_triggers(&mut self, context: TriggerContext, depth: u8)
        requires
            old(self).wf(),
            context.fits(old(self)@.units.len()),
        ensures
            final(self)@ == old(self)@.dispatch(context, depth as nat),
            final(self).wf(),
            final(self)@.same_cast(old(self)@),
            final(self)@.statuses_grew(old(self)@),
            depth >= TRAIT_CHAIN_DEPTH_MAX ==> final(self)@ == old(self)@,
        decreases chain_room(depth as nat), 6nat, 0nat,
    {
        if depth >= TRAIT_CHAIN_DEPTH_MAX {
            return ;
        }
        let ghost traits = self.traits@;
        let ghost goal = self@.dispatch_traits(context, depth as nat, traits, 0);
        let n = self.traits.len();
        let mut at: usize = 0;
        while at < n
            invariant
                at <= n,
                n == traits.len(),
                depth < TRAIT_CHAIN_DEPTH_MAX,
                self.wf(),
                self@.same_cast(old(self)@),
                self@.statuses_grew(old(self)@),
                self.traits@ == traits,
                context.fits(self@.units.len()),
                self@.dispatch_traits(context, depth as nat, traits, at as nat) == goal,
            decreases n - at,
        {
            let id = self.traits[at];
            match crate::trait_spec::trait_by_id(id) {
                Some(spec) => {
                    self.run_trait_rules(context, depth, &spec);
                },
                None => {},
            }
            at = at + 1;
        }
    }

    /// Runs the rules of one trait against `context`.
    pub fn run_trait_rules(
        &mut self,
        context: TriggerContext,
        depth: u8,
        spec: &crate::trait_spec::TraitSpec,
    )
        requires
            old(self).wf(),
            context.fits(old(self)@.units.len()),
            depth < TRAIT_CHAIN_DEPTH_MAX,
        ensures
            final(self)@ == old(self)@.dispatch_rules(
                context,
                depth as nat,
                spec@.name,
                spec@.triggers,
                0,
            ),
            final(self).wf(),
            final(self)@.same_cast(old(self)@),
            final(self)@.statuses_grew(old(self)@),
        decreases chain_room(depth as nat), 4nat, 0nat,
    {
        let ghost rules = spec@.triggers;
        let ghost goal = self@.dispatch_rules(context, depth as nat, spec.name, rules, 0);
        let n = spec.triggers.len();
        let mut at: usize = 0;
        while at < n
            invariant
                at <= n,
                n == rules.len(),
                rules == spec@.triggers,
                depth < TRAIT_CHAIN_DEPTH_MAX,
                self.wf(),
                self@.same_cast(old(self)@),
                self@.statuses_grew(old(self)@),
                context.fits(self@.units.len()),
                self@.dispatch_rules(context, depth as nat, spec.name, rules, at as nat) == goal,
            decreases n - at,
        {
            let rule = &spec.triggers[at];
            assert(rules[at as int] == rule@);
            if Self::trigger_matches(rule.trigger, context.trigger_type) {
                if self.evaluate_condition(&rule.condition, context) {
                    self.emit(
                        Event::TraitTriggered {
                            trait_name: spec.name,
                            trigger_type: rule.trigger.as_str(),
                        },
                    );
                    self.run_rule_effects(spec.name, &rule.effects, context, depth + 1);
                }
            }
            at = at + 1;
        }
    }

    /// Runs the effects of a rule that fired, in order.
    pub fn run_rule_effects(
        &mut self,
        trait_name: &'static str,
        effects: &Vec<EffectSpec>,
        context: TriggerContext,
        depth: u8,
    )
        requires
            old(self).wf(),
            context.fits(old(self)@.units.len()),
        ensures
            final(self)@ == old(self)@.run_effects(trait_name, effects@, context, depth as nat, 0),
            final(self).wf(),
            final(self)@.same_cast(old(self)@),
            final(self)@.statuses_grew(old(self)@),
        decreases chain_room(depth as nat), 3nat, 0nat,
    {
        let ghost goal = self@.run_effects(trait_name, effects@, context, depth as nat, 0);
        let n = effects.len();
        let mut at: usize = 0;
        while at < n
            invariant
                at <= n,
                n == effects@.len(),
                self.wf(),
                self@.same_cast(old(self)@),
                self@.statuses_grew(old(self)@),
                context.fits(self@.units.len()),
                self@.run_effects(trait_name, effects@, context, depth as nat, at as nat) == goal,
            decreases n - at,
        {
            self.process_trait_effect(trait_name, &effects[at], context, depth);
            at = at + 1;
        }
    }

    /// Appends the report of an applied trait effect to the trace.
    pub fn push_trait_effect_event(&mut self, trait_name: &'static str, summary: EffectSummary)
        ensures
            final(self)@ == old(self)@.report(trait_name, summary),
            final(self).state == old(self).state,
            final(self).runtime == old(self).runtime,
    {
        self.emit(Event::TraitEffectApplied { trait_name, effect_summary: summary });
    }

    /// Runs one effect of a trait rule. At the depth limit the effect is dropped.
    pub fn process_trait_effect(
        &mut self,
        trait_name: &'static str,
        effect: &EffectSpec,
        context: TriggerContext,
        depth: u8,
    )
        requires
            old(self).wf(),
            context.fits(old(self)@.units.len()),
        ensures
            final(self)@ == old(self)@.trait_effect(trait_name, *effect, context, depth as nat),
            final(self).wf(),
            final(self)@.same_cast(old(self)@),
            final(self)@.statuses_grew(old(self)@),
            depth >= TRAIT_CHAIN_DEPTH_MAX ==> final(self)@ == old(self)@,
        decreases chain_room(depth as nat), 2nat, 0nat,
    {
        if depth >= TRAIT_CHAIN_DEPTH_MAX {
            return ;
        }
        match effect {
            EffectSpec::DealDamage { multiplier, flat } => {
                if let (Some(src_idx), Some(dst_idx)) = (context.src_idx, context.dst_idx) {
                    let amount = trait_damage_for(
                        self.state.units[src_idx].atk,
                        *multiplier,
                        *flat,
                    );
                    self.apply_damage(src_idx, dst_idx, amount, depth);
                    self.push_trait_effect_event(
                        trait_name,
                        EffectSummary::DealDamage { multiplier: *multiplier, flat: *flat },
                    );
                }
            },
            EffectSpec::ApplyStatus { status_type, base_chance, duration, stacks, power } => {
                if let (Some(src_idx), Some(dst_idx)) = (context.src_idx, context.dst_idx) {
                    self.apply_status(
                        src_idx,
                        dst_idx,
                        *status_type,
                        *base_chance,
                        *duration,
                        *stacks,
                        *power,
                        depth,
                    );
                    self.push_trait_effect_event(
                        trait_name,
                        EffectSummary::ApplyStatus { status: *status_type },
                    );
                }
            },
            EffectSpec::ConditionalDamageAmp { condition, amp } => {
                if self.evaluate_condition(condition, context) {
                    let next = EffectSpec::DealDamage { multiplier: *amp, flat: 0 };
                    self.process_trait_effect(trait_name, &next, context, depth + 1);
                }
            },
            EffectSpec::ConditionalApplyStatus {
                condition,
                status_type,
                base_chance,
                duration,
                stacks,
                power,
            } => {
                if self.evaluate_condition(condition, context) {
                    let next = EffectSpec::ApplyStatus {
                        status_type: *status_type,
                        base_chance: *base_chance,
                        duration: *duration,
                        stacks: *stacks,
                        power: *power,
                    };
                    self.process_trait_effect(trait_name, &next, context, depth + 1);
                }
            },
            EffectSpec::SelfBuff { stat, amount, duration } => {
                if let Some(src_idx) = context.src_idx {
                    let status_type = crate::engine::status_system::buff_status_for(*stat);
                    self.apply_status(
                        src_idx,
                        src_idx,
                        status_type,
                        CHANCE_ONE as i32,
                        *duration,
                        crate::engine::status_system::buff_stacks_for(*amount),
                        *amount,
                        depth,
                    );
                    self.push_trait_effect_event(
                        trait_name,
                        EffectSummary::SelfBuff { status: status_type },
                    );
                }
            },
            EffectSpec::AddProcBonus { amount } => {
                if let Some(src_idx) = context.src_idx {
                    self.add_proc_bonus(src_idx, *amount);
                }
                self.push_trait_effect_event(
                    trait_name,
                    EffectSummary::AddProcBonus { amount: *amount },
                );
            },
            EffectSpec::AddResBonus { amount } => {
                if let Some(src_idx) = context.src_idx {
                    self.add_res_bonus(src_idx, *amount);
                }
                self.push_trait_effect_event(
                    trait_name,
                    EffectSummary::AddResBonus { amount: *amount },
                );
            },
            EffectSpec::ModifyStatusPower { status_type, mul } => {
                if let Some(src_idx) = context.src_idx {
                    self.update_status_power_mul(src_idx, *status_type, *mul);
                }
                self.push_trait_effect_event(
                    trait_name,
                    EffectSummary::ModifyStatusPower { status: *status_type, mul: *mul },
                );
            },
            EffectSpec::AddStatusStacks { target, status_type, stacks } => {
                if let Some(target_idx) = self.resolve_effect_target(*target, context) {
                    let src_idx = match context.src_idx {
                        Some(src) => src,
                        None => target_idx,
                    };
                    let stacks: u32 = if *stacks >= 1 {
                        *stacks
                    } else {
                        1
                    };
                    self.apply_status(
                        src_idx,
                        target_idx,
                        *status_type,
                        CHANCE_ONE as i32,
                        1000,
                        stacks,
                        100,
                        depth,
                    );
                    self.push_trait_effect_event(
                        trait_name,
                        EffectSummary::AddStatusStacks { status: *status_type, stacks },
                    );
                }
            },
            EffectSpec::DealPureDamage { target, amount } => {
                if let Some(dst_idx) = self.resolve_effect_target(*target, context) {
                    let src_idx = match context.src_idx {
                        Some(src) => src,
                        None => dst_idx,
                    };
                    let dealt = crate::fixed::to_damage(*amount as i128);
                    self.apply_damage(src_idx, dst_idx, dealt, depth);
                    self.push_trait_effect_event(
                        trait_name,
                        EffectSummary::DealPureDamage { amount: dealt },
                    );
                }
            },
        }
    }

    /// Lets the active traits react to the end of the battle.
    pub fn emit_battle_end_triggers(&mut self)
        requires
            old(self).wf(),
        ensures
            final(self)@ == old(self)@.dispatch(battle_end_context(), 0),
            final(self).wf(),
            final(self)@.same_cast(old(self)@),
            final(self)@.statuses_grew(old(self)@),
    {
        let context = TriggerContext {
            trigger_type: TriggerType::OnBattleEnd,
            src_idx: None,
            dst_idx: None,
            applied_status: None,
        };
        self.process_trait_triggers(context, 0);
    }
}

/// The context of the end of a battle.
pub open spec fn battle_end_context() -> TriggerContext {
    TriggerContext {
        trigger_type: TriggerType::OnBattleEnd,
        src_idx: None,
        dst_idx: None,
        applied_status: None,
    }
}

/// The damage of a trait hit: `atk x multiplier + flat`, at least the minimum.
pub fn trait_damage_for(atk: i32, multiplier: u32, flat: i64) -> (r: i64)
    ensures
        r == trait_damage(atk, multiplier, flat),
{
    let a: i128 = atk as i128;
    let m: i128 = multiplier as i128;
    assert(-0x8000_0000_0000_0000 <= a * m <= 0x8000_0000_0000_0000) by (nonlinear_arith)
        requires
            -0x8000_0000 <= a <= 0x8000_0000,
            0 <= m <= 0x1_0000_0000,
    ;
    crate::fixed::to_damage(a * m + flat as i128)
}

/// A chain of reactions is cut off at the depth limit: at or past it no
/// trait reacts and no trait effect runs, and a hit or a status applied
/// there draws no reaction. Every reaction runs one level below what caused
/// it, so no chain goes deeper than the limit.
pub proof fn lemma_chain_cut_off(
    m: CombatModel,
    ctx: TriggerContext,
    trait_name: &'static str,
    effect: EffectSpec,
    src: usize,
    dst: usize,
    amount: i64,
    depth: nat,
)
    requires
        depth >= TRAIT_CHAIN_DEPTH_MAX,
    ensures
        m.dispatch(ctx, depth) == m,
        m.trait_effect(trait_name, effect, ctx, depth) == m,
        m.deal_damage(src, dst, amount, depth).events.len() == m.events.len() + 1,
        chain_room(depth) == 0,
{
}

} // verus!
