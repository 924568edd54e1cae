//! Traits: standing rule sets that react to combat triggers, and their catalog.

use vstd::prelude::*;
use crate::skill::{all_of2, all_of3, list2, list3, Condition, EffectSpec, EffectTarget, StatusType};
use crate::text::{str_eq, views};

verus! {

pub type TraitId = &'static str;

/// The combat events a trait rule can react to.
#[derive(Clone, Copy, Debug, PartialEq, Eq, Structural)]
pub enum TriggerType {
    OnBattleStart,
    OnTurnStart,
    OnActionUsed,
    OnDamageDealt,
    OnStatusApplied,
    OnStatusTick,
    OnBattleEnd,
}

impl TriggerType {
    /// The display name of the trigger.
    pub open spec fn name(&self) -> &'static str {
        match self {
            TriggerType::OnBattleStart => "OnBattleStart",
            TriggerType::OnTurnStart => "OnTurnStart",
            TriggerType::OnActionUsed => "OnActionUsed",
            TriggerType::OnDamageDealt => "OnDamageDealt",
            TriggerType::OnStatusApplied => "OnStatusApplied",
            TriggerType::OnStatusTick => "OnStatusTick",
            TriggerType::OnBattleEnd => "OnBattleEnd",
        }
    }

    #[verifier::when_used_as_spec(name)]
    pub fn as_str(&self) -> (r: &'static str)
        ensures
            r == self.name(),
    {
        match self {
            TriggerType::OnBattleStart => "OnBattleStart",
            TriggerType::OnTurnStart => "OnTurnStart",
            TriggerType::OnActionUsed => "OnActionUsed",
            TriggerType::OnDamageDealt => "OnDamageDealt",
            TriggerType::OnStatusApplied => "OnStatusApplied",
            TriggerType::OnStatusTick => "OnStatusTick",
            TriggerType::OnBattleEnd => "OnBattleEnd",
        }
    }
}

/// One rule of a trait: when `trigger` fires and `condition` holds, run `effects` in order.
#[derive(Debug)]
pub struct TriggerRule {
    pub trigger: TriggerType,
    pub condition: Condition,
    pub effects: Vec<EffectSpec>,
}

/// What a [`TriggerRule`] holds, as mathematical values.
pub struct RuleModel {
    pub trigger: TriggerType,
    pub condition: Condition,
    pub effects: Seq<EffectSpec>,
}

impl View for TriggerRule {
    type V = RuleModel;

    open spec fn view(&self) -> RuleModel {
        RuleModel { trigger: self.trigger, condition: self.condition, effects: self.effects@ }
    }
}

/// A trait: a name and its rules, in declaration order.
#[derive(Debug)]
pub struct TraitSpec {
    pub id: TraitId,
    pub name: &'static str,
    pub description: &'static str,
    pub triggers: Vec<TriggerRule>,
}

/// What a [`TraitSpec`] holds, as mathematical values.
pub struct TraitModel {
    pub id: TraitId,
    pub name: &'static str,
    pub description: &'static str,
    pub triggers: Seq<RuleModel>,
}

impl View for TraitSpec {
    type V = TraitModel;

    open spec fn view(&self) -> TraitModel {
        TraitModel {
            id: self.id,
            name: self.name,
            description: self.description,
            triggers: Seq::new(self.triggers@.len(), |i: int| self.triggers@[i]@),
        }
    }
}

/// The rule list made of one rule with one effect.
pub open spec fn single_rule_model(
    trigger: TriggerType,
    condition: Condition,
    effect: EffectSpec,
) -> Seq<RuleModel> {
    seq![RuleModel { trigger, condition, effects: seq![effect] }]
}

fn single_rule(trigger: TriggerType, condition: Condition, effect: EffectSpec) -> (r: Vec<
    TriggerRule,
>)
    ensures
        r@.len() == 1,
        r@[0]@ == single_rule_model(trigger, condition, effect)[0],
{
    let mut effects: Vec<EffectSpec> = Vec::new();
    effects.push(effect);
    assert(effects@ =~= seq![effect]);
    let mut rules: Vec<TriggerRule> = Vec::new();
    rules.push(TriggerRule { trigger, condition, effects });
    rules
}

pub open spec fn cinder_scholar_model() -> TraitModel {
    TraitModel {
        id: "cinder_scholar",
        name: "Cinder Scholar",
        description: "Burn applied by player enhances Burn power.",
        triggers: single_rule_model(
            TriggerType::OnStatusApplied,
            Condition::All(
                list3(
                    Condition::SrcIsPlayer,
                    Condition::DstIsEnemy,
                    Condition::AppliedStatusIs(StatusType::Burn),
                ),
            ),
            EffectSpec::ModifyStatusPower { status_type: StatusType::Burn, mul: 125 },
        ),
    }
}

pub open spec fn frozen_momentum_model() -> TraitModel {
    TraitModel {
        id: "frozen_momentum",
        name: "Frozen Momentum",
        description: "Freeze application adds Break stacks.",
        triggers: single_rule_model(
            TriggerType::OnStatusApplied,
            Condition::All(
                list2(Condition::SrcIsPlayer, Condition::AppliedStatusIs(StatusType::Freeze)),
            ),
            EffectSpec::AddStatusStacks {
                target: EffectTarget::Dst,
                status_type: StatusType::Break,
                stacks: 1,
            },
        ),
    }
}

pub open spec fn overcharge_model() -> TraitModel {
    TraitModel {
        id: "overcharge",
        name: "Overcharge",
        description: "Shock application deals pure bonus damage.",
        triggers: single_rule_model(
            TriggerType::OnStatusApplied,
            Condition::All(
                list2(Condition::SrcIsPlayer, Condition::AppliedStatusIs(StatusType::Shock)),
            ),
            EffectSpec::DealPureDamage { target: EffectTarget::Dst, amount: 300 },
        ),
    }
}

pub open spec fn hemorrhage_model() -> TraitModel {
    TraitModel {
        id: "hemorrhage",
        name: "Hemorrhage",
        description: "Damage against Bleed targets gains bonus hit.",
        triggers: single_rule_model(
            TriggerType::OnDamageDealt,
            Condition::All(
                list3(
                    Condition::SrcIsPlayer,
                    Condition::DstIsEnemy,
                    Condition::TargetHasStatus(StatusType::Bleed),
                ),
            ),
            EffectSpec::DealDamage { multiplier: 15, flat: 0 },
        ),
    }
}

pub open spec fn ruthless_model() -> TraitModel {
    TraitModel {
        id: "ruthless",
        name: "Ruthless",
        description: "Targets with many statuses take extra damage.",
        triggers: single_rule_model(
            TriggerType::OnDamageDealt,
            Condition::All(
                list3(
                    Condition::SrcIsPlayer,
                    Condition::DstIsEnemy,
                    Condition::TargetStatusCountAtLeast(2),
                ),
            ),
            EffectSpec::DealDamage { multiplier: 20, flat: 0 },
        ),
    }
}

pub open spec fn shatterpoint_model() -> TraitModel {
    TraitModel {
        id: "shatterpoint",
        name: "Shatterpoint",
        description: "Break on Frozen targets can apply Stun.",
        triggers: single_rule_model(
            TriggerType::OnStatusApplied,
            Condition::All(
                list2(Condition::SrcIsPlayer, Condition::AppliedStatusIs(StatusType::Break)),
            ),
            EffectSpec::ConditionalApplyStatus {
                condition: Condition::TargetHasStatus(StatusType::Freeze),
                status_type: StatusType::Stun,
                base_chance: 5000,
                duration: 1500,
                stacks: 1,
                power: 100,
            },
        ),
    }
}

/// The trait registered under `id`, if any.
pub open spec fn trait_model_by_id(id: Seq<char>) -> Option<TraitModel> {
    if id == "cinder_scholar"@ {
        Some(cinder_scholar_model())
    } else if id == "frozen_momentum"@ {
        Some(frozen_momentum_model())
    } else if id == "overcharge"@ {
        Some(overcharge_model())
    } else if id == "hemorrhage"@ {
        Some(hemorrhage_model())
    } else if id == "ruthless"@ {
        Some(ruthless_model())
    } else if id == "shatterpoint"@ {
        Some(shatterpoint_model())
    } else {
        None
    }
}

pub fn cinder_scholar() -> (t: TraitSpec)
    ensures
        t@ == cinder_scholar_model(),
{
    let t = TraitSpec {
        id: "cinder_scholar",
        name: "Cinder Scholar",
        description: "Burn applied by player enhances Burn power.",
        triggers: single_rule(
            TriggerType::OnStatusApplied,
            all_of3(
                Condition::SrcIsPlayer,
                Condition::DstIsEnemy,
                Condition::AppliedStatusIs(StatusType::Burn),
            ),
            EffectSpec::ModifyStatusPower { status_type: StatusType::Burn, mul: 125 },
        ),
    };
    assert(t@.triggers =~= cinder_scholar_model().triggers);
    t
}

pub fn frozen_momentum() -> (t: TraitSpec)
    ensures
        t@ == frozen_momentum_model(),
{
    let t = TraitSpec {
        id: "frozen_momentum",
        name: "Frozen Momentum",
        description: "Freeze application adds Break stacks.",
        triggers: single_rule(
            TriggerType::OnStatusApplied,
            all_of2(Condition::SrcIsPlayer, Condition::AppliedStatusIs(StatusType::Freeze)),
            EffectSpec::AddStatusStacks {
                target: EffectTarget::Dst,
                status_type: StatusType::Break,
                stacks: 1,
            },
        ),
    };
    assert(t@.triggers =~= frozen_momentum_model().triggers);
    t
}

pub fn overcharge() -> (t: TraitSpec)
    ensures
        t@ == overcharge_model(),
{
    let t = TraitSpec {
        id: "overcharge",
        name: "Overcharge",
        description: "Shock application deals pure bonus damage.",
        triggers: single_rule(
            TriggerType::OnStatusApplied,
            all_of2(Condition::SrcIsPlayer, Condition::AppliedStatusIs(StatusType::Shock)),
            EffectSpec::DealPureDamage { target: EffectTarget::Dst, amount: 300 },
        ),
    };
    assert(t@.triggers =~= overcharge_model().triggers);
    t
}

pub fn hemorrhage() -> (t: TraitSpec)
    ensures
        t@ == hemorrhage_model(),
{
    let t = TraitSpec {
        id: "hemorrhage",
        name: "Hemorrhage",
        description: "Damage against Bleed targets gains bonus hit.",
        triggers: single_rule(
            TriggerType::OnDamageDealt,
            all_of3(
                Condition::SrcIsPlayer,
                Condition::DstIsEnemy,
                Condition::TargetHasStatus(StatusType::Bleed),
            ),
            EffectSpec::DealDamage { multiplier: 15, flat: 0 },
        ),
    };
    assert(t@.triggers =~= hemorrhage_model().triggers);
    t
}

pub fn ruthless() -> (t: TraitSpec)
    ensures
        t@ == ruthless_model(),
{
    let t = TraitSpec {
        id: "ruthless",
        name: "Ruthless",
        description: "Targets with many statuses take extra damage.",
        triggers: single_rule(
            TriggerType::OnDamageDealt,
            all_of3(
                Condition::SrcIsPlayer,
                Condition::DstIsEnemy,
                Condition::TargetStatusCountAtLeast(2),
            ),
            EffectSpec::DealDamage { multiplier: 20, flat: 0 },
        ),
    };
    assert(t@.triggers =~= ruthless_model().triggers);
    t
}

pub fn shatterpoint() -> (t: TraitSpec)
    ensures
        t@ == shatterpoint_model(),
{
    let t = TraitSpec {
        id: "shatterpoint",
        name: "Shatterpoint",
        description: "Break on Frozen targets can apply Stun.",
        triggers: single_rule(
            TriggerType::OnStatusApplied,
            all_of2(Condition::SrcIsPlayer, Condition::AppliedStatusIs(StatusType::Break)),
            EffectSpec::ConditionalApplyStatus {
                condition: Condition::TargetHasStatus(StatusType::Freeze),
                status_type: StatusType::Stun,
                base_chance: 5000,
                duration: 1500,
                stacks: 1,
                power: 100,
            },
        ),
    };
    assert(t@.triggers =~= shatterpoint_model().triggers);
    t
}

/// Looks a trait up by its identifier.
pub fn trait_by_id(id: &str) -> (r: Option<TraitSpec>)
    ensures
        match r {
            Some(t) => trait_model_by_id(id@) == Some(t@),
            None => trait_model_by_id(id@) is None,
        },
{
    if str_eq(id, "cinder_scholar") {
        Some(cinder_scholar())
    } else if str_eq(id, "frozen_momentum") {
        Some(frozen_momentum())
    } else if str_eq(id, "overcharge") {
        Some(overcharge())
    } else if str_eq(id, "hemorrhage") {
        Some(hemorrhage())
    } else if str_eq(id, "ruthless") {
        Some(ruthless())
    } else if str_eq(id, "shatterpoint") {
        Some(shatterpoint())
    } else {
        None
    }
}

/// The traits every run starts with, in activation order.
pub open spec fn default_active_trait_ids() -> Seq<TraitId> {
    seq!["cinder_scholar", "frozen_momentum", "overcharge", "hemorrhage", "ruthless", "shatterpoint"]
}

/// The traits a player may pick, in display order.
pub open spec fn selectable_trait_id_list() -> Seq<TraitId> {
    seq!["cinder_scholar", "frozen_momentum", "overcharge", "ruthless", "shatterpoint"]
}

pub fn default_active_traits() -> (ids: Vec<TraitId>)
    ensures
        ids@ == default_active_trait_ids(),
{
    let mut ids: Vec<TraitId> = Vec::new();
    ids.push("cinder_scholar");
    ids.push("frozen_momentum");
    ids.push("overcharge");
    ids.push("hemorrhage");
    ids.push("ruthless");
    ids.push("shatterpoint");
    assert(ids@ =~= default_active_trait_ids());
    ids
}

pub fn selectable_traits() -> (ids: Vec<TraitId>)
    ensures
        ids@ == selectable_trait_id_list(),
{
    let mut ids: Vec<TraitId> = Vec::new();
    ids.push("cinder_scholar");
    ids.push("frozen_momentum");
    ids.push("overcharge");
    ids.push("ruthless");
    ids.push("shatterpoint");
    assert(ids@ =~= selectable_trait_id_list());
    ids
}

/// Display names of the known traits among the first `n` of `ids`, in order.
pub open spec fn trait_names_upto(ids: Seq<TraitId>, n: int) -> Seq<Seq<char>>
    decreases n,
{
    if n <= 0 || n > ids.len() {
        Seq::empty()
    } else {
        match trait_model_by_id(ids[n - 1]@) {
            Some(t) => trait_names_upto(ids, n - 1).push(t.name@),
            None => trait_names_upto(ids, n - 1),
        }
    }
}

/// Display names of the known traits among `ids`, in order; unknown identifiers are skipped.
pub open spec fn trait_names(ids: Seq<TraitId>) -> Seq<Seq<char>> {
    trait_names_upto(ids, ids.len() as int)
}

/// The identifiers themselves, as character sequences.
pub open spec fn id_texts(ids: Seq<TraitId>) -> Seq<Seq<char>> {
    Seq::new(ids.len(), |i: int| ids[i]@)
}

/// Display names of the traits named by `ids`; unknown identifiers are skipped.
pub fn active_trait_names(ids: &[TraitId]) -> (names: Vec<String>)
    ensures
        views(names@) == trait_names(ids@),
{
    let mut names: Vec<String> = Vec::new();
    let mut i: usize = 0;
    assert(views(names@) =~= trait_names_upto(ids@, 0));
    while i < ids.len()
        invariant
            i <= ids@.len(),
            views(names@) == trait_names_upto(ids@, i as int),
        decreases ids@.len() - i,
    {
        let ghost before = names@;
        match trait_by_id(ids[i]) {
            Some(t) => {
                names.push(t.name.to_owned());
                assert(views(names@) =~= views(before).push(t.name@));
            },
            None => {},
        }
        i = i + 1;
    }
    names
}

/// Display names of the selectable traits.
pub fn selectable_trait_names() -> (names: Vec<String>)
    ensures
        views(names@) == trait_names(selectable_trait_id_list()),
{
    let ids = selectable_traits();
    active_trait_names(ids.as_slice())
}

/// Identifiers of the selectable traits.
pub fn selectable_trait_ids() -> (out: Vec<String>)
    ensures
        views(out@) == id_texts(selectable_trait_id_list()),
{
    let ids = selectable_traits();
    let mut out: Vec<String> = Vec::new();
    let mut i: usize = 0;
    while i < ids.len()
        invariant
            i <= ids@.len(),
            out@.len() == i,
            forall|k: int| 0 <= k < i ==> (#[trigger] out@[k])@ == ids@[k]@,
        decreases ids@.len() - i,
    {
        out.push(ids[i].to_owned());
        i = i + 1;
    }
    assert(views(out@) =~= id_texts(ids@));
    out
}

} // verus!
