//! Status kinds, conditions, effects and the fixed catalog of skills.

use vstd::prelude::*;
use crate::text::str_eq;

verus! {

pub type SkillId = &'static str;

/// The kinds of timed, stacking modifier a unit can carry.
#[derive(Clone, Copy, Debug, PartialEq, Eq, Hash, Structural)]
pub enum StatusType {
    Burn,
    Freeze,
    Shock,
    Break,
    Bleed,
    Stun,
    Might,
    Haste,
}

impl StatusType {
    /// The display name of the status.
    pub open spec fn name(&self) -> &'static str {
        match self {
            StatusType::Burn => "Burn",
            StatusType::Freeze => "Freeze",
            StatusType::Shock => "Shock",
            StatusType::Break => "Break",
            StatusType::Bleed => "Bleed",
            StatusType::Stun => "Stun",
            StatusType::Might => "Might",
            StatusType::Haste => "Haste",
        }
    }

    /// Whether the status deals periodic damage.
    pub open spec fn ticks_damage(&self) -> bool {
        *self == StatusType::Burn || *self == StatusType::Shock || *self == StatusType::Bleed
    }

    #[verifier::when_used_as_spec(name)]
    pub fn as_str(&self) -> (r: &'static str)
        ensures
            r == self.name(),
    {
        match self {
            StatusType::Burn => "Burn",
            StatusType::Freeze => "Freeze",
            StatusType::Shock => "Shock",
            StatusType::Break => "Break",
            StatusType::Bleed => "Bleed",
            StatusType::Stun => "Stun",
            StatusType::Might => "Might",
            StatusType::Haste => "Haste",
        }
    }

    #[verifier::when_used_as_spec(ticks_damage)]
    pub fn deals_periodic_damage(&self) -> (r: bool)
        ensures
            r == self.ticks_damage(),
    {
        match self {
            StatusType::Burn | StatusType::Shock | StatusType::Bleed => true,
            _ => false,
        }
    }
}

/// A predicate over a trigger context. Chances and ratios are in ten-thousandths.
#[derive(Debug)]
pub enum Condition {
    Always,
    SrcIsPlayer,
    DstIsEnemy,
    AppliedStatusIs(StatusType),
    RandomRollBelow(i32),
    TargetHPBelow(i32),
    TargetHasStatus(StatusType),
    TargetStatusCountAtLeast(u32),
    /// Conjunction of every condition of the list.
    All(ConditionList),
}

/// An ordered list of conditions.
#[derive(Debug)]
pub enum ConditionList {
    Nil,
    Cons(Box<Condition>, Box<ConditionList>),
}

/// The stat a self-buff raises.
#[derive(Clone, Copy, Debug, PartialEq, Eq, Structural)]
pub enum StatType {
    Attack,
    Speed,
}

/// Whom an effect is aimed at.
#[derive(Clone, Copy, Debug, PartialEq, Eq, Structural)]
pub enum EffectTarget {
    Src,
    Dst,
    Player,
    Enemy,
}

/// The closed set of effect operations.
///
/// Multipliers are percentages, flat amounts and powers are hundredths,
/// chances ten-thousandths, durations milliseconds.
#[allow(inconsistent_fields)]
#[derive(Debug)]
pub enum EffectSpec {
    DealDamage { multiplier: u32, flat: i64 },
    ApplyStatus { status_type: StatusType, base_chance: i32, duration: i64, stacks: u32, power: i64 },
    ConditionalDamageAmp { condition: Condition, amp: u32 },
    ConditionalApplyStatus {
        condition: Condition,
        status_type: StatusType,
        base_chance: i32,
        duration: i64,
        stacks: u32,
        power: i64,
    },
    SelfBuff { stat: StatType, amount: i64, duration: i64 },
    AddProcBonus { amount: i32 },
    AddResBonus { amount: i32 },
    ModifyStatusPower { status_type: StatusType, mul: u32 },
    AddStatusStacks { target: EffectTarget, status_type: StatusType, stacks: u32 },
    DealPureDamage { target: EffectTarget, amount: i64 },
}

/// A skill: a damage multiplier, an optional flat bonus and an ordered effect list.
#[derive(Debug)]
pub struct SkillSpec {
    pub id: SkillId,
    pub name: &'static str,
    pub base_damage_multiplier: u32,
    pub flat_bonus_damage: Option<i64>,
    pub effects: Vec<EffectSpec>,
    pub tags: Vec<&'static str>,
}

/// What a [`SkillSpec`] holds, as mathematical values.
pub struct SkillModel {
    pub id: SkillId,
    pub name: &'static str,
    pub base_damage_multiplier: u32,
    pub flat_bonus_damage: Option<i64>,
    pub effects: Seq<EffectSpec>,
    pub tags: Seq<&'static str>,
}

impl View for SkillSpec {
    type V = SkillModel;

    open spec fn view(&self) -> SkillModel {
        SkillModel {
            id: self.id,
            name: self.name,
            base_damage_multiplier: self.base_damage_multiplier,
            flat_bonus_damage: self.flat_bonus_damage,
            effects: self.effects@,
            tags: self.tags@,
        }
    }
}

/// The list holding `a` then `b`.
pub open spec fn list2(a: Condition, b: Condition) -> ConditionList {
    ConditionList::Cons(
        Box::new(a),
        Box::new(ConditionList::Cons(Box::new(b), Box::new(ConditionList::Nil))),
    )
}

/// The list holding `a`, `b`, then `c`.
pub open spec fn list3(a: Condition, b: Condition, c: Condition) -> ConditionList {
    ConditionList::Cons(Box::new(a), Box::new(list2(b, c)))
}

/// Builds the conjunction of two conditions.
pub fn all_of2(a: Condition, b: Condition) -> (r: Condition)
    ensures
        r == Condition::All(list2(a, b)),
{
    Condition::All(
        ConditionList::Cons(
            Box::new(a),
            Box::new(ConditionList::Cons(Box::new(b), Box::new(ConditionList::Nil))),
        ),
    )
}

/// Builds the conjunction of three conditions.
pub fn all_of3(a: Condition, b: Condition, c: Condition) -> (r: Condition)
    ensures
        r == Condition::All(list3(a, b, c)),
{
    Condition::All(
        ConditionList::Cons(
            Box::new(a),
            Box::new(
                ConditionList::Cons(
                    Box::new(b),
                    Box::new(ConditionList::Cons(Box::new(c), Box::new(ConditionList::Nil))),
                ),
            ),
        ),
    )
}

/// The effects of a skill that hits for `multiplier` percent and may apply a status.
pub open spec fn strike_effects(
    multiplier: u32,
    status_type: StatusType,
    base_chance: i32,
    duration: i64,
) -> Seq<EffectSpec> {
    seq![
        EffectSpec::DealDamage { multiplier, flat: 0 },
        EffectSpec::ApplyStatus { status_type, base_chance, duration, stacks: 1, power: 100 },
    ]
}

pub open spec fn basic_attack_model() -> SkillModel {
    SkillModel {
        id: "basic_attack",
        name: "Basic Attack",
        base_damage_multiplier: 100,
        flat_bonus_damage: None,
        effects: seq![EffectSpec::DealDamage { multiplier: 100, flat: 0 }],
        tags: seq!["basic", "physical"],
    }
}

pub open spec fn ember_lash_model() -> SkillModel {
    SkillModel {
        id: "ember_lash",
        name: "Ember Lash",
        base_damage_multiplier: 100,
        flat_bonus_damage: None,
        effects: strike_effects(100, StatusType::Burn, 3500, 4000),
        tags: seq!["skill", "fire"],
    }
}

pub open spec fn frost_bite_model() -> SkillModel {
    SkillModel {
        id: "frost_bite",
        name: "Frost Bite",
        base_damage_multiplier: 100,
        flat_bonus_damage: None,
        effects: strike_effects(90, StatusType::Freeze, 3000, 3500),
        tags: seq!["skill", "ice"],
    }
}

pub open spec fn arc_jolt_model() -> SkillModel {
    SkillModel {
        id: "arc_jolt",
        name: "Arc Jolt",
        base_damage_multiplier: 100,
        flat_bonus_damage: None,
        effects: strike_effects(80, StatusType::Shock, 4000, 4000),
        tags: seq!["skill", "lightning"],
    }
}

pub open spec fn ruin_strike_model() -> SkillModel {
    SkillModel {
        id: "ruin_strike",
        name: "Ruin Strike",
        base_damage_multiplier: 100,
        flat_bonus_damage: None,
        effects: strike_effects(110, StatusType::Break, 3500, 6000),
        tags: seq!["skill", "debuff"],
    }
}

/// The skill registered under `id`, if any.
pub open spec fn skill_model_by_id(id: Seq<char>) -> Option<SkillModel> {
    if id == "basic_attack"@ {
        Some(basic_attack_model())
    } else if id == "ember_lash"@ {
        Some(ember_lash_model())
    } else if id == "frost_bite"@ {
        Some(frost_bite_model())
    } else if id == "arc_jolt"@ {
        Some(arc_jolt_model())
    } else if id == "ruin_strike"@ {
        Some(ruin_strike_model())
    } else {
        None
    }
}

/// The skill bound to a player slot; slots past the last select the last.
pub open spec fn slot_skill_model(slot: u32) -> SkillModel {
    if slot == 0 {
        ember_lash_model()
    } else if slot == 1 {
        frost_bite_model()
    } else if slot == 2 {
        arc_jolt_model()
    } else {
        ruin_strike_model()
    }
}

fn strike(multiplier: u32, status_type: StatusType, base_chance: i32, duration: i64) -> (r: Vec<
    EffectSpec,
>)
    ensures
        r@ == strike_effects(multiplier, status_type, base_chance, duration),
{
    let mut effects: Vec<EffectSpec> = Vec::new();
    effects.push(EffectSpec::DealDamage { multiplier, flat: 0 });
    effects.push(
        EffectSpec::ApplyStatus { status_type, base_chance, duration, stacks: 1, power: 100 },
    );
    assert(effects@ =~= strike_effects(multiplier, status_type, base_chance, duration));
    effects
}

fn tag_pair(a: &'static str, b: &'static str) -> (r: Vec<&'static str>)
    ensures
        r@ == seq![a, b],
{
    let mut tags: Vec<&'static str> = Vec::new();
    tags.push(a);
    tags.push(b);
    assert(tags@ =~= seq![a, b]);
    tags
}

pub fn basic_attack() -> (s: SkillSpec)
    ensures
        s@ == basic_attack_model(),
{
    let mut effects: Vec<EffectSpec> = Vec::new();
    effects.push(EffectSpec::DealDamage { multiplier: 100, flat: 0 });
    assert(effects@ =~= seq![EffectSpec::DealDamage { multiplier: 100, flat: 0 }]);
    SkillSpec {
        id: "basic_attack",
        name: "Basic Attack",
        base_damage_multiplier: 100,
        flat_bonus_damage: None,
        effects,
        tags: tag_pair("basic", "physical"),
    }
}

pub fn ember_lash() -> (s: SkillSpec)
    ensures
        s@ == ember_lash_model(),
{
    SkillSpec {
        id: "ember_lash",
        name: "Ember Lash",
        base_damage_multiplier: 100,
        flat_bonus_damage: None,
        effects: strike(100, StatusType::Burn, 3500, 4000),
        tags: tag_pair("skill", "fire"),
    }
}

pub fn frost_bite() -> (s: SkillSpec)
    ensures
        s@ == frost_bite_model(),
{
    SkillSpec {
        id: "frost_bite",
        name: "Frost Bite",
        base_damage_multiplier: 100,
        flat_bonus_damage: None,
        effects: strike(90, StatusType::Freeze, 3000, 3500),
        tags: tag_pair("skill", "ice"),
    }
}

pub fn arc_jolt() -> (s: SkillSpec)
    ensures
        s@ == arc_jolt_model(),
{
    SkillSpec {
        id: "arc_jolt",
        name: "Arc Jolt",
        base_damage_multiplier: 100,
        flat_bonus_damage: None,
        effects: strike(80, StatusType::Shock, 4000, 4000),
        tags: tag_pair("skill", "lightning"),
    }
}

pub fn ruin_strike() -> (s: SkillSpec)
    ensures
        s@ == ruin_strike_model(),
{
    SkillSpec {
        id: "ruin_strike",
        name: "Ruin Strike",
        base_damage_multiplier: 100,
        flat_bonus_damage: None,
        effects: strike(110, StatusType::Break, 3500, 6000),
        tags: tag_pair("skill", "debuff"),
    }
}

/// Looks a skill up by its identifier.
pub fn skill_by_id(id: &str) -> (r: Option<SkillSpec>)
    ensures
        match r {
            Some(s) => skill_model_by_id(id@) == Some(s@),
            None => skill_model_by_id(id@) is None,
        },
{
    if str_eq(id, "basic_attack") {
        Some(basic_attack())
    } else if str_eq(id, "ember_lash") {
        Some(ember_lash())
    } else if str_eq(id, "frost_bite") {
        Some(frost_bite())
    } else if str_eq(id, "arc_jolt") {
        Some(arc_jolt())
    } else if str_eq(id, "ruin_strike") {
        Some(ruin_strike())
    } else {
        None
    }
}

/// Number of skill slots the player has.
pub const PLAYER_SLOT_COUNT: u32 = 4;

/// Identifier of the skill bound to a slot; slots past the last select the last.
pub open spec fn slot_skill_id(slot: u32) -> SkillId {
    if slot == 0 {
        "ember_lash"
    } else if slot == 1 {
        "frost_bite"
    } else if slot == 2 {
        "arc_jolt"
    } else {
        "ruin_strike"
    }
}

/// The catalog holds every slot's skill under its identifier.
pub proof fn lemma_slot_skills_registered(slot: u32)
    ensures
        skill_model_by_id(slot_skill_id(slot)@) == Some(slot_skill_model(slot)),
        slot_skill_model(slot).id == slot_skill_id(slot),
{
    reveal_strlit("basic_attack");
    reveal_strlit("ember_lash");
    reveal_strlit("frost_bite");
    reveal_strlit("arc_jolt");
    reveal_strlit("ruin_strike");
    assert("ember_lash"@.len() != "basic_attack"@.len());
    assert("frost_bite"@.len() != "basic_attack"@.len());
    assert("arc_jolt"@.len() != "basic_attack"@.len());
    assert("ruin_strike"@.len() != "basic_attack"@.len());
    assert("frost_bite"@[0] != "ember_lash"@[0]);
    assert("arc_jolt"@.len() != "ember_lash"@.len());
    assert("arc_jolt"@.len() != "frost_bite"@.len());
    assert("ruin_strike"@.len() != "ember_lash"@.len());
    assert("ruin_strike"@.len() != "frost_bite"@.len());
    assert("ruin_strike"@.len() != "arc_jolt"@.len());
}

/// Identifier of the skill bound to a player slot.
pub fn player_slot_skill_id(slot: u32) -> (id: SkillId)
    ensures
        id == slot_skill_id(slot),
{
    if slot == 0 {
        "ember_lash"
    } else if slot == 1 {
        "frost_bite"
    } else if slot == 2 {
        "arc_jolt"
    } else {
        "ruin_strike"
    }
}

/// The skill bound to a player slot; an out-of-range slot selects the last one.
pub fn player_skill_for_slot(slot: u32) -> (s: SkillSpec)
    ensures
        s@ == slot_skill_model(slot),
{
    proof {
        lemma_slot_skills_registered(slot);
    }
    match skill_by_id(player_slot_skill_id(slot)) {
        Some(s) => s,
        None => basic_attack(),
    }
}

/// Display names of the player's slot skills, in slot order.
pub fn player_skill_names() -> (names: Vec<String>)
    ensures
        names@.len() == PLAYER_SLOT_COUNT,
        forall|i: int|
            0 <= i < PLAYER_SLOT_COUNT ==> (#[trigger] names@[i])@ == slot_skill_model(
                i as u32,
            ).name@,
{
    let mut names: Vec<String> = Vec::new();
    let mut slot: u32 = 0;
    while slot < PLAYER_SLOT_COUNT
        invariant
            slot <= PLAYER_SLOT_COUNT,
            names@.len() == slot,
            forall|i: int|
                0 <= i < slot ==> (#[trigger] names@[i])@ == slot_skill_model(i as u32).name@,
        decreases PLAYER_SLOT_COUNT - slot,
    {
        let skill = player_skill_for_slot(slot);
        names.push(skill.name.to_owned());
        slot = slot + 1;
    }
    names
}

} // verus!
