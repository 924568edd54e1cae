use gauge_battle::skill::{
    player_skill_for_slot, player_skill_names, skill_by_id, Condition, ConditionList, EffectSpec,
    StatusType,
};
use gauge_battle::trait_spec::{
    active_trait_names, default_active_traits, selectable_trait_ids, selectable_trait_names,
    trait_by_id, TriggerType,
};

#[test]
fn status_names() {
    assert_eq!(StatusType::Burn.as_str(), "Burn");
    assert_eq!(StatusType::Freeze.as_str(), "Freeze");
    assert_eq!(StatusType::Shock.as_str(), "Shock");
    assert_eq!(StatusType::Break.as_str(), "Break");
    assert_eq!(StatusType::Bleed.as_str(), "Bleed");
    assert_eq!(StatusType::Stun.as_str(), "Stun");
    assert_eq!(StatusType::Might.as_str(), "Might");
    assert_eq!(StatusType::Haste.as_str(), "Haste");
}

#[test]
fn trigger_names() {
    assert_eq!(TriggerType::OnBattleStart.as_str(), "OnBattleStart");
    assert_eq!(TriggerType::OnTurnStart.as_str(), "OnTurnStart");
    assert_eq!(TriggerType::OnActionUsed.as_str(), "OnActionUsed");
    assert_eq!(TriggerType::OnDamageDealt.as_str(), "OnDamageDealt");
    assert_eq!(TriggerType::OnStatusApplied.as_str(), "OnStatusApplied");
    assert_eq!(TriggerType::OnStatusTick.as_str(), "OnStatusTick");
    assert_eq!(TriggerType::OnBattleEnd.as_str(), "OnBattleEnd");
}

#[test]
fn only_three_statuses_deal_periodic_damage() {
    assert!(StatusType::Burn.deals_periodic_damage());
    assert!(StatusType::Shock.deals_periodic_damage());
    assert!(StatusType::Bleed.deals_periodic_damage());
    assert!(!StatusType::Freeze.deals_periodic_damage());
    assert!(!StatusType::Break.deals_periodic_damage());
    assert!(!StatusType::Stun.deals_periodic_damage());
    assert!(!StatusType::Might.deals_periodic_damage());
    assert!(!StatusType::Haste.deals_periodic_damage());
}

#[test]
fn skills_are_found_by_id() {
    let basic = skill_by_id("basic_attack").expect("basic attack");
    assert_eq!(basic.name, "Basic Attack");
    assert_eq!(basic.base_damage_multiplier, 100);
    assert_eq!(basic.flat_bonus_damage, None);
    assert_eq!(basic.effects.len(), 1);
    assert!(matches!(basic.effects[0], EffectSpec::DealDamage { multiplier: 100, flat: 0 }));
    assert_eq!(basic.tags, vec!["basic", "physical"]);
    assert_eq!(skill_by_id("ember_lash").expect("ember").name, "Ember Lash");
    assert_eq!(skill_by_id("frost_bite").expect("frost").name, "Frost Bite");
    assert_eq!(skill_by_id("arc_jolt").expect("arc").name, "Arc Jolt");
    assert_eq!(skill_by_id("ruin_strike").expect("ruin").name, "Ruin Strike");
    assert!(skill_by_id("nope").is_none());
    assert!(skill_by_id("").is_none());
}

#[test]
fn skill_effects_carry_the_catalog_numbers() {
    let frost = skill_by_id("frost_bite").expect("frost");
    assert_eq!(frost.effects.len(), 2);
    assert!(matches!(frost.effects[0], EffectSpec::DealDamage { multiplier: 90, flat: 0 }));
    assert!(matches!(
        frost.effects[1],
        EffectSpec::ApplyStatus {
            status_type: StatusType::Freeze,
            base_chance: 3000,
            duration: 3500,
            stacks: 1,
            power: 100
        }
    ));
    let arc = skill_by_id("arc_jolt").expect("arc");
    assert!(matches!(arc.effects[0], EffectSpec::DealDamage { multiplier: 80, flat: 0 }));
    assert!(matches!(
        arc.effects[1],
        EffectSpec::ApplyStatus {
            status_type: StatusType::Shock,
            base_chance: 4000,
            duration: 4000,
            stacks: 1,
            power: 100
        }
    ));
    let ruin = skill_by_id("ruin_strike").expect("ruin");
    assert!(matches!(ruin.effects[0], EffectSpec::DealDamage { multiplier: 110, flat: 0 }));
    let ember = skill_by_id("ember_lash").expect("ember");
    assert!(matches!(
        ember.effects[1],
        EffectSpec::ApplyStatus {
            status_type: StatusType::Burn,
            base_chance: 3500,
            duration: 4000,
            stacks: 1,
            power: 100
        }
    ));
}

#[test]
fn slots_select_skills_and_clamp() {
    assert_eq!(player_skill_for_slot(0).id, "ember_lash");
    assert_eq!(player_skill_for_slot(1).id, "frost_bite");
    assert_eq!(player_skill_for_slot(2).id, "arc_jolt");
    assert_eq!(player_skill_for_slot(3).id, "ruin_strike");
    assert_eq!(player_skill_for_slot(4).id, "ruin_strike");
    assert_eq!(player_skill_for_slot(u32::MAX).id, "ruin_strike");
}

#[test]
fn player_skill_names_in_slot_order() {
    assert_eq!(
        player_skill_names(),
        vec!["Ember Lash", "Frost Bite", "Arc Jolt", "Ruin Strike"]
    );
}

#[test]
fn traits_are_found_by_id() {
    let overcharge = trait_by_id("overcharge").expect("overcharge");
    assert_eq!(overcharge.name, "Overcharge");
    assert_eq!(overcharge.description, "Shock application deals pure bonus damage.");
    assert_eq!(overcharge.triggers.len(), 1);
    assert_eq!(overcharge.triggers[0].trigger, TriggerType::OnStatusApplied);
    assert!(matches!(overcharge.triggers[0].effects[0], EffectSpec::DealPureDamage { amount: 300, .. }));
    match &overcharge.triggers[0].condition {
        Condition::All(ConditionList::Cons(first, rest)) => {
            assert!(matches!(**first, Condition::SrcIsPlayer));
            match &**rest {
                ConditionList::Cons(second, tail) => {
                    assert!(matches!(**second, Condition::AppliedStatusIs(StatusType::Shock)));
                    assert!(matches!(**tail, ConditionList::Nil));
                }
                ConditionList::Nil => panic!("a second condition is expected"),
            }
        }
        _ => panic!("a conjunction is expected"),
    }
    assert_eq!(trait_by_id("cinder_scholar").expect("cinder").name, "Cinder Scholar");
    assert_eq!(trait_by_id("frozen_momentum").expect("frozen").name, "Frozen Momentum");
    assert_eq!(trait_by_id("hemorrhage").expect("hemorrhage").name, "Hemorrhage");
    assert_eq!(trait_by_id("ruthless").expect("ruthless").name, "Ruthless");
    assert_eq!(trait_by_id("shatterpoint").expect("shatterpoint").name, "Shatterpoint");
    assert!(trait_by_id("Overcharge").is_none());
    assert!(trait_by_id("").is_none());
}

#[test]
fn trait_rules_carry_the_catalog_numbers() {
    let cinder = trait_by_id("cinder_scholar").expect("cinder");
    assert!(matches!(
        cinder.triggers[0].effects[0],
        EffectSpec::ModifyStatusPower { status_type: StatusType::Burn, mul: 125 }
    ));
    let hemorrhage = trait_by_id("hemorrhage").expect("hemorrhage");
    assert_eq!(hemorrhage.triggers[0].trigger, TriggerType::OnDamageDealt);
    assert!(matches!(
        hemorrhage.triggers[0].effects[0],
        EffectSpec::DealDamage { multiplier: 15, flat: 0 }
    ));
    let ruthless = trait_by_id("ruthless").expect("ruthless");
    assert!(matches!(
        ruthless.triggers[0].effects[0],
        EffectSpec::DealDamage { multiplier: 20, flat: 0 }
    ));
    let shatter = trait_by_id("shatterpoint").expect("shatterpoint");
    assert!(matches!(
        shatter.triggers[0].effects[0],
        EffectSpec::ConditionalApplyStatus {
            condition: Condition::TargetHasStatus(StatusType::Freeze),
            status_type: StatusType::Stun,
            base_chance: 5000,
            duration: 1500,
            stacks: 1,
            power: 100
        }
    ));
}

#[test]
fn trait_names_skip_unknown_ids() {
    let names = active_trait_names(&["ruthless", "nobody", "overcharge"]);
    assert_eq!(names, vec!["Ruthless", "Overcharge"]);
    assert!(active_trait_names(&[]).is_empty());
}

#[test]
fn selectable_traits_leave_out_hemorrhage() {
    assert_eq!(
        selectable_trait_ids(),
        vec!["cinder_scholar", "frozen_momentum", "overcharge", "ruthless", "shatterpoint"]
    );
    assert_eq!(
        selectable_trait_names(),
        vec!["Cinder Scholar", "Frozen Momentum", "Overcharge", "Ruthless", "Shatterpoint"]
    );
    assert_eq!(
        default_active_traits(),
        vec![
            "cinder_scholar",
            "frozen_momentum",
            "overcharge",
            "hemorrhage",
            "ruthless",
            "shatterpoint"
        ]
    );
}
