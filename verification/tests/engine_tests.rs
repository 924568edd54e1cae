use gauge_battle::battle::create_battle;
use gauge_battle::engine::combat_state::{has_distinct_types, Combat, TriggerContext};
use gauge_battle::engine::status_system::{buff_stacks_for, buff_status_for, duration_seconds};
use gauge_battle::engine::trait_system::trait_damage_for;
use gauge_battle::engine::turn_system::{
    amp_after_for, find_ready, gauge_after_for, skill_damage_for, ActionKind, TurnStop,
};
use gauge_battle::event::{EffectSummary, Event};
use gauge_battle::model::{BattleOutcome, Team};
use gauge_battle::rng::SimpleRng;
use gauge_battle::skill::{
    all_of2, skill_by_id, Condition, EffectSpec, EffectTarget, SkillSpec, StatType, StatusType,
};
use gauge_battle::trait_spec::TriggerType;

const FULL: u64 = 10_000_000_000;

fn arena(traits: Vec<&'static str>) -> Combat {
    Combat::new(create_battle(14000, 14000, 17, 3500, 1, 8400, 11, 2800), SimpleRng::new(42), traits)
}

fn duel_context(trigger_type: TriggerType) -> TriggerContext {
    TriggerContext { trigger_type, src_idx: Some(0), dst_idx: Some(1), applied_status: None }
}

#[test]
fn a_new_arena_has_fresh_ledgers() {
    let combat = arena(vec!["overcharge"]);
    assert_eq!(combat.unit_count(), 2);
    assert_eq!(combat.runtime.len(), 2);
    assert_eq!(combat.sim_tick(), 0);
    assert!(combat.events.is_empty());
    assert!(combat.runtime[0].statuses.is_empty());
    assert_eq!(combat.runtime[1].proc_bonus, 0);
    assert_eq!(combat.runtime[1].res_bonus, 0);
    assert_eq!(combat.status_power_mul_for(0, StatusType::Burn), 100);
    assert_eq!(combat.actor_label_for_idx(0), "player");
    assert_eq!(combat.actor_label_for_idx(1), "enemy");
    assert_eq!(combat.traits, vec!["overcharge"]);
}

#[test]
fn damage_lowers_hit_points_and_is_reported() {
    let mut combat = arena(vec![]);
    combat.state.tick = 7;
    combat.apply_damage(0, 1, 1700, 0);
    assert_eq!(combat.state.units[1].hp, 6700);
    assert_eq!(combat.state.units[0].hp, 14000);
    assert_eq!(combat.events.len(), 1);
    assert_eq!(combat.events[0].tick, 7);
    assert!(matches!(
        combat.events[0].event,
        Event::DamageDealt { src: "player", dst: "enemy", amount: 1700, dst_hp_after: 6700 }
    ));
}

#[test]
fn damage_is_at_least_the_minimum_and_hit_points_stop_at_zero() {
    let mut combat = arena(vec![]);
    combat.apply_damage(1, 0, 0, 0);
    assert_eq!(combat.state.units[0].hp, 13999);
    combat.apply_damage(1, 0, -50, 0);
    assert_eq!(combat.state.units[0].hp, 13998);
    combat.apply_damage(1, 0, 1_000_000, 0);
    assert_eq!(combat.state.units[0].hp, 0);
    assert!(matches!(
        combat.events[2].event,
        Event::DamageDealt { amount: 1_000_000, dst_hp_after: 0, .. }
    ));
}

#[test]
fn a_certain_status_lands_without_a_draw() {
    let mut combat = arena(vec![]);
    let before = combat.rng.state;
    combat.apply_status(0, 1, StatusType::Freeze, 10_000, 3500, 1, 100, 0);
    assert_eq!(combat.rng.state, before);
    assert_eq!(combat.runtime[1].statuses.len(), 1);
    let status = combat.runtime[1].statuses[0];
    assert_eq!(status.status_type, StatusType::Freeze);
    assert_eq!(status.stacks, 1);
    assert_eq!(status.duration, 3500);
    assert_eq!(status.power, 100);
    assert_eq!(status.tick_meter, 0);
    assert!(matches!(
        combat.events[0].event,
        Event::StatusApplied { src: "player", dst: "enemy", status: "Freeze", stacks: 1, duration: 4 }
    ));
}

#[test]
fn an_impossible_status_fails_without_a_draw() {
    let mut combat = arena(vec![]);
    let before = combat.rng.state;
    combat.apply_status(0, 1, StatusType::Burn, 0, 4000, 1, 100, 0);
    combat.apply_status(0, 1, StatusType::Burn, -500, 4000, 1, 100, 0);
    assert_eq!(combat.rng.state, before);
    assert!(combat.runtime[1].statuses.is_empty());
    assert!(combat.events.is_empty());
}

#[test]
fn a_roll_succeeds_when_the_draw_is_below_the_chance() {
    // The first draw of seed 42 is 2522317329, that is 0.58727.. of the largest draw.
    let mut combat = arena(vec![]);
    assert!(!combat.roll_success(5872));
    let mut combat = arena(vec![]);
    assert!(combat.roll_success(5873));
    let mut combat = arena(vec![]);
    let before = combat.rng.state;
    assert!(!combat.roll_success(0));
    assert!(combat.roll_success(10_000));
    assert!(combat.roll_success(20_000));
    assert!(!combat.roll_success(-1));
    assert_eq!(combat.rng.state, before);
}

#[test]
fn the_status_chance_adds_proc_bonus_and_subtracts_resistance() {
    // Base 0.50 + 0.10 proc - 0.02 resistance = 0.58 < 0.58727: the status misses.
    let mut combat = arena(vec![]);
    combat.add_proc_bonus(0, 1000);
    combat.add_res_bonus(1, 200);
    combat.apply_status(0, 1, StatusType::Burn, 5000, 4000, 1, 100, 0);
    assert!(combat.runtime[1].statuses.is_empty());
    // Base 0.50 + 0.10 proc - 0.01 resistance = 0.59 > 0.58727: the status lands.
    let mut combat = arena(vec![]);
    combat.add_proc_bonus(0, 1000);
    combat.add_res_bonus(1, 100);
    combat.apply_status(0, 1, StatusType::Burn, 5000, 4000, 1, 100, 0);
    assert_eq!(combat.runtime[1].statuses.len(), 1);
    // The bonuses of the other side do not count.
    let mut combat = arena(vec![]);
    combat.add_proc_bonus(1, 5000);
    combat.add_res_bonus(0, 5000);
    combat.apply_status(0, 1, StatusType::Burn, 5000, 4000, 1, 100, 0);
    assert!(combat.runtime[1].statuses.is_empty());
}

#[test]
fn reapplying_a_status_merges_into_its_entry() {
    let mut combat = arena(vec![]);
    combat.apply_status(0, 1, StatusType::Burn, 10_000, 4000, 2, 100, 0);
    combat.apply_status(0, 1, StatusType::Freeze, 10_000, 3000, 1, 100, 0);
    combat.apply_status(0, 1, StatusType::Burn, 10_000, 1000, 3, 50, 0);
    assert_eq!(combat.runtime[1].statuses.len(), 2);
    let burn = combat.runtime[1].statuses[0];
    assert_eq!(burn.status_type, StatusType::Burn);
    assert_eq!(burn.stacks, 5);
    assert_eq!(burn.duration, 4000);
    assert_eq!(burn.power, 100);
    combat.apply_status(0, 1, StatusType::Burn, 10_000, 9000, 1, 300, 0);
    let burn = combat.runtime[1].statuses[0];
    assert_eq!(burn.stacks, 6);
    assert_eq!(burn.duration, 9000);
    assert_eq!(burn.power, 300);
    assert_eq!(combat.runtime[1].statuses[1].status_type, StatusType::Freeze);
}

#[test]
fn applying_twice_in_a_row_never_lowers_the_entry() {
    for (duration, stacks, power) in [(4000i64, 1u32, 100i64), (50, 0, -5), (1, u32::MAX, 7)] {
        let mut combat = arena(vec![]);
        combat.apply_status(0, 1, StatusType::Bleed, 10_000, duration, stacks, power, 0);
        let once = combat.runtime[1].statuses[0];
        combat.apply_status(0, 1, StatusType::Bleed, 10_000, duration, stacks, power, 0);
        assert_eq!(combat.runtime[1].statuses.len(), 1);
        let twice = combat.runtime[1].statuses[0];
        assert!(twice.stacks >= once.stacks);
        assert!(twice.duration >= once.duration);
        assert!(twice.power >= once.power);
    }
}

#[test]
fn stacks_saturate_and_start_at_one() {
    let mut combat = arena(vec![]);
    combat.apply_status(0, 1, StatusType::Break, 10_000, 1000, 0, 100, 0);
    assert_eq!(combat.runtime[1].statuses[0].stacks, 1);
    combat.apply_status(0, 1, StatusType::Break, 10_000, 1000, u32::MAX, 100, 0);
    assert_eq!(combat.runtime[1].statuses[0].stacks, u32::MAX);
}

#[test]
fn a_new_status_lasts_at_least_a_tenth_of_a_second() {
    let mut combat = arena(vec![]);
    combat.apply_status(0, 1, StatusType::Stun, 10_000, 0, 1, 100, 0);
    assert_eq!(combat.runtime[1].statuses[0].duration, 100);
    assert!(matches!(combat.events[0].event, Event::StatusApplied { duration: 0, .. }));
}

#[test]
fn reported_durations_are_whole_seconds() {
    assert_eq!(duration_seconds(4000), 4);
    assert_eq!(duration_seconds(3500), 4);
    assert_eq!(duration_seconds(1500), 2);
    assert_eq!(duration_seconds(1499), 1);
    assert_eq!(duration_seconds(499), 0);
    assert_eq!(duration_seconds(-3000), 0);
    assert_eq!(duration_seconds(i64::MAX), u32::MAX);
}

#[test]
fn self_buffs_grant_might_or_haste() {
    assert_eq!(buff_status_for(StatType::Attack), StatusType::Might);
    assert_eq!(buff_status_for(StatType::Speed), StatusType::Haste);
    assert_eq!(buff_stacks_for(250), 2);
    assert_eq!(buff_stacks_for(100), 1);
    assert_eq!(buff_stacks_for(30), 1);
    assert_eq!(buff_stacks_for(-400), 1);
    assert_eq!(buff_stacks_for(i64::MAX), u32::MAX);
}

#[test]
fn power_multipliers_only_go_up_and_have_a_floor() {
    let mut combat = arena(vec![]);
    combat.update_status_power_mul(0, StatusType::Burn, 125);
    assert_eq!(combat.status_power_mul_for(0, StatusType::Burn), 125);
    combat.update_status_power_mul(0, StatusType::Burn, 110);
    assert_eq!(combat.status_power_mul_for(0, StatusType::Burn), 125);
    combat.update_status_power_mul(0, StatusType::Burn, 0);
    assert_eq!(combat.status_power_mul_for(0, StatusType::Burn), 125);
    assert_eq!(combat.status_power_mul_for(0, StatusType::Shock), 100);
    assert_eq!(combat.status_power_mul_for(1, StatusType::Burn), 100);
    combat.runtime[1].status_power_mult.store(StatusType::Bleed, 3);
    assert_eq!(combat.status_power_mul_for(1, StatusType::Bleed), 10);
    combat.update_status_power_mul(1, StatusType::Bleed, 4);
    assert_eq!(combat.runtime[1].status_power_mult.value(StatusType::Bleed), 10);
}

#[test]
fn the_power_of_a_status_is_scaled_by_the_multiplier_of_its_source() {
    let mut combat = arena(vec![]);
    combat.update_status_power_mul(0, StatusType::Shock, 150);
    combat.apply_status(0, 1, StatusType::Shock, 10_000, 4000, 1, 100, 0);
    assert_eq!(combat.runtime[1].statuses[0].power, 150);
    combat.apply_status(1, 0, StatusType::Shock, 10_000, 4000, 1, 100, 0);
    assert_eq!(combat.runtime[0].statuses[0].power, 100);
}

#[test]
fn overcharge_answers_a_shock_with_pure_damage() {
    let mut combat = arena(vec!["overcharge"]);
    combat.apply_status(0, 1, StatusType::Shock, 10_000, 4000, 1, 100, 0);
    assert_eq!(combat.events.len(), 4);
    assert!(matches!(combat.events[0].event, Event::StatusApplied { status: "Shock", .. }));
    assert!(matches!(
        combat.events[1].event,
        Event::TraitTriggered { trait_name: "Overcharge", trigger_type: "OnStatusApplied" }
    ));
    assert!(matches!(
        combat.events[2].event,
        Event::DamageDealt { src: "player", dst: "enemy", amount: 300, dst_hp_after: 8100 }
    ));
    assert!(matches!(
        combat.events[3].event,
        Event::TraitEffectApplied {
            trait_name: "Overcharge",
            effect_summary: EffectSummary::DealPureDamage { amount: 300 }
        }
    ));
    assert_eq!(combat.state.units[1].hp, 8100);
}

#[test]
fn overcharge_ignores_a_shock_from_the_enemy_and_other_statuses() {
    let mut combat = arena(vec!["overcharge"]);
    combat.apply_status(1, 0, StatusType::Shock, 10_000, 4000, 1, 100, 0);
    combat.apply_status(0, 1, StatusType::Burn, 10_000, 4000, 1, 100, 0);
    assert_eq!(combat.events.len(), 2);
    assert_eq!(combat.state.units[0].hp, 14000);
    assert_eq!(combat.state.units[1].hp, 8400);
}

#[test]
fn cinder_scholar_boosts_the_burn_that_fired_it() {
    let mut combat = arena(vec!["cinder_scholar"]);
    combat.apply_status(0, 1, StatusType::Burn, 10_000, 4000, 1, 100, 0);
    assert_eq!(combat.status_power_mul_for(0, StatusType::Burn), 125);
    assert_eq!(combat.runtime[1].statuses[0].power, 125);
    assert!(matches!(
        combat.events[2].event,
        Event::TraitEffectApplied {
            trait_name: "Cinder Scholar",
            effect_summary: EffectSummary::ModifyStatusPower { status: StatusType::Burn, mul: 125 }
        }
    ));
    combat.apply_status(0, 1, StatusType::Burn, 10_000, 4000, 1, 200, 0);
    assert_eq!(combat.runtime[1].statuses[0].power, 250);
    assert_eq!(combat.runtime[1].statuses[0].stacks, 2);
}

#[test]
fn frozen_momentum_adds_a_break_stack() {
    let mut combat = arena(vec!["frozen_momentum"]);
    combat.apply_status(0, 1, StatusType::Freeze, 10_000, 3500, 1, 100, 0);
    let row = &combat.runtime[1].statuses;
    assert_eq!(row.len(), 2);
    assert_eq!(row[0].status_type, StatusType::Freeze);
    assert_eq!(row[1].status_type, StatusType::Break);
    assert_eq!(row[1].stacks, 1);
    assert_eq!(row[1].duration, 1000);
    assert_eq!(row[1].power, 100);
    assert!(matches!(
        combat.events[3].event,
        Event::TraitEffectApplied {
            effect_summary: EffectSummary::AddStatusStacks { status: StatusType::Break, stacks: 1 },
            ..
        }
    ));
}

#[test]
fn shatterpoint_may_stun_a_frozen_target_that_breaks() {
    // Break on a frozen enemy: the stun has an even chance; seed 42 draws 0.587, a miss.
    let mut combat = arena(vec!["shatterpoint"]);
    combat.apply_status(0, 1, StatusType::Freeze, 10_000, 3500, 1, 100, 0);
    combat.apply_status(0, 1, StatusType::Break, 10_000, 6000, 1, 100, 0);
    assert!(!combat.has_status(1, StatusType::Stun));
    // With a proc bonus of 0.10 the same draw is a hit.
    let mut combat = arena(vec!["shatterpoint"]);
    combat.add_proc_bonus(0, 1000);
    combat.apply_status(0, 1, StatusType::Freeze, 10_000, 3500, 1, 100, 0);
    combat.apply_status(0, 1, StatusType::Break, 10_000, 6000, 1, 100, 0);
    assert!(combat.has_status(1, StatusType::Stun));
    // Without the freeze the condition fails and nothing is drawn.
    let mut combat = arena(vec!["shatterpoint"]);
    let before = combat.rng.state;
    combat.apply_status(0, 1, StatusType::Break, 10_000, 6000, 1, 100, 0);
    assert!(!combat.has_status(1, StatusType::Stun));
    assert_eq!(combat.rng.state, before);
}

#[test]
fn a_chain_of_reactions_is_cut_off_at_depth_four() {
    // Hemorrhage answers a hit on a bleeding enemy with a hit, which fires it again.
    let mut combat = arena(vec!["hemorrhage"]);
    combat.apply_status(0, 1, StatusType::Bleed, 10_000, 4000, 1, 100, 0);
    combat.events.clear();
    combat.apply_damage(0, 1, 1700, 0);
    let kinds: Vec<&str> = combat
        .events
        .iter()
        .map(|r| match r.event {
            Event::DamageDealt { .. } => "damage",
            Event::TraitTriggered { .. } => "triggered",
            Event::TraitEffectApplied { .. } => "applied",
            _ => "other",
        })
        .collect();
    assert_eq!(kinds, vec!["damage", "triggered", "damage", "triggered", "applied"]);
    assert!(matches!(combat.events[2].event, Event::DamageDealt { amount: 255, .. }));
    assert_eq!(combat.state.units[1].hp, 8400 - 1700 - 255);
}

#[test]
fn nothing_reacts_at_the_depth_limit() {
    let mut combat = arena(vec!["hemorrhage", "overcharge"]);
    combat.apply_status(0, 1, StatusType::Bleed, 10_000, 4000, 1, 100, 4);
    combat.apply_status(0, 1, StatusType::Shock, 10_000, 4000, 1, 100, 3);
    combat.apply_damage(0, 1, 100, 3);
    combat.apply_damage(0, 1, 100, 200);
    assert_eq!(combat.events.len(), 4);
    let before = combat.events.len();
    combat.process_trait_triggers(duel_context(TriggerType::OnDamageDealt), 4);
    combat.process_trait_effect(
        "Anything",
        &EffectSpec::DealPureDamage { target: EffectTarget::Dst, amount: 500 },
        duel_context(TriggerType::OnDamageDealt),
        4,
    );
    assert_eq!(combat.events.len(), before);
}

#[test]
fn ruthless_needs_two_statuses_on_the_target() {
    let mut combat = arena(vec!["ruthless"]);
    combat.apply_status(0, 1, StatusType::Burn, 10_000, 4000, 1, 100, 0);
    combat.events.clear();
    combat.apply_damage(0, 1, 100, 0);
    assert_eq!(combat.events.len(), 1);
    combat.apply_status(0, 1, StatusType::Freeze, 10_000, 4000, 1, 100, 0);
    combat.events.clear();
    combat.apply_damage(0, 1, 100, 0);
    assert!(matches!(
        combat.events[1].event,
        Event::TraitTriggered { trait_name: "Ruthless", trigger_type: "OnDamageDealt" }
    ));
    assert!(matches!(combat.events[2].event, Event::DamageDealt { amount: 340, .. }));
}

#[test]
fn traits_react_in_activation_order_and_unknown_ids_are_skipped() {
    let mut combat = arena(vec!["ruthless", "no_such_trait", "hemorrhage"]);
    combat.apply_status(0, 1, StatusType::Bleed, 10_000, 4000, 1, 100, 0);
    combat.apply_status(0, 1, StatusType::Burn, 10_000, 4000, 1, 100, 0);
    combat.events.clear();
    combat.apply_damage(0, 1, 100, 2);
    let names: Vec<&str> = combat
        .events
        .iter()
        .filter_map(|r| match r.event {
            Event::TraitTriggered { trait_name, .. } => Some(trait_name),
            _ => None,
        })
        .collect();
    assert_eq!(names, vec!["Ruthless", "Hemorrhage"]);
}

#[test]
fn conditions_read_the_context() {
    let mut combat = arena(vec![]);
    let ctx = duel_context(TriggerType::OnActionUsed);
    let back = TriggerContext { src_idx: Some(1), dst_idx: Some(0), ..ctx };
    let nobody = TriggerContext { src_idx: None, dst_idx: None, ..ctx };
    assert!(combat.evaluate_condition(&Condition::Always, nobody));
    assert!(combat.evaluate_condition(&Condition::SrcIsPlayer, ctx));
    assert!(!combat.evaluate_condition(&Condition::SrcIsPlayer, back));
    assert!(!combat.evaluate_condition(&Condition::SrcIsPlayer, nobody));
    assert!(combat.evaluate_condition(&Condition::DstIsEnemy, ctx));
    assert!(!combat.evaluate_condition(&Condition::DstIsEnemy, back));
    assert!(!combat.evaluate_condition(&Condition::DstIsEnemy, nobody));
    let burned = TriggerContext { applied_status: Some(StatusType::Burn), ..ctx };
    assert!(combat.evaluate_condition(&Condition::AppliedStatusIs(StatusType::Burn), burned));
    assert!(!combat.evaluate_condition(&Condition::AppliedStatusIs(StatusType::Shock), burned));
    assert!(!combat.evaluate_condition(&Condition::AppliedStatusIs(StatusType::Burn), ctx));
}

#[test]
fn the_hit_point_condition_is_strict() {
    let mut combat = arena(vec![]);
    let ctx = duel_context(TriggerType::OnActionUsed);
    combat.state.units[1].hp = 4200;
    assert!(!combat.evaluate_condition(&Condition::TargetHPBelow(5000), ctx));
    assert!(combat.evaluate_condition(&Condition::TargetHPBelow(5001), ctx));
    assert!(!combat.evaluate_condition(&Condition::TargetHPBelow(0), ctx));
    combat.state.units[1].hp = 0;
    combat.state.units[1].max_hp = 0;
    assert!(combat.evaluate_condition(&Condition::TargetHPBelow(1), ctx));
    assert!(!combat.evaluate_condition(&Condition::TargetHPBelow(0), ctx));
    assert!(!combat.evaluate_condition(
        &Condition::TargetHPBelow(9000),
        TriggerContext { dst_idx: None, ..ctx }
    ));
}

#[test]
fn status_conditions_count_only_statuses_with_time_left() {
    let mut combat = arena(vec![]);
    let ctx = duel_context(TriggerType::OnActionUsed);
    combat.apply_status(0, 1, StatusType::Burn, 10_000, 4000, 1, 100, 0);
    combat.apply_status(0, 1, StatusType::Freeze, 10_000, 4000, 1, 100, 0);
    assert!(combat.evaluate_condition(&Condition::TargetHasStatus(StatusType::Burn), ctx));
    assert!(!combat.evaluate_condition(&Condition::TargetHasStatus(StatusType::Stun), ctx));
    assert!(combat.evaluate_condition(&Condition::TargetStatusCountAtLeast(2), ctx));
    assert!(!combat.evaluate_condition(&Condition::TargetStatusCountAtLeast(3), ctx));
    assert!(combat.evaluate_condition(&Condition::TargetStatusCountAtLeast(0), ctx));
    combat.runtime[1].statuses[0].duration = 0;
    assert!(!combat.evaluate_condition(&Condition::TargetHasStatus(StatusType::Burn), ctx));
    assert!(!combat.evaluate_condition(&Condition::TargetStatusCountAtLeast(2), ctx));
    assert_eq!(combat.status_count(1), 1);
    assert_eq!(combat.status_count(0), 0);
}

#[test]
fn a_conjunction_evaluates_every_member() {
    let mut combat = arena(vec![]);
    let ctx = duel_context(TriggerType::OnActionUsed);
    let mut reference = SimpleRng::new(42);
    reference.next_u32();
    // The first member fails, the roll is made all the same.
    let both = all_of2(Condition::AppliedStatusIs(StatusType::Burn), Condition::RandomRollBelow(9999));
    assert!(!combat.evaluate_condition(&both, ctx));
    assert_eq!(combat.rng.state, reference.state);
    let sure = all_of2(Condition::SrcIsPlayer, Condition::RandomRollBelow(10_000));
    assert!(combat.evaluate_condition(&sure, ctx));
    assert_eq!(combat.rng.state, reference.state);
    let never = all_of2(Condition::SrcIsPlayer, Condition::RandomRollBelow(0));
    assert!(!combat.evaluate_condition(&never, ctx));
}

#[test]
fn effects_aim_at_the_right_unit() {
    let mut combat = Combat::new(
        create_battle(14000, 14000, 17, 3500, 3, 8400, 11, 2800),
        SimpleRng::new(1),
        vec![],
    );
    let ctx = TriggerContext {
        trigger_type: TriggerType::OnActionUsed,
        src_idx: Some(2),
        dst_idx: Some(0),
        applied_status: None,
    };
    assert_eq!(combat.resolve_effect_target(EffectTarget::Src, ctx), Some(2));
    assert_eq!(combat.resolve_effect_target(EffectTarget::Dst, ctx), Some(0));
    assert_eq!(combat.resolve_effect_target(EffectTarget::Player, ctx), Some(0));
    assert_eq!(combat.resolve_effect_target(EffectTarget::Enemy, ctx), Some(1));
    combat.state.units[1].hp = 0;
    assert_eq!(combat.resolve_effect_target(EffectTarget::Enemy, ctx), Some(2));
    combat.state.units[2].hp = 0;
    combat.state.units[3].hp = 0;
    assert_eq!(combat.resolve_effect_target(EffectTarget::Enemy, ctx), Some(1));
}

#[test]
fn targets_are_picked_among_the_living() {
    let mut combat = Combat::new(
        create_battle(14000, 14000, 17, 3500, 3, 8400, 11, 2800),
        SimpleRng::new(42),
        vec![],
    );
    combat.state.units[2].hp = 0;
    // Living enemies are 1 and 3; the first draw of seed 42 is odd.
    assert_eq!(combat.pick_target_index(Team::Enemy), Some(3));
    let before = combat.rng.state;
    assert_eq!(combat.pick_target_index(Team::Player), Some(0));
    assert_eq!(combat.rng.state, before);
    combat.state.units[0].hp = 0;
    assert_eq!(combat.pick_target_index(Team::Player), None);
}

#[test]
fn the_gauge_multiplier_follows_the_statuses() {
    let mut combat = arena(vec![]);
    assert_eq!(combat.gauge_speed_multiplier(1), 1000);
    combat.apply_status(0, 1, StatusType::Freeze, 10_000, 3000, 1, 100, 0);
    assert_eq!(combat.gauge_speed_multiplier(1), 500);
    combat.apply_status(0, 1, StatusType::Haste, 10_000, 3000, 1, 100, 0);
    assert_eq!(combat.gauge_speed_multiplier(1), 625);
    combat.apply_status(0, 1, StatusType::Stun, 10_000, 1500, 1, 100, 0);
    assert_eq!(combat.gauge_speed_multiplier(1), 0);
    assert_eq!(combat.gauge_speed_multiplier(0), 1000);
    combat.apply_status(0, 0, StatusType::Haste, 10_000, 3000, 1, 100, 0);
    assert_eq!(combat.gauge_speed_multiplier(0), 1250);
}

#[test]
fn gauges_gain_speed_times_time_times_multiplier() {
    assert_eq!(gauge_after_for(0, 3500, 100, 1000), 350_000_000);
    assert_eq!(gauge_after_for(5, 2800, 100, 500), 140_000_005);
    assert_eq!(gauge_after_for(7, 2800, 100, 0), 7);
    assert_eq!(gauge_after_for(u64::MAX - 1, 1, 1, 1000), u64::MAX);
    let mut combat = arena(vec![]);
    combat.accrue_gauges(100);
    assert_eq!(combat.state.units[0].action_gauge, 350_000_000);
    assert_eq!(combat.state.units[1].action_gauge, 280_000_000);
    combat.state.units[1].hp = 0;
    combat.accrue_gauges(100);
    assert_eq!(combat.state.units[0].action_gauge, 700_000_000);
    assert_eq!(combat.state.units[1].action_gauge, 280_000_000);
}

#[test]
fn a_stunned_unit_gains_no_gauge_until_the_stun_runs_out() {
    let mut combat = arena(vec![]);
    combat.accrue_gauges(100);
    combat.apply_status(0, 1, StatusType::Stun, 10_000, 300, 1, 100, 0);
    let frozen_at = combat.state.units[1].action_gauge;
    assert_eq!(frozen_at, 280_000_000);
    for _ in 0..2 {
        assert_eq!(combat.tick_statuses(100), None);
        combat.accrue_gauges(100);
        assert_eq!(combat.state.units[1].action_gauge, frozen_at);
    }
    assert_eq!(combat.state.units[0].action_gauge, 3 * 350_000_000);
    // The third tenth of a second uses the stun up.
    assert_eq!(combat.tick_statuses(100), None);
    assert!(!combat.has_status(1, StatusType::Stun));
    combat.accrue_gauges(100);
    assert_eq!(combat.state.units[1].action_gauge, frozen_at + 280_000_000);
    assert!(combat
        .events
        .iter()
        .any(|r| matches!(r.event, Event::StatusExpired { dst: "enemy", status: "Stun" })));
}

#[test]
fn a_burn_ticks_once_per_second() {
    let mut combat = arena(vec![]);
    combat.apply_status(0, 1, StatusType::Burn, 10_000, 4000, 2, 150, 0);
    combat.events.clear();
    for _ in 0..9 {
        assert_eq!(combat.tick_statuses(100), None);
    }
    assert!(combat.events.is_empty());
    assert_eq!(combat.runtime[1].statuses[0].tick_meter, 900);
    assert_eq!(combat.runtime[1].statuses[0].duration, 3100);
    assert_eq!(combat.tick_statuses(100), None);
    assert_eq!(combat.events.len(), 1);
    assert!(matches!(
        combat.events[0].event,
        Event::StatusTick { dst: "enemy", status: "Burn", amount: 300, dst_hp_after: 8100 }
    ));
    assert_eq!(combat.runtime[1].statuses[0].tick_meter, 0);
    assert_eq!(combat.state.units[1].hp, 8100);
}

#[test]
fn a_long_step_fires_several_ticks_then_expires_the_status() {
    let mut combat = arena(vec![]);
    combat.apply_status(0, 1, StatusType::Bleed, 10_000, 2500, 1, 100, 0);
    combat.apply_status(0, 1, StatusType::Freeze, 10_000, 9000, 1, 100, 0);
    combat.events.clear();
    assert_eq!(combat.tick_statuses(2700), None);
    let ticks = combat
        .events
        .iter()
        .filter(|r| matches!(r.event, Event::StatusTick { status: "Bleed", amount: 100, .. }))
        .count();
    assert_eq!(ticks, 2);
    assert_eq!(combat.events.len(), 3);
    assert!(matches!(
        combat.events[2].event,
        Event::StatusExpired { dst: "enemy", status: "Bleed" }
    ));
    assert_eq!(combat.state.units[1].hp, 8200);
    assert_eq!(combat.runtime[1].statuses.len(), 1);
    let freeze = combat.runtime[1].statuses[0];
    assert_eq!(freeze.status_type, StatusType::Freeze);
    assert_eq!(freeze.duration, 6300);
    assert_eq!(freeze.tick_meter, 2700);
}

#[test]
fn no_time_no_tick() {
    let mut combat = arena(vec![]);
    combat.apply_status(0, 1, StatusType::Burn, 10_000, 4000, 1, 100, 0);
    combat.state.units[1].hp = 0;
    combat.events.clear();
    assert_eq!(combat.tick_statuses(0), None);
    assert!(combat.events.is_empty());
    assert_eq!(combat.runtime[1].statuses[0].duration, 4000);
}

#[test]
fn a_tick_that_kills_the_last_enemy_wins_the_battle() {
    let mut combat = arena(vec![]);
    combat.apply_status(0, 1, StatusType::Shock, 10_000, 4000, 1, 100, 0);
    combat.state.units[1].hp = 50;
    combat.state.units[0].hp = 9000;
    combat.events.clear();
    assert_eq!(combat.tick_statuses(1000), Some(BattleOutcome::Victory));
    assert_eq!(combat.state.units[1].hp, 0);
    assert!(matches!(
        combat.events[0].event,
        Event::StatusTick { amount: 100, dst_hp_after: 0, .. }
    ));
    assert!(matches!(
        combat.events[1].event,
        Event::BattleEnd { result: "win", player_hp_after: 9000 }
    ));
}

#[test]
fn the_end_of_a_battle_is_checked_side_by_side() {
    let mut combat = arena(vec![]);
    assert_eq!(combat.check_and_emit_battle_end(), None);
    assert!(combat.events.is_empty());
    combat.state.units[0].hp = 0;
    assert_eq!(combat.check_and_emit_battle_end(), Some(BattleOutcome::Defeat));
    assert!(matches!(
        combat.events[0].event,
        Event::BattleEnd { result: "lose", player_hp_after: 0 }
    ));
    combat.state.units[1].hp = 0;
    assert_eq!(combat.check_and_emit_battle_end(), Some(BattleOutcome::Victory));
    assert!(matches!(
        combat.events[1].event,
        Event::BattleEnd { result: "win", player_hp_after: 0 }
    ));
}

#[test]
fn skill_damage_multiplies_and_adds() {
    assert_eq!(skill_damage_for(17, 100, 100, 10_000, None, 0), 1700);
    assert_eq!(skill_damage_for(17, 100, 90, 10_000, None, 0), 1530);
    assert_eq!(skill_damage_for(17, 100, 110, 10_000, None, 0), 1870);
    assert_eq!(skill_damage_for(17, 100, 80, 12_500, None, 0), 1700);
    assert_eq!(skill_damage_for(17, 150, 100, 10_000, Some(250), 50), 2850);
    assert_eq!(skill_damage_for(10, 100, 100, 10_000, None, -5000), 1);
    assert_eq!(skill_damage_for(-17, 100, 100, 10_000, None, 0), 1);
    assert_eq!(skill_damage_for(-17, 100, 100, 10_000, Some(2000), 0), 300);
    assert_eq!(skill_damage_for(1, 1, 1, 10_000, None, 0), 1);
    assert_eq!(skill_damage_for(3, 100, 50, 3_333, None, 0), 50);
    assert_eq!(skill_damage_for(i32::MAX, u32::MAX, u32::MAX, u32::MAX, None, 0), i64::MAX);
}

#[test]
fn trait_damage_is_attack_times_multiplier_plus_flat() {
    assert_eq!(trait_damage_for(17, 15, 0), 255);
    assert_eq!(trait_damage_for(17, 20, 0), 340);
    assert_eq!(trait_damage_for(11, 100, 25), 1125);
    assert_eq!(trait_damage_for(0, 100, 0), 1);
    assert_eq!(trait_damage_for(-3, 100, 0), 1);
}

#[test]
fn amplifiers_multiply_and_have_a_floor() {
    assert_eq!(amp_after_for(10_000, 125), 12_500);
    assert_eq!(amp_after_for(12_500, 125), 15_625);
    assert_eq!(amp_after_for(15_625, 125), 19_531);
    assert_eq!(amp_after_for(10_000, 5), 1_000);
    assert_eq!(amp_after_for(10_000, 0), 1_000);
    assert_eq!(amp_after_for(u32::MAX, 200), u32::MAX);
}

fn custom_skill(effects: Vec<EffectSpec>) -> SkillSpec {
    SkillSpec {
        id: "custom",
        name: "Custom",
        base_damage_multiplier: 100,
        flat_bonus_damage: Some(100),
        effects,
        tags: vec![],
    }
}

#[test]
fn a_skill_reports_turn_and_action_then_runs_its_effects() {
    let mut combat = arena(vec![]);
    let skill = skill_by_id("frost_bite").expect("frost bite");
    combat.runtime[0].proc_bonus = 10_000;
    combat.execute_skill(0, 1, &skill);
    assert_eq!(combat.events.len(), 4);
    assert!(matches!(combat.events[0].event, Event::TurnReady { actor: "player" }));
    assert!(matches!(
        combat.events[1].event,
        Event::ActionUsed { actor: "player", action_name: "Frost Bite" }
    ));
    assert!(matches!(
        combat.events[2].event,
        Event::DamageDealt { amount: 1530, dst_hp_after: 6870, .. }
    ));
    assert!(matches!(
        combat.events[3].event,
        Event::StatusApplied { status: "Freeze", stacks: 1, duration: 4, .. }
    ));
}

#[test]
fn conditional_amplifiers_accumulate_over_a_skill() {
    let mut combat = arena(vec![]);
    let skill = custom_skill(vec![
        EffectSpec::ConditionalDamageAmp { condition: Condition::SrcIsPlayer, amp: 150 },
        EffectSpec::ConditionalDamageAmp { condition: Condition::DstIsEnemy, amp: 200 },
        EffectSpec::ConditionalDamageAmp {
            condition: Condition::AppliedStatusIs(StatusType::Burn),
            amp: 900,
        },
        EffectSpec::DealDamage { multiplier: 50, flat: 10 },
    ]);
    combat.execute_skill(0, 1, &skill);
    // 17 x 1.00 x 0.50 x (1.5 x 2.0) + 1.00 + 0.10 = 26.60
    assert!(matches!(combat.events[2].event, Event::DamageDealt { amount: 2660, .. }));
}

#[test]
fn the_other_skill_effects_act_on_the_acting_unit() {
    let mut combat = arena(vec![]);
    let skill = custom_skill(vec![
        EffectSpec::AddProcBonus { amount: 1500 },
        EffectSpec::AddResBonus { amount: -200 },
        EffectSpec::ModifyStatusPower { status_type: StatusType::Bleed, mul: 300 },
        EffectSpec::SelfBuff { stat: StatType::Speed, amount: 250, duration: 2000 },
        EffectSpec::AddStatusStacks { target: EffectTarget::Enemy, status_type: StatusType::Bleed, stacks: 0 },
        EffectSpec::DealPureDamage { target: EffectTarget::Dst, amount: 0 },
        EffectSpec::ConditionalApplyStatus {
            condition: Condition::TargetHasStatus(StatusType::Bleed),
            status_type: StatusType::Stun,
            base_chance: 10_000,
            duration: 500,
            stacks: 1,
            power: 100,
        },
    ]);
    combat.execute_skill(0, 1, &skill);
    assert_eq!(combat.runtime[0].proc_bonus, 1500);
    assert_eq!(combat.runtime[0].res_bonus, -200);
    assert_eq!(combat.status_power_mul_for(0, StatusType::Bleed), 300);
    let haste = combat.runtime[0].statuses[0];
    assert_eq!(haste.status_type, StatusType::Haste);
    assert_eq!(haste.stacks, 2);
    assert_eq!(haste.power, 250);
    assert_eq!(haste.duration, 2000);
    let bleed = combat.runtime[1].statuses[0];
    assert_eq!(bleed.status_type, StatusType::Bleed);
    assert_eq!(bleed.stacks, 1);
    assert_eq!(bleed.power, 300);
    assert_eq!(bleed.duration, 1000);
    assert_eq!(combat.state.units[1].hp, 8399);
    assert!(combat.has_status(1, StatusType::Stun));
}

#[test]
fn the_readiest_unit_acts_first_and_the_roster_breaks_ties() {
    let mut state = create_battle(14000, 14000, 17, 3500, 2, 8400, 11, 2800);
    assert_eq!(find_ready(&state.units), None);
    state.units[1].action_gauge = FULL;
    assert_eq!(find_ready(&state.units), Some(1));
    state.units[2].action_gauge = FULL;
    assert_eq!(find_ready(&state.units), Some(1));
    state.units[2].action_gauge = FULL + 1;
    assert_eq!(find_ready(&state.units), Some(2));
    state.units[0].action_gauge = FULL + 1;
    assert_eq!(find_ready(&state.units), Some(0));
    state.units[0].hp = 0;
    assert_eq!(find_ready(&state.units), Some(2));
    state.units[2].action_gauge = FULL - 1;
    assert_eq!(find_ready(&state.units), Some(1));
}

#[test]
fn a_turn_costs_exactly_one_full_gauge() {
    let mut combat = arena(vec![]);
    combat.state.units[1].action_gauge = FULL + 123;
    assert_eq!(combat.execute_turn(1, ActionKind::SkillSlot(2)), None);
    assert_eq!(combat.state.units[1].action_gauge, 123);
    assert_eq!(combat.state.units[0].hp, 14000 - 1100);
    assert!(matches!(
        combat.events[1].event,
        Event::ActionUsed { actor: "enemy", action_name: "Basic Attack" }
    ));
}

#[test]
fn a_unit_that_is_not_ready_does_not_act() {
    let mut combat = arena(vec![]);
    combat.state.units[0].action_gauge = FULL - 1;
    assert_eq!(combat.execute_turn(0, ActionKind::BasicAttack), None);
    assert_eq!(combat.state.units[0].action_gauge, FULL - 1);
    combat.state.units[1].action_gauge = 5 * FULL;
    combat.state.units[1].hp = 0;
    assert_eq!(combat.execute_turn(1, ActionKind::BasicAttack), None);
    assert_eq!(combat.state.units[1].action_gauge, 5 * FULL);
    assert!(combat.events.is_empty());
}

#[test]
fn the_player_uses_the_chosen_skill() {
    let mut combat = arena(vec![]);
    combat.state.units[0].action_gauge = FULL;
    combat.runtime[1].res_bonus = 10_000;
    assert_eq!(combat.execute_turn(0, ActionKind::SkillSlot(3)), None);
    assert!(matches!(
        combat.events[1].event,
        Event::ActionUsed { actor: "player", action_name: "Ruin Strike" }
    ));
    assert_eq!(combat.state.units[1].hp, 8400 - 1870);
    assert_eq!(combat.events.len(), 3);
}

#[test]
fn turns_are_taken_until_the_player_must_choose() {
    let mut combat = arena(vec![]);
    combat.state.units[0].action_gauge = FULL;
    combat.state.units[1].action_gauge = 2 * FULL + 5;
    let (left, stop) = combat.take_turns(None);
    assert_eq!(left, None);
    assert_eq!(stop, TurnStop::NeedInput);
    // The enemy, readier, acted twice; then the player was next.
    assert_eq!(combat.state.units[1].action_gauge, 5);
    assert_eq!(combat.state.units[0].hp, 14000 - 2200);
    assert_eq!(combat.state.units[0].action_gauge, FULL);
    let (left, stop) = combat.take_turns(Some(ActionKind::BasicAttack));
    assert_eq!(left, None);
    assert_eq!(stop, TurnStop::Idle);
    assert_eq!(combat.state.units[0].action_gauge, 0);
    assert_eq!(combat.state.units[1].action_gauge, 5);
    assert_eq!(combat.state.units[1].hp, 8400 - 1700);
    assert_eq!(combat.state.units[0].hp, 14000 - 2200);
}

#[test]
fn an_action_nobody_used_stays_queued() {
    let mut combat = arena(vec![]);
    combat.state.units[1].action_gauge = FULL;
    let (left, stop) = combat.take_turns(Some(ActionKind::SkillSlot(1)));
    assert_eq!(left, Some(ActionKind::SkillSlot(1)));
    assert_eq!(stop, TurnStop::Idle);
}

#[test]
fn turns_stop_when_the_battle_ends() {
    let mut combat = arena(vec![]);
    combat.state.units[0].action_gauge = 3 * FULL;
    combat.state.units[1].hp = 1000;
    let (left, stop) = combat.take_turns(Some(ActionKind::BasicAttack));
    assert_eq!(left, None);
    assert_eq!(stop, TurnStop::Ended(BattleOutcome::Victory));
    assert_eq!(combat.state.units[0].action_gauge, 2 * FULL);
    assert!(matches!(
        combat.events.last().expect("an event").event,
        Event::BattleEnd { result: "win", player_hp_after: 14000 }
    ));
}

#[test]
fn the_tick_counter_counts_up_and_saturates() {
    let mut combat = arena(vec![]);
    assert_eq!(combat.advance_sim_tick(), 1);
    assert_eq!(combat.advance_sim_tick(), 2);
    assert_eq!(combat.sim_tick(), 2);
    combat.state.tick = u32::MAX;
    assert_eq!(combat.advance_sim_tick(), u32::MAX);
}

#[test]
fn rows_are_checked_for_repeated_types() {
    let mut combat = arena(vec![]);
    combat.apply_status(0, 1, StatusType::Burn, 10_000, 4000, 1, 100, 0);
    combat.apply_status(0, 1, StatusType::Freeze, 10_000, 4000, 1, 100, 0);
    combat.apply_status(0, 1, StatusType::Burn, 10_000, 4000, 1, 100, 0);
    assert!(has_distinct_types(&combat.runtime[1].statuses));
    assert!(has_distinct_types(&combat.runtime[0].statuses));
    assert!(combat.is_well_formed());
    let copy = combat.runtime[1].statuses[0];
    combat.runtime[1].statuses.push(copy);
    assert!(!has_distinct_types(&combat.runtime[1].statuses));
    assert!(!combat.is_well_formed());
}

#[test]
fn a_turn_without_a_living_opponent_changes_nothing() {
    let mut combat = arena(vec!["overcharge"]);
    combat.state.units[0].action_gauge = FULL + 7;
    combat.state.units[1].hp = 0;
    let rng_before = combat.rng.state;
    assert_eq!(combat.execute_turn(0, ActionKind::SkillSlot(2)), None);
    assert_eq!(combat.state.units[0].action_gauge, FULL + 7);
    assert_eq!(combat.state.units[0].hp, 14000);
    assert_eq!(combat.rng.state, rng_before);
    assert!(combat.events.is_empty());
    assert!(combat.runtime[0].statuses.is_empty());
    assert!(combat.runtime[1].statuses.is_empty());
}

#[test]
fn a_round_halts_when_the_next_unit_has_no_opponent() {
    let mut combat = arena(vec![]);
    combat.state.units[1].action_gauge = 3 * FULL;
    combat.state.units[0].hp = 0;
    let (left, stop) = combat.take_turns(Some(ActionKind::BasicAttack));
    assert_eq!(left, Some(ActionKind::BasicAttack));
    assert_eq!(stop, TurnStop::Idle);
    assert_eq!(combat.state.units[1].action_gauge, 3 * FULL);
    assert!(combat.events.is_empty());
    // The player without an enemy keeps the queued action, too.
    let mut combat = arena(vec![]);
    combat.state.units[0].action_gauge = FULL;
    combat.state.units[1].hp = 0;
    let (left, stop) = combat.take_turns(Some(ActionKind::SkillSlot(1)));
    assert_eq!(left, Some(ActionKind::SkillSlot(1)));
    assert_eq!(stop, TurnStop::Idle);
    assert_eq!(combat.state.units[0].action_gauge, FULL);
    let (left, stop) = combat.take_turns(None);
    assert_eq!(left, None);
    assert_eq!(stop, TurnStop::NeedInput);
}

#[test]
fn the_target_is_picked_before_the_gauge_is_spent() {
    let mut combat = Combat::new(
        create_battle(14000, 14000, 17, 3500, 3, 8400, 11, 2800),
        SimpleRng::new(42),
        vec![],
    );
    combat.state.units[0].action_gauge = FULL;
    combat.state.units[2].hp = 0;
    assert_eq!(combat.execute_turn(0, ActionKind::BasicAttack), None);
    // Living enemies are 1 and 3; the first draw of seed 42 is odd.
    assert_eq!(combat.state.units[3].hp, 8400 - 1700);
    assert_eq!(combat.state.units[1].hp, 8400);
    assert_eq!(combat.state.units[0].action_gauge, 0);
}
