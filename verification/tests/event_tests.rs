use gauge_battle::event::{EffectSummary, Event, Record};
use gauge_battle::log::{push_event, render_records};
use gauge_battle::skill::StatusType;
use gauge_battle::text::escape_json;

#[test]
fn escape_json_escapes_three_characters() {
    assert_eq!(escape_json("plain"), "plain");
    assert_eq!(escape_json("a\"b"), "a\\\"b");
    assert_eq!(escape_json("a\\b"), "a\\\\b");
    assert_eq!(escape_json("a\nb"), "a\\nb");
    assert_eq!(escape_json("\\\"\n"), "\\\\\\\"\\n");
    assert_eq!(escape_json(""), "");
    assert_eq!(escape_json("tab\tstays"), "tab\tstays");
}

#[test]
fn run_start_line() {
    assert_eq!(
        Event::RunStart { seed: 18446744073709551615 }.to_json_line(),
        r#"{"kind":"RunStart","seed":18446744073709551615}"#
    );
    assert_eq!(Event::RunStart { seed: 0 }.to_json_line(), r#"{"kind":"RunStart","seed":0}"#);
}

#[test]
fn node_and_battle_start_lines() {
    assert_eq!(
        Event::NodeStart { node_index: 6, node_type: "Boss" }.to_json_line(),
        r#"{"kind":"NodeStart","node_index":6,"node_type":"Boss"}"#
    );
    assert_eq!(
        Event::BattleStart { battle_index: 12, enemy_name: "Rogue Drone" }.to_json_line(),
        r#"{"kind":"BattleStart","battle_index":12,"enemy_name":"Rogue Drone"}"#
    );
}

#[test]
fn turn_and_action_lines() {
    assert_eq!(
        Event::TurnReady { actor: "player" }.to_json_line(),
        r#"{"kind":"TurnReady","actor":"player"}"#
    );
    assert_eq!(
        Event::ActionUsed { actor: "enemy", action_name: "Basic Attack" }.to_json_line(),
        r#"{"kind":"ActionUsed","actor":"enemy","action_name":"Basic Attack"}"#
    );
}

#[test]
fn damage_line_shows_hundredths_with_two_decimals() {
    assert_eq!(
        Event::DamageDealt { src: "player", dst: "enemy", amount: 1700, dst_hp_after: 6700 }
            .to_json_line(),
        r#"{"kind":"DamageDealt","src":"player","dst":"enemy","amount":17.00,"dst_hp_after":67.00}"#
    );
    assert_eq!(
        Event::DamageDealt { src: "enemy", dst: "player", amount: 1, dst_hp_after: 5 }
            .to_json_line(),
        r#"{"kind":"DamageDealt","src":"enemy","dst":"player","amount":0.01,"dst_hp_after":0.05}"#
    );
    assert_eq!(
        Event::DamageDealt { src: "enemy", dst: "player", amount: 255, dst_hp_after: 13330 }
            .to_json_line(),
        r#"{"kind":"DamageDealt","src":"enemy","dst":"player","amount":2.55,"dst_hp_after":133.30}"#
    );
}

#[test]
fn status_lines() {
    assert_eq!(
        Event::StatusApplied { src: "player", dst: "enemy", status: "Burn", stacks: 1, duration: 4 }
            .to_json_line(),
        r#"{"kind":"StatusApplied","src":"player","dst":"enemy","status":"Burn","stacks":1,"duration":4}"#
    );
    assert_eq!(
        Event::StatusTick { dst: "enemy", status: "Burn", amount: 125, dst_hp_after: 8275 }
            .to_json_line(),
        r#"{"kind":"StatusTick","dst":"enemy","status":"Burn","amount":1.25,"dst_hp_after":82.75}"#
    );
    assert_eq!(
        Event::StatusExpired { dst: "enemy", status: "Burn" }.to_json_line(),
        r#"{"kind":"StatusExpired","dst":"enemy","status":"Burn"}"#
    );
}

#[test]
fn end_lines() {
    assert_eq!(
        Event::BattleEnd { result: "win", player_hp_after: 10700 }.to_json_line(),
        r#"{"kind":"BattleEnd","result":"win","player_hp_after":107.00}"#
    );
    assert_eq!(
        Event::RunEnd { result: "lose", final_node_index: 3 }.to_json_line(),
        r#"{"kind":"RunEnd","result":"lose","final_node_index":3}"#
    );
}

#[test]
fn trait_lines() {
    assert_eq!(
        Event::TraitTriggered { trait_name: "Overcharge", trigger_type: "OnStatusApplied" }
            .to_json_line(),
        r#"{"kind":"TraitTriggered","trait_name":"Overcharge","trigger_type":"OnStatusApplied"}"#
    );
    assert_eq!(
        Event::TraitEffectApplied {
            trait_name: "Overcharge",
            effect_summary: EffectSummary::DealPureDamage { amount: 300 }
        }
        .to_json_line(),
        r#"{"kind":"TraitEffectApplied","trait_name":"Overcharge","effect_summary":"DealPureDamage 3.00"}"#
    );
}

#[test]
fn names_are_escaped_in_lines() {
    assert_eq!(
        Event::BattleStart { battle_index: 1, enemy_name: "The \"Core\"\n\\" }.to_json_line(),
        r#"{"kind":"BattleStart","battle_index":1,"enemy_name":"The \"Core\"\n\\"}"#
    );
}

#[test]
fn effect_summaries() {
    assert_eq!(
        EffectSummary::DealDamage { multiplier: 15, flat: 0 }.to_text(),
        "DealDamage x0.15 +0"
    );
    assert_eq!(
        EffectSummary::DealDamage { multiplier: 120, flat: 250 }.to_text(),
        "DealDamage x1.20 +2.5"
    );
    assert_eq!(
        EffectSummary::DealDamage { multiplier: 100, flat: -25 }.to_text(),
        "DealDamage x1.00 +-0.25"
    );
    assert_eq!(
        EffectSummary::ApplyStatus { status: StatusType::Stun }.to_text(),
        "ApplyStatus Stun"
    );
    assert_eq!(EffectSummary::SelfBuff { status: StatusType::Might }.to_text(), "SelfBuff Might");
    assert_eq!(EffectSummary::AddProcBonus { amount: 1500 }.to_text(), "AddProcBonus +0.15");
    assert_eq!(EffectSummary::AddResBonus { amount: 50 }.to_text(), "AddResBonus +0.01");
    assert_eq!(EffectSummary::AddResBonus { amount: -1000 }.to_text(), "AddResBonus +-0.10");
    assert_eq!(
        EffectSummary::ModifyStatusPower { status: StatusType::Burn, mul: 125 }.to_text(),
        "ModifyStatusPower Burn x1.25"
    );
    assert_eq!(
        EffectSummary::AddStatusStacks { status: StatusType::Break, stacks: 1 }.to_text(),
        "AddStatusStacks Break +1"
    );
    assert_eq!(
        EffectSummary::DealPureDamage { amount: 1 }.to_text(),
        "DealPureDamage 0.01"
    );
}

#[test]
fn a_record_puts_the_tick_first() {
    let record = Record { tick: 37, event: Event::TurnReady { actor: "player" } };
    assert_eq!(record.to_json_line(), r#"{"tick":37,"kind":"TurnReady","actor":"player"}"#);
}

#[test]
fn the_record_line_is_the_event_line_with_the_tick_inserted() {
    let event = Event::BattleEnd { result: "win", player_hp_after: 4200 };
    let plain = event.to_json_line();
    let tagged = Record { tick: 9, event }.to_json_line();
    let mut inserted = plain.clone();
    inserted.insert_str(1, "\"tick\":9,");
    assert_eq!(tagged, inserted);
}

#[test]
fn push_event_appends_one_line() {
    let mut logs = vec![String::from("first")];
    push_event(&mut logs, 2, Event::RunEnd { result: "win", final_node_index: 6 });
    assert_eq!(
        logs,
        vec!["first", r#"{"tick":2,"kind":"RunEnd","result":"win","final_node_index":6}"#]
    );
}

#[test]
fn render_records_keeps_the_order() {
    let records = vec![
        Record { tick: 0, event: Event::RunStart { seed: 5 } },
        Record { tick: 1, event: Event::TurnReady { actor: "enemy" } },
    ];
    assert_eq!(
        render_records(&records),
        vec![
            r#"{"tick":0,"kind":"RunStart","seed":5}"#,
            r#"{"tick":1,"kind":"TurnReady","actor":"enemy"}"#
        ]
    );
    assert!(render_records(&Vec::new()).is_empty());
}
