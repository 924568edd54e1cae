//! The structured trace of a run.

use vstd::prelude::*;
use vstd::string::StringExecFns;
use crate::fixed::round_div;
use crate::skill::StatusType;
use crate::text::{
    decimal, escaped, hundredths, push_decimal, push_escaped, push_hundredths, push_shortest,
    shortest,
};

verus! {

/// What a trait effect did, as reported in the trace.
///
/// Multipliers are percentages, amounts hundredths, bonuses ten-thousandths.
#[allow(inconsistent_fields)]
#[derive(Clone, Copy, Debug)]
pub enum EffectSummary {
    DealDamage { multiplier: u32, flat: i64 },
    ApplyStatus { status: StatusType },
    SelfBuff { status: StatusType },
    AddProcBonus { amount: i32 },
    AddResBonus { amount: i32 },
    ModifyStatusPower { status: StatusType, mul: u32 },
    AddStatusStacks { status: StatusType, stacks: u32 },
    DealPureDamage { amount: i64 },
}

/// One entry of the trace. Amounts and hit points are in hundredths,
/// the duration of an applied status in whole seconds.
#[allow(inconsistent_fields)]
#[derive(Clone, Copy, Debug)]
pub enum Event {
    RunStart { seed: u64 },
    NodeStart { node_index: u32, node_type: &'static str },
    BattleStart { battle_index: u32, enemy_name: &'static str },
    TurnReady { actor: &'static str },
    ActionUsed { actor: &'static str, action_name: &'static str },
    DamageDealt { src: &'static str, dst: &'static str, amount: i64, dst_hp_after: i64 },
    StatusApplied {
        src: &'static str,
        dst: &'static str,
        status: &'static str,
        stacks: u32,
        duration: u32,
    },
    StatusTick { dst: &'static str, status: &'static str, amount: i64, dst_hp_after: i64 },
    StatusExpired { dst: &'static str, status: &'static str },
    BattleEnd { result: &'static str, player_hp_after: i64 },
    RunEnd { result: &'static str, final_node_index: u32 },
    TraitTriggered { trait_name: &'static str, trigger_type: &'static str },
    TraitEffectApplied { trait_name: &'static str, effect_summary: EffectSummary },
}

/// An event together with the simulation tick it happened on.
#[derive(Clone, Copy, Debug)]
pub struct Record {
    pub tick: u32,
    pub event: Event,
}

/// A chance bonus in ten-thousandths, rounded to hundredths.
pub open spec fn bonus_hundredths(amount: i32) -> int {
    round_div(amount as int, 100)
}

impl EffectSummary {
    /// The summary as the trace words it.
    pub open spec fn text(&self) -> Seq<char> {
        match *self {
            EffectSummary::DealDamage { multiplier, flat } => "DealDamage x"@ + hundredths(
                multiplier as int,
            ) + " +"@ + shortest(flat as int),
            EffectSummary::ApplyStatus { status } => "ApplyStatus "@ + status.name()@,
            EffectSummary::SelfBuff { status } => "SelfBuff "@ + status.name()@,
            EffectSummary::AddProcBonus { amount } => "AddProcBonus +"@ + hundredths(
                bonus_hundredths(amount),
            ),
            EffectSummary::AddResBonus { amount } => "AddResBonus +"@ + hundredths(
                bonus_hundredths(amount),
            ),
            EffectSummary::ModifyStatusPower { status, mul } => "ModifyStatusPower "@
                + status.name()@ + " x"@ + hundredths(mul as int),
            EffectSummary::AddStatusStacks { status, stacks } => "AddStatusStacks "@
                + status.name()@ + " +"@ + decimal(stacks as nat),
            EffectSummary::DealPureDamage { amount } => "DealPureDamage "@ + hundredths(
                amount as int,
            ),
        }
    }

    /// Words the summary.
    pub fn to_text(&self) -> (out: String)
        ensures
            out@ == self.text(),
    {
        let mut out = String::new();
        match *self {
            EffectSummary::DealDamage { multiplier, flat } => {
                out.append("DealDamage x");
                push_hundredths(&mut out, multiplier as i64);
                out.append(" +");
                push_shortest(&mut out, flat);
            },
            EffectSummary::ApplyStatus { status } => {
                out.append("ApplyStatus ");
                out.append(status.as_str());
            },
            EffectSummary::SelfBuff { status } => {
                out.append("SelfBuff ");
                out.append(status.as_str());
            },
            EffectSummary::AddProcBonus { amount } => {
                out.append("AddProcBonus +");
                push_hundredths(&mut out, bonus_hundredths_of(amount));
            },
            EffectSummary::AddResBonus { amount } => {
                out.append("AddResBonus +");
                push_hundredths(&mut out, bonus_hundredths_of(amount));
            },
            EffectSummary::ModifyStatusPower { status, mul } => {
                out.append("ModifyStatusPower ");
                out.append(status.as_str());
                out.append(" x");
                push_hundredths(&mut out, mul as i64);
            },
            EffectSummary::AddStatusStacks { status, stacks } => {
                out.append("AddStatusStacks ");
                out.append(status.as_str());
                out.append(" +");
                push_decimal(&mut out, stacks as u128);
            },
            EffectSummary::DealPureDamage { amount } => {
                out.append("DealPureDamage ");
                push_hundredths(&mut out, amount);
            },
        }
        assert(out@ =~= self.text());
        out
    }
}

fn bonus_hundredths_of(amount: i32) -> (r: i64)
    ensures
        r == bonus_hundredths(amount),
{
    crate::fixed::round_div_wide(amount as i128, 100) as i64
}

impl Event {
    /// The record of the event without its opening brace: the kind tag, then
    /// the fields of the kind, then the closing brace.
    pub open spec fn json_body(&self) -> Seq<char> {
        match *self {
            Event::RunStart { seed } => "\"kind\":\"RunStart\",\"seed\":"@ + decimal(seed as nat)
                + "}"@,
            Event::NodeStart { node_index, node_type } => "\"kind\":\"NodeStart\",\"node_index\":"@
                + decimal(node_index as nat) + ",\"node_type\":\""@ + escaped(node_type@)
                + "\"}"@,
            Event::BattleStart { battle_index, enemy_name } =>
                "\"kind\":\"BattleStart\",\"battle_index\":"@ + decimal(battle_index as nat)
                + ",\"enemy_name\":\""@ + escaped(enemy_name@) + "\"}"@,
            Event::TurnReady { actor } => "\"kind\":\"TurnReady\",\"actor\":\""@ + escaped(actor@)
                + "\"}"@,
            Event::ActionUsed { actor, action_name } => "\"kind\":\"ActionUsed\",\"actor\":\""@
                + escaped(actor@) + "\",\"action_name\":\""@ + escaped(action_name@) + "\"}"@,
            Event::DamageDealt { src, dst, amount, dst_hp_after } =>
                "\"kind\":\"DamageDealt\",\"src\":\""@ + escaped(src@) + "\",\"dst\":\""@
                + escaped(dst@) + "\",\"amount\":"@ + hundredths(amount as int)
                + ",\"dst_hp_after\":"@ + hundredths(dst_hp_after as int) + "}"@,
            Event::StatusApplied { src, dst, status, stacks, duration } =>
                "\"kind\":\"StatusApplied\",\"src\":\""@ + escaped(src@) + "\",\"dst\":\""@
                + escaped(dst@) + "\",\"status\":\""@ + escaped(status@) + "\",\"stacks\":"@
                + decimal(stacks as nat) + ",\"duration\":"@ + decimal(duration as nat) + "}"@,
            Event::StatusTick { dst, status, amount, dst_hp_after } =>
                "\"kind\":\"StatusTick\",\"dst\":\""@ + escaped(dst@) + "\",\"status\":\""@
                + escaped(status@) + "\",\"amount\":"@ + hundredths(amount as int)
                + ",\"dst_hp_after\":"@ + hundredths(dst_hp_after as int) + "}"@,
            Event::StatusExpired { dst, status } => "\"kind\":\"StatusExpired\",\"dst\":\""@
                + escaped(dst@) + "\",\"status\":\""@ + escaped(status@) + "\"}"@,
            Event::BattleEnd { result, player_hp_after } =>
                "\"kind\":\"BattleEnd\",\"result\":\""@ + escaped(result@)
                + "\",\"player_hp_after\":"@ + hundredths(player_hp_after as int) + "}"@,
            Event::RunEnd { result, final_node_index } => "\"kind\":\"RunEnd\",\"result\":\""@
                + escaped(result@) + "\",\"final_node_index\":"@ + decimal(
                final_node_index as nat,
            ) + "}"@,
            Event::TraitTriggered { trait_name, trigger_type } =>
                "\"kind\":\"TraitTriggered\",\"trait_name\":\""@ + escaped(trait_name@)
                + "\",\"trigger_type\":\""@ + escaped(trigger_type@) + "\"}"@,
            Event::TraitEffectApplied { trait_name, effect_summary } =>
                "\"kind\":\"TraitEffectApplied\",\"trait_name\":\""@ + escaped(trait_name@)
                + "\",\"effect_summary\":\""@ + escaped(effect_summary.text()) + "\"}"@,
        }
    }

    /// The event as one self-contained JSON object.
    pub open spec fn json(&self) -> Seq<char> {
        "{"@ + self.json_body()
    }

    /// Appends the record of the event without its opening brace.
    pub fn push_json_body(&self, out: &mut String)
        ensures
            final(out)@ == old(out)@ + self.json_body(),
    {
        match *self {
            Event::RunStart { seed } => {
                out.append("\"kind\":\"RunStart\",\"seed\":");
                push_decimal(out, seed as u128);
                out.append("}");
            },
            Event::NodeStart { node_index, node_type } => {
                out.append("\"kind\":\"NodeStart\",\"node_index\":");
                push_decimal(out, node_index as u128);
                out.append(",\"node_type\":\"");
                push_escaped(out, node_type);
                out.append("\"}");
            },
            Event::BattleStart { battle_index, enemy_name } => {
                out.append("\"kind\":\"BattleStart\",\"battle_index\":");
                push_decimal(out, battle_index as u128);
                out.append(",\"enemy_name\":\"");
                push_escaped(out, enemy_name);
                out.append("\"}");
            },
            Event::TurnReady { actor } => {
                out.append("\"kind\":\"TurnReady\",\"actor\":\"");
                push_escaped(out, actor);
                out.append("\"}");
            },
            Event::ActionUsed { actor, action_name } => {
                out.append("\"kind\":\"ActionUsed\",\"actor\":\"");
                push_escaped(out, actor);
                out.append("\",\"action_name\":\"");
                push_escaped(out, action_name);
                out.append("\"}");
            },
            Event::DamageDealt { src, dst, amount, dst_hp_after } => {
                out.append("\"kind\":\"DamageDealt\",\"src\":\"");
                push_escaped(out, src);
                out.append("\",\"dst\":\"");
                push_escaped(out, dst);
                out.append("\",\"amount\":");
                push_hundredths(out, amount);
                out.append(",\"dst_hp_after\":");
                push_hundredths(out, dst_hp_after);
                out.append("}");
            },
            Event::StatusApplied { src, dst, status, stacks, duration } => {
                out.append("\"kind\":\"StatusApplied\",\"src\":\"");
                push_escaped(out, src);
                out.append("\",\"dst\":\"");
                push_escaped(out, dst);
                out.append("\",\"status\":\"");
                push_escaped(out, status);
                out.append("\",\"stacks\":");
                push_decimal(out, stacks as u128);
                out.append(",\"duration\":");
                push_decimal(out, duration as u128);
                out.append("}");
            },
            Event::StatusTick { dst, status, amount, dst_hp_after } => {
                out.append("\"kind\":\"StatusTick\",\"dst\":\"");
                push_escaped(out, dst);
                out.append("\",\"status\":\"");
                push_escaped(out, status);
                out.append("\",\"amount\":");
                push_hundredths(out, amount);
                out.append(",\"dst_hp_after\":");
                push_hundredths(out, dst_hp_after);
                out.append("}");
            },
            Event::StatusExpired { dst, status } => {
                out.append("\"kind\":\"StatusExpired\",\"dst\":\"");
                push_escaped(out, dst);
                out.append("\",\"status\":\"");
                push_escaped(out, status);
                out.append("\"}");
            },
            Event::BattleEnd { result, player_hp_after } => {
                out.append("\"kind\":\"BattleEnd\",\"result\":\"");
                push_escaped(out, result);
                out.append("\",\"player_hp_after\":");
                push_hundredths(out, player_hp_after);
                out.append("}");
            },
            Event::RunEnd { result, final_node_index } => {
                out.append("\"kind\":\"RunEnd\",\"result\":\"");
                push_escaped(out, result);
                out.append("\",\"final_node_index\":");
                push_decimal(out, final_node_index as u128);
                out.append("}");
            },
            Event::TraitTriggered { trait_name, trigger_type } => {
                out.append("\"kind\":\"TraitTriggered\",\"trait_name\":\"");
                push_escaped(out, trait_name);
                out.append("\",\"trigger_type\":\"");
                push_escaped(out, trigger_type);
                out.append("\"}");
            },
            Event::TraitEffectApplied { trait_name, effect_summary } => {
                out.append("\"kind\":\"TraitEffectApplied\",\"trait_name\":\"");
                push_escaped(out, trait_name);
                out.append("\",\"effect_summary\":\"");
                let summary = effect_summary.to_text();
                push_escaped(out, summary.as_str());
                out.append("\"}");
            },
        }
        assert(out@ =~= old(out)@ + self.json_body());
    }

    /// Serialises the event as one JSON object on one line.
    pub fn to_json_line(&self) -> (line: String)
        ensures
            line@ == self.json(),
    {
        let mut line = String::new();
        line.append("{");
        self.push_json_body(&mut line);
        assert(line@ =~= self.json());
        line
    }
}

impl Record {
    /// The record as one JSON object: the event with its tick put in front
    /// of its other fields.
    pub open spec fn line(&self) -> Seq<char> {
        "{"@ + "\"tick\":"@ + decimal(self.tick as nat) + ","@ + self.event.json_body()
    }

    /// Serialises the record as one JSON object on one line.
    pub fn to_json_line(&self) -> (line: String)
        ensures
            line@ == self.line(),
    {
        let mut line = String::new();
        line.append("{");
        line.append("\"tick\":");
        push_decimal(&mut line, self.tick as u128);
        line.append(",");
        self.event.push_json_body(&mut line);
        assert(line@ =~= self.line());
        line
    }
}

/// The line of a record is the line of its event with the tick inserted
/// right behind the opening brace.
pub proof fn lemma_record_line_inserts_tick(record: Record)
    ensures
        record.event.json().len() >= 1,
        record.event.json()[0] == '{',
        record.line() == record.event.json().take(1) + "\"tick\":"@ + decimal(record.tick as nat)
            + ","@ + record.event.json().skip(1),
{
    reveal_strlit("{");
    let j = record.event.json();
    assert(j.take(1) =~= "{"@);
    assert(j.skip(1) =~= record.event.json_body());
}

} // verus!
