//! The status ledger: merging, periodic damage, expiry, and the gauge multiplier.

use vstd::prelude::*;
use crate::engine::combat_state::{
    distinct_types, find_status, find_status_index, has_live_status, lemma_find_status,
    ActiveStatus, Combat, CombatModel, Ledger, TriggerContext,
};
use crate::engine::trait_system::{battle_end_context, hit};
use crate::event::Event;
use crate::fixed::{clamp, damage_amount, max_int, round_div, sat_i64, MIN_DURATION_MS, TICK_PERIOD_MS};
use crate::model::{any_alive, find_unit, find_unit_index, has_alive, BattleOutcome, Team};
use crate::skill::{StatType, StatusType};
use crate::trait_spec::TriggerType;

verus! {

/// The stack count after `added` more stacks: the sum, saturating.
pub open spec fn stacks_after(current: u32, added: u32) -> u32 {
    if current + added > u32::MAX {
        u32::MAX
    } else {
        (current + added) as u32
    }
}

/// An existing status after the same status was applied again: stacks add
/// up, duration and power keep the larger value.
pub open spec fn reapplied(existing: ActiveStatus, stacks: u32, duration: i64, power: i64)
    -> ActiveStatus {
    ActiveStatus {
        stacks: stacks_after(existing.stacks, stacks),
        duration: if existing.duration >= duration {
            existing.duration
        } else {
            duration
        },
        power: if existing.power >= power {
            existing.power
        } else {
            power
        },
        ..existing
    }
}

/// A status as it is first created; it lasts at least [`MIN_DURATION_MS`].
pub open spec fn created(status_type: StatusType, stacks: u32, duration: i64, power: i64)
    -> ActiveStatus {
    ActiveStatus {
        status_type,
        stacks,
        duration: if duration >= MIN_DURATION_MS {
            duration
        } else {
            MIN_DURATION_MS
        },
        power,
        tick_meter: 0,
    }
}

/// The ledger after a status was applied: merged into the entry of its type,
/// or appended when there is none.
pub open spec fn merged(
    statuses: Seq<ActiveStatus>,
    status_type: StatusType,
    stacks: u32,
    duration: i64,
    power: i64,
) -> Seq<ActiveStatus> {
    match find_status(statuses, status_type, 0) {
        Some(i) => statuses.update(i, reapplied(statuses[i], stacks, duration, power)),
        None => statuses.push(created(status_type, stacks, duration, power)),
    }
}

/// The ledger after the power of the entry of a type, if any, was raised to `power`.
pub open spec fn power_raised(statuses: Seq<ActiveStatus>, status_type: StatusType, power: i64)
    -> Seq<ActiveStatus> {
    match find_status(statuses, status_type, 0) {
        Some(i) => statuses.update(
            i,
            ActiveStatus {
                power: if statuses[i].power >= power {
                    statuses[i].power
                } else {
                    power
                },
                ..statuses[i]
            },
        ),
        None => statuses,
    }
}

/// The status a self-buff of a stat grants.
pub open spec fn buff_status(stat: StatType) -> StatusType {
    match stat {
        StatType::Attack => StatusType::Might,
        StatType::Speed => StatusType::Haste,
    }
}

/// The stacks a self-buff of `amount` hundredths grants: its whole part, at least one.
pub open spec fn buff_stacks(amount: i64) -> u32 {
    clamp(max_int(amount as int, 100) / 100, 1, u32::MAX as int) as u32
}

/// A duration in milliseconds as the trace reports it: whole seconds, rounded.
pub open spec fn reported_seconds(duration: i64) -> u32 {
    clamp(round_div(max_int(duration as int, 0), 1000), 0, u32::MAX as int) as u32
}

/// Applying a status keeps the ledger at one entry per type.
pub proof fn lemma_merged_distinct(
    statuses: Seq<ActiveStatus>,
    status_type: StatusType,
    stacks: u32,
    duration: i64,
    power: i64,
)
    requires
        distinct_types(statuses),
    ensures
        distinct_types(merged(statuses, status_type, stacks, duration, power)),
        find_status(merged(statuses, status_type, stacks, duration, power), status_type, 0)
            is Some,
{
    lemma_find_status(statuses, status_type, 0);
    let after = merged(statuses, status_type, stacks, duration, power);
    lemma_find_status(after, status_type, 0);
    match find_status(statuses, status_type, 0) {
        Some(i) => {
            assert(after[i].status_type == status_type);
        },
        None => {
            assert(after[statuses.len() as int].status_type == status_type);
        },
    }
}

/// Raising the power of an entry keeps the ledger at one entry per type.
pub proof fn lemma_power_raised_distinct(
    statuses: Seq<ActiveStatus>,
    status_type: StatusType,
    power: i64,
)
    requires
        distinct_types(statuses),
    ensures
        distinct_types(power_raised(statuses, status_type, power)),
{
    lemma_find_status(statuses, status_type, 0);
}

/// Re-applying a status never lowers what is there: whatever entry of that
/// type the ledger held, the entry it holds afterwards has at least as many
/// stacks, as much duration and as much power.
pub proof fn lemma_merge_never_decreases(
    statuses: Seq<ActiveStatus>,
    status_type: StatusType,
    stacks: u32,
    duration: i64,
    power: i64,
)
    ensures
        find_status(statuses, status_type, 0) matches Some(i) ==> {
            let before = statuses[i];
            let after = merged(statuses, status_type, stacks, duration, power)[i];
            &&& find_status(merged(statuses, status_type, stacks, duration, power), status_type, 0)
                == Some(i)
            &&& after.status_type == status_type
            &&& after.stacks >= before.stacks
            &&& after.duration >= before.duration
            &&& after.power >= before.power
        },
{
    lemma_find_status(statuses, status_type, 0);
    if let Some(i) = find_status(statuses, status_type, 0) {
        let after = merged(statuses, status_type, stacks, duration, power);
        lemma_find_status(after, status_type, 0);
        assert(after[i].status_type == status_type);
        if let Some(k) = find_status(after, status_type, 0) {
            if k < i {
                assert(statuses[k].status_type == after[k].status_type);
            }
        }
    }
}

/// Applying the same status twice in a row: the second application lowers
/// neither stacks, duration nor power of the entry the first one left.
pub proof fn lemma_status_reapplication(
    statuses: Seq<ActiveStatus>,
    status_type: StatusType,
    stacks: u32,
    duration: i64,
    power: i64,
)
    ensures
        ({
            let once = merged(statuses, status_type, stacks, duration, power);
            let twice = merged(once, status_type, stacks, duration, power);
            &&& find_status(once, status_type, 0) matches Some(i)
            &&& find_status(twice, status_type, 0) == Some(i)
            &&& twice.len() == once.len()
            &&& twice[i].stacks >= once[i].stacks
            &&& twice[i].duration >= once[i].duration
            &&& twice[i].power >= once[i].power
        }),
{
    let once = merged(statuses, status_type, stacks, duration, power);
    lemma_find_status(statuses, status_type, 0);
    lemma_find_status(once, status_type, 0);
    match find_status(statuses, status_type, 0) {
        Some(i) => {
            assert(once[i].status_type == status_type);
        },
        None => {
            assert(once[statuses.len() as int].status_type == status_type);
        },
    }
    lemma_merge_never_decreases(once, status_type, stacks, duration, power);
}

/// The status a self-buff of a stat grants.
pub fn buff_status_for(stat: StatType) -> (r: StatusType)
    ensures
        r == buff_status(stat),
{
    match stat {
        StatType::Attack => StatusType::Might,
        StatType::Speed => StatusType::Haste,
    }
}

/// The stacks a self-buff of `amount` hundredths grants.
pub fn buff_stacks_for(amount: i64) -> (r: u32)
    ensures
        r == buff_stacks(amount),
{
    let whole: i64 = if amount > 100 {
        amount / 100
    } else {
        1
    };
    if whole > 0xffff_ffff {
        u32::MAX
    } else {
        whole as u32
    }
}

/// A duration in milliseconds as the trace reports it: whole seconds, rounded.
pub fn duration_seconds(duration: i64) -> (r: u32)
    ensures
        r == reported_seconds(duration),
{
    let d: i128 = if duration > 0 {
        duration as i128
    } else {
        0
    };
    let secs = crate::fixed::round_div_wide(d, 1000);
    if secs > 0xffff_ffff {
        u32::MAX
    } else {
        secs as u32
    }
}

impl Combat {
    /// Merges a status into the ledger of `dst_idx`.
    pub fn merge_status(
        &mut self,
        dst_idx: usize,
        status_type: StatusType,
        stacks: u32,
        duration: i64,
        power: i64,
    )
        requires
            old(self).wf(),
            dst_idx < old(self)@.units.len(),
        ensures
            final(self)@ == old(self)@.with_statuses(
                dst_idx as int,
                merged(
                    old(self)@.ledgers[dst_idx as int].statuses,
                    status_type,
                    stacks,
                    duration,
                    power,
                ),
            ),
            final(self).wf(),
            final(self)@.same_cast(old(self)@),
            final(self)@.statuses_grew(old(self)@),
    {
        let ghost before = self.runtime@[dst_idx as int].statuses@;
        proof {
            lemma_merged_distinct(before, status_type, stacks, duration, power);
            lemma_find_status(before, status_type, 0);
        }
        match find_status_index(&self.runtime[dst_idx].statuses, status_type) {
            Some(j) => {
            let existing = self.runtime[dst_idx].statuses[j];
            let merged_entry = ActiveStatus {
                status_type: existing.status_type,
                stacks: existing.stacks.saturating_add(stacks),
                duration: if existing.duration >= duration {
                    existing.duration
                } else {
                    duration
                },
                power: if existing.power >= power {
                    existing.power
                } else {
                    power
                },
                tick_meter: existing.tick_meter,
            };
            self.runtime[dst_idx].statuses[j] = merged_entry;
            },
            None => {
            self.runtime[dst_idx].statuses.push(
                ActiveStatus {
                    status_type,
                    stacks,
                    duration: if duration >= MIN_DURATION_MS {
                        duration
                    } else {
                        MIN_DURATION_MS
                    },
                    power,
                    tick_meter: 0,
                },
            );
            },
        }
        assert(self@.ledgers =~= old(self)@.with_statuses(
            dst_idx as int,
            merged(before, status_type, stacks, duration, power),
        ).ledgers);
    }

    /// Raises the power of the status of the given type on `dst_idx`, if it is there.
    pub fn raise_status_power(&mut self, dst_idx: usize, status_type: StatusType, power: i64)
        requires
            old(self).wf(),
            dst_idx < old(self)@.units.len(),
        ensures
            final(self)@ == old(self)@.with_statuses(
                dst_idx as int,
                power_raised(old(self)@.ledgers[dst_idx as int].statuses, status_type, power),
            ),
            final(self).wf(),
            final(self)@.same_cast(old(self)@),
            final(self)@.statuses_grew(old(self)@),
    {
        let ghost before = self.runtime@[dst_idx as int].statuses@;
        proof {
            lemma_power_raised_distinct(before, status_type, power);
            lemma_find_status(before, status_type, 0);
        }
        if let Some(j) = find_status_index(&self.runtime[dst_idx].statuses, status_type) {
            if self.runtime[dst_idx].statuses[j].power < power {
                self.runtime[dst_idx].statuses[j].power = power;
            }
        }
        assert(self.runtime@[dst_idx as int].statuses@ =~= power_raised(before, status_type, power));
        assert(self@.ledgers =~= old(self)@.with_statuses(
            dst_idx as int,
            power_raised(before, status_type, power),
        ).ledgers);
    }
}

/// A periodic-damage tick that has come due and waits to be applied.
#[derive(Clone, Copy, Debug)]
pub struct PendingTick {
    pub unit_idx: usize,
    pub status_type: StatusType,
    pub amount: i64,
}

/// What one tick of a status deals: `power x stacks`, at least the minimum,
/// for the statuses that deal periodic damage, and nothing for the others.
pub open spec fn tick_amount(status: ActiveStatus) -> i64 {
    if status.status_type.ticks_damage() {
        damage_amount(status.power * status.stacks)
    } else {
        0
    }
}

/// The tick accumulator of a status after `dt` more milliseconds, saturating.
pub open spec fn meter_after(status: ActiveStatus, dt: u32) -> u64 {
    if status.tick_meter + dt > u64::MAX {
        u64::MAX
    } else {
        (status.tick_meter + dt) as u64
    }
}

/// Number of ticks a status fires when `dt` milliseconds pass: one per full
/// period in its accumulator.
pub open spec fn ticks_due(status: ActiveStatus, dt: u32) -> nat {
    if status.status_type.ticks_damage() {
        (meter_after(status, dt) / TICK_PERIOD_MS) as nat
    } else {
        0
    }
}

/// A status after `dt` milliseconds passed: less duration, and the
/// accumulator less the periods that fired.
pub open spec fn aged_status(status: ActiveStatus, dt: u32) -> ActiveStatus {
    ActiveStatus {
        duration: sat_i64(status.duration - dt),
        tick_meter: if status.status_type.ticks_damage() {
            meter_after(status, dt) % TICK_PERIOD_MS
        } else {
            meter_after(status, dt)
        },
        ..status
    }
}

/// A ledger row after `dt` milliseconds passed.
pub open spec fn aged_row(statuses: Seq<ActiveStatus>, dt: u32) -> Seq<ActiveStatus> {
    Seq::new(statuses.len(), |j: int| aged_status(statuses[j], dt))
}

/// `n` copies of a tick.
pub open spec fn repeated(tick: PendingTick, n: nat) -> Seq<PendingTick> {
    Seq::new(n, |k: int| tick)
}

/// The ticks the first `n` statuses of a row fire, in row order.
pub open spec fn row_ticks(statuses: Seq<ActiveStatus>, unit_idx: usize, dt: u32, n: int) -> Seq<
    PendingTick,
>
    decreases n,
{
    if n <= 0 || n > statuses.len() {
        Seq::empty()
    } else {
        row_ticks(statuses, unit_idx, dt, n - 1) + repeated(
            PendingTick {
                unit_idx,
                status_type: statuses[n - 1].status_type,
                amount: tick_amount(statuses[n - 1]),
            },
            ticks_due(statuses[n - 1], dt),
        )
    }
}

/// The ticks the first `n` units fire, in roster order.
pub open spec fn all_ticks(ledgers: Seq<Ledger>, dt: u32, n: int) -> Seq<PendingTick>
    decreases n,
{
    if n <= 0 || n > ledgers.len() {
        Seq::empty()
    } else {
        all_ticks(ledgers, dt, n - 1) + row_ticks(
            ledgers[n - 1].statuses,
            (n - 1) as usize,
            dt,
            ledgers[n - 1].statuses.len() as int,
        )
    }
}

/// The statuses among the first `n` of a row that have time left, in row order.
pub open spec fn kept_of(statuses: Seq<ActiveStatus>, n: int) -> Seq<ActiveStatus>
    decreases n,
{
    if n <= 0 || n > statuses.len() {
        Seq::empty()
    } else if statuses[n - 1].duration > 0 {
        kept_of(statuses, n - 1).push(statuses[n - 1])
    } else {
        kept_of(statuses, n - 1)
    }
}

/// Whether one of the first `n` statuses has the given type.
pub open spec fn type_among(statuses: Seq<ActiveStatus>, status_type: StatusType, n: int) -> bool {
    exists|i: int| 0 <= i < n && (#[trigger] statuses[i]).status_type == status_type
}

/// Dropping the run-out statuses keeps the row at one entry per type, and
/// leaves no status without time.
pub proof fn lemma_kept_distinct(statuses: Seq<ActiveStatus>, n: int)
    requires
        distinct_types(statuses),
        0 <= n <= statuses.len(),
    ensures
        distinct_types(kept_of(statuses, n)),
        forall|k: int|
            0 <= k < kept_of(statuses, n).len() ==> type_among(
                statuses,
                (#[trigger] kept_of(statuses, n)[k]).status_type,
                n,
            ) && kept_of(statuses, n)[k].duration > 0,
    decreases n,
{
    if n > 0 {
        lemma_kept_distinct(statuses, n - 1);
        let prev = kept_of(statuses, n - 1);
        let cur = kept_of(statuses, n);
        assert forall|k: int| 0 <= k < cur.len() implies type_among(
            statuses,
            (#[trigger] cur[k]).status_type,
            n,
        ) && cur[k].duration > 0 by {
            if k < prev.len() {
                assert(cur[k] == prev[k]);
                assert(type_among(statuses, prev[k].status_type, n - 1));
                let i = choose|i: int|
                    0 <= i < n - 1 && (#[trigger] statuses[i]).status_type == prev[k].status_type;
                assert(statuses[i].status_type == cur[k].status_type);
            } else {
                assert(statuses[n - 1].status_type == cur[k].status_type);
            }
        }
        assert forall|a: int, b: int| 0 <= a < b < cur.len() implies (#[trigger] cur[a]).status_type
            != (#[trigger] cur[b]).status_type by {
            if b < prev.len() {
                assert(cur[a] == prev[a] && cur[b] == prev[b]);
            } else {
                assert(cur[a] == prev[a]);
                assert(type_among(statuses, prev[a].status_type, n - 1));
                let i = choose|i: int|
                    0 <= i < n - 1 && (#[trigger] statuses[i]).status_type == prev[a].status_type;
                assert(statuses[i].status_type != statuses[n - 1].status_type);
            }
        }
    }
}

/// Whether `status` is one of the first `n` statuses of a row.
pub open spec fn listed_among(statuses: Seq<ActiveStatus>, status: ActiveStatus, n: int) -> bool {
    exists|i: int| 0 <= i < n && #[trigger] statuses[i] == status
}

/// What is kept of a row is its statuses with time left, and all of them.
pub proof fn lemma_kept_of_is_the_live_part(statuses: Seq<ActiveStatus>, n: int)
    requires
        0 <= n <= statuses.len(),
    ensures
        forall|k: int|
            0 <= k < kept_of(statuses, n).len() ==> listed_among(
                statuses,
                #[trigger] kept_of(statuses, n)[k],
                n,
            ) && kept_of(statuses, n)[k].duration > 0,
        forall|i: int|
            0 <= i < n && (#[trigger] statuses[i]).duration > 0 ==> listed_among(
                kept_of(statuses, n),
                statuses[i],
                kept_of(statuses, n).len() as int,
            ),
    decreases n,
{
    if n > 0 {
        lemma_kept_of_is_the_live_part(statuses, n - 1);
        let prev = kept_of(statuses, n - 1);
        let cur = kept_of(statuses, n);
        assert forall|k: int| 0 <= k < cur.len() implies listed_among(
            statuses,
            #[trigger] cur[k],
            n,
        ) && cur[k].duration > 0 by {
            if k < prev.len() {
                assert(cur[k] == prev[k]);
                assert(listed_among(statuses, prev[k], n - 1));
                let i = choose|i: int| 0 <= i < n - 1 && #[trigger] statuses[i] == prev[k];
                assert(statuses[i] == cur[k]);
            } else {
                assert(statuses[n - 1] == cur[k]);
            }
        }
        assert forall|i: int| 0 <= i < n && (#[trigger] statuses[i]).duration > 0 implies listed_among(
            cur,
            statuses[i],
            cur.len() as int,
        ) by {
            if i < n - 1 {
                assert(listed_among(prev, statuses[i], prev.len() as int));
                let k = choose|k: int| 0 <= k < prev.len() && #[trigger] prev[k] == statuses[i];
                assert(cur[k] == statuses[i]);
            } else {
                assert(cur[cur.len() - 1] == statuses[i]);
            }
        }
    }
}

/// A status with time left is kept, and one without is not: after the
/// run-out statuses of a row were dropped, the row holds a status of a type
/// exactly if it held one with time left.
pub proof fn lemma_kept_of_by_type(statuses: Seq<ActiveStatus>, status_type: StatusType)
    ensures
        has_live_status(kept_of(statuses, statuses.len() as int), status_type)
            <==> has_live_status(statuses, status_type),
        find_status(kept_of(statuses, statuses.len() as int), status_type, 0) is Some
            <==> has_live_status(statuses, status_type),
{
    let n = statuses.len() as int;
    let kept = kept_of(statuses, n);
    lemma_kept_of_is_the_live_part(statuses, n);
    lemma_find_status(kept, status_type, 0);
    if has_live_status(statuses, status_type) {
        let j = choose|j: int|
            0 <= j < statuses.len() && (#[trigger] statuses[j]).status_type == status_type
                && statuses[j].duration > 0;
        assert(listed_among(kept, statuses[j], kept.len() as int));
        let k = choose|k: int| 0 <= k < kept.len() && #[trigger] kept[k] == statuses[j];
        assert(kept[k].status_type == status_type && kept[k].duration > 0);
    }
    if find_status(kept, status_type, 0) is Some || has_live_status(kept, status_type) {
        let k = if find_status(kept, status_type, 0) is Some {
            find_status(kept, status_type, 0)->0
        } else {
            choose|k: int|
                0 <= k < kept.len() && (#[trigger] kept[k]).status_type == status_type
                    && kept[k].duration > 0
        };
        assert(listed_among(statuses, kept[k], n));
        let j = choose|j: int| 0 <= j < n && #[trigger] statuses[j] == kept[k];
        assert(statuses[j].status_type == status_type && statuses[j].duration > 0);
    }
}

/// The context of a periodic-damage tick on `dst`.
pub open spec fn tick_context(dst: usize, status_type: StatusType) -> TriggerContext {
    TriggerContext {
        trigger_type: TriggerType::OnStatusTick,
        src_idx: None,
        dst_idx: Some(dst),
        applied_status: Some(status_type),
    }
}

/// The gauge speed multiplier, in thousandths, of a unit with the given
/// statuses: halved while frozen, times 1.25 while hasted, zero while stunned.
pub open spec fn gauge_multiplier(statuses: Seq<ActiveStatus>) -> u32 {
    if has_live_status(statuses, StatusType::Stun) {
        0
    } else if has_live_status(statuses, StatusType::Freeze) {
        if has_live_status(statuses, StatusType::Haste) {
            625
        } else {
            500
        }
    } else if has_live_status(statuses, StatusType::Haste) {
        1250
    } else {
        1000
    }
}

impl CombatModel {
    /// The arena with every status aged by `dt` milliseconds in the first `n` rows.
    pub open spec fn aged_upto(self, dt: u32, n: int) -> CombatModel {
        CombatModel {
            ledgers: Seq::new(
                self.ledgers.len(),
                |i: int|
                    if i < n {
                        Ledger { statuses: aged_row(self.ledgers[i].statuses, dt), ..self.ledgers[i] }
                    } else {
                        self.ledgers[i]
                    },
            ),
            ..self
        }
    }

    /// The arena after one due tick was applied: a living unit loses the
    /// amount, the tick is reported, and the traits react.
    pub open spec fn tick_hit(self, tick: PendingTick) -> CombatModel {
        let unit = self.units[tick.unit_idx as int];
        let after = if unit.alive() {
            hit(unit, tick.amount)
        } else {
            unit
        };
        self.with_unit(tick.unit_idx as int, after).emit(
            Event::StatusTick {
                dst: self.label(tick.unit_idx as int),
                status: tick.status_type.name(),
                amount: tick.amount,
                dst_hp_after: after.hp,
            },
        ).dispatch(tick_context(tick.unit_idx, tick.status_type), 0)
    }

    /// The arena after the due ticks from position `at` on were applied, in order.
    pub open spec fn apply_ticks(self, ticks: Seq<PendingTick>, at: nat) -> CombatModel
        decreases ticks.len() - at,
    {
        if at >= ticks.len() {
            self
        } else {
            self.tick_hit(ticks[at as int]).apply_ticks(ticks, at + 1)
        }
    }

    /// The arena with an expiry reported for each run-out status of `row`
    /// from position `at` on.
    pub open spec fn expiry_reported(self, unit_idx: int, row: Seq<ActiveStatus>, at: nat)
        -> CombatModel
        decreases row.len() - at,
    {
        if at >= row.len() {
            self
        } else {
            (if row[at as int].duration <= 0 {
                self.emit(
                    Event::StatusExpired {
                        dst: self.label(unit_idx),
                        status: row[at as int].status_type.name(),
                    },
                )
            } else {
                self
            }).expiry_reported(unit_idx, row, at + 1)
        }
    }

    /// The arena after the run-out statuses of one unit were removed and reported.
    pub open spec fn expire_row(self, unit_idx: int) -> CombatModel {
        let row = self.ledgers[unit_idx].statuses;
        self.expiry_reported(unit_idx, row, 0).with_statuses(
            unit_idx,
            kept_of(row, row.len() as int),
        )
    }

    /// The arena after the run-out statuses of the units from `at` up to `n`
    /// were removed and reported, in roster order.
    pub open spec fn expire_all(self, at: nat, n: nat) -> CombatModel
        decreases n - at,
    {
        if at >= n {
            self
        } else {
            self.expire_row(at as int).expire_all(at + 1, n)
        }
    }

    /// The outcome of the battle, if it is decided, and the arena after it
    /// was reported: won when no enemy lives, else lost when no player unit lives.
    pub open spec fn check_end(self) -> (Option<BattleOutcome>, CombatModel) {
        if !any_alive(self.units, Team::Enemy) {
            let player_hp_after = match find_unit(self.units, Team::Player, false, 0) {
                Some(i) => self.units[i].hp,
                None => 0,
            };
            (
                Some(BattleOutcome::Victory),
                self.emit(Event::BattleEnd { result: "win", player_hp_after }).dispatch(
                    battle_end_context(),
                    0,
                ),
            )
        } else if !any_alive(self.units, Team::Player) {
            (
                Some(BattleOutcome::Defeat),
                self.emit(Event::BattleEnd { result: "lose", player_hp_after: 0 }).dispatch(
                    battle_end_context(),
                    0,
                ),
            )
        } else {
            (None, self)
        }
    }

    /// The arena after `dt` milliseconds of status time: every status ages,
    /// the ticks that came due are applied, run-out statuses expire, and the
    /// battle is checked for its end. No time, no change.
    pub open spec fn tick_statuses(self, dt: u32) -> (Option<BattleOutcome>, CombatModel) {
        if dt == 0 {
            (None, self)
        } else {
            self.aged_upto(dt, self.ledgers.len() as int).apply_ticks(
                all_ticks(self.ledgers, dt, self.ledgers.len() as int),
                0,
            ).expire_all(0, self.ledgers.len()).check_end()
        }
    }
}

/// A row of which the first `n` statuses are aged by `dt` and the rest are not.
pub open spec fn partly_aged(statuses: Seq<ActiveStatus>, dt: u32, n: int) -> Seq<ActiveStatus> {
    Seq::new(
        statuses.len(),
        |j: int|
            if j < n {
                aged_status(statuses[j], dt)
            } else {
                statuses[j]
            },
    )
}

/// Every tick of a row names the unit of the row.
pub proof fn lemma_row_ticks_unit(statuses: Seq<ActiveStatus>, unit_idx: usize, dt: u32, n: int)
    ensures
        forall|k: int|
            0 <= k < row_ticks(statuses, unit_idx, dt, n).len() ==> (#[trigger] row_ticks(
                statuses,
                unit_idx,
                dt,
                n,
            )[k]).unit_idx == unit_idx && row_ticks(statuses, unit_idx, dt, n)[k].amount >= 1,
    decreases n,
{
    if 0 < n <= statuses.len() {
        lemma_row_ticks_unit(statuses, unit_idx, dt, n - 1);
    }
}

/// Every tick of the first `n` units names one of them.
pub proof fn lemma_all_ticks_in_range(ledgers: Seq<Ledger>, dt: u32, n: int)
    requires
        n <= usize::MAX,
    ensures
        forall|k: int|
            0 <= k < all_ticks(ledgers, dt, n).len() ==> (#[trigger] all_ticks(
                ledgers,
                dt,
                n,
            )[k]).unit_idx < n && all_ticks(ledgers, dt, n)[k].amount >= 1,
    decreases n,
{
    if 0 < n <= ledgers.len() {
        lemma_all_ticks_in_range(ledgers, dt, n - 1);
        lemma_row_ticks_unit(
            ledgers[n - 1].statuses,
            (n - 1) as usize,
            dt,
            ledgers[n - 1].statuses.len() as int,
        );
    }
}

fn push_ticks(pending: &mut Vec<PendingTick>, tick: PendingTick, count: u64)
    ensures
        final(pending)@ == old(pending)@ + repeated(tick, count as nat),
{
    let mut k: u64 = 0;
    assert(pending@ =~= old(pending)@ + repeated(tick, 0));
    while k < count
        invariant
            k <= count,
            pending@ == old(pending)@ + repeated(tick, k as nat),
        decreases count - k,
    {
        pending.push(tick);
        k = k + 1;
        assert(pending@ =~= old(pending)@ + repeated(tick, k as nat));
    }
}

impl Combat {
    /// Ages the statuses of one unit by `dt` milliseconds and queues the
    /// ticks that came due.
    fn age_row(&mut self, unit_idx: usize, dt: u32, pending: &mut Vec<PendingTick>)
        requires
            old(self).wf(),
            unit_idx < old(self)@.units.len(),
        ensures
            final(self)@ == old(self)@.with_statuses(
                unit_idx as int,
                aged_row(old(self)@.ledgers[unit_idx as int].statuses, dt),
            ),
            final(pending)@ == old(pending)@ + row_ticks(
                old(self)@.ledgers[unit_idx as int].statuses,
                unit_idx,
                dt,
                old(self)@.ledgers[unit_idx as int].statuses.len() as int,
            ),
            final(self).wf(),
    {
        let ghost row = self.runtime@[unit_idx as int].statuses@;
        let n = self.runtime[unit_idx].statuses.len();
        let mut j: usize = 0;
        assert(partly_aged(row, dt, 0) =~= row);
        assert(self@.ledgers =~= old(self)@.with_statuses(unit_idx as int, row).ledgers);
        assert(pending@ =~= old(pending)@ + row_ticks(row, unit_idx, dt, 0));
        while j < n
            invariant
                j <= n,
                n == row.len(),
                unit_idx < self.runtime@.len(),
                unit_idx < old(self)@.ledgers.len(),
                self.runtime@.len() == old(self)@.ledgers.len(),
                self.runtime@.len() == self.state.units@.len(),
                row == old(self)@.ledgers[unit_idx as int].statuses,
                self.runtime@[unit_idx as int].statuses@ == partly_aged(row, dt, j as int),
                self@ == old(self)@.with_statuses(unit_idx as int, partly_aged(row, dt, j as int)),
                pending@ == old(pending)@ + row_ticks(row, unit_idx, dt, j as int),
            decreases n - j,
        {
            let status = self.runtime[unit_idx].statuses[j];
            assert(status == row[j as int]);
            let ghost queued = pending@;
            let ghost before = self@;
            let ghost rows = self.runtime@;
            let duration = crate::fixed::saturate(status.duration as i128 - dt as i128);
            let mut meter = status.tick_meter.saturating_add(dt as u64);
            if status.status_type.deals_periodic_damage() {
                let p: i128 = status.power as i128;
                let k: i128 = status.stacks as i128;
                assert(-0x8000_0000_0000_0000_0000_0000 <= p * k <= 0x8000_0000_0000_0000_0000_0000)
                    by (nonlinear_arith)
                    requires
                        -0x8000_0000_0000_0000 <= p <= 0x8000_0000_0000_0000,
                        0 <= k <= 0x1_0000_0000,
                ;
                let amount = crate::fixed::to_damage(p * k);
                let due = meter / TICK_PERIOD_MS;
                meter = meter % TICK_PERIOD_MS;
                push_ticks(
                    pending,
                    PendingTick { unit_idx, status_type: status.status_type, amount },
                    due,
                );
            } else {
                assert(pending@ =~= queued + repeated(
                    PendingTick {
                        unit_idx,
                        status_type: status.status_type,
                        amount: tick_amount(status),
                    },
                    0,
                ));
            }
            self.runtime[unit_idx].statuses[j] = ActiveStatus {
                status_type: status.status_type,
                stacks: status.stacks,
                duration,
                power: status.power,
                tick_meter: meter,
            };
            assert(self.runtime@[unit_idx as int].statuses@ =~= partly_aged(row, dt, j + 1));
            assert(self.runtime@.len() == rows.len());
            assert forall|i: int| 0 <= i < rows.len() implies #[trigger] self@.ledgers[i]
                == old(self)@.with_statuses(
                unit_idx as int,
                partly_aged(row, dt, j + 1),
            ).ledgers[i] by {
                assert(before.ledgers[i] == rows[i]@);
                if i != unit_idx {
                    assert(self.runtime@[i] == rows[i]);
                }
            }
            assert(self@.ledgers =~= old(self)@.with_statuses(
                unit_idx as int,
                partly_aged(row, dt, j + 1),
            ).ledgers);
            assert(pending@ =~= old(pending)@ + row_ticks(row, unit_idx, dt, j + 1));
            j = j + 1;
        }
        assert(partly_aged(row, dt, n as int) =~= aged_row(row, dt));
        assert(distinct_types(aged_row(row, dt)));
    }

    /// Ages every status by `dt` milliseconds and returns the ticks that came
    /// due, in roster order.
    fn age_statuses(&mut self, dt: u32) -> (pending: Vec<PendingTick>)
        requires
            old(self).wf(),
        ensures
            final(self)@ == old(self)@.aged_upto(dt, old(self)@.ledgers.len() as int),
            pending@ == all_ticks(old(self)@.ledgers, dt, old(self)@.ledgers.len() as int),
            forall|k: int|
                0 <= k < pending@.len() ==> (#[trigger] pending@[k]).unit_idx < old(
                    self,
                )@.units.len() && pending@[k].amount >= 1,
            final(self).wf(),
            final(self)@.same_cast(old(self)@),
    {
        let mut pending: Vec<PendingTick> = Vec::new();
        let n = self.runtime.len();
        let mut u: usize = 0;
        assert(self@.ledgers =~= old(self)@.aged_upto(dt, 0).ledgers);
        while u < n
            invariant
                u <= n,
                n == old(self)@.ledgers.len(),
                self.wf(),
                self@ == old(self)@.aged_upto(dt, u as int),
                pending@ == all_ticks(old(self)@.ledgers, dt, u as int),
            decreases n - u,
        {
            self.age_row(u, dt, &mut pending);
            assert(self@.ledgers =~= old(self)@.aged_upto(dt, u + 1).ledgers);
            u = u + 1;
        }
        proof {
            lemma_all_ticks_in_range(old(self)@.ledgers, dt, n as int);
        }
        pending
    }

    /// Applies one due tick.
    fn apply_tick(&mut self, tick: PendingTick)
        requires
            old(self).wf(),
            tick.unit_idx < old(self)@.units.len(),
            tick.amount >= 1,
        ensures
            final(self)@ == old(self)@.tick_hit(tick),
            final(self).wf(),
            final(self)@.same_cast(old(self)@),
    {
        let unit_idx = tick.unit_idx;
        if self.state.units[unit_idx].is_alive() {
            let hp = self.state.units[unit_idx].hp;
            self.state.units[unit_idx].hp = if hp > tick.amount {
                hp - tick.amount
            } else {
                0
            };
        }
        let dst = self.actor_label_for_idx(unit_idx);
        let dst_hp_after = self.state.units[unit_idx].hp;
        assert(self@.units =~= old(self)@.units.update(
            unit_idx as int,
            if old(self)@.units[unit_idx as int].alive() {
                hit(old(self)@.units[unit_idx as int], tick.amount)
            } else {
                old(self)@.units[unit_idx as int]
            },
        ));
        self.emit(
            Event::StatusTick {
                dst,
                status: tick.status_type.as_str(),
                amount: tick.amount,
                dst_hp_after,
            },
        );
        let context = TriggerContext {
            trigger_type: TriggerType::OnStatusTick,
            src_idx: None,
            dst_idx: Some(unit_idx),
            applied_status: Some(tick.status_type),
        };
        self.process_trait_triggers(context, 0);
    }

    /// Applies the due ticks in order.
    fn apply_pending_ticks(&mut self, pending: &Vec<PendingTick>)
        requires
            old(self).wf(),
            forall|k: int|
                0 <= k < pending@.len() ==> (#[trigger] pending@[k]).unit_idx < old(
                    self,
                )@.units.len() && pending@[k].amount >= 1,
        ensures
            final(self)@ == old(self)@.apply_ticks(pending@, 0),
            final(self).wf(),
            final(self)@.same_cast(old(self)@),
    {
        let ghost goal = self@.apply_ticks(pending@, 0);
        let n = pending.len();
        let mut at: usize = 0;
        while at < n
            invariant
                at <= n,
                n == pending@.len(),
                self.wf(),
                self@.same_cast(old(self)@),
                forall|k: int|
                    0 <= k < pending@.len() ==> (#[trigger] pending@[k]).unit_idx < old(
                        self,
                    )@.units.len() && pending@[k].amount >= 1,
                self@.apply_ticks(pending@, at as nat) == goal,
            decreases n - at,
        {
            self.apply_tick(pending[at]);
            at = at + 1;
        }
    }

    /// Removes the run-out statuses of one unit and reports each.
    fn expire_row(&mut self, unit_idx: usize)
        requires
            old(self).wf(),
            unit_idx < old(self)@.units.len(),
        ensures
            final(self)@ == old(self)@.expire_row(unit_idx as int),
            final(self).wf(),
            final(self)@.same_cast(old(self)@),
    {
        let ghost row = self.runtime@[unit_idx as int].statuses@;
        let ghost goal = self@.expiry_reported(unit_idx as int, row, 0);
        assert(row == self@.ledgers[unit_idx as int].statuses);
        let dst = self.actor_label_for_idx(unit_idx);
        let n = self.runtime[unit_idx].statuses.len();
        let mut kept: Vec<ActiveStatus> = Vec::new();
        let mut j: usize = 0;
        while j < n
            invariant
                j <= n,
                n == row.len(),
                unit_idx < self.runtime@.len(),
                self.wf(),
                self@.same_cast(old(self)@),
                self.runtime == old(self).runtime,
                row == self.runtime@[unit_idx as int].statuses@,
                distinct_types(row),
                dst == self@.label(unit_idx as int),
                kept@ == kept_of(row, j as int),
                self@.expiry_reported(unit_idx as int, row, j as nat) == goal,
            decreases n - j,
        {
            let status = self.runtime[unit_idx].statuses[j];
            if status.duration > 0 {
                kept.push(status);
            } else {
                self.emit(Event::StatusExpired { dst, status: status.status_type.as_str() });
            }
            j = j + 1;
        }
        proof {
            lemma_kept_distinct(row, n as int);
        }
        let ghost scanned = self@;
        self.runtime[unit_idx].statuses = kept;
        assert(self@.ledgers =~= scanned.with_statuses(
            unit_idx as int,
            kept_of(row, n as int),
        ).ledgers);
    }

    /// Removes and reports the run-out statuses of every unit, in roster order.
    fn expire_statuses(&mut self)
        requires
            old(self).wf(),
        ensures
            final(self)@ == old(self)@.expire_all(0, old(self)@.ledgers.len()),
            final(self).wf(),
            final(self)@.same_cast(old(self)@),
    {
        let n = self.runtime.len();
        let ghost goal = self@.expire_all(0, n as nat);
        let mut u: usize = 0;
        while u < n
            invariant
                u <= n,
                n == self@.ledgers.len(),
                self.wf(),
                self@.same_cast(old(self)@),
                self@.expire_all(u as nat, n as nat) == goal,
            decreases n - u,
        {
            self.expire_row(u);
            u = u + 1;
        }
    }

    /// Reports the end of the battle if one side has no living unit left, and
    /// lets the traits react to it.
    pub fn check_and_emit_battle_end(&mut self) -> (outcome: Option<BattleOutcome>)
        requires
            old(self).wf(),
        ensures
            (outcome, final(self)@) == old(self)@.check_end(),
            final(self).wf(),
            final(self)@.same_cast(old(self)@),
    {
        if !has_alive(&self.state.units, Team::Enemy) {
            let player_hp_after = match find_unit_index(&self.state.units, Team::Player, false) {
                Some(i) => self.state.units[i].hp,
                None => 0,
            };
            self.emit(Event::BattleEnd { result: "win", player_hp_after });
            self.emit_battle_end_triggers();
            return Some(BattleOutcome::Victory);
        }
        if !has_alive(&self.state.units, Team::Player) {
            self.emit(Event::BattleEnd { result: "lose", player_hp_after: 0 });
            self.emit_battle_end_triggers();
            return Some(BattleOutcome::Defeat);
        }
        None
    }

    /// Advances every status by `dt` milliseconds.
    pub fn tick_statuses(&mut self, dt: u32) -> (outcome: Option<BattleOutcome>)
        requires
            old(self).wf(),
        ensures
            (outcome, final(self)@) == old(self)@.tick_statuses(dt),
            final(self).wf(),
            final(self)@.same_cast(old(self)@),
    {
        if dt == 0 {
            return None;
        }
        let pending = self.age_statuses(dt);
        self.apply_pending_ticks(&pending);
        self.expire_statuses();
        self.check_and_emit_battle_end()
    }

    /// The gauge speed multiplier of a unit, in thousandths.
    pub fn gauge_speed_multiplier(&self, unit_idx: usize) -> (mult: u32)
        requires
            self.wf(),
            unit_idx < self@.units.len(),
        ensures
            mult == gauge_multiplier(self@.ledgers[unit_idx as int].statuses),
    {
        if self.has_status(unit_idx, StatusType::Stun) {
            return 0;
        }
        let mut mult: u32 = 1000;
        if self.has_status(unit_idx, StatusType::Freeze) {
            mult = mult / 2;
        }
        if self.has_status(unit_idx, StatusType::Haste) {
            mult = mult / 4 * 5;
        }
        mult
    }
}

} // verus!
