//! The trace as lines of text: one JSON object per record.

use vstd::prelude::*;
use crate::event::{Event, Record};
use crate::text::views;

verus! {

/// The lines of a list of records, in order.
pub open spec fn lines_of(records: Seq<Record>) -> Seq<Seq<char>> {
    Seq::new(records.len(), |i: int| records[i].line())
}

/// Appends the line of an event that happened on `tick` to `logs`.
pub fn push_event(logs: &mut Vec<String>, tick: u32, event: Event)
    ensures
        views(final(logs)@) == views(old(logs)@).push((Record { tick, event }).line()),
{
    let record = Record { tick, event };
    logs.push(record.to_json_line());
    assert(views(logs@) =~= views(old(logs)@).push(record.line()));
}

/// Serialises a list of records, one line each.
pub fn render_records(records: &Vec<Record>) -> (lines: Vec<String>)
    ensures
        views(lines@) == lines_of(records@),
{
    let mut lines: Vec<String> = Vec::new();
    let mut i: usize = 0;
    assert(views(lines@) =~= lines_of(records@.take(0)));
    while i < records.len()
        invariant
            i <= records@.len(),
            views(lines@) == lines_of(records@.take(i as int)),
        decreases records@.len() - i,
    {
        push_event(&mut lines, records[i].tick, records[i].event);
        assert(views(lines@) =~= lines_of(records@.take(i + 1)));
        i = i + 1;
    }
    assert(records@.take(records@.len() as int) =~= records@);
    lines
}

} // verus!
