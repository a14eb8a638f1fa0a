//! Group numbering for display.

use vstd::prelude::*;
use crate::shared::types::log_entry::{entry_views, EntryView, LogEntry};
use crate::viewer::types::DisplayEntry;

verus! {

/// Line of the group that entry `i` belongs to: the line of the nearest
/// entry at or above it that has a level (0 when there is none).
pub open spec fn group_line_of(es: Seq<EntryView>, i: int) -> int
    decreases i + 1,
{
    if i < 0 || i >= es.len() {
        0
    } else if es[i].status.len() > 0 {
        es[i].line
    } else {
        group_line_of(es, i - 1)
    }
}

/// Gives every entry the line number of its group: a line with a level
/// starts a group, the level-less lines after it belong to it.
pub fn assign_groups(entries: Vec<LogEntry>) -> (r: Vec<DisplayEntry>)
    ensures
        r@.len() == entries@.len(),
        forall|i: int|
            0 <= i < r@.len() ==> {
                &&& (#[trigger] r@[i]).entry == entries@[i]
                &&& r@[i].group_line == group_line_of(entry_views(entries@), i)
                &&& r@[i].is_continuation == (entries@[i].status@.len() == 0)
            },
{
    let ghost es = entry_views(entries@);
    let mut out: Vec<DisplayEntry> = Vec::new();
    let mut group_line: usize = 0;
    let mut i: usize = 0;
    while i < entries.len()
        invariant
            i <= entries.len(),
            es == entry_views(entries@),
            out@.len() == i,
            group_line == group_line_of(es, i - 1),
            forall|j: int|
                0 <= j < i ==> {
                    &&& (#[trigger] out@[j]).entry == entries@[j]
                    &&& out@[j].group_line == group_line_of(es, j)
                    &&& out@[j].is_continuation == (entries@[j].status@.len() == 0)
                },
        decreases entries.len() - i,
    {
        let e = entries[i].duplicate();
        assert(es[i as int] == e@);
        if !e.status.as_str().is_empty() {
            group_line = e.line;
            out.push(DisplayEntry::new(e, group_line, false));
        } else {
            out.push(DisplayEntry::new(e, group_line, true));
        }
        i += 1;
    }
    out
}


/// Law: a line with a level leads its own group, a line without one shares
/// the group of the line above it (group 0 before any level), and the group
/// line is always the line of some entry with a level at or above.
pub proof fn lemma_group_lines(es: Seq<EntryView>, i: int)
    requires
        0 <= i < es.len(),
    ensures
        es[i].status.len() > 0 ==> group_line_of(es, i) == es[i].line,
        es[i].status.len() == 0 && i > 0 ==> group_line_of(es, i) == group_line_of(es, i - 1),
        es[i].status.len() == 0 && i == 0 ==> group_line_of(es, i) == 0,
        group_line_of(es, i) == 0 || exists|j: int|
            0 <= j <= i && (#[trigger] es[j]).status.len() > 0 && es[j].line == group_line_of(es, i),
    decreases i,
{
    if es[i].status.len() > 0 {
        assert(es[i].line == group_line_of(es, i));
    } else if i > 0 {
        lemma_group_lines(es, i - 1);
    } else {
        assert(group_line_of(es, -1) == 0);
    }
}

} // verus!
