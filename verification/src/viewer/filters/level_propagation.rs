//! Level propagation to continuation lines.

use vstd::prelude::*;
use crate::shared::types::log_entry::{entry_views, EntryView, LogEntry};

verus! {

/// The level in force at entry `i`: its own level, or else that of the
/// nearest entry above it that has one (empty when there is none).
pub open spec fn inherited_status(es: Seq<EntryView>, i: int) -> Seq<char>
    decreases i + 1,
{
    if i < 0 || i >= es.len() {
        seq![]
    } else if es[i].status.len() > 0 {
        es[i].status
    } else {
        inherited_status(es, i - 1)
    }
}

/// `e` with the level `s`.
pub open spec fn with_status(e: EntryView, s: Seq<char>) -> EntryView {
    EntryView { line: e.line, datetime: e.datetime, status: s, message: e.message }
}

/// The entries with every level-less line given the level in force.
pub open spec fn propagated(es: Seq<EntryView>) -> Seq<EntryView> {
    Seq::new(es.len(), |i: int| with_status(es[i], inherited_status(es, i)))
}

/// Gives each continuation line (no level) the level of the most recent
/// line above it that has one.
pub fn propagate_levels(entries: &[LogEntry]) -> (r: Vec<LogEntry>)
    ensures
        entry_views(r@) == propagated(entry_views(entries@)),
{
    let ghost es = entry_views(entries@);
    let mut out: Vec<LogEntry> = Vec::new();
    let mut current = String::new();
    let mut i: usize = 0;
    while i < entries.len()
        invariant
            i <= entries.len(),
            es == entry_views(entries@),
            current@ == inherited_status(es, i - 1),
            entry_views(out@) =~= propagated(es).take(i as int),
        decreases entries.len() - i,
    {
        let e = &entries[i];
        let ghost prev = out@;
        assert(es[i as int] == e@);
        if !e.status.as_str().is_empty() {
            current = e.status.clone();
            out.push(e.duplicate());
        } else {
            let mut inherited = e.duplicate();
            inherited.status = current.clone();
            out.push(inherited);
        }
        assert(entry_views(out@) =~= entry_views(prev).push(out@[i as int]@));
        assert(propagated(es).take(i + 1) =~= propagated(es).take(i as int).push(propagated(es)[i as int]));
        i += 1;
    }
    assert(propagated(es).take(i as int) =~= propagated(es));
    out
}

/// The level in force at entry `i` is that of some entry at or above it,
/// or empty when no entry at or above it has a level.
pub proof fn lemma_inherited_status_source(es: Seq<EntryView>, i: int)
    requires
        0 <= i < es.len(),
    ensures
        inherited_status(es, i).len() == 0 <==> forall|j: int| 0 <= j <= i ==> (#[trigger] es[j]).status.len() == 0,
        inherited_status(es, i).len() > 0 ==> exists|j: int| 0 <= j <= i && (#[trigger] es[j]).status == inherited_status(es, i),
    decreases i,
{
    if es[i].status.len() > 0 {
        assert(es[i].status == inherited_status(es, i));
    } else if i > 0 {
        lemma_inherited_status_source(es, i - 1);
        assert(inherited_status(es, i) == inherited_status(es, i - 1));
        if inherited_status(es, i).len() > 0 {
            let j = choose|j: int| 0 <= j <= i - 1 && (#[trigger] es[j]).status == inherited_status(es, i - 1);
            assert(0 <= j <= i && es[j].status == inherited_status(es, i));
        } else {
            assert forall|j: int| 0 <= j <= i implies (#[trigger] es[j]).status.len() == 0 by {
                if j < i {
                    assert(es[j].status.len() == 0);
                }
            }
        }
    } else {
        assert forall|j: int| 0 <= j <= i implies (#[trigger] es[j]).status.len() == 0 by {
            assert(j == 0);
        }
    }
}

/// Propagation keeps what it does not fill: line, timestamp and message of
/// every entry, and the level of every entry that has one.
pub proof fn lemma_propagation_keeps_levels(es: Seq<EntryView>)
    ensures
        propagated(es).len() == es.len(),
        forall|i: int|
            0 <= i < es.len() ==> {
                &&& (#[trigger] propagated(es)[i]).line == es[i].line
                &&& propagated(es)[i].datetime == es[i].datetime
                &&& propagated(es)[i].message == es[i].message
                &&& (es[i].status.len() > 0 ==> propagated(es)[i].status == es[i].status)
            },
{
}

/// Propagated entries carry the level in force of the original ones.
proof fn lemma_inherited_of_propagated(es: Seq<EntryView>, i: int)
    requires
        0 <= i < es.len(),
    ensures
        inherited_status(propagated(es), i) == inherited_status(es, i),
    decreases i,
{
    let p = propagated(es);
    assert(p[i] == with_status(es[i], inherited_status(es, i)));
    assert(p.len() == es.len());
    if es[i].status.len() > 0 {
        assert(p[i].status == es[i].status);
        assert(inherited_status(p, i) == p[i].status);
    } else if i > 0 {
        lemma_inherited_of_propagated(es, i - 1);
        assert(p[i].status == inherited_status(es, i - 1));
        assert(p.len() == es.len());
        if p[i].status.len() == 0 {
            assert(inherited_status(p, i) == inherited_status(p, i - 1));
        }
    } else {
        assert(p[i].status == inherited_status(es, -1));
        assert(inherited_status(p, i) == inherited_status(p, i - 1));
    }
}

/// Law: propagating levels twice gives the same entries as propagating
/// them once.
pub proof fn lemma_propagation_idempotent(es: Seq<EntryView>)
    ensures
        propagated(propagated(es)) == propagated(es),
{
    let p = propagated(es);
    assert forall|i: int| 0 <= i < p.len() implies #[trigger] propagated(p)[i] == p[i] by {
        lemma_inherited_of_propagated(es, i);
    }
    assert(propagated(p) =~= p);
}

} // verus!
