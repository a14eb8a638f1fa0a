//! An entry with its display group.

use vstd::prelude::*;
use crate::shared::types::LogEntry;

verus! {

/// A log entry with the line number of its group leader.  A group is a line
/// with a level and the level-less lines that follow it.
#[derive(Debug, Clone)]
pub struct DisplayEntry {
    /// The entry itself.
    pub entry: LogEntry,
    /// Line number of the group leader (shown for the whole group).
    pub group_line: usize,
    /// Whether this is a continuation line (it has no level).
    pub is_continuation: bool,
}

impl DisplayEntry {
    /// A display entry from its parts.
    pub fn new(entry: LogEntry, group_line: usize, is_continuation: bool) -> (r: Self)
        ensures
            r.entry == entry,
            r.group_line == group_line,
            r.is_continuation == is_continuation,
    {
        Self { entry, group_line, is_continuation }
    }

    /// Whether this entry leads its group.
    pub fn is_leader(&self) -> (r: bool)
        ensures
            r == !self.is_continuation,
    {
        !self.is_continuation
    }
}

} // verus!
