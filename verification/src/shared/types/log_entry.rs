//! One parsed line of a log file.

use vstd::prelude::*;

verus! {

/// A single log entry: line number, timestamp, level and message.
#[derive(Debug, Clone, PartialEq, Eq)]
pub struct LogEntry {
    /// Line number in the original file (1-indexed).
    pub line: usize,
    /// Timestamp text (e.g. "2024-01-15 10:30:45"), empty when absent.
    pub datetime: String,
    /// Level (e.g. "INFO"); empty for a continuation line.
    pub status: String,
    /// The message text.
    pub message: String,
}

/// The mathematical content of a [`LogEntry`].
pub struct EntryView {
    pub line: int,
    pub datetime: Seq<char>,
    pub status: Seq<char>,
    pub message: Seq<char>,
}

impl View for LogEntry {
    type V = EntryView;

    open spec fn view(&self) -> EntryView {
        EntryView {
            line: self.line as int,
            datetime: self.datetime@,
            status: self.status@,
            message: self.message@,
        }
    }
}

/// The views of a sequence of entries.
pub open spec fn entry_views(es: Seq<LogEntry>) -> Seq<EntryView> {
    es.map_values(|e: LogEntry| e@)
}

impl LogEntry {
    /// A field-by-field copy.
    pub fn duplicate(&self) -> (r: LogEntry)
        ensures
            r == *self,
    {
        LogEntry {
            line: self.line,
            datetime: self.datetime.clone(),
            status: self.status.clone(),
            message: self.message.clone(),
        }
    }

    /// Whether this entry has a level (it is not a continuation line).
    pub fn has_status(&self) -> (r: bool)
        ensures
            r == (self.status@.len() > 0),
    {
        !self.status.as_str().is_empty()
    }

    /// Whether this is a continuation line (it has no level).
    pub fn is_continuation(&self) -> (r: bool)
        ensures
            r == (self.status@.len() == 0),
    {
        self.status.as_str().is_empty()
    }
}

} // verus!
