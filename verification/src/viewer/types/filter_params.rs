//! Filter settings of the viewer.

use vstd::prelude::*;

verus! {

/// All filter settings applied to the entries of the open file.
#[derive(Debug, Clone)]
pub struct FilterParams {
    /// Selected level ("all", "info", "warn", "custom", ...).
    pub status: String,
    /// Custom levels, comma-separated.
    pub custom_status: String,
    /// Whether continuation lines inherit the level of the line above.
    pub inherit_level: bool,
    /// Search text.
    pub query: String,
    /// Case-sensitive search.
    pub match_case: bool,
    /// Subsequence ("fuzzy") search.
    pub fuzzy: bool,
    /// Regular-expression search (see `viewer::filters::pattern`).
    pub regex_mode: bool,
    /// Keep the entries that do not match the search.
    pub invert_match: bool,
    /// Search the timestamp too.
    pub search_in_datetime: bool,
    /// Lower bound of the timestamp ("YYYY-MM-DDTHH:MM" or empty).
    pub from_datetime: String,
    /// Upper bound of the timestamp.
    pub to_datetime: String,
    /// First line to keep (0: no bound).
    pub line_from: usize,
    /// Last line to keep (0: no bound).
    pub line_to: usize,
    /// Hide the lines without a level.
    pub hide_no_level: bool,
    /// Minimum level ("all", "debug", "info", "warn", "error", "fatal").
    pub min_severity: String,
}

} // verus!
