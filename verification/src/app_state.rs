//! State shared by the filter panel and the file viewer.

use vstd::prelude::*;
use crate::shared::types::LogFile;
use crate::text::str_eq;
use crate::viewer::components::file_viewer::{parse_line_bound, parse_usize_spec};
use crate::viewer::types::FilterParams;

verus! {

/// The filter settings as entered in the filter panel.
pub struct FilterState {
    /// Selected level ("all", "info", "warn", "custom", ...).
    pub selected_status: String,
    /// Custom levels, comma-separated.
    pub custom_status: String,
    /// Continuation lines inherit the level of the line above.
    pub inherit_level: bool,
    /// Search text.
    pub search_query: String,
    pub match_case: bool,
    pub fuzzy_find: bool,
    pub regex_mode: bool,
    pub invert_match: bool,
    pub search_in_datetime: bool,
    /// Timestamp bounds as entered ("YYYY-MM-DDTHH:MM" or empty).
    pub from_datetime: String,
    pub to_datetime: String,
    /// Line bounds as typed (not yet numbers).
    pub line_from: String,
    pub line_to: String,
    /// Hide the lines without a level.
    pub hide_no_level: bool,
    /// Minimum level ("all", "debug", "info", "warn", "error", "fatal").
    pub min_severity: String,
}

/// A typed line bound as a number: 0 when it is not a number.
pub open spec fn line_bound_value(s: Seq<char>) -> int {
    match parse_usize_spec(s) {
        Some(v) => v as int,
        None => 0,
    }
}

/// The number of filter groups that are in use.
pub open spec fn active_count_spec(s: FilterState) -> int {
    (if s.selected_status@ != "all"@ { 1int } else { 0int })
        + (if s.search_query@.len() > 0 { 1int } else { 0int })
        + (if s.from_datetime@.len() > 0 || s.to_datetime@.len() > 0 { 1int } else { 0int })
        + (if s.line_from@.len() > 0 || s.line_to@.len() > 0 { 1int } else { 0int })
        + (if s.hide_no_level { 1int } else { 0int })
        + (if s.min_severity@ != "all"@ { 1int } else { 0int })
}

/// `t` is `s` after "Clear all".
pub open spec fn cleared(s: FilterState, t: FilterState) -> bool {
    &&& t.selected_status@ == "all"@
    &&& t.search_query@.len() == 0
    &&& t.from_datetime@.len() == 0 && t.to_datetime@.len() == 0
    &&& t.line_from@.len() == 0 && t.line_to@.len() == 0
    &&& !t.hide_no_level
    &&& t.min_severity@ == "all"@
    &&& !t.invert_match && !t.regex_mode && !t.match_case && !t.fuzzy_find
    &&& t.custom_status == s.custom_status
    &&& t.inherit_level == s.inherit_level
    &&& t.search_in_datetime == s.search_in_datetime
}

impl FilterState {
    /// The settings the application starts with: every level, levels
    /// inherited, no search, no bounds.
    pub fn new() -> (r: Self)
        ensures
            r.selected_status@ == "all"@,
            r.custom_status@.len() == 0,
            r.inherit_level,
            r.search_query@.len() == 0,
            !r.match_case && !r.fuzzy_find && !r.regex_mode && !r.invert_match && !r.search_in_datetime,
            r.from_datetime@.len() == 0 && r.to_datetime@.len() == 0,
            r.line_from@.len() == 0 && r.line_to@.len() == 0,
            !r.hide_no_level,
            r.min_severity@ == "all"@,
    {
        FilterState {
            selected_status: String::from_str("all"),
            custom_status: String::new(),
            inherit_level: true,
            search_query: String::new(),
            match_case: false,
            fuzzy_find: false,
            regex_mode: false,
            invert_match: false,
            search_in_datetime: false,
            from_datetime: String::new(),
            to_datetime: String::new(),
            line_from: String::new(),
            line_to: String::new(),
            hide_no_level: false,
            min_severity: String::from_str("all"),
        }
    }

    /// The number shown on the filter panel's badge: one for each of level,
    /// search, time range, line range, "hide lines without a level" and
    /// minimum level that is set.
    pub fn active_count(&self) -> (r: u32)
        ensures
            r as int == active_count_spec(*self),
    {
        let mut n: u32 = 0;
        if !str_eq(self.selected_status.as_str(), "all") {
            n += 1;
        }
        if !self.search_query.as_str().is_empty() {
            n += 1;
        }
        if !self.from_datetime.as_str().is_empty() || !self.to_datetime.as_str().is_empty() {
            n += 1;
        }
        if !self.line_from.as_str().is_empty() || !self.line_to.as_str().is_empty() {
            n += 1;
        }
        if self.hide_no_level {
            n += 1;
        }
        if !str_eq(self.min_severity.as_str(), "all") {
            n += 1;
        }
        n
    }

    /// "Clear all": level, search (with its switches), time range, line
    /// range, "hide lines without a level" and minimum level are reset; the
    /// custom levels, level inheritance and "search the timestamp" stay.
    pub fn clear_all(&mut self)
        ensures
            cleared(*old(self), *final(self)),
    {
        self.selected_status = String::from_str("all");
        self.search_query = String::new();
        self.from_datetime = String::new();
        self.to_datetime = String::new();
        self.line_from = String::new();
        self.line_to = String::new();
        self.hide_no_level = false;
        self.min_severity = String::from_str("all");
        self.invert_match = false;
        self.regex_mode = false;
        self.match_case = false;
        self.fuzzy_find = false;
    }

    /// The parameters of the viewer's filters: the settings as they are,
    /// the line bounds read as numbers (0, no bound, when not a number).
    pub fn to_params(&self) -> (r: FilterParams)
        ensures
            r.status == self.selected_status,
            r.custom_status == self.custom_status,
            r.inherit_level == self.inherit_level,
            r.query == self.search_query,
            r.match_case == self.match_case,
            r.fuzzy == self.fuzzy_find,
            r.regex_mode == self.regex_mode,
            r.invert_match == self.invert_match,
            r.search_in_datetime == self.search_in_datetime,
            r.from_datetime == self.from_datetime,
            r.to_datetime == self.to_datetime,
            r.line_from as int == line_bound_value(self.line_from@),
            r.line_to as int == line_bound_value(self.line_to@),
            r.hide_no_level == self.hide_no_level,
            r.min_severity == self.min_severity,
    {
        FilterParams {
            status: self.selected_status.clone(),
            custom_status: self.custom_status.clone(),
            inherit_level: self.inherit_level,
            query: self.search_query.clone(),
            match_case: self.match_case,
            fuzzy: self.fuzzy_find,
            regex_mode: self.regex_mode,
            invert_match: self.invert_match,
            search_in_datetime: self.search_in_datetime,
            from_datetime: self.from_datetime.clone(),
            to_datetime: self.to_datetime.clone(),
            line_from: parse_line_bound(self.line_from.as_str()),
            line_to: parse_line_bound(self.line_to.as_str()),
            hide_no_level: self.hide_no_level,
            min_severity: self.min_severity.clone(),
        }
    }

    /// Badge of the "Level" section: the selected level unless it is "all".
    pub fn level_badge(&self) -> (r: Option<String>)
        ensures
            self.selected_status@ == "all"@ ==> r is None,
            self.selected_status@ != "all"@ ==> (r matches Some(b) && b@ == self.selected_status@),
    {
        if str_eq(self.selected_status.as_str(), "all") {
            None
        } else {
            Some(self.selected_status.clone())
        }
    }

    /// Whether the "Search" section shows its dot.
    pub fn search_badge(&self) -> (r: bool)
        ensures
            r == (self.search_query@.len() > 0),
    {
        !self.search_query.as_str().is_empty()
    }

    /// Whether the "Date & Time" section shows its dot.
    pub fn datetime_badge(&self) -> (r: bool)
        ensures
            r == (self.from_datetime@.len() > 0 || self.to_datetime@.len() > 0),
    {
        !self.from_datetime.as_str().is_empty() || !self.to_datetime.as_str().is_empty()
    }

    /// Whether the "Line Range" section shows its dot.
    pub fn line_range_badge(&self) -> (r: bool)
        ensures
            r == (self.line_from@.len() > 0 || self.line_to@.len() > 0),
    {
        !self.line_from.as_str().is_empty() || !self.line_to.as_str().is_empty()
    }
}

/// Law: after "Clear all" the filter panel's badge counts no filter.
pub proof fn lemma_clear_all_counts_nothing(s: FilterState, t: FilterState)
    requires
        cleared(s, t),
    ensures
        active_count_spec(t) == 0,
{
}

/// The number of entries of the active file (0 when no file is active).
pub fn total_lines(files: &[LogFile], active: Option<usize>) -> (r: usize)
    ensures
        r == match active {
            Some(i) => if i < files@.len() {
                files@[i as int].entries@.len()
            } else {
                0
            },
            None => 0,
        },
{
    match active {
        Some(i) => if i < files.len() {
            files[i].entry_count()
        } else {
            0
        },
        None => 0,
    }
}

} // verus!
