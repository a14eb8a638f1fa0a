use logarithm::components::bottom_bar::lines_label;
use logarithm::components::severity::{level_colors, level_pills, min_severity_options, severity_rank};
use logarithm::shared::types::LogEntry;
use logarithm::viewer::components::file_viewer::{display_entries, entries_label, parse_line_bound};
use logarithm::viewer::filters::apply_filters::{
    filters_defined, filter_by_datetime, filter_by_level, filter_by_line_range, filter_by_search, filter_by_severity,
    fuzzy_match,
};
use logarithm::viewer::filters::pattern::regex_find;
use logarithm::viewer::filters::{apply_filters, propagate_levels};
use logarithm::viewer::rendering::assign_groups;
use logarithm::viewer::types::{DisplayEntry, FilterParams};

fn entry(line: usize, datetime: &str, status: &str, message: &str) -> LogEntry {
    LogEntry {
        line,
        datetime: datetime.to_string(),
        status: status.to_string(),
        message: message.to_string(),
    }
}

fn sample() -> Vec<LogEntry> {
    vec![
        entry(1, "2024-01-15 10:00:00", "INFO", "Server started"),
        entry(2, "", "", "at foo"),
        entry(3, "2024-01-15 10:05:00", "WARN", "Disk low"),
        entry(4, "", "", "details"),
        entry(5, "2024-01-15 10:10:00", "ERROR", "Crash"),
    ]
}

fn defaults() -> FilterParams {
    FilterParams {
        status: "all".to_string(),
        custom_status: String::new(),
        inherit_level: false,
        query: String::new(),
        match_case: false,
        fuzzy: false,
        regex_mode: false,
        invert_match: false,
        search_in_datetime: false,
        from_datetime: String::new(),
        to_datetime: String::new(),
        line_from: 0,
        line_to: 0,
        hide_no_level: false,
        min_severity: "all".to_string(),
    }
}

fn lines_of(entries: &[LogEntry]) -> Vec<usize> {
    entries.iter().map(|e| e.line).collect()
}

fn filtered(p: &FilterParams) -> Vec<usize> {
    lines_of(&apply_filters(&sample(), p))
}

#[test]
fn apply_filters_defaults_keep_everything() {
    assert_eq!(apply_filters(&sample(), &defaults()), sample());
}

#[test]
fn apply_filters_level_without_and_with_inheritance() {
    let mut p = defaults();
    p.status = "Warn".to_string();
    assert_eq!(filtered(&p), vec![3]);
    p.inherit_level = true;
    let kept = apply_filters(&sample(), &p);
    assert_eq!(
        kept,
        vec![
            entry(3, "2024-01-15 10:05:00", "WARN", "Disk low"),
            entry(4, "", "WARN", "details"),
        ]
    );
}

#[test]
fn apply_filters_custom_levels() {
    let mut p = defaults();
    p.status = "custom".to_string();
    p.custom_status = " info , error ".to_string();
    assert_eq!(filtered(&p), vec![1, 5]);
    p.custom_status = String::new();
    assert_eq!(filtered(&p), vec![1, 2, 3, 4, 5]);
}

#[test]
fn apply_filters_min_severity_and_hide_no_level() {
    let mut p = defaults();
    p.min_severity = "warn".to_string();
    assert_eq!(filtered(&p), vec![2, 3, 4, 5]);
    p.hide_no_level = true;
    assert_eq!(filtered(&p), vec![3, 5]);
    let mut p = defaults();
    p.hide_no_level = true;
    assert_eq!(filtered(&p), vec![1, 3, 5]);
}

#[test]
fn apply_filters_search_and_invert() {
    let mut p = defaults();
    p.query = "DISK".to_string();
    assert_eq!(filtered(&p), vec![3]);
    p.invert_match = true;
    assert_eq!(filtered(&p), vec![1, 2, 4, 5]);
    let mut p = defaults();
    p.query = "DISK".to_string();
    p.match_case = true;
    assert_eq!(filtered(&p), Vec::<usize>::new());
}

#[test]
fn apply_filters_search_in_datetime() {
    let mut p = defaults();
    p.query = "10:05".to_string();
    assert_eq!(filtered(&p), Vec::<usize>::new());
    p.search_in_datetime = true;
    assert_eq!(filtered(&p), vec![3]);
}

#[test]
fn apply_filters_fuzzy() {
    let mut p = defaults();
    p.query = "CRSH".to_string();
    p.fuzzy = true;
    assert_eq!(filtered(&p), vec![5]);
    p.match_case = true;
    assert_eq!(filtered(&p), Vec::<usize>::new());
}

#[test]
fn apply_filters_line_and_time_ranges() {
    let mut p = defaults();
    p.line_from = 2;
    p.line_to = 4;
    assert_eq!(filtered(&p), vec![2, 3, 4]);
    let mut p = defaults();
    p.from_datetime = "2024-01-15T10:05".to_string();
    assert_eq!(filtered(&p), vec![2, 3, 4, 5]);
    let mut p = defaults();
    p.to_datetime = "2024-01-15T10:05".to_string();
    assert_eq!(filtered(&p), vec![1, 2, 3, 4]);
}

#[test]
fn propagate_levels_fills_continuations() {
    let mut entries = vec![entry(1, "", "", "orphan")];
    entries.extend(sample());
    let out = propagate_levels(&entries);
    let statuses: Vec<&str> = out.iter().map(|e| e.status.as_str()).collect();
    assert_eq!(statuses, vec!["", "INFO", "INFO", "WARN", "WARN", "ERROR"]);
    assert_eq!(out[3].message, "Disk low");
    assert_eq!(propagate_levels(&out), out);
    assert!(propagate_levels(&[]).is_empty());
}

#[test]
fn assign_groups_leaders_and_continuations() {
    let mut entries = vec![entry(9, "", "", "orphan")];
    entries.extend(sample());
    let groups = assign_groups(entries);
    let g: Vec<(usize, usize, bool)> =
        groups.iter().map(|d| (d.entry.line, d.group_line, d.is_continuation)).collect();
    assert_eq!(
        g,
        vec![(9, 0, true), (1, 1, false), (2, 1, true), (3, 3, false), (4, 3, true), (5, 5, false)]
    );
    assert!(groups[1].is_leader());
    assert!(!groups[2].is_leader());
}

#[test]
fn display_entries_filters_then_groups() {
    let mut p = defaults();
    p.status = "warn".to_string();
    p.inherit_level = true;
    let shown = display_entries(&sample(), &p);
    let g: Vec<(usize, usize, bool)> =
        shown.iter().map(|d| (d.entry.line, d.group_line, d.is_continuation)).collect();
    assert_eq!(g, vec![(3, 3, false), (4, 4, false)]);
    let shown = display_entries(&sample(), &defaults());
    assert_eq!(shown.len(), 5);
    assert_eq!(shown[3].group_line, 3);
}

#[test]
fn display_entry_new_keeps_parts() {
    let d = DisplayEntry::new(entry(2, "", "", "x"), 1, true);
    assert_eq!(d.entry, entry(2, "", "", "x"));
    assert_eq!(d.group_line, 1);
    assert!(d.is_continuation);
}

#[test]
fn individual_filters() {
    let e = entry(3, "2024-01-15 10:05:00", "warning", "Disk low");
    assert!(filter_by_level(&e, "all", ""));
    assert!(filter_by_level(&e, "warn", ""));
    assert!(!filter_by_level(&e, "info", ""));
    assert!(filter_by_level(&e, "custom", "INFO,WARNING"));
    assert!(filter_by_severity(&e, "error", 4) == false);
    assert!(filter_by_severity(&e, "warn", 3));
    assert!(filter_by_severity(&entry(1, "", "", "x"), "fatal", 5));
    assert!(filter_by_line_range(&e, 0, 0));
    assert!(filter_by_line_range(&e, 3, 3));
    assert!(!filter_by_line_range(&e, 4, 0));
    assert!(!filter_by_line_range(&e, 0, 2));
    assert!(filter_by_datetime(&e, "2024-01-15 10:05", "2024-01-15 10:05"));
    assert!(!filter_by_datetime(&e, "2024-01-15 10:06", ""));
    assert!(fuzzy_match("warning Disk low", "DSKLW", false, "dsklw"));
    assert!(!fuzzy_match("warning Disk low", "DSKLW", true, "dsklw"));
    let mut p = defaults();
    p.query = "low".to_string();
    assert!(filter_by_search(&e, &p, "low"));
    p.invert_match = true;
    assert!(!filter_by_search(&e, &p, "low"));
}

#[test]
fn severity_rank_values() {
    assert_eq!(severity_rank("trace"), 0);
    assert_eq!(severity_rank("Debug"), 1);
    assert_eq!(severity_rank("INFO"), 2);
    assert_eq!(severity_rank("success"), 2);
    assert_eq!(severity_rank("warn"), 3);
    assert_eq!(severity_rank("WARNING"), 3);
    assert_eq!(severity_rank("error"), 4);
    assert_eq!(severity_rank("FATAL"), 5);
    assert_eq!(severity_rank("all"), 99);
    assert_eq!(severity_rank(""), 99);
}

#[test]
fn level_colors_values() {
    assert_eq!(level_colors("INFO", true), ("#93c5fd", "#93c5fd14", "#93c5fd35", "transparent"));
    assert_eq!(level_colors("WARNING", false), ("#d97706", "#d977060e", "#d9770630", "#f59e0b"));
    assert_eq!(level_colors("FATAL", true), ("#f0abfc", "#f0abfc14", "#f0abfc35", "#d946ef"));
    // Matching is exact: a lower-case level gets the neutral colours.
    assert_eq!(level_colors("info", false), ("#6b7280", "#00000000", "#00000000", "transparent"));
    assert_eq!(level_colors("", true), ("#8b92a8", "#00000000", "#00000000", "transparent"));
}

#[test]
fn pills_and_severity_options() {
    let pills = level_pills();
    assert_eq!(pills[0], ("all", "All", "#7c9dff"));
    assert_eq!(pills[7], ("success", "Success", "#34d399"));
    let opts = min_severity_options();
    assert_eq!(opts[1], ("debug", "Debug+", "#94a3b8"));
    assert_eq!(opts[5], ("fatal", "Fatal", "#e879f9"));
}

#[test]
fn parse_line_bound_values() {
    assert_eq!(parse_line_bound("12"), 12);
    assert_eq!(parse_line_bound("+7"), 7);
    assert_eq!(parse_line_bound("007"), 7);
    assert_eq!(parse_line_bound(""), 0);
    assert_eq!(parse_line_bound("+"), 0);
    assert_eq!(parse_line_bound("abc"), 0);
    assert_eq!(parse_line_bound("-3"), 0);
    assert_eq!(parse_line_bound(" 5"), 0);
    assert_eq!(parse_line_bound(&usize::MAX.to_string()), usize::MAX);
    assert_eq!(parse_line_bound(&format!("{}0", usize::MAX)), 0);
}

#[test]
fn labels() {
    assert_eq!(entries_label(3, 3), "3 entries");
    assert_eq!(entries_label(2, 10), "2 / 10 entries");
    assert_eq!(entries_label(0, 0), "0 entries");
    assert_eq!(lines_label(0), "");
    assert_eq!(lines_label(1), "1 lines");
    assert_eq!(lines_label(1234), "1234 lines");
}

#[test]
fn filters_defined_detects_bad_cut() {
    let e = vec![entry(1, "2024-01-15 é10", "INFO", "x"), entry(2, "", "", "y")];
    let mut p = defaults();
    p.to_datetime = "2024-01-15T1".to_string();
    assert!(!filters_defined(&e, &p));
    p.min_severity = "error".to_string();
    assert!(filters_defined(&e, &p));
    assert_eq!(lines_of(&apply_filters(&e, &p)), vec![2]);
    assert!(filters_defined(&sample(), &defaults()));
}

fn chars(s: &str) -> Vec<char> {
    s.chars().collect()
}

fn re(p: &str, t: &str) -> bool {
    regex_find(&chars(p), &chars(t))
}

#[test]
fn regex_find_syntax() {
    assert!(re("err.r", "disk error"));
    assert!(!re("err.r", "disk err"));
    assert!(re("^disk", "disk error"));
    assert!(!re("^error", "disk error"));
    assert!(re("error$", "disk error"));
    assert!(!re("disk$", "disk error"));
    assert!(re("^d.*r$", "disk error"));
    assert!(re("ab*c", "ac"));
    assert!(re("ab*c", "abbbc"));
    assert!(!re("ab*c", "adc"));
    assert!(re("", "anything"));
    assert!(re("^$", ""));
    assert!(!re("^$", "x"));
    assert!(re("x*", ""));
}

#[test]
fn apply_filters_regex_search() {
    let entries = vec![entry(1, "", "ERROR", "disk error")];
    let mut p = defaults();
    p.regex_mode = true;
    p.query = "err.r".to_string();
    assert_eq!(apply_filters(&entries, &p), entries);
    let mut p = defaults();
    p.regex_mode = true;
    p.query = "S.*ed$".to_string();
    assert_eq!(filtered(&p), vec![1]);
    p.query = "s.*ED$".to_string();
    assert_eq!(filtered(&p), vec![1]);
    p.match_case = true;
    assert_eq!(filtered(&p), Vec::<usize>::new());
    p.query = "^WARN D".to_string();
    assert_eq!(filtered(&p), vec![3]);
    p.invert_match = true;
    assert_eq!(filtered(&p), vec![1, 2, 4, 5]);
    p.invert_match = false;
    p.regex_mode = false;
    p.query = "D.sk".to_string();
    assert_eq!(filtered(&p), Vec::<usize>::new());
}

#[test]
fn level_colors_relations_examples() {
    for l in ["INFO", "WARN", "WARNING", "ERROR", "FATAL", "notice", ""] {
        assert_eq!(level_colors(l, true).3, level_colors(l, false).3);
    }
    assert_eq!(level_colors("WARN", true), level_colors("WARNING", true));
    assert_eq!(level_colors("WARN", false), level_colors("WARNING", false));
    assert_eq!(level_colors("INFO", true).3, "transparent");
    assert_ne!(level_colors("FATAL", false).3, "transparent");
    assert_eq!(level_colors("notice", true).1, "#00000000");
    assert_eq!(level_colors("info", false).2, "#00000000");
}

#[test]
fn search_and_inverted_search_split_the_list() {
    let mut base = defaults();
    base.min_severity = "info".to_string();
    let all = filtered(&base);
    let mut p = base.clone();
    p.query = "s".to_string();
    let mut q = p.clone();
    q.invert_match = true;
    let (a, b) = (filtered(&p), filtered(&q));
    assert_eq!(a.len() + b.len(), all.len());
    let mut merged: Vec<usize> = a.iter().chain(b.iter()).copied().collect();
    merged.sort();
    assert_eq!(merged, all);
    assert!(a.iter().all(|x| !b.contains(x)));
}

#[test]
fn literal_pattern_finds_what_plain_search_finds() {
    for (p, t) in [("disk", "disk error"), ("rror", "disk error"), ("xyz", "disk error"), ("", ""), ("ab", "a")] {
        assert_eq!(re(p, t), t.contains(p));
    }
}
