use logarithm::backend::commands::{filter_entries, parse_log};
use logarithm::backend::log_commands::{
    extract_datetime, extract_message, extract_status, filter_by_datetime, filter_by_query,
    filter_entries_defined,
    filter_by_status, fuzzy_match, is_status_name, parse_line,
};
use logarithm::backend::types::FilterParams;
use logarithm::shared::types::LogEntry;
use logarithm::viewer::filters::apply_filters;

fn entry(line: usize, datetime: &str, status: &str, message: &str) -> LogEntry {
    LogEntry {
        line,
        datetime: datetime.to_string(),
        status: status.to_string(),
        message: message.to_string(),
    }
}

fn chars(s: &str) -> Vec<char> {
    s.chars().collect()
}

fn tokens(s: &str) -> Vec<Vec<char>> {
    s.split_whitespace().map(chars).collect()
}

fn params(status: &str, custom: &str, query: &str) -> FilterParams {
    FilterParams {
        status: status.to_string(),
        custom_status: custom.to_string(),
        query: query.to_string(),
        match_case: false,
        fuzzy: false,
        from_datetime: String::new(),
        to_datetime: String::new(),
    }
}

const SAMPLE: &str = "2024-01-15 10:30:45 INFO Server started\n\n2024-01-15T10:31:00 [ERROR] Failed to bind port\n    at main.rs:10\n2024-01-15 10:32:10 warning: disk almost full\n";

fn sample() -> Vec<LogEntry> {
    parse_log(SAMPLE.to_string())
}

#[test]
fn parse_log_reads_timestamps_levels_and_messages() {
    let entries = sample();
    assert_eq!(
        entries,
        vec![
            entry(1, "2024-01-15 10:30:45", "INFO", "Server started"),
            entry(3, "2024-01-15 10:31:00", "ERROR", "Failed to bind port"),
            entry(4, "", "", "at main.rs:10"),
            entry(5, "2024-01-15 10:32:10", "WARNING", "disk almost full"),
        ]
    );
}

#[test]
fn parse_log_empty_and_blank_text() {
    assert!(parse_log(String::new()).is_empty());
    assert!(parse_log("   \n\t\n \r\n".to_string()).is_empty());
}

#[test]
fn parse_log_handles_crlf_and_indentation() {
    let entries = parse_log("  DEBUG first  \r\n\r\n\tfatal: second\r\n".to_string());
    assert_eq!(
        entries,
        vec![entry(1, "", "DEBUG", "first"), entry(3, "", "FATAL", "second")]
    );
}

#[test]
fn parse_log_takes_first_level_token_only() {
    let entries = parse_log("job INFO then ERROR again".to_string());
    assert_eq!(entries, vec![entry(1, "", "INFO", "job then ERROR again")]);
}

#[test]
fn parse_log_splits_first_token_at_capital_t() {
    // A first token holding a capital T is read as DATE'T'TIME.
    let entries = parse_log("STARTING server INFO".to_string());
    assert_eq!(entries, vec![entry(1, "S ARTING", "INFO", "server")]);
    // With nothing before the T, no timestamp is read.
    let entries = parse_log("Trace only".to_string());
    assert_eq!(entries, vec![entry(1, "", "TRACE", "only")]);
}

#[test]
fn parse_log_level_first_is_not_a_timestamp() {
    assert_eq!(
        parse_log("FATAL disk failure".to_string()),
        vec![entry(1, "", "FATAL", "disk failure")]
    );
    assert_eq!(
        parse_log("[WARNING] - 10:00 low".to_string()),
        vec![entry(1, "", "WARNING", "- 10:00 low")]
    );
    assert_eq!(extract_datetime(&tokens("STATUS: x")), (chars("S ATUS:"), 1));
}

#[test]
fn parse_log_two_token_timestamp_needs_dash_and_colon() {
    let entries = parse_log("2024-01-15 noon INFO x".to_string());
    assert_eq!(entries, vec![entry(1, "", "INFO", "2024-01-15 noon x")]);
    let entries = parse_log("2024-01-15 12:00".to_string());
    assert_eq!(entries, vec![entry(1, "2024-01-15 12:00", "", "")]);
}

#[test]
fn parse_log_cleans_level_punctuation_and_case() {
    let entries = parse_log("<<success>> done\n(Warn) careful\nerror: boom".to_string());
    assert_eq!(
        entries,
        vec![
            entry(1, "", "SUCCESS", "done"),
            entry(2, "", "WARN", "careful"),
            entry(3, "", "ERROR", "boom"),
        ]
    );
}

#[test]
fn parse_log_level_inside_timestamp_is_not_a_level() {
    // The level search starts after the timestamp tokens.
    let entries = parse_log("2024-01-01TINFO ok".to_string());
    assert_eq!(entries, vec![entry(1, "2024-01-01 INFO", "", "ok")]);
}

#[test]
fn extract_datetime_cases() {
    assert_eq!(
        extract_datetime(&tokens("2024-01-15T10:30:45 INFO x")),
        (chars("2024-01-15 10:30:45"), 1)
    );
    assert_eq!(
        extract_datetime(&tokens("2024-01-15 10:30:45 INFO x")),
        (chars("2024-01-15 10:30:45"), 2)
    );
    assert_eq!(extract_datetime(&tokens("hello world")), (vec![], 0));
    assert_eq!(extract_datetime(&tokens("T10:00 x")), (vec![], 0));
    assert_eq!(extract_datetime(&vec![]), (vec![], 0));
}

#[test]
fn extract_status_and_message_cases() {
    let toks = tokens("2024-01-15 10:30:45 [warn] low disk");
    assert_eq!(extract_status(&toks, 2), (chars("WARN"), Some(2)));
    assert_eq!(extract_message(&toks, 2, Some(2)), chars("low disk"));
    let toks = tokens("no level here");
    assert_eq!(extract_status(&toks, 0), (vec![], None));
    assert_eq!(extract_message(&toks, 0, None), chars("no level here"));
    assert_eq!(extract_message(&toks, 1, None), chars("level here"));
}

#[test]
fn is_status_name_cases() {
    for name in ["TRACE", "DEBUG", "INFO", "WARN", "WARNING", "ERROR", "SUCCESS", "FATAL"] {
        assert!(is_status_name(&chars(name)));
    }
    assert!(!is_status_name(&chars("info")));
    assert!(!is_status_name(&chars("NOTICE")));
    assert!(!is_status_name(&vec![]));
}

#[test]
fn parse_line_numbers_the_entry() {
    assert_eq!(
        parse_line(&chars("ERROR x y"), 42),
        entry(42, "", "ERROR", "x y")
    );
}

#[test]
fn filter_entries_all_keeps_everything() {
    let entries = sample();
    assert_eq!(filter_entries(entries.clone(), params("ALL", "", "")), entries);
}

#[test]
fn filter_entries_by_level() {
    let kept = filter_entries(sample(), params("error", "", ""));
    assert_eq!(kept, vec![entry(3, "2024-01-15 10:31:00", "ERROR", "Failed to bind port")]);
    let kept = filter_entries(sample(), params("warn", "", ""));
    assert_eq!(kept, vec![entry(5, "2024-01-15 10:32:10", "WARNING", "disk almost full")]);
}

#[test]
fn filter_entries_custom_levels() {
    let kept = filter_entries(sample(), params("custom", " info, error ", ""));
    let lines: Vec<usize> = kept.iter().map(|e| e.line).collect();
    assert_eq!(lines, vec![1, 3]);
    // An empty custom list keeps everything.
    assert_eq!(filter_entries(sample(), params("custom", "   ", "")).len(), 4);
}

#[test]
fn filter_entries_search_case_and_fuzzy() {
    let kept = filter_entries(sample(), params("all", "", "BIND"));
    assert_eq!(kept.len(), 1);
    assert_eq!(kept[0].line, 3);

    let mut p = params("all", "", "BIND");
    p.match_case = true;
    assert!(filter_entries(sample(), p).is_empty());

    let mut p = params("all", "", "srvstd");
    p.fuzzy = true;
    let kept = filter_entries(sample(), p);
    assert_eq!(kept.len(), 1);
    assert_eq!(kept[0].line, 1);

    // The timestamp is searched too.
    let kept = filter_entries(sample(), params("all", "", "10:32"));
    assert_eq!(kept.len(), 1);
    assert_eq!(kept[0].line, 5);
}

#[test]
fn filter_entries_datetime_range() {
    let mut p = params("all", "", "");
    p.from_datetime = "2024-01-15T10:31".to_string();
    let lines: Vec<usize> = filter_entries(sample(), p).iter().map(|e| e.line).collect();
    // Entries without a timestamp always pass.
    assert_eq!(lines, vec![3, 4, 5]);

    let mut p = params("all", "", "");
    p.to_datetime = "2024-01-15T10:31".to_string();
    let lines: Vec<usize> = filter_entries(sample(), p).iter().map(|e| e.line).collect();
    assert_eq!(lines, vec![1, 3, 4]);
}

#[test]
fn filter_by_status_cases() {
    let e = entry(1, "", "Warning", "x");
    assert!(filter_by_status(&e, "all", ""));
    assert!(filter_by_status(&e, "warn", ""));
    assert!(!filter_by_status(&e, "error", ""));
    assert!(filter_by_status(&e, "custom", "ERROR, WARNING"));
    assert!(!filter_by_status(&e, "custom", "ERROR,WARN"));
    assert!(filter_by_status(&e, "custom", ""));
}

#[test]
fn fuzzy_match_cases() {
    assert!(fuzzy_match("Server started", "srvst", false));
    assert!(fuzzy_match("Server started", "SRV", false));
    assert!(!fuzzy_match("Server started", "SRV", true));
    assert!(!fuzzy_match("abc", "cb", false));
    assert!(fuzzy_match("abc", "", true));
}

#[test]
fn filter_by_query_and_datetime_cases() {
    let e = entry(7, "2024-02-01 08:00:00", "INFO", "Cache warmed");
    assert!(filter_by_query(&e, &params("all", "", "")));
    assert!(filter_by_query(&e, &params("all", "", "info cache")));
    assert!(!filter_by_query(&e, &params("all", "", "miss")));
    assert!(filter_by_datetime(&e, "2024-02-01 08:00", ""));
    assert!(!filter_by_datetime(&e, "2024-02-02", ""));
    assert!(filter_by_datetime(&e, "", "2024-02-01"));
    assert!(!filter_by_datetime(&e, "", "2024-01-31"));
    let no_time = entry(8, "", "INFO", "x");
    assert!(filter_by_datetime(&no_time, "2030", "2000"));
}

#[test]
fn filter_entries_defined_detects_bad_cut() {
    let e = vec![entry(1, "2024-01-15 é10", "INFO", "x")];
    let mut p = params("all", "", "");
    p.to_datetime = "2024-01-15T1".to_string();
    assert!(!filter_entries_defined(&e, &p));
    p.to_datetime = "2024-01-15T".to_string();
    assert!(filter_entries_defined(&e, &p));
    // An entry that an earlier filter drops is never cut.
    let mut p = params("error", "", "");
    p.to_datetime = "2024-01-15T1".to_string();
    assert!(filter_entries_defined(&e, &p));
    assert!(filter_entries(e, p).is_empty());
}

#[test]
fn command_filter_agrees_with_viewer_filter() {
    let settings = [
        ("all", "", "", false, false, "", ""),
        ("warn", "", "", false, false, "", ""),
        ("custom", "info,error", "", false, false, "", ""),
        ("all", "", "DISK", false, false, "", ""),
        ("all", "", "srvstd", false, true, "", ""),
        ("all", "", "Failed", true, false, "2024-01-15T10:31", "2024-01-15T10:32"),
    ];
    for (status, custom, query, match_case, fuzzy, from, to) in settings {
        let bp = FilterParams {
            status: status.to_string(),
            custom_status: custom.to_string(),
            query: query.to_string(),
            match_case,
            fuzzy,
            from_datetime: from.to_string(),
            to_datetime: to.to_string(),
        };
        let vp = logarithm::viewer::types::FilterParams {
            status: status.to_string(),
            custom_status: custom.to_string(),
            inherit_level: false,
            query: query.to_string(),
            match_case,
            fuzzy,
            regex_mode: false,
            invert_match: false,
            search_in_datetime: true,
            from_datetime: from.to_string(),
            to_datetime: to.to_string(),
            line_from: 0,
            line_to: 0,
            hide_no_level: false,
            min_severity: "all".to_string(),
        };
        assert_eq!(filter_entries(sample(), bp), apply_filters(&sample(), &vp));
    }
}

#[test]
fn parse_log_of_joined_texts() {
    let a = "2024-01-15 10:00:00 INFO up\n\nERROR bad\r";
    let b = "  \nWARN low\nmore";
    let joined = parse_log(format!("{}\n{}", a, b));
    let mut expected = parse_log(a.to_string());
    let shift = a.lines().count();
    for e in parse_log(b.to_string()) {
        expected.push(LogEntry { line: e.line + shift, ..e });
    }
    assert_eq!(joined, expected);
    assert_eq!(joined.len(), 4);
    assert_eq!(joined[2].line, 5);
    let x = "INFO a\n";
    let both = parse_log(format!("{}{}", x, "INFO b"));
    assert_eq!(both, vec![entry(1, "", "INFO", "a"), entry(2, "", "INFO", "b")]);
}
