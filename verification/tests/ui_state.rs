use logarithm::components::file_bar::{add_opened_file, close_active_tab, close_tab, is_log_file_name};
use logarithm::shared::constants::ColorTokens;
use logarithm::shared::types::log_file::short_name_of;
use logarithm::shared::types::{LogEntry, LogFile, LoganAction, Theme};
use logarithm::viewer::components::context_menu::{
    add_to_context_action, clipboard_script, context_items, copy_text, explain_action,
    toggle_selection,
};
use logarithm::viewer::types::DisplayEntry;

fn entry(line: usize, status: &str, message: &str) -> LogEntry {
    LogEntry {
        line,
        datetime: String::new(),
        status: status.to_string(),
        message: message.to_string(),
    }
}

fn file(name: &str) -> LogFile {
    LogFile::new(name.to_string(), vec![entry(1, "INFO", "x")])
}

fn names(files: &[LogFile]) -> Vec<&str> {
    files.iter().map(|f| f.name.as_str()).collect()
}

fn shown() -> Vec<DisplayEntry> {
    vec![
        DisplayEntry::new(entry(1, "INFO", "start"), 1, false),
        DisplayEntry::new(entry(2, "", "detail"), 1, true),
        DisplayEntry::new(entry(3, "ERROR", "boom"), 3, false),
    ]
}

#[test]
fn log_entry_helpers() {
    let e = entry(1, "INFO", "x");
    assert!(e.has_status());
    assert!(!e.is_continuation());
    let c = entry(2, "", "y");
    assert!(!c.has_status());
    assert!(c.is_continuation());
    assert_eq!(e.duplicate(), e);
}

#[test]
fn log_file_names_and_counts() {
    let f = LogFile::new("/var/log/app/server.log".to_string(), vec![entry(1, "", "a"), entry(2, "", "b")]);
    assert_eq!(f.short_name(), "server.log");
    assert_eq!(f.entry_count(), 2);
    assert_eq!(short_name_of("plain.log"), "plain.log");
    assert_eq!(short_name_of("dir/"), "");
    // Backslash-separated paths too.
    assert_eq!(short_name_of("C:\\logs\\a.log"), "a.log");
    assert_eq!(LogFile::new("C:\\logs\\app.log".to_string(), vec![]).short_name(), "app.log");
    assert_eq!(short_name_of("a/b\\c/d.log"), "d.log");
}

#[test]
fn theme_predicates() {
    assert!(Theme::Dark.is_dark());
    assert!(!Theme::Dark.is_light());
    assert!(Theme::Light.is_light());
    assert!(!Theme::Light.is_dark());
}

#[test]
fn color_tokens() {
    let d = ColorTokens::dark();
    assert_eq!(d.bg_base, "#0d0d0d");
    assert_eq!(d.text_muted, "#707070");
    assert_eq!(d.accent, "#7c9dff");
    assert_eq!(d.accent_border, "#7c9dff40");
    let l = ColorTokens::light();
    assert_eq!(l.bg_base, "#ffffff");
    assert_eq!(l.border, "#d8d8d8");
    assert_eq!(l.accent_bg, "#5a7dd818");
}

#[test]
fn log_file_name_check() {
    assert!(is_log_file_name("server.log"));
    assert!(is_log_file_name("SERVER.LOG"));
    assert!(!is_log_file_name("server.txt"));
    assert!(!is_log_file_name("log"));
    assert!(is_log_file_name(".log"));
}

#[test]
fn opening_files() {
    let mut files = Vec::new();
    assert_eq!(add_opened_file(&mut files, "a.log".to_string(), vec![]), 0);
    assert_eq!(add_opened_file(&mut files, "b.log".to_string(), vec![]), 1);
    // Opening a file that is already open changes nothing but activates the last tab.
    assert_eq!(add_opened_file(&mut files, "a.log".to_string(), vec![entry(1, "", "new")]), 1);
    assert_eq!(names(&files), vec!["a.log", "b.log"]);
    assert!(files[0].entries.is_empty());
}

#[test]
fn closing_tabs() {
    let mut files = vec![file("a"), file("b"), file("c")];
    // Closing a tab before the active one shifts the active index.
    assert_eq!(close_tab(&mut files, 0, Some(2)), Some(Some(1)));
    assert_eq!(names(&files), vec!["b", "c"]);
    // Closing a tab after the active one leaves it.
    assert_eq!(close_tab(&mut files, 1, Some(0)), None);
    assert_eq!(names(&files), vec!["b"]);
    // Closing the active last tab.
    assert_eq!(close_tab(&mut files, 0, Some(0)), Some(None));
    assert!(files.is_empty());
    // Out of range: nothing happens.
    assert_eq!(close_tab(&mut files, 0, Some(0)), None);

    let mut files = vec![file("a"), file("b"), file("c")];
    assert_eq!(close_tab(&mut files, 2, Some(2)), Some(Some(1)));
    assert_eq!(close_tab(&mut files, 0, Some(0)), Some(Some(0)));
    assert_eq!(names(&files), vec!["b"]);
    assert_eq!(close_tab(&mut files, 0, None), None);
    assert!(files.is_empty());
}

#[test]
fn closing_active_tab() {
    let mut files = vec![file("a"), file("b")];
    assert_eq!(close_active_tab(&mut files, None), None);
    assert_eq!(close_active_tab(&mut files, Some(5)), None);
    assert_eq!(names(&files), vec!["a", "b"]);
    assert_eq!(close_active_tab(&mut files, Some(1)), Some(Some(0)));
    assert_eq!(close_active_tab(&mut files, Some(0)), Some(None));
    assert!(files.is_empty());
}

#[test]
fn copying_lines() {
    let es = shown();
    assert_eq!(copy_text(&[3, 1], &es, &None), "[Line 3] boom\n[Line 1] start");
    // Lines that are not displayed are skipped.
    assert_eq!(copy_text(&[7], &es, &None), "");
    let ctx = Some(("app.log".to_string(), 2, "detail".to_string()));
    assert_eq!(copy_text(&[], &es, &ctx), "[Line 2] detail");
    assert_eq!(copy_text(&[], &es, &None), "");
}

#[test]
fn clipboard_script_escaping() {
    assert_eq!(clipboard_script("hi"), "navigator.clipboard.writeText(`hi`)");
    assert_eq!(clipboard_script("a`b\\c"), "navigator.clipboard.writeText(`a\\`b\\\\c`)");
    assert_eq!(clipboard_script("${x}"), "navigator.clipboard.writeText(`\\${x}`)");
    assert_eq!(clipboard_script("a\r\nb"), "navigator.clipboard.writeText(`a\\r\nb`)");
}

#[test]
fn context_actions() {
    let es = shown();
    let items = context_items(&[3, 9, 1], &es, "app.log");
    assert_eq!(
        items,
        vec![("app.log".to_string(), 3, "boom".to_string()), ("app.log".to_string(), 1, "start".to_string())]
    );
    assert_eq!(
        add_to_context_action(&[1], &es, "app.log", &None),
        Some(LoganAction::AddMultipleContext { items: vec![("app.log".to_string(), 1, "start".to_string())] })
    );
    assert_eq!(add_to_context_action(&[9], &es, "app.log", &None), None);
    let ctx = Some(("app.log".to_string(), 3, "boom".to_string()));
    assert_eq!(
        add_to_context_action(&[], &es, "app.log", &ctx),
        Some(LoganAction::AddContext { file: "app.log".to_string(), line: 3, text: "boom".to_string() })
    );
    assert_eq!(add_to_context_action(&[], &es, "app.log", &None), None);
    assert_eq!(
        explain_action(&ctx),
        Some(LoganAction::Explain { file: "app.log".to_string(), line: 3, text: "boom".to_string() })
    );
    assert_eq!(explain_action(&None), None);
}

#[test]
fn toggling_selection() {
    let mut sel = vec![];
    toggle_selection(&mut sel, 4);
    toggle_selection(&mut sel, 2);
    assert_eq!(sel, vec![4, 2]);
    toggle_selection(&mut sel, 4);
    assert_eq!(sel, vec![2]);
    toggle_selection(&mut sel, 2);
    toggle_selection(&mut sel, 2);
    assert_eq!(sel, vec![2]);
    // Twice on a group that is not selected: back to the start.
    let mut sel = vec![3, 1];
    toggle_selection(&mut sel, 8);
    toggle_selection(&mut sel, 8);
    assert_eq!(sel, vec![3, 1]);
}
