use logarithm::ai::components::ai_panel::{resized_width, PanelDrag};
use logarithm::ai::components::input_area::input_keydown;
use logarithm::app_state::{total_lines, FilterState};
use logarithm::components::title_bar::{hover_menu, next_theme, shortcut_for, toggle_menu, Shortcut, UiToggles};
use logarithm::shared::types::{LogEntry, LogFile, Theme};
use logarithm::viewer::components::context_menu::{copy_label, menu_header, menu_position};
use logarithm::viewer::components::file_viewer::display_entries;
use logarithm::viewer::components::log_rows::{click_row, row_look, row_state, RowState};
use logarithm::viewer::types::DisplayEntry;

fn entry(line: usize, status: &str, message: &str) -> LogEntry {
    LogEntry { line, datetime: String::new(), status: status.to_string(), message: message.to_string() }
}

fn s(x: &str) -> String {
    x.to_string()
}

#[test]
fn filter_state_defaults_and_params() {
    let st = FilterState::new();
    assert_eq!(st.selected_status, "all");
    assert!(st.inherit_level);
    assert_eq!(st.min_severity, "all");
    assert_eq!(st.active_count(), 0);
    let p = st.to_params();
    assert_eq!(p.status, "all");
    assert!(p.inherit_level);
    assert_eq!((p.line_from, p.line_to), (0, 0));
    let entries = vec![entry(1, "INFO", "a"), entry(2, "", "b")];
    assert_eq!(display_entries(&entries, &p).len(), 2);
}

#[test]
fn filter_state_counts_and_badges() {
    let mut st = FilterState::new();
    st.selected_status = s("error");
    st.search_query = s("x");
    st.to_datetime = s("2024-01-01T00:00");
    st.line_from = s("abc");
    st.hide_no_level = true;
    st.min_severity = s("warn");
    st.match_case = true;
    st.custom_status = s("INFO");
    st.inherit_level = false;
    assert_eq!(st.active_count(), 6);
    assert_eq!(st.level_badge(), Some(s("error")));
    assert!(st.search_badge() && st.datetime_badge() && st.line_range_badge());
    let p = st.to_params();
    assert_eq!(p.line_from, 0);
    assert!(p.match_case && p.hide_no_level);
    st.clear_all();
    assert_eq!(st.active_count(), 0);
    assert_eq!(st.level_badge(), None);
    assert!(!st.search_badge() && !st.datetime_badge() && !st.line_range_badge());
    assert!(!st.match_case);
    // Custom levels and level inheritance are kept.
    assert_eq!(st.custom_status, "INFO");
    assert!(!st.inherit_level);
}

#[test]
fn filter_state_line_bounds() {
    let mut st = FilterState::new();
    st.line_from = s("10");
    st.line_to = s("+20");
    let p = st.to_params();
    assert_eq!((p.line_from, p.line_to), (10, 20));
    assert_eq!(st.active_count(), 1);
}

#[test]
fn total_lines_of_active_file() {
    let files = vec![
        LogFile::new(s("a.log"), vec![entry(1, "", "x"), entry(2, "", "y")]),
        LogFile::new(s("b.log"), vec![]),
    ];
    assert_eq!(total_lines(&files, Some(0)), 2);
    assert_eq!(total_lines(&files, Some(1)), 0);
    assert_eq!(total_lines(&files, Some(7)), 0);
    assert_eq!(total_lines(&files, None), 0);
}

#[test]
fn keyboard_shortcuts() {
    assert_eq!(shortcut_for(true, "o"), Some(Shortcut::OpenFile));
    assert_eq!(shortcut_for(true, "O"), Some(Shortcut::OpenFile));
    assert_eq!(shortcut_for(true, "/"), Some(Shortcut::ShowShortcuts));
    assert_eq!(shortcut_for(true, "T"), Some(Shortcut::ToggleTheme));
    assert_eq!(shortcut_for(true, "b"), Some(Shortcut::ToggleFilters));
    assert_eq!(shortcut_for(true, "l"), Some(Shortcut::ToggleChat));
    assert_eq!(shortcut_for(true, "W"), Some(Shortcut::CloseTab));
    assert_eq!(shortcut_for(true, "f"), Some(Shortcut::FocusSearch));
    assert_eq!(shortcut_for(true, "x"), None);
    assert_eq!(shortcut_for(false, "o"), None);
}

#[test]
fn theme_and_menus() {
    assert_eq!(next_theme(Theme::Dark), Theme::Light);
    assert_eq!(next_theme(next_theme(Theme::Light)), Theme::Light);
    assert_eq!(toggle_menu(None, "file"), Some("file"));
    assert_eq!(toggle_menu(Some("file"), "file"), None);
    assert_eq!(toggle_menu(Some("edit"), "file"), Some("file"));
    assert_eq!(hover_menu(Some("edit"), "view"), Some("view"));
    assert_eq!(hover_menu(None, "view"), None);
}

#[test]
fn row_looks() {
    let leader = DisplayEntry::new(entry(3, "ERROR", "boom"), 3, false);
    let look = row_look(&leader, true);
    assert_eq!(look.line_label, "3");
    assert!(look.show_badge);
    assert_eq!(look.padding, "2px ");
    assert_eq!(look.border_left, "border-left:3px solid #ef4444;");
    assert_eq!(look.background, "background:linear-gradient(90deg, #ef444408 0%, transparent 100%);");
    assert_eq!((look.time_style, look.message_style), ("", ""));

    let info = DisplayEntry::new(entry(1, "INFO", "up"), 1, false);
    let look = row_look(&info, false);
    assert_eq!(look.border_left, "border-left:3px solid transparent;");
    assert_eq!(look.background, "");

    let cont = DisplayEntry::new(entry(4, "", "more"), 3, true);
    let look = row_look(&cont, true);
    assert_eq!(look.line_label, "");
    assert!(!look.show_badge);
    assert_eq!(look.padding, "1px ");
    assert_eq!(look.border_left, "border-left:3px solid transparent22;");
    assert_eq!((look.time_style, look.message_style), ("opacity:0.4;", "opacity:0.65;"));
}

#[test]
fn row_clicks_and_states() {
    let mut focused = None;
    let mut selected = vec![];
    click_row(&mut focused, &mut selected, 5, true);
    click_row(&mut focused, &mut selected, 7, true);
    assert_eq!(selected, vec![5, 7]);
    assert_eq!(focused, None);
    assert_eq!(row_state(&selected, focused, 7), RowState::Selected);
    click_row(&mut focused, &mut selected, 9, false);
    assert!(selected.is_empty());
    assert_eq!(focused, Some(9));
    assert_eq!(row_state(&selected, focused, 9), RowState::Focused);
    assert_eq!(row_state(&selected, focused, 5), RowState::Plain);
}

#[test]
fn context_menu_texts_and_position() {
    assert_eq!(menu_header(3, &None), Some(s("3 lines selected")));
    assert_eq!(menu_header(0, &Some((s("a.log"), 12, s("m")))), Some(s("a.log:12")));
    assert_eq!(menu_header(0, &None), None);
    assert_eq!(copy_label(2), "Copy 2 lines");
    assert_eq!(copy_label(0), "Copy line");
    assert_eq!(menu_position(100, 50, 1200, 800), (100, 50));
    assert_eq!(menu_position(1100, 750, 1200, 800), (990, 680));
}

#[test]
fn panel_resizing() {
    assert_eq!(resized_width(340, 500, 450), 390);
    assert_eq!(resized_width(340, 500, 800), 280);
    assert_eq!(resized_width(340, 500, 0), 640);
}

#[test]
fn input_keys() {
    let sug = vec![s("a.log"), s("b.log")];
    let k = input_keydown("ArrowDown", false, true, &sug, 0);
    assert!(k.prevent_default && !k.send && k.mention_active);
    assert_eq!(k.select, Some(1));
    assert_eq!(k.pick, None);
    // Enter picks the selected file, closes the list and sends.
    let k = input_keydown("Enter", false, true, &sug, 1);
    assert_eq!(k.pick, Some(1));
    assert!(!k.mention_active && k.send && k.prevent_default);
    // Tab picks without sending.
    let k = input_keydown("Tab", false, true, &sug, 0);
    assert_eq!(k.pick, Some(0));
    assert!(!k.send);
    let k = input_keydown("Escape", false, true, &sug, 0);
    assert!(!k.mention_active && !k.send && !k.prevent_default);
    // Without the list: Enter sends, Shift+Enter does not.
    let k = input_keydown("Enter", false, false, &[], 0);
    assert!(k.send && k.prevent_default);
    let k = input_keydown("Enter", true, false, &[], 0);
    assert!(!k.send && !k.prevent_default);
    // With the list open and nothing to pick, Enter neither picks nor sends.
    let k = input_keydown("Enter", false, true, &[], 0);
    assert!(k.pick.is_none() && !k.send && k.mention_active);
}

#[test]
fn panel_drag_follows_pointer_only_while_pressed() {
    let mut d = PanelDrag::new(360);
    d.move_to(100);
    assert_eq!(d.width, 360);
    d.press(500);
    assert!(d.dragging);
    d.move_to(450);
    assert_eq!(d.width, 410);
    d.move_to(0);
    assert_eq!(d.width, 640);
    d.move_to(2000);
    assert_eq!(d.width, 280);
    d.move_to(500);
    assert_eq!(d.width, 360);
    d.move_to(480);
    d.release();
    assert!(!d.dragging);
    d.move_to(0);
    assert_eq!(d.width, 380);
    d.press(10);
    d.move_to(30);
    assert_eq!(d.width, 360);
}

#[test]
fn shortcuts_update_the_toggles() {
    let start = UiToggles {
        theme: Theme::Dark,
        open_dialog_trigger: u32::MAX - 1,
        show_shortcuts: false,
        filter_open: true,
        ai_open: false,
    };
    let mut u = start;
    u.apply_shortcut(Shortcut::OpenFile);
    assert_eq!(u.open_dialog_trigger, u32::MAX);
    u.apply_shortcut(Shortcut::OpenFile);
    assert_eq!(u.open_dialog_trigger, 0);
    u.apply_shortcut(Shortcut::ToggleTheme);
    assert_eq!(u.theme, Theme::Light);
    u.apply_shortcut(Shortcut::ToggleFilters);
    assert!(!u.filter_open);
    u.apply_shortcut(Shortcut::ToggleChat);
    assert!(u.ai_open);
    u.apply_shortcut(Shortcut::ShowShortcuts);
    assert!(u.show_shortcuts);
    let before = u;
    u.apply_shortcut(Shortcut::CloseTab);
    u.apply_shortcut(Shortcut::FocusSearch);
    assert_eq!(u, before);
    u.apply_shortcut(Shortcut::ToggleTheme);
    u.apply_shortcut(Shortcut::ToggleTheme);
    assert_eq!(u, before);
}
