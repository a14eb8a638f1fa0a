//! The title bar's menus and the application's keyboard shortcuts.

use vstd::prelude::*;
use crate::shared::types::Theme;
use crate::text::str_eq;

verus! {

/// A keyboard shortcut of the application (pressed with Ctrl or Cmd).
#[derive(Debug, Clone, Copy, PartialEq, Eq, Structural)]
pub enum Shortcut {
    /// Ctrl+O: open a log file.
    OpenFile,
    /// Ctrl+/: show the shortcuts.
    ShowShortcuts,
    /// Ctrl+T: switch between the dark and the light theme.
    ToggleTheme,
    /// Ctrl+B: show or hide the filter panel.
    ToggleFilters,
    /// Ctrl+L: show or hide the chat panel.
    ToggleChat,
    /// Ctrl+W: close the active tab.
    CloseTab,
    /// Ctrl+F: focus the search box.
    FocusSearch,
}

/// The shortcut of a key pressed with (`ctrl`) or without Ctrl/Cmd.
pub open spec fn shortcut_spec(ctrl: bool, key: Seq<char>) -> Option<Shortcut> {
    if !ctrl {
        None
    } else if key == "o"@ || key == "O"@ {
        Some(Shortcut::OpenFile)
    } else if key == "/"@ {
        Some(Shortcut::ShowShortcuts)
    } else if key == "t"@ || key == "T"@ {
        Some(Shortcut::ToggleTheme)
    } else if key == "b"@ || key == "B"@ {
        Some(Shortcut::ToggleFilters)
    } else if key == "l"@ || key == "L"@ {
        Some(Shortcut::ToggleChat)
    } else if key == "w"@ || key == "W"@ {
        Some(Shortcut::CloseTab)
    } else if key == "f"@ || key == "F"@ {
        Some(Shortcut::FocusSearch)
    } else {
        None
    }
}

/// The shortcut of a key press, if it is one.
pub fn shortcut_for(ctrl: bool, key: &str) -> (r: Option<Shortcut>)
    ensures
        r == shortcut_spec(ctrl, key@),
{
    if !ctrl {
        None
    } else if str_eq(key, "o") || str_eq(key, "O") {
        Some(Shortcut::OpenFile)
    } else if str_eq(key, "/") {
        Some(Shortcut::ShowShortcuts)
    } else if str_eq(key, "t") || str_eq(key, "T") {
        Some(Shortcut::ToggleTheme)
    } else if str_eq(key, "b") || str_eq(key, "B") {
        Some(Shortcut::ToggleFilters)
    } else if str_eq(key, "l") || str_eq(key, "L") {
        Some(Shortcut::ToggleChat)
    } else if str_eq(key, "w") || str_eq(key, "W") {
        Some(Shortcut::CloseTab)
    } else if str_eq(key, "f") || str_eq(key, "F") {
        Some(Shortcut::FocusSearch)
    } else {
        None
    }
}

/// The other theme.
pub open spec fn other_theme(t: Theme) -> Theme {
    match t {
        Theme::Dark => Theme::Light,
        Theme::Light => Theme::Dark,
    }
}

/// Switches the theme (Ctrl+T).
pub fn next_theme(t: Theme) -> (r: Theme)
    ensures
        r == other_theme(t),
{
    match t {
        Theme::Dark => Theme::Light,
        Theme::Light => Theme::Dark,
    }
}

/// Law: switching the theme twice gives the theme back.
pub proof fn lemma_next_theme_twice(t: Theme)
    ensures
        other_theme(other_theme(t)) == t,
{
}

/// A click on a menu title: it closes that menu when it is the open one,
/// and opens it otherwise.
pub fn toggle_menu(current: Option<&'static str>, menu: &'static str) -> (r: Option<&'static str>)
    ensures
        (current matches Some(c) && c@ == menu@) ==> r is None,
        !(current matches Some(c) && c@ == menu@) ==> r == Some(menu),
{
    match current {
        Some(c) => if str_eq(c, menu) {
            None
        } else {
            Some(menu)
        },
        None => Some(menu),
    }
}

/// The pointer enters a menu title: while a menu is open, that menu opens
/// instead; otherwise nothing opens.
pub fn hover_menu(current: Option<&'static str>, menu: &'static str) -> (r: Option<&'static str>)
    ensures
        current is Some ==> r == Some(menu),
        current is None ==> r is None,
{
    match current {
        Some(_) => Some(menu),
        None => None,
    }
}

/// The parts of the application's state that the shortcuts of the title
/// bar change: the theme, the counter whose every change opens the file
/// dialog, and whether the shortcut list, the filter panel and the chat
/// panel are shown.
#[derive(Debug, Clone, Copy, PartialEq, Eq, Structural)]
pub struct UiToggles {
    pub theme: Theme,
    pub open_dialog_trigger: u32,
    pub show_shortcuts: bool,
    pub filter_open: bool,
    pub ai_open: bool,
}

/// The state after a shortcut: Ctrl+O counts the dialog trigger up (it
/// wraps round), Ctrl+/ shows the shortcut list, Ctrl+T switches the theme,
/// Ctrl+B and Ctrl+L show or hide the filter and the chat panel.  Ctrl+W and
/// Ctrl+F act on the tabs and the search box and change none of these.
pub open spec fn shortcut_applied(u: UiToggles, s: Shortcut) -> UiToggles {
    match s {
        Shortcut::OpenFile => UiToggles {
            open_dialog_trigger: if u.open_dialog_trigger == u32::MAX {
                0
            } else {
                (u.open_dialog_trigger + 1) as u32
            },
            ..u
        },
        Shortcut::ShowShortcuts => UiToggles { show_shortcuts: true, ..u },
        Shortcut::ToggleTheme => UiToggles { theme: other_theme(u.theme), ..u },
        Shortcut::ToggleFilters => UiToggles { filter_open: !u.filter_open, ..u },
        Shortcut::ToggleChat => UiToggles { ai_open: !u.ai_open, ..u },
        Shortcut::CloseTab => u,
        Shortcut::FocusSearch => u,
    }
}

impl UiToggles {
    /// Applies a shortcut (see `shortcut_applied`).
    pub fn apply_shortcut(&mut self, s: Shortcut)
        ensures
            *final(self) == shortcut_applied(*old(self), s),
    {
        match s {
            Shortcut::OpenFile => {
                self.open_dialog_trigger = self.open_dialog_trigger.wrapping_add(1);
            },
            Shortcut::ShowShortcuts => {
                self.show_shortcuts = true;
            },
            Shortcut::ToggleTheme => {
                self.theme = next_theme(self.theme);
            },
            Shortcut::ToggleFilters => {
                self.filter_open = !self.filter_open;
            },
            Shortcut::ToggleChat => {
                self.ai_open = !self.ai_open;
            },
            Shortcut::CloseTab => {},
            Shortcut::FocusSearch => {},
        }
    }
}

/// Law: the theme, filter-panel and chat-panel shortcuts undo themselves:
/// pressed twice they give the state back.
pub proof fn lemma_toggle_shortcut_twice(u: UiToggles, s: Shortcut)
    requires
        s == Shortcut::ToggleTheme || s == Shortcut::ToggleFilters || s == Shortcut::ToggleChat,
    ensures
        shortcut_applied(shortcut_applied(u, s), s) == u,
{
}

/// Law: every Ctrl+O changes the dialog trigger, so that each press opens
/// the file dialog, and nothing else changes.
pub proof fn lemma_open_file_always_triggers(u: UiToggles)
    ensures
        shortcut_applied(u, Shortcut::OpenFile).open_dialog_trigger != u.open_dialog_trigger,
        shortcut_applied(u, Shortcut::OpenFile) == (UiToggles {
            open_dialog_trigger: shortcut_applied(u, Shortcut::OpenFile).open_dialog_trigger,
            ..u
        }),
{
}

/// Law: the shortcut list, once shown by Ctrl+/, stays shown whatever
/// shortcut follows.
pub proof fn lemma_show_shortcuts_stays(u: UiToggles, s: Shortcut)
    ensures
        shortcut_applied(shortcut_applied(u, Shortcut::ShowShortcuts), s).show_shortcuts,
{
}

} // verus!
