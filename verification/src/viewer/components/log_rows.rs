//! The rows of the log table: how a row looks, and what a click does.

use vstd::prelude::*;
use crate::components::severity::{level_colors, level_colors_spec};
use crate::text::{decimal, extend_str, from_chars, push_decimal, str_eq};
use crate::viewer::components::context_menu::{toggle_selection, toggled};
use crate::viewer::types::DisplayEntry;

verus! {

/// How a row is drawn.
pub struct RowLook {
    /// The line number shown: the group's line, blank on continuation lines.
    pub line_label: String,
    /// Whether the level badge is shown.
    pub show_badge: bool,
    /// Vertical padding ("1px " for continuation lines, "2px " otherwise).
    pub padding: &'static str,
    /// The left border.
    pub border_left: String,
    /// The background tint (empty for none).
    pub background: String,
    /// Extra style of the timestamp and of the message.
    pub time_style: &'static str,
    pub message_style: &'static str,
}

/// The line number shown on a row.
pub open spec fn line_label_spec(de: DisplayEntry) -> Seq<char> {
    if de.is_continuation {
        seq![]
    } else {
        decimal(de.group_line as nat)
    }
}

/// The left border of a row whose level has the accent colour `accent`.
pub open spec fn border_left_spec(accent: Seq<char>, cont: bool) -> Seq<char> {
    if accent != "transparent"@ && !cont {
        "border-left:3px solid "@ + accent + ";"@
    } else if cont {
        "border-left:3px solid "@ + accent + "22;"@
    } else {
        "border-left:3px solid "@ + "transparent;"@
    }
}

/// The background tint of a row whose level has the accent colour `accent`.
pub open spec fn background_spec(accent: Seq<char>, cont: bool) -> Seq<char> {
    if !cont && accent != "transparent"@ {
        "background:linear-gradient(90deg, "@ + accent + "08 0%, transparent 100%);"@
    } else {
        seq![]
    }
}

/// How the row of `de` looks in the dark (`dark`) or light theme.
pub fn row_look(de: &DisplayEntry, dark: bool) -> (r: RowLook)
    ensures
        r.line_label@ == line_label_spec(*de),
        r.show_badge == (de.entry.status@.len() > 0 && !de.is_continuation),
        r.padding@ == (if de.is_continuation { "1px "@ } else { "2px "@ }),
        r.border_left@ == border_left_spec(level_colors_spec(de.entry.status@, dark).3, de.is_continuation),
        r.background@ == background_spec(level_colors_spec(de.entry.status@, dark).3, de.is_continuation),
        r.time_style@ == (if de.is_continuation { "opacity:0.4;"@ } else { ""@ }),
        r.message_style@ == (if de.is_continuation { "opacity:0.65;"@ } else { ""@ }),
{
    let cont = de.is_continuation;
    let (_, _, _, accent) = level_colors(de.entry.status.as_str(), dark);
    let plain = str_eq(accent, "transparent");
    let mut label: Vec<char> = Vec::new();
    if !cont {
        push_decimal(&mut label, de.group_line);
    }
    let mut border = String::from_str("border-left:3px solid ");
    if !plain && !cont {
        border.append(accent);
        border.append(";");
    } else if cont {
        border.append(accent);
        border.append("22;");
    } else {
        border.append("transparent;");
    }
    let mut background = String::new();
    if !cont && !plain {
        background.append("background:linear-gradient(90deg, ");
        background.append(accent);
        background.append("08 0%, transparent 100%);");
    }
    RowLook {
        line_label: from_chars(&label),
        show_badge: !de.entry.status.as_str().is_empty() && !cont,
        padding: if cont { "1px " } else { "2px " },
        border_left: border,
        background,
        time_style: if cont { "opacity:0.4;" } else { "" },
        message_style: if cont { "opacity:0.65;" } else { "" },
    }
}

/// The highlight of a row.
#[derive(Debug, Clone, Copy, PartialEq, Eq, Structural)]
pub enum RowState {
    /// Part of the Ctrl-click selection.
    Selected,
    /// The row clicked last.
    Focused,
    Plain,
}

/// The highlight of the rows of group `line`: selection first, then focus.
pub fn row_state(selected: &[usize], focused: Option<usize>, line: usize) -> (r: RowState)
    ensures
        selected@.contains(line) ==> r == RowState::Selected,
        !selected@.contains(line) && focused == Some(line) ==> r == RowState::Focused,
        !selected@.contains(line) && focused != Some(line) ==> r == RowState::Plain,
{
    let mut i: usize = 0;
    while i < selected.len()
        invariant
            i <= selected@.len(),
            forall|j: int| 0 <= j < i ==> selected@[j] != line,
        decreases selected@.len() - i,
    {
        if selected[i] == line {
            return RowState::Selected;
        }
        i += 1;
    }
    match focused {
        Some(f) => if f == line {
            RowState::Focused
        } else {
            RowState::Plain
        },
        None => RowState::Plain,
    }
}

/// A click on a row of group `line`: with Ctrl the group joins or leaves
/// the selection; otherwise the row takes the focus and the selection is
/// emptied.
pub fn click_row(focused: &mut Option<usize>, selected: &mut Vec<usize>, line: usize, ctrl: bool)
    ensures
        ctrl ==> final(selected)@ == toggled(old(selected)@, line) && *final(focused) == *old(focused),
        !ctrl ==> final(selected)@.len() == 0 && *final(focused) == Some(line),
{
    if ctrl {
        toggle_selection(selected, line);
    } else {
        *focused = Some(line);
        selected.clear();
    }
}

} // verus!
