//! The context menu of a log row: copy, add to the chat context, explain.

use vstd::prelude::*;
use crate::shared::types::LoganAction;
use crate::text::{decimal, extend_str, from_chars, join, join_chars, push_decimal, views};
use crate::viewer::types::DisplayEntry;

verus! {

/// Index of the first displayed entry of group `line`.
pub open spec fn entry_of_group(es: Seq<DisplayEntry>, line: usize, i: int) -> Option<int>
    decreases es.len() - i,
{
    if i < 0 || i >= es.len() {
        None
    } else if es[i].group_line == line {
        Some(i)
    } else {
        entry_of_group(es, line, i + 1)
    }
}

/// The entry found is at or after `i` and belongs to the group.
pub proof fn lemma_entry_of_group(es: Seq<DisplayEntry>, line: usize, i: int)
    ensures
        entry_of_group(es, line, i) matches Some(k) ==> 0 <= i <= k < es.len() && es[k].group_line == line,
    decreases es.len() - i,
{
    if 0 <= i < es.len() && es[i].group_line != line {
        lemma_entry_of_group(es, line, i + 1);
    }
}

/// A line as copied: `[Line n] message`.
pub open spec fn copied_line(n: usize, msg: Seq<char>) -> Seq<char> {
    "[Line "@ + decimal(n as nat) + seq![']', ' '] + msg
}

/// The copied lines of the selected groups that are displayed.
pub open spec fn copied_lines(sel: Seq<usize>, es: Seq<DisplayEntry>) -> Seq<Seq<char>>
    decreases sel.len(),
{
    if sel.len() == 0 {
        seq![]
    } else {
        let rest = copied_lines(sel.drop_last(), es);
        match entry_of_group(es, sel.last(), 0) {
            Some(k) => rest.push(copied_line(sel.last(), es[k].entry.message@)),
            None => rest,
        }
    }
}

/// The text copied by the menu.
pub open spec fn copy_text_spec(
    sel: Seq<usize>,
    es: Seq<DisplayEntry>,
    ctx: Option<(String, usize, String)>,
) -> Seq<char> {
    if sel.len() > 0 {
        join(copied_lines(sel, es), seq!['\n'])
    } else {
        match ctx {
            Some(c) => copied_line(c.1, c.2@),
            None => seq![],
        }
    }
}

/// Index of the first displayed entry of group `line`.
fn find_group(entries: &[DisplayEntry], line: usize) -> (r: Option<usize>)
    ensures
        match entry_of_group(entries@, line, 0) {
            Some(k) => r == Some(k as usize),
            None => r is None,
        },
{
    let mut i: usize = 0;
    while i < entries.len()
        invariant
            i <= entries@.len(),
            entry_of_group(entries@, line, 0) == entry_of_group(entries@, line, i as int),
        decreases entries@.len() - i,
    {
        if entries[i].group_line == line {
            return Some(i);
        }
        i += 1;
    }
    None
}

/// `[Line n] message`.
fn line_text(n: usize, msg: &str) -> (r: Vec<char>)
    ensures
        r@ == copied_line(n, msg@),
{
    let mut v: Vec<char> = Vec::new();
    extend_str(&mut v, "[Line ");
    push_decimal(&mut v, n);
    v.push(']');
    v.push(' ');
    extend_str(&mut v, msg);
    assert(v@ =~= copied_line(n, msg@));
    v
}

/// The text copied by the menu: the selected lines that are displayed,
/// one per line, or else the line the menu was opened on.
pub fn copy_text(
    selected: &[usize],
    entries: &[DisplayEntry],
    ctx_entry: &Option<(String, usize, String)>,
) -> (r: String)
    ensures
        r@ == copy_text_spec(selected@, entries@, *ctx_entry),
{
    if selected.len() > 0 {
        let mut lines: Vec<Vec<char>> = Vec::new();
        let mut i: usize = 0;
        while i < selected.len()
            invariant
                i <= selected@.len(),
                views(lines@) =~= copied_lines(selected@.take(i as int), entries@),
            decreases selected@.len() - i,
        {
            assert(selected@.take(i + 1).drop_last() =~= selected@.take(i as int));
            assert(selected@.take(i + 1).last() == selected@[i as int]);
            proof {
                lemma_entry_of_group(entries@, selected@[i as int], 0);
            }
            match find_group(entries, selected[i]) {
                Some(k) => {
                    let ghost before = views(lines@);
                    let t = line_text(selected[i], entries[k].entry.message.as_str());
                    lines.push(t);
                    assert(views(lines@) =~= before.push(t@));
                },
                None => {},
            }
            i += 1;
        }
        assert(selected@.take(i as int) =~= selected@);
        let sep = vec!['\n'];
        assert(sep@ =~= seq!['\n']);
        from_chars(&join_chars(&lines, &sep))
    } else {
        match ctx_entry {
            Some(c) => from_chars(&line_text(c.1, c.2.as_str())),
            None => String::new(),
        }
    }
}

/// What one character of the copied text becomes inside the script's
/// template literal: a backslash, a backtick and a dollar sign each get a
/// backslash before them, and a carriage return is written `\r` (a raw one
/// would be read as a line feed), so that the literal holds exactly the
/// text and `${..}` in it is never evaluated.
pub open spec fn js_escape_char(c: char) -> Seq<char> {
    if c == '\\' || c == '`' || c == '$' {
        seq!['\\', c]
    } else if c == '\r' {
        seq!['\\', 'r']
    } else {
        seq![c]
    }
}

/// The text escaped character by character for a template literal.
pub open spec fn js_escape(s: Seq<char>) -> Seq<char>
    decreases s.len(),
{
    if s.len() == 0 {
        seq![]
    } else {
        js_escape(s.drop_last()) + js_escape_char(s.last())
    }
}

/// The script that copies `text`: the text, escaped, inside a template literal.
pub open spec fn clipboard_script_spec(text: Seq<char>) -> Seq<char> {
    "navigator.clipboard.writeText(`"@ + js_escape(text) + "`)"@
}

/// The text that a JavaScript template literal with body `t` stands for:
/// `\r` stands for a carriage return, a backslash before any other
/// character for that character, and a raw carriage return (alone or
/// before a line feed) is read as a line feed.
pub open spec fn template_value(t: Seq<char>) -> Seq<char>
    decreases t.len(),
{
    if t.len() == 0 {
        seq![]
    } else if t[0] == '\\' && t.len() >= 2 {
        seq![if t[1] == 'r' { '\r' } else { t[1] }] + template_value(t.skip(2))
    } else if t[0] == '\r' && t.len() >= 2 && t[1] == '\n' {
        seq!['\n'] + template_value(t.skip(2))
    } else if t[0] == '\r' {
        seq!['\n'] + template_value(t.skip(1))
    } else {
        seq![t[0]] + template_value(t.skip(1))
    }
}

/// `t` is a template literal body that neither ends the literal nor opens a
/// `${..}` substitution, and holds no raw carriage return: a backtick and a
/// dollar sign appear only after a backslash, and a backslash only before a
/// backslash, a backtick, a dollar sign or `r`.
pub open spec fn inert_template(t: Seq<char>) -> bool
    decreases t.len(),
{
    if t.len() == 0 {
        true
    } else if t[0] == '\\' {
        t.len() >= 2 && (t[1] == '\\' || t[1] == '`' || t[1] == '$' || t[1] == 'r') && inert_template(t.skip(2))
    } else {
        t[0] != '`' && t[0] != '$' && t[0] != '\r' && inert_template(t.skip(1))
    }
}

/// Escaping a concatenation escapes each part.
proof fn lemma_js_escape_concat(a: Seq<char>, b: Seq<char>)
    ensures
        js_escape(a + b) == js_escape(a) + js_escape(b),
    decreases b.len(),
{
    if b.len() == 0 {
        assert(a + b =~= a);
        assert(js_escape(a) + js_escape(b) =~= js_escape(a));
    } else {
        lemma_js_escape_concat(a, b.drop_last());
        assert((a + b).drop_last() =~= a + b.drop_last());
        assert((a + b).last() == b.last());
        assert(js_escape(a + b) =~= js_escape(a) + js_escape(b));
    }
}

/// Law: the escaped text is an inert template literal body that stands
/// for exactly the text, so the script copies the text as it is and runs
/// nothing taken from it.
pub proof fn lemma_js_escape_round_trip(s: Seq<char>)
    ensures
        inert_template(js_escape(s)),
        template_value(js_escape(s)) == s,
    decreases s.len(),
{
    if s.len() > 0 {
        let c = s[0];
        let rest = s.skip(1);
        assert(s =~= seq![c] + rest);
        lemma_js_escape_concat(seq![c], rest);
        let one = seq![c];
        assert(one.drop_last() =~= Seq::<char>::empty());
        assert(js_escape(one.drop_last()) == Seq::<char>::empty());
        assert(js_escape(one) == js_escape(one.drop_last()) + js_escape_char(c));
        assert(js_escape(one) =~= js_escape_char(c));
        lemma_js_escape_round_trip(rest);
        let e = js_escape_char(c);
        let t = e + js_escape(rest);
        assert(t.skip(e.len() as int) =~= js_escape(rest));
        assert(t[0] == e[0]);
        if e.len() == 2 {
            assert(t[1] == e[1]);
        }
    }
}

/// The escaped characters of `s`.
fn escape_for_template(s: &Vec<char>) -> (r: Vec<char>)
    ensures
        r@ == js_escape(s@),
{
    let mut r: Vec<char> = Vec::new();
    let mut i: usize = 0;
    while i < s.len()
        invariant
            i <= s.len(),
            r@ == js_escape(s@.take(i as int)),
        decreases s.len() - i,
    {
        let c = s[i];
        assert(s@.take(i + 1).drop_last() =~= s@.take(i as int));
        assert(s@.take(i + 1).last() == c);
        let ghost before = r@;
        if c == '\\' || c == '`' || c == '$' {
            r.push('\\');
            r.push(c);
        } else if c == '\r' {
            r.push('\\');
            r.push('r');
        } else {
            r.push(c);
        }
        assert(r@ =~= before + js_escape_char(c));
        i += 1;
    }
    assert(s@.take(i as int) =~= s@);
    r
}

/// The JavaScript that copies `text` to the clipboard.
pub fn clipboard_script(text: &str) -> (r: String)
    ensures
        r@ == clipboard_script_spec(text@),
{
    let v = crate::text::to_chars(text);
    let b = escape_for_template(&v);
    let mut out = String::from_str("navigator.clipboard.writeText(`");
    out.append(from_chars(&b).as_str());
    out.append("`)");
    out
}

/// The chat context added from the menu: the selected lines that are
/// displayed (none: no action) or else the line the menu was opened on.
pub open spec fn context_items_spec(sel: Seq<usize>, es: Seq<DisplayEntry>, file: Seq<char>) -> Seq<(Seq<char>, usize, Seq<char>)>
    decreases sel.len(),
{
    if sel.len() == 0 {
        seq![]
    } else {
        let rest = context_items_spec(sel.drop_last(), es, file);
        match entry_of_group(es, sel.last(), 0) {
            Some(k) => rest.push((file, sel.last(), es[k].entry.message@)),
            None => rest,
        }
    }
}

/// The views of chips.
pub open spec fn chip_views(v: Seq<(String, usize, String)>) -> Seq<(Seq<char>, usize, Seq<char>)> {
    v.map_values(|c: (String, usize, String)| (c.0@, c.1, c.2@))
}

/// The chips of the selected lines that are displayed.
pub fn context_items(selected: &[usize], entries: &[DisplayEntry], file_name: &str) -> (r: Vec<(String, usize, String)>)
    ensures
        chip_views(r@) == context_items_spec(selected@, entries@, file_name@),
{
    let mut items: Vec<(String, usize, String)> = Vec::new();
    let mut i: usize = 0;
    while i < selected.len()
        invariant
            i <= selected@.len(),
            chip_views(items@) =~= context_items_spec(selected@.take(i as int), entries@, file_name@),
        decreases selected@.len() - i,
    {
        assert(selected@.take(i + 1).drop_last() =~= selected@.take(i as int));
        assert(selected@.take(i + 1).last() == selected@[i as int]);
        proof {
            lemma_entry_of_group(entries@, selected@[i as int], 0);
        }
        match find_group(entries, selected[i]) {
            Some(k) => {
                let ghost before = chip_views(items@);
                items.push((String::from_str(file_name), selected[i], entries[k].entry.message.clone()));
                assert(chip_views(items@) =~= before.push(
                    (file_name@, selected@[i as int], entries@[k as int].entry.message@),
                ));
            },
            None => {},
        }
        i += 1;
    }
    assert(selected@.take(i as int) =~= selected@);
    items
}

/// The action of "Add to Logan context": several chips for a selection
/// (none when no selected line is displayed), or the line the menu was
/// opened on.
pub fn add_to_context_action(
    selected: &[usize],
    entries: &[DisplayEntry],
    file_name: &str,
    ctx_entry: &Option<(String, usize, String)>,
) -> (r: Option<LoganAction>)
    ensures
        selected@.len() > 0 ==> match r {
            Some(LoganAction::AddMultipleContext { items }) => chip_views(items@) == context_items_spec(
                selected@,
                entries@,
                file_name@,
            ) && items@.len() > 0,
            None => context_items_spec(selected@, entries@, file_name@).len() == 0,
            _ => false,
        },
        selected@.len() == 0 ==> match *ctx_entry {
            Some(c) => r == Some(LoganAction::AddContext { file: c.0, line: c.1, text: c.2 }),
            None => r is None,
        },
{
    if selected.len() > 0 {
        let items = context_items(selected, entries, file_name);
        if items.len() > 0 {
            Some(LoganAction::AddMultipleContext { items })
        } else {
            None
        }
    } else {
        match ctx_entry {
            Some(c) => Some(LoganAction::AddContext { file: c.0.clone(), line: c.1, text: c.2.clone() }),
            None => None,
        }
    }
}

/// The action of "Explain with Logan AI".
pub fn explain_action(ctx_entry: &Option<(String, usize, String)>) -> (r: Option<LoganAction>)
    ensures
        match *ctx_entry {
            Some(c) => r == Some(LoganAction::Explain { file: c.0, line: c.1, text: c.2 }),
            None => r is None,
        },
{
    match ctx_entry {
        Some(c) => Some(LoganAction::Explain { file: c.0.clone(), line: c.1, text: c.2.clone() }),
        None => None,
    }
}

/// The title of the menu: the number of selected lines, or else the file
/// and line the menu was opened on (none without either).
pub open spec fn menu_header_spec(selected: nat, ctx: Option<(String, usize, String)>) -> Option<Seq<char>> {
    if selected > 0 {
        Some(decimal(selected) + " lines selected"@)
    } else {
        match ctx {
            Some(c) => Some(c.0@ + seq![':'] + decimal(c.1 as nat)),
            None => None,
        }
    }
}

/// The title of the menu.
pub fn menu_header(selected: usize, ctx_entry: &Option<(String, usize, String)>) -> (r: Option<String>)
    ensures
        match r {
            Some(s) => menu_header_spec(selected as nat, *ctx_entry) == Some(s@),
            None => menu_header_spec(selected as nat, *ctx_entry) is None,
        },
{
    if selected > 0 {
        let mut v: Vec<char> = Vec::new();
        push_decimal(&mut v, selected);
        extend_str(&mut v, " lines selected");
        Some(from_chars(&v))
    } else {
        match ctx_entry {
            Some(c) => {
                let mut v = crate::text::to_chars(c.0.as_str());
                v.push(':');
                push_decimal(&mut v, c.1);
                Some(from_chars(&v))
            },
            None => None,
        }
    }
}

/// The label of the copy item.
pub fn copy_label(selected: usize) -> (r: String)
    ensures
        r@ == (if selected > 0 {
            "Copy "@ + decimal(selected as nat) + " lines"@
        } else {
            "Copy line"@
        }),
{
    if selected > 0 {
        let mut v: Vec<char> = Vec::new();
        extend_str(&mut v, "Copy ");
        push_decimal(&mut v, selected);
        extend_str(&mut v, " lines");
        from_chars(&v)
    } else {
        String::from_str("Copy line")
    }
}

/// Where the menu opens: at the pointer, kept 210 pixels from the right
/// edge and 120 from the bottom of the window.
pub fn menu_position(x: i32, y: i32, win_w: i32, win_h: i32) -> (r: (i32, i32))
    requires
        win_w - 210 >= i32::MIN,
        win_h - 120 >= i32::MIN,
    ensures
        r.0 == (if x <= win_w - 210 { x as int } else { win_w - 210 }),
        r.1 == (if y <= win_h - 120 { y as int } else { win_h - 120 }),
{
    let mx = win_w - 210;
    let my = win_h - 120;
    (if x <= mx { x } else { mx }, if y <= my { y } else { my })
}

/// Position of the first `x` in `s` (`s.len()` when there is none).
pub open spec fn first_index(s: Seq<usize>, x: usize) -> int
    decreases s.len(),
{
    if s.len() == 0 {
        0
    } else if s[0] == x {
        0
    } else {
        1 + first_index(s.drop_first(), x)
    }
}

/// The selection after a Ctrl-click on the group `line`: the group is
/// removed (its first occurrence) if it is there, added at the end
/// otherwise.
pub open spec fn toggled(s: Seq<usize>, line: usize) -> Seq<usize> {
    if s.contains(line) {
        s.remove(first_index(s, line))
    } else {
        s.push(line)
    }
}

/// `k` is the first position of `x` in `s`.
proof fn lemma_first_index(s: Seq<usize>, x: usize, k: int)
    requires
        0 <= k <= s.len(),
        k < s.len() ==> s[k] == x,
        forall|j: int| 0 <= j < k ==> s[j] != x,
    ensures
        first_index(s, x) == k,
    decreases k,
{
    if k > 0 {
        assert forall|j: int| 0 <= j < k - 1 implies s.drop_first()[j] != x by {
            assert(s.drop_first()[j] == s[j + 1]);
        }
        lemma_first_index(s.drop_first(), x, k - 1);
    }
}

/// Ctrl-click on a row: the group is removed from the selection if it is
/// there (first occurrence), added otherwise.
pub fn toggle_selection(lines: &mut Vec<usize>, line: usize)
    ensures
        final(lines)@ == toggled(old(lines)@, line),
{
    let mut i: usize = 0;
    while i < lines.len()
        invariant
            i <= lines@.len(),
            lines@ == old(lines)@,
            forall|j: int| 0 <= j < i ==> lines@[j] != line,
        decreases lines@.len() - i,
    {
        if lines[i] == line {
            proof {
                lemma_first_index(lines@, line, i as int);
            }
            lines.remove(i);
            return;
        }
        i += 1;
    }
    lines.push(line);
}

/// Law: Ctrl-clicking twice on a group that is not selected leaves the
/// selection as it was.
pub proof fn lemma_toggle_twice(s: Seq<usize>, line: usize)
    requires
        !s.contains(line),
    ensures
        toggled(toggled(s, line), line) == s,
{
    let t = s.push(line);
    assert(t[s.len() as int] == line);
    assert(t.contains(line));
    assert forall|j: int| 0 <= j < s.len() implies t[j] != line by {
        assert(t[j] == s[j]);
    }
    lemma_first_index(t, line, s.len() as int);
    assert(t.remove(s.len() as int) =~= s);
}

} // verus!
