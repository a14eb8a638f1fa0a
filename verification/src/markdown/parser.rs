//! Block-level markdown: code fences, reference lines, headers, bullet
//! lists, blank lines and paragraphs.

use vstd::prelude::*;
use crate::markdown::colors::{palette, MarkdownColors};
use crate::markdown::escape::{escape, push_escaped};
use crate::markdown::inline::{inline_md, inline_spec, is_inline_syntax, lemma_plain_text_is_escaped};
use crate::text::{
    from_chars, lines, push_chars, slice_chars, split_lines, starts_with, starts_with_chars,
    to_chars, trim, trim_chars, views,
};

verus! {

/// The renderer's state between lines.
pub struct MdState {
    pub out: Seq<char>,
    pub in_code: bool,
    pub buf: Seq<char>,
    pub in_list: bool,
}

/// A fenced code block.
pub open spec fn pre_html(buf: Seq<char>, c: MarkdownColors) -> Seq<char> {
    "<pre style=\"background:"@ + c.code_bg@ + ";border:1px solid "@ + c.code_border@
        + ";border-radius:6px;padding:10px 12px;margin:6px 0;overflow-x:auto;font-family:'Fira Code',monospace;font-size:11.5px;color:"@
        + c.code_fg@ + ";line-height:1.55;white-space:pre;\">"@ + escape(buf) + "</pre>"@
}

/// The icon of a reference line.
pub open spec fn chip_icon(legacy: bool) -> Seq<char> {
    if legacy {
        "\n                     "@ + "<svg width='10' height='10' viewBox='0 0 16 16' fill='currentColor'>"@
            + "<path d='M7.657 6.247c.11-.33.576-.33.686 0l.645 1.937a2.89 2.89 0 0 0 1.829 1.828l1.936.645c.33.11.33.576 0 .686l-1.937.645a2.89 2.89 0 0 0-1.828 1.829l-.645 1.936a.361.361 0 0 1-.686 0l-.645-1.937a2.89 2.89 0 0 0-1.828-1.828l-1.937-.645a.361.361 0 0 1 0-.686l1.937-.645a2.89 2.89 0 0 0 1.828-1.828l.645-1.937z'/>"@
            + "</svg>"@
    } else {
        "<img src='/public/LoganIcon.png' width='10' height='10' style='border-radius:2px;opacity:0.6' alt='Logan' />"@
    }
}

/// A line that is a `[file:line]` reference.
pub open spec fn block_chip_html(inner: Seq<char>, c: MarkdownColors, legacy: bool) -> Seq<char> {
    "<div style=\"display:inline-flex;align-items:center;gap:5px;padding:3px 9px;border-radius:5px;font-size:11px;font-weight:600;font-family:'Fira Code',monospace;background:"@
        + c.ref_bg@ + ";color:"@ + c.ref_fg@ + ";border:1px solid "@ + c.ref_border@
        + ";margin:3px 0;\">"@ + chip_icon(legacy) + escape(inner) + "</div>"@
}

/// A trimmed line that is a reference: `[`, then text holding `:`, then `]`.
pub open spec fn is_ref_line(t: Seq<char>) -> bool {
    t.len() >= 2 && t[0] == '[' && t.last() == ']' && t.subrange(1, t.len() - 1).contains(':')
}

/// A header line (`### `, `## `, `# `).
pub open spec fn header_html(t: Seq<char>, dark: bool) -> Option<Seq<char>> {
    if starts_with(t, "### "@) {
        Some(
            "<h3 style=\"font-size:13px;font-weight:700;margin:10px 0 4px;\">"@ + inline_spec(t.skip(4), dark)
                + "</h3>"@,
        )
    } else if starts_with(t, "## "@) {
        Some(
            "<h2 style=\"font-size:14px;font-weight:700;margin:12px 0 4px;\">"@ + inline_spec(t.skip(3), dark)
                + "</h2>"@,
        )
    } else if starts_with(t, "# "@) {
        Some(
            "<h1 style=\"font-size:15px;font-weight:700;margin:12px 0 4px;\">"@ + inline_spec(t.skip(2), dark)
                + "</h1>"@,
        )
    } else {
        None
    }
}

/// The state with an open list closed.
pub open spec fn close_list(st: MdState) -> MdState {
    if st.in_list {
        MdState { out: st.out + "</ul>"@, in_code: st.in_code, buf: st.buf, in_list: false }
    } else {
        st
    }
}

/// The state with `h` appended to the output.
pub open spec fn emit(st: MdState, h: Seq<char>) -> MdState {
    MdState { out: st.out + h, in_code: st.in_code, buf: st.buf, in_list: st.in_list }
}

/// One input line.  `legacy` selects the variant of the chat panel's
/// stand-alone renderer: an opening fence also closes an open list, and
/// reference lines carry an inline SVG icon.
pub open spec fn md_line(line: Seq<char>, st: MdState, dark: bool, legacy: bool) -> MdState {
    let c = palette(dark);
    if starts_with(line, "```"@) {
        if st.in_code {
            MdState { out: st.out + pre_html(st.buf, c), in_code: false, buf: seq![], in_list: st.in_list }
        } else {
            let s2 = if legacy { close_list(st) } else { st };
            MdState { out: s2.out, in_code: true, buf: s2.buf, in_list: s2.in_list }
        }
    } else if st.in_code {
        let b = if st.buf.len() > 0 { st.buf.push('\n') } else { st.buf };
        MdState { out: st.out, in_code: true, buf: b + line, in_list: st.in_list }
    } else {
        let t = trim(line);
        if is_ref_line(t) {
            emit(close_list(st), block_chip_html(t.subrange(1, t.len() - 1), c, legacy))
        } else if header_html(t, dark) is Some {
            emit(close_list(st), header_html(t, dark)->0)
        } else if starts_with(t, "- "@) || starts_with(t, "* "@) {
            let s2 = if !st.in_list {
                MdState {
                    out: st.out + "<ul style=\"margin:4px 0;padding-left:18px;\">"@,
                    in_code: st.in_code,
                    buf: st.buf,
                    in_list: true,
                }
            } else {
                st
            };
            emit(s2, "<li style=\"margin:2px 0;\">"@ + inline_spec(t.skip(2), dark) + "</li>"@)
        } else if t.len() == 0 {
            emit(close_list(st), "<br/>"@)
        } else {
            emit(
                close_list(st),
                "<span style=\"display:block;\">"@ + inline_spec(t, dark) + "</span>"@,
            )
        }
    }
}

/// The lines `ls` rendered from state `st`.
pub open spec fn md_fold(ls: Seq<Seq<char>>, st: MdState, dark: bool, legacy: bool) -> MdState
    decreases ls.len(),
{
    if ls.len() == 0 {
        st
    } else {
        md_fold(ls.drop_first(), md_line(ls[0], st, dark, legacy), dark, legacy)
    }
}

/// The output once the input is exhausted: an open list is closed and an
/// unterminated, non-empty code block is still rendered.
pub open spec fn md_finish(st: MdState, dark: bool) -> Seq<char> {
    let o1 = if st.in_list { st.out + "</ul>"@ } else { st.out };
    if st.in_code && st.buf.len() > 0 {
        o1 + pre_html(st.buf, palette(dark))
    } else {
        o1
    }
}

/// The start state.
pub open spec fn md_start() -> MdState {
    MdState { out: seq![], in_code: false, buf: seq![], in_list: false }
}

/// The HTML of a markdown text.
pub open spec fn md_spec(input: Seq<char>, dark: bool, legacy: bool) -> Seq<char> {
    md_finish(md_fold(lines(input), md_start(), dark, legacy), dark)
}

/// Law: a one-line text that is not markdown syntax (no fence, reference,
/// header, bullet or inline construct, and not blank) is rendered as one
/// paragraph holding the trimmed text, HTML-escaped.
pub proof fn lemma_plain_line(t: Seq<char>, dark: bool, legacy: bool)
    requires
        forall|j: int| 0 <= j < t.len() ==> t[j] != '\n',
        !starts_with(t, "```"@),
        trim(t).len() > 0,
        forall|j: int| 0 <= j < trim(t).len() ==> !is_inline_syntax(#[trigger] trim(t)[j]),
        header_html(trim(t), dark) is None,
        !starts_with(trim(t), "- "@),
    ensures
        md_spec(t, dark, legacy) == "<span style=\"display:block;\">"@ + escape(trim(t)) + "</span>"@,
{
    let tt = trim(t);
    crate::text::lemma_char_pos(t, '\n');
    assert(t.len() > 0) by {
        if t.len() == 0 {
            assert(trim(t) =~= t);
        }
    }
    assert(lines(t) == seq![t]);
    assert(!is_ref_line(tt)) by {
        if is_ref_line(tt) {
            assert(!is_inline_syntax(tt[0]));
        }
    }
    assert(!starts_with(tt, "* "@)) by {
        if starts_with(tt, "* "@) {
            reveal_strlit("* ");
            assert(tt.take(2)[0] == tt[0]);
            assert(!is_inline_syntax(tt[0]));
        }
    }
    lemma_plain_text_is_escaped(tt, dark);
    let st = md_line(t, md_start(), dark, legacy);
    assert(md_fold(seq![t], md_start(), dark, legacy) == md_fold(seq![t].drop_first(), st, dark, legacy));
    assert(seq![t].drop_first() =~= Seq::<Seq<char>>::empty());
    assert(st.out =~= "<span style=\"display:block;\">"@ + escape(tt) + "</span>"@);
}

/// The renderer's state.
pub struct ParserState {
    pub in_code_block: bool,
    pub code_buf: String,
    pub in_list: bool,
}

/// The abstract state of `(out, state)`.
pub open spec fn state_of(out: Seq<char>, st: &ParserState) -> MdState {
    MdState { out: out, in_code: st.in_code_block, buf: st.code_buf@, in_list: st.in_list }
}

/// Appends a code block holding `buf`.
fn push_pre(out: &mut String, buf: &String, colors: &MarkdownColors)
    ensures
        final(out)@ == old(out)@ + pre_html(buf@, *colors),
{
    let b = to_chars(buf.as_str());
    out.append("<pre style=\"background:");
    out.append(colors.code_bg);
    out.append(";border:1px solid ");
    out.append(colors.code_border);
    out.append(";border-radius:6px;padding:10px 12px;margin:6px 0;overflow-x:auto;font-family:'Fira Code',monospace;font-size:11.5px;color:");
    out.append(colors.code_fg);
    out.append(";line-height:1.55;white-space:pre;\">");
    push_escaped(out, &b, 0, b.len());
    assert(b@.subrange(0, b.len() as int) =~= buf@);
    out.append("</pre>");
}

/// Handles a fence line: closes an open code block, or opens one.
fn handle_code_fence(out: &mut String, state: &mut ParserState, colors: &MarkdownColors, legacy: bool)
    ensures
        ({
            let st = state_of(old(out)@, &*old(state));
            let s2 = if st.in_code {
                MdState { out: st.out + pre_html(st.buf, *colors), in_code: false, buf: seq![], in_list: st.in_list }
            } else {
                let s1 = if legacy { close_list(st) } else { st };
                MdState { out: s1.out, in_code: true, buf: s1.buf, in_list: s1.in_list }
            };
            state_of(final(out)@, &*final(state)) == s2
        }),
{
    if state.in_code_block {
        push_pre(out, &state.code_buf, colors);
        state.code_buf = String::new();
        state.in_code_block = false;
    } else {
        if legacy {
            close_list_if_needed(out, state);
        }
        state.in_code_block = true;
    }
}

/// Whether a trimmed line is a `[file:line]` reference.
fn is_ref_chip(trimmed: &Vec<char>) -> (r: bool)
    ensures
        r == is_ref_line(trimmed@),
{
    if trimmed.len() < 2 || trimmed[0] != '[' || trimmed[trimmed.len() - 1] != ']' {
        return false;
    }
    let inner = slice_chars(trimmed, 1, trimmed.len() - 1);
    crate::text::contains_char(&inner, ':')
}

/// Appends the HTML of a reference line.
fn render_ref_chip(out: &mut String, trimmed: &Vec<char>, colors: &MarkdownColors, legacy: bool)
    requires
        trimmed.len() >= 2,
    ensures
        final(out)@ == old(out)@ + block_chip_html(
            trimmed@.subrange(1, trimmed.len() - 1),
            *colors,
            legacy,
        ),
{
    out.append("<div style=\"display:inline-flex;align-items:center;gap:5px;padding:3px 9px;border-radius:5px;font-size:11px;font-weight:600;font-family:'Fira Code',monospace;background:");
    out.append(colors.ref_bg);
    out.append(";color:");
    out.append(colors.ref_fg);
    out.append(";border:1px solid ");
    out.append(colors.ref_border);
    out.append(";margin:3px 0;\">");
    if legacy {
        out.append("\n                     ");
        out.append("<svg width='10' height='10' viewBox='0 0 16 16' fill='currentColor'>");
        out.append("<path d='M7.657 6.247c.11-.33.576-.33.686 0l.645 1.937a2.89 2.89 0 0 0 1.829 1.828l1.936.645c.33.11.33.576 0 .686l-1.937.645a2.89 2.89 0 0 0-1.828 1.829l-.645 1.936a.361.361 0 0 1-.686 0l-.645-1.937a2.89 2.89 0 0 0-1.828-1.828l-1.937-.645a.361.361 0 0 1 0-.686l1.937-.645a2.89 2.89 0 0 0 1.828-1.828l.645-1.937z'/>");
        out.append("</svg>");
    } else {
        out.append("<img src='/public/LoganIcon.png' width='10' height='10' style='border-radius:2px;opacity:0.6' alt='Logan' />");
    }
    push_escaped(out, trimmed, 1, trimmed.len() - 1);
    out.append("</div>");
}

/// Inline markdown of `t[k..]`.
fn inline_tail(t: &Vec<char>, k: usize, dark: bool) -> (r: String)
    requires
        k <= t.len(),
    ensures
        r@ == inline_spec(t@.skip(k as int), dark),
{
    let rest = slice_chars(t, k, t.len());
    assert(rest@ =~= t@.skip(k as int));
    let rs = from_chars(&rest);
    inline_md(rs.as_str(), dark)
}

/// The HTML of a header line, if the trimmed line is one.
fn try_header(trimmed: &Vec<char>, dark: bool) -> (r: Option<String>)
    ensures
        match header_html(trimmed@, dark) {
            Some(h) => r matches Some(rh) && rh@ == h,
            None => r is None,
        },
{
    proof {
        reveal_strlit("### ");
        reveal_strlit("## ");
        reveal_strlit("# ");
    }
    if starts_with_chars(trimmed, &to_chars("### ")) {
        let mut h = String::new();
        h.append("<h3 style=\"font-size:13px;font-weight:700;margin:10px 0 4px;\">");
        h.append(inline_tail(trimmed, 4, dark).as_str());
        h.append("</h3>");
        return Some(h);
    }
    if starts_with_chars(trimmed, &to_chars("## ")) {
        let mut h = String::new();
        h.append("<h2 style=\"font-size:14px;font-weight:700;margin:12px 0 4px;\">");
        h.append(inline_tail(trimmed, 3, dark).as_str());
        h.append("</h2>");
        return Some(h);
    }
    if starts_with_chars(trimmed, &to_chars("# ")) {
        let mut h = String::new();
        h.append("<h1 style=\"font-size:15px;font-weight:700;margin:12px 0 4px;\">");
        h.append(inline_tail(trimmed, 2, dark).as_str());
        h.append("</h1>");
        return Some(h);
    }
    None
}

/// Closes an open list.
fn close_list_if_needed(out: &mut String, state: &mut ParserState)
    ensures
        state_of(final(out)@, &*final(state)) == close_list(state_of(old(out)@, &*old(state))),
{
    if state.in_list {
        out.append("</ul>");
        state.in_list = false;
    }
}

/// Renders one input line.
fn process_line(
    line: &Vec<char>,
    out: &mut String,
    state: &mut ParserState,
    colors: &MarkdownColors,
    dark: bool,
    legacy: bool,
)
    requires
        *colors == palette(dark),
    ensures
        state_of(final(out)@, &*final(state)) == md_line(line@, state_of(old(out)@, &*old(state)), dark, legacy),
{
    if starts_with_chars(line, &to_chars("```")) {
        handle_code_fence(out, state, colors, legacy);
        return;
    }
    if state.in_code_block {
        if !state.code_buf.as_str().is_empty() {
            crate::text::push_char(&mut state.code_buf, '\n');
        }
        push_chars(&mut state.code_buf, line);
        return;
    }
    let trimmed = trim_chars(line);
    if is_ref_chip(&trimmed) {
        close_list_if_needed(out, state);
        render_ref_chip(out, &trimmed, colors, legacy);
        return;
    }
    if let Some(html) = try_header(&trimmed, dark) {
        close_list_if_needed(out, state);
        out.append(html.as_str());
        return;
    }
    proof {
        reveal_strlit("- ");
        reveal_strlit("* ");
    }
    if starts_with_chars(&trimmed, &to_chars("- ")) || starts_with_chars(&trimmed, &to_chars("* ")) {
        if !state.in_list {
            out.append("<ul style=\"margin:4px 0;padding-left:18px;\">");
            state.in_list = true;
        }
        let ghost o1 = out@;
        let item = inline_tail(&trimmed, 2, dark);
        out.append("<li style=\"margin:2px 0;\">");
        out.append(item.as_str());
        out.append("</li>");
        assert(out@ =~= o1 + ("<li style=\"margin:2px 0;\">"@ + item@ + "</li>"@));
        return;
    }
    close_list_if_needed(out, state);
    if trimmed.len() == 0 {
        out.append("<br/>");
        return;
    }
    let ghost o1 = out@;
    let ts = from_chars(&trimmed);
    let body = inline_md(ts.as_str(), dark);
    out.append("<span style=\"display:block;\">");
    out.append(body.as_str());
    out.append("</span>");
    assert(out@ =~= o1 + ("<span style=\"display:block;\">"@ + body@ + "</span>"@));
}

/// Closes an open list and renders an unterminated, non-empty code block.
fn finalize_output(out: &mut String, state: &ParserState, colors: &MarkdownColors)
    ensures
        final(out)@ == ({
            let st = state_of(old(out)@, state);
            let o1 = if st.in_list { st.out + "</ul>"@ } else { st.out };
            if st.in_code && st.buf.len() > 0 {
                o1 + pre_html(st.buf, *colors)
            } else {
                o1
            }
        }),
{
    if state.in_list {
        out.append("</ul>");
    }
    if state.in_code_block && !state.code_buf.as_str().is_empty() {
        push_pre(out, &state.code_buf, colors);
    }
}

/// Renders a markdown text, in either variant.
pub fn render_markdown(input: &str, dark: bool, legacy: bool) -> (r: String)
    ensures
        r@ == md_spec(input@, dark, legacy),
{
    let colors = MarkdownColors::for_theme(dark);
    let mut out = String::new();
    let mut state = ParserState { in_code_block: false, code_buf: String::new(), in_list: false };
    let chars = to_chars(input);
    let ls = split_lines(&chars);
    let ghost all = views(ls@);
    let mut i: usize = 0;
    assert(all.skip(0) =~= all);
    assert(state_of(out@, &state) == md_start());
    while i < ls.len()
        invariant
            i <= ls.len(),
            all == views(ls@),
            all == lines(input@),
            colors == palette(dark),
            md_fold(all, md_start(), dark, legacy) == md_fold(all.skip(i as int), state_of(out@, &state), dark, legacy),
        decreases ls.len() - i,
    {
        assert(all.skip(i as int).drop_first() =~= all.skip(i + 1));
        assert(all.skip(i as int)[0] == ls@[i as int]@);
        process_line(&ls[i], &mut out, &mut state, &colors, dark, legacy);
        i += 1;
    }
    assert(all.skip(i as int) =~= Seq::<Seq<char>>::empty());
    finalize_output(&mut out, &state, &colors);
    out
}

/// Converts markdown to HTML that is safe to insert as `innerHTML`.
pub fn md_to_html(input: &str, dark: bool) -> (r: String)
    ensures
        r@ == md_spec(input@, dark, false),
{
    render_markdown(input, dark, false)
}

} // verus!
