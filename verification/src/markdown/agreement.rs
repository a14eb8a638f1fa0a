//! How the renderings of one text relate: the chat panel's stand-alone
//! variant against the main renderer, and the dark theme against the light.

use vstd::prelude::*;
use crate::markdown::colors::{palette, MarkdownColors};
use crate::markdown::inline::{construct_at, inline_from, inline_spec, lemma_construct_len};
use crate::markdown::parser::{close_list, header_html, is_ref_line, md_fold, md_line, md_spec, md_start, MdState};
use crate::text::{char_pos, is_ws, lemma_char_pos, lines, starts_with, strip_cr, trim, trim_end, trim_start};

verus! {

/// Whether the two variants treat `line` differently in state `st`: an
/// opening fence while a list is open (the stand-alone variant closes the
/// list first), or a reference line (each variant has its own icon).
pub open spec fn variants_differ_at(line: Seq<char>, st: MdState) -> bool {
    &&& !st.in_code
    &&& if starts_with(line, "```"@) {
        st.in_list
    } else {
        is_ref_line(trim(line))
    }
}

/// No line of `ls`, rendered from `st` on, is one that the variants treat
/// differently.
pub open spec fn variants_agree_on(ls: Seq<Seq<char>>, st: MdState, dark: bool) -> bool
    decreases ls.len(),
{
    if ls.len() == 0 {
        true
    } else {
        !variants_differ_at(ls[0], st) && variants_agree_on(ls.drop_first(), md_line(ls[0], st, dark, false), dark)
    }
}

/// A line that the variants do not treat differently is rendered alike.
proof fn lemma_line_variants(line: Seq<char>, st: MdState, dark: bool)
    requires
        !variants_differ_at(line, st),
    ensures
        md_line(line, st, dark, true) == md_line(line, st, dark, false),
{
    if starts_with(line, "```"@) && !st.in_code {
        assert(close_list(st) == st);
    }
}

/// The fold of lines that the variants do not treat differently.
proof fn lemma_fold_variants(ls: Seq<Seq<char>>, st: MdState, dark: bool)
    requires
        variants_agree_on(ls, st, dark),
    ensures
        md_fold(ls, st, dark, true) == md_fold(ls, st, dark, false),
    decreases ls.len(),
{
    if ls.len() > 0 {
        lemma_line_variants(ls[0], st, dark);
        lemma_fold_variants(ls.drop_first(), md_line(ls[0], st, dark, false), dark);
    }
}

/// Law: the chat panel's stand-alone renderer and the main renderer give
/// the same HTML for every text in which no code fence opens inside a
/// bullet list and no line is a `[file:line]` reference.
pub proof fn lemma_variants_agree(input: Seq<char>, dark: bool)
    requires
        variants_agree_on(lines(input), md_start(), dark),
    ensures
        md_spec(input, dark, true) == md_spec(input, dark, false),
{
    lemma_fold_variants(lines(input), md_start(), dark);
}

/// No line of `ls` is a code fence or a reference line.
proof fn lemma_agree_without_fences_or_refs(ls: Seq<Seq<char>>, st: MdState, dark: bool)
    requires
        forall|i: int| 0 <= i < ls.len() ==> !starts_with(#[trigger] ls[i], "```"@) && !is_ref_line(trim(ls[i])),
    ensures
        variants_agree_on(ls, st, dark),
    decreases ls.len(),
{
    if ls.len() > 0 {
        assert(!starts_with(ls[0], "```"@) && !is_ref_line(trim(ls[0])));
        assert forall|i: int| 0 <= i < ls.drop_first().len() implies !starts_with(
            #[trigger] ls.drop_first()[i],
            "```"@,
        ) && !is_ref_line(trim(ls.drop_first()[i])) by {
            assert(ls.drop_first()[i] == ls[i + 1]);
        }
        lemma_agree_without_fences_or_refs(ls.drop_first(), md_line(ls[0], st, dark, false), dark);
    }
}

/// Law: a text with no code fence and no `[file:line]` reference line is
/// rendered alike by the two renderers.
pub proof fn lemma_variants_agree_without_fences_or_refs(input: Seq<char>, dark: bool)
    requires
        forall|i: int|
            0 <= i < lines(input).len() ==> !starts_with(#[trigger] lines(input)[i], "```"@) && !is_ref_line(
                trim(lines(input)[i]),
            ),
    ensures
        md_spec(input, dark, true) == md_spec(input, dark, false),
{
    lemma_agree_without_fences_or_refs(lines(input), md_start(), dark);
    lemma_variants_agree(input, dark);
}

// ---------------------------------------------------------------------------
// Themes
// ---------------------------------------------------------------------------

/// `s` holds no backtick and no `[`: no code and no reference chip.
pub open spec fn no_code_or_refs(s: Seq<char>) -> bool {
    forall|j: int| 0 <= j < s.len() ==> #[trigger] s[j] != '`' && s[j] != '['
}

/// Inline markdown without code or chips does not depend on the colours.
proof fn lemma_inline_colors(s: Seq<char>, i: int, c1: MarkdownColors, c2: MarkdownColors)
    requires
        no_code_or_refs(s),
    ensures
        inline_from(s, i, c1) == inline_from(s, i, c2),
    decreases s.len() - i,
{
    if 0 <= i < s.len() {
        assert(s[i] != '`' && s[i] != '[');
        assert(construct_at(s, i, c1) == construct_at(s, i, c2));
        lemma_construct_len(s, i, c1);
        match construct_at(s, i, c1) {
            Some((h, k)) => lemma_inline_colors(s, i + k, c1, c2),
            None => lemma_inline_colors(s, i + 1, c1, c2),
        }
    }
}

/// What is cut from a text without code or chips has none either.
proof fn lemma_no_code_or_refs_parts(s: Seq<char>)
    requires
        no_code_or_refs(s),
    ensures
        forall|k: int| 0 <= k <= s.len() ==> no_code_or_refs(#[trigger] s.skip(k)),
        forall|k: int| 0 <= k <= s.len() ==> no_code_or_refs(#[trigger] s.take(k)),
        s.len() > 0 ==> no_code_or_refs(s.drop_first()) && no_code_or_refs(s.drop_last()),
{
    assert forall|k: int| 0 <= k <= s.len() implies no_code_or_refs(#[trigger] s.skip(k)) by {
        assert forall|j: int| 0 <= j < s.skip(k).len() implies #[trigger] s.skip(k)[j] != '`' && s.skip(k)[j]
            != '[' by {
            assert(s.skip(k)[j] == s[j + k]);
        }
    }
    assert forall|k: int| 0 <= k <= s.len() implies no_code_or_refs(#[trigger] s.take(k)) by {
        assert forall|j: int| 0 <= j < s.take(k).len() implies #[trigger] s.take(k)[j] != '`' && s.take(k)[j]
            != '[' by {
            assert(s.take(k)[j] == s[j]);
        }
    }
    if s.len() > 0 {
        assert(s.drop_first() == s.skip(1));
        assert(s.drop_last() == s.take(s.len() - 1));
    }
}

/// Trimming keeps a text free of code and chips.
proof fn lemma_trim_no_code_or_refs(s: Seq<char>)
    requires
        no_code_or_refs(s),
    ensures
        no_code_or_refs(trim_start(s)),
        no_code_or_refs(trim(s)),
    decreases s.len(),
{
    lemma_no_code_or_refs_parts(s);
    if s.len() > 0 && is_ws(s[0]) {
        lemma_trim_no_code_or_refs(s.drop_first());
    }
    lemma_trim_end_no_code_or_refs(trim_start(s));
}

/// Trimming the end keeps a text free of code and chips.
proof fn lemma_trim_end_no_code_or_refs(s: Seq<char>)
    requires
        no_code_or_refs(s),
    ensures
        no_code_or_refs(trim_end(s)),
    decreases s.len(),
{
    lemma_no_code_or_refs_parts(s);
    if s.len() > 0 && is_ws(s.last()) {
        lemma_trim_end_no_code_or_refs(s.drop_last());
    }
}

/// The lines of a text without code or chips have none either.
proof fn lemma_lines_no_code_or_refs(s: Seq<char>)
    requires
        no_code_or_refs(s),
    ensures
        forall|i: int| 0 <= i < lines(s).len() ==> no_code_or_refs(#[trigger] lines(s)[i]),
    decreases s.len(),
{
    if s.len() > 0 {
        lemma_char_pos(s, '\n');
        let k = char_pos(s, '\n') as int;
        lemma_no_code_or_refs_parts(s);
        if k < s.len() {
            let first = s.take(k);
            lemma_no_code_or_refs_parts(first);
            assert(no_code_or_refs(strip_cr(first)));
            lemma_lines_no_code_or_refs(s.skip(k + 1));
            let ls = lines(s);
            assert(ls == seq![strip_cr(first)] + lines(s.skip(k + 1)));
            assert forall|i: int| 0 <= i < ls.len() implies no_code_or_refs(#[trigger] ls[i]) by {
                if i > 0 {
                    assert(ls[i] == lines(s.skip(k + 1))[i - 1]);
                }
            }
        }
    }
}

/// A line without code or chips, outside a code block, is rendered alike
/// in both themes, and leaves no code block open.
proof fn lemma_line_themes(line: Seq<char>, st: MdState, legacy: bool)
    requires
        no_code_or_refs(line),
        !st.in_code,
    ensures
        md_line(line, st, true, legacy) == md_line(line, st, false, legacy),
        !md_line(line, st, false, legacy).in_code,
{
    reveal_strlit("```");
    reveal_strlit("### ");
    reveal_strlit("## ");
    reveal_strlit("# ");
    reveal_strlit("- ");
    reveal_strlit("* ");
    if line.len() >= 3 {
        assert(line.take(3)[0] == line[0]);
    }
    assert(!starts_with(line, "```"@));
    let t = trim(line);
    lemma_trim_no_code_or_refs(line);
    lemma_no_code_or_refs_parts(t);
    if t.len() >= 2 {
        assert(t[0] != '[');
    }
    assert(!is_ref_line(t));
    if t.len() >= 4 {
        assert(no_code_or_refs(t.skip(4)));
        lemma_inline_colors(t.skip(4), 0, palette(true), palette(false));
        assert(inline_spec(t.skip(4), true) == inline_spec(t.skip(4), false));
    }
    if t.len() >= 3 {
        assert(no_code_or_refs(t.skip(3)));
        lemma_inline_colors(t.skip(3), 0, palette(true), palette(false));
        assert(inline_spec(t.skip(3), true) == inline_spec(t.skip(3), false));
    }
    if t.len() >= 2 {
        assert(no_code_or_refs(t.skip(2)));
        lemma_inline_colors(t.skip(2), 0, palette(true), palette(false));
        assert(inline_spec(t.skip(2), true) == inline_spec(t.skip(2), false));
    }
    lemma_inline_colors(t, 0, palette(true), palette(false));
    assert(inline_spec(t, true) == inline_spec(t, false));
    assert(header_html(t, true) == header_html(t, false));
}

/// The fold of lines without code or chips, from outside a code block.
proof fn lemma_fold_themes(ls: Seq<Seq<char>>, st: MdState, legacy: bool)
    requires
        forall|i: int| 0 <= i < ls.len() ==> no_code_or_refs(#[trigger] ls[i]),
        !st.in_code,
    ensures
        md_fold(ls, st, true, legacy) == md_fold(ls, st, false, legacy),
        !md_fold(ls, st, false, legacy).in_code,
    decreases ls.len(),
{
    if ls.len() > 0 {
        assert(no_code_or_refs(ls[0]));
        lemma_line_themes(ls[0], st, legacy);
        assert forall|i: int| 0 <= i < ls.drop_first().len() implies no_code_or_refs(#[trigger] ls.drop_first()[i]) by {
            assert(ls.drop_first()[i] == ls[i + 1]);
        }
        lemma_fold_themes(ls.drop_first(), md_line(ls[0], st, false, legacy), legacy);
    }
}

/// Law: the theme changes only the colours of code blocks, inline code and
/// reference chips: a text with no backtick and no `[` is rendered alike in
/// the dark and the light theme, by either renderer.
pub proof fn lemma_theme_only_colours_code_and_refs(input: Seq<char>, legacy: bool)
    requires
        no_code_or_refs(input),
    ensures
        md_spec(input, true, legacy) == md_spec(input, false, legacy),
{
    lemma_lines_no_code_or_refs(input);
    lemma_fold_themes(lines(input), md_start(), legacy);
}

} // verus!
