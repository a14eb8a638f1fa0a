//! Inline markdown: `` `code` ``, `**bold**`, `*italic*`, `[file:line]`.

use vstd::prelude::*;
use crate::markdown::colors::{palette, MarkdownColors};
use crate::markdown::escape::{escape, escape_char, lemma_escape_concat, push_escaped, push_escaped_char};
use crate::text::{char_pos, find_char_from, to_chars};

verus! {

/// Inline code `` `code` ``.
pub open spec fn code_html(code: Seq<char>, c: MarkdownColors) -> Seq<char> {
    "<code style=\"background:"@ + c.code_bg@ + ";color:"@ + c.code_fg@
        + ";border:1px solid "@ + c.code_border@
        + ";border-radius:3px;padding:1px 5px;font-family:'Fira Code',monospace;font-size:11px;\">"@
        + escape(code) + "</code>"@
}

/// Inline reference chip `[file:line]`.
pub open spec fn chip_html(inner: Seq<char>, c: MarkdownColors) -> Seq<char> {
    "<span style=\"display:inline-flex;align-items:center;gap:4px;padding:1px 7px;border-radius:4px;font-size:10.5px;font-weight:600;font-family:'Fira Code',monospace;background:"@
        + c.ref_bg@ + ";color:"@ + c.ref_fg@ + ";border:1px solid "@ + c.ref_border@
        + ";\">"@ + escape(inner) + "</span>"@
}

/// Offset, from `i + 1`, of the next `c` after position `i`.
pub open spec fn next_from(chars: Seq<char>, i: int, c: char) -> int {
    char_pos(chars.skip(i + 1), c) as int
}

/// `try_inline_code`: HTML and number of characters consumed.
pub open spec fn inline_code_at(chars: Seq<char>, i: int, c: MarkdownColors) -> Option<(Seq<char>, int)> {
    if chars[i] != '`' {
        None
    } else {
        let end = next_from(chars, i, '`');
        if i + 1 + end >= chars.len() {
            None
        } else {
            Some((code_html(chars.subrange(i + 1, i + 1 + end), c), end + 2))
        }
    }
}

/// `try_ref_chip`.
pub open spec fn ref_chip_at(chars: Seq<char>, i: int, c: MarkdownColors) -> Option<(Seq<char>, int)> {
    if chars[i] != '[' {
        None
    } else {
        let end = next_from(chars, i, ']');
        if i + 1 + end >= chars.len() {
            None
        } else {
            let inner = chars.subrange(i + 1, i + 1 + end);
            if !inner.contains(':') {
                None
            } else {
                Some((chip_html(inner, c), end + 2))
            }
        }
    }
}

/// `find_pair`: first `j >= start` where `pat` occurs.
pub open spec fn find_pair_spec(chars: Seq<char>, start: int, pat: Seq<char>) -> Option<int>
    decreases chars.len() - start,
{
    if pat.len() == 0 || start < 0 || start + pat.len() > chars.len() {
        None
    } else if chars.subrange(start, start + pat.len()) == pat {
        Some(start)
    } else {
        find_pair_spec(chars, start + 1, pat)
    }
}

/// `try_bold`.
pub open spec fn bold_at(chars: Seq<char>, i: int) -> Option<(Seq<char>, int)> {
    if i + 1 >= chars.len() || chars[i] != '*' || chars[i + 1] != '*' {
        None
    } else {
        match find_pair_spec(chars, i + 2, seq!['*', '*']) {
            Some(end) => Some(
                ("<strong>"@ + escape(chars.subrange(i + 2, end)) + "</strong>"@, end + 2 - i),
            ),
            None => None,
        }
    }
}

/// `try_italic`.
pub open spec fn italic_at(chars: Seq<char>, i: int) -> Option<(Seq<char>, int)> {
    if chars[i] != '*' {
        None
    } else {
        let end = next_from(chars, i, '*');
        if i + 1 + end >= chars.len() {
            None
        } else {
            Some(("<em>"@ + escape(chars.subrange(i + 1, i + 1 + end)) + "</em>"@, end + 2))
        }
    }
}

/// The first construct that applies at `i`, if any.
pub open spec fn construct_at(chars: Seq<char>, i: int, c: MarkdownColors) -> Option<(Seq<char>, int)> {
    if inline_code_at(chars, i, c) is Some {
        inline_code_at(chars, i, c)
    } else if ref_chip_at(chars, i, c) is Some {
        ref_chip_at(chars, i, c)
    } else if bold_at(chars, i) is Some {
        bold_at(chars, i)
    } else {
        italic_at(chars, i)
    }
}

/// The pattern found by `find_pair_spec` is at or after `start`, within the text.
pub proof fn lemma_find_pair_range(chars: Seq<char>, start: int, pat: Seq<char>)
    ensures
        find_pair_spec(chars, start, pat) matches Some(j) ==> start <= j && j + pat.len() <= chars.len()
            && chars.subrange(j, j + pat.len()) == pat,
    decreases chars.len() - start,
{
    if !(pat.len() == 0 || start < 0 || start + pat.len() > chars.len()) && chars.subrange(start, start + pat.len()) != pat {
        lemma_find_pair_range(chars, start + 1, pat);
    }
}

/// A construct takes at least two characters, and no more than are left.
pub proof fn lemma_construct_len(chars: Seq<char>, i: int, c: MarkdownColors)
    requires
        0 <= i < chars.len(),
    ensures
        construct_at(chars, i, c) matches Some((h, k)) ==> 2 <= k && i + k <= chars.len(),
{
    crate::text::lemma_char_pos(chars.skip(i + 1), '`');
    crate::text::lemma_char_pos(chars.skip(i + 1), ']');
    crate::text::lemma_char_pos(chars.skip(i + 1), '*');
    lemma_find_pair_range(chars, i + 2, seq!['*', '*']);
}

/// Inline markdown of `chars[i..]`.
pub open spec fn inline_from(chars: Seq<char>, i: int, c: MarkdownColors) -> Seq<char>
    decreases chars.len() - i,
    via inline_from_decreases
{
    if i < 0 || i >= chars.len() {
        seq![]
    } else {
        match construct_at(chars, i, c) {
            Some((h, k)) => h + inline_from(chars, i + k, c),
            None => escape_char(chars[i]) + inline_from(chars, i + 1, c),
        }
    }
}

#[via_fn]
/// The recursion of `inline_from` ends.
proof fn inline_from_decreases(chars: Seq<char>, i: int, c: MarkdownColors) {
    if 0 <= i < chars.len() {
        lemma_construct_len(chars, i, c);
    }
}

/// Inline markdown of `s`.
pub open spec fn inline_spec(s: Seq<char>, dark: bool) -> Seq<char> {
    inline_from(s, 0, palette(dark))
}

/// Whether `c` can start an inline construct.
pub open spec fn is_inline_syntax(c: char) -> bool {
    c == '`' || c == '[' || c == '*'
}

/// The suffix of a text without inline syntax is rendered escaped.
proof fn lemma_plain_suffix(s: Seq<char>, i: int, c: MarkdownColors)
    requires
        0 <= i <= s.len(),
        forall|j: int| 0 <= j < s.len() ==> !is_inline_syntax(#[trigger] s[j]),
    ensures
        inline_from(s, i, c) == escape(s.skip(i)),
    decreases s.len() - i,
{
    if i == s.len() {
        assert(s.skip(i) =~= Seq::<char>::empty());
    } else {
        assert(!is_inline_syntax(s[i]));
        lemma_plain_suffix(s, i + 1, c);
        assert(s.skip(i) =~= seq![s[i]] + s.skip(i + 1));
        lemma_escape_concat(seq![s[i]], s.skip(i + 1));
        let one = seq![s[i]];
        assert(one.drop_last() =~= Seq::<char>::empty());
        assert(escape(one.drop_last()) =~= Seq::<char>::empty());
        assert(escape(one) =~= escape_char(s[i]));
    }
}

/// Law: text holding none of `` ` ``, `[` and `*` is rendered as itself,
/// HTML-escaped.
pub proof fn lemma_plain_text_is_escaped(s: Seq<char>, dark: bool)
    requires
        forall|j: int| 0 <= j < s.len() ==> !is_inline_syntax(#[trigger] s[j]),
    ensures
        inline_spec(s, dark) == escape(s),
{
    lemma_plain_suffix(s, 0, palette(dark));
    assert(s.skip(0) =~= s);
}

/// Tries inline code at `i`.
fn try_inline_code(chars: &Vec<char>, i: usize, colors: &MarkdownColors) -> (r: Option<(String, usize)>)
    requires
        i < chars.len(),
    ensures
        match inline_code_at(chars@, i as int, *colors) {
            Some((h, k)) => r matches Some((rh, rk)) && rh@ == h && rk == k,
            None => r is None,
        },
{
    if chars[i] != '`' {
        return None;
    }
    let e = find_char_from(chars, i + 1, '`');
    if e == chars.len() {
        return None;
    }
    let mut html = String::new();
    html.append("<code style=\"background:");
    html.append(colors.code_bg);
    html.append(";color:");
    html.append(colors.code_fg);
    html.append(";border:1px solid ");
    html.append(colors.code_border);
    html.append(";border-radius:3px;padding:1px 5px;font-family:'Fira Code',monospace;font-size:11px;\">");
    push_escaped(&mut html, chars, i + 1, e);
    html.append("</code>");
    Some((html, e - i + 1))
}

/// Tries a reference chip at `i`.
fn try_ref_chip(chars: &Vec<char>, i: usize, colors: &MarkdownColors) -> (r: Option<(String, usize)>)
    requires
        i < chars.len(),
    ensures
        match ref_chip_at(chars@, i as int, *colors) {
            Some((h, k)) => r matches Some((rh, rk)) && rh@ == h && rk == k,
            None => r is None,
        },
{
    if chars[i] != '[' {
        return None;
    }
    let e = find_char_from(chars, i + 1, ']');
    if e == chars.len() {
        return None;
    }
    let colon = find_char_from(chars, i + 1, ':');
    let ghost inner = chars@.subrange(i + 1, e as int);
    if colon >= e {
        assert forall|m: int| 0 <= m < inner.len() implies inner[m] != ':' by {
            assert(inner[m] == chars@[i + 1 + m]);
        }
        return None;
    }
    assert(inner[colon - i - 1] == ':');
    let mut html = String::new();
    html.append("<span style=\"display:inline-flex;align-items:center;gap:4px;padding:1px 7px;border-radius:4px;font-size:10.5px;font-weight:600;font-family:'Fira Code',monospace;background:");
    html.append(colors.ref_bg);
    html.append(";color:");
    html.append(colors.ref_fg);
    html.append(";border:1px solid ");
    html.append(colors.ref_border);
    html.append(";\">");
    push_escaped(&mut html, chars, i + 1, e);
    html.append("</span>");
    Some((html, e - i + 1))
}

/// Tries bold text at `i`.
fn try_bold(chars: &Vec<char>, i: usize) -> (r: Option<(String, usize)>)
    requires
        i < chars.len(),
    ensures
        match bold_at(chars@, i as int) {
            Some((h, k)) => r matches Some((rh, rk)) && rh@ == h && rk == k,
            None => r is None,
        },
{
    if i + 1 >= chars.len() || chars[i] != '*' || chars[i + 1] != '*' {
        return None;
    }
    proof {
        reveal_strlit("**");
    }
    assert("**"@ =~= seq!['*', '*']);
    let end = match find_pair(chars, i + 2, "**") {
        Some(e) => e,
        None => {
            return None;
        },
    };
    proof {
        lemma_find_pair_range(chars@, i + 2, seq!['*', '*']);
    }
    let mut html = String::new();
    html.append("<strong>");
    push_escaped(&mut html, chars, i + 2, end);
    html.append("</strong>");
    Some((html, end + 2 - i))
}

/// Tries italic text at `i`.
fn try_italic(chars: &Vec<char>, i: usize) -> (r: Option<(String, usize)>)
    requires
        i < chars.len(),
    ensures
        match italic_at(chars@, i as int) {
            Some((h, k)) => r matches Some((rh, rk)) && rh@ == h && rk == k,
            None => r is None,
        },
{
    if chars[i] != '*' {
        return None;
    }
    let e = find_char_from(chars, i + 1, '*');
    if e == chars.len() {
        return None;
    }
    let mut html = String::new();
    html.append("<em>");
    push_escaped(&mut html, chars, i + 1, e);
    html.append("</em>");
    Some((html, e - i + 1))
}

/// Position of the first occurrence of `pat` in `chars` at or after `start`.
pub fn find_pair(chars: &Vec<char>, start: usize, pat: &str) -> (r: Option<usize>)
    requires
        pat@.len() > 0,
    ensures
        match find_pair_spec(chars@, start as int, pat@) {
            Some(j) => r == Some(j as usize),
            None => r is None,
        },
{
    let p = to_chars(pat);
    let plen = p.len();
    if plen > chars.len() {
        return None;
    }
    let last = chars.len() - plen;
    let mut i = start;
    while i <= last
        invariant
            p@ == pat@,
            plen == p.len() > 0,
            last + plen == chars.len(),
            start <= i,
            find_pair_spec(chars@, start as int, pat@) == find_pair_spec(chars@, i as int, pat@),
        decreases last + 1 - i,
    {
        if crate::text::matches_at(chars, i, &p) {
            return Some(i);
        }
        i += 1;
    }
    None
}

/// Renders inline markdown: code, reference chips, bold, italic; other
/// characters are escaped.
pub fn inline_md(s: &str, dark: bool) -> (r: String)
    ensures
        r@ == inline_spec(s@, dark),
{
    let colors = MarkdownColors::for_theme(dark);
    let chars = to_chars(s);
    let ghost c = palette(dark);
    let mut out = String::new();
    let len = chars.len();
    let mut i: usize = 0;
    assert(out@ + inline_from(chars@, 0, c) =~= inline_from(chars@, 0, c));
    while i < len
        invariant
            len == chars.len(),
            i <= len,
            colors == c,
            inline_spec(s@, dark) == out@ + inline_from(chars@, i as int, c),
            chars@ == s@,
            c == palette(dark),
        decreases len - i,
    {
        proof {
            lemma_construct_len(chars@, i as int, c);
        }
        let ghost before = out@;
        let ghost i0 = i as int;
        if let Some((html, skip)) = try_inline_code(&chars, i, &colors) {
            out.append(html.as_str());
            i += skip;
        } else if let Some((html, skip)) = try_ref_chip(&chars, i, &colors) {
            out.append(html.as_str());
            i += skip;
        } else if let Some((html, skip)) = try_bold(&chars, i) {
            out.append(html.as_str());
            i += skip;
        } else if let Some((html, skip)) = try_italic(&chars, i) {
            out.append(html.as_str());
            i += skip;
        } else {
            push_escaped_char(&mut out, chars[i]);
            i += 1;
        }
        assert(out@ + inline_from(chars@, i as int, c) =~= before + inline_from(chars@, i0, c));
    }
    assert(inline_from(chars@, i as int, c) =~= Seq::<char>::empty());
    assert(out@ + Seq::<char>::empty() =~= out@);
    out
}

} // verus!
