//! What rendered markdown can hold: only the renderer's own elements.
//!
//! Every `<` of the HTML that `md_to_html` (and the inline renderer)
//! produces begins one of the tags the renderer writes itself; no input
//! text can add an element, since input text only ever reaches the output
//! HTML-escaped.

use vstd::prelude::*;
use crate::markdown::colors::{palette, MarkdownColors};
use crate::markdown::escape::{escape, escape_char, lemma_escape_is_inert, is_markup_char};
use crate::markdown::inline::{
    bold_at, chip_html, code_html, construct_at, inline_code_at, inline_from, inline_spec,
    italic_at, lemma_construct_len, ref_chip_at,
};
use crate::markdown::parser::{
    block_chip_html, chip_icon, close_list, header_html, md_finish, md_fold, md_line, md_spec,
    md_start, pre_html, MdState,
};
use crate::text::lines;

verus! {

/// The tags the renderer writes (an opening tag up to its first space).
pub open spec fn own_tags() -> Seq<Seq<char>> {
    seq![
        "<pre "@,
        "</pre>"@,
        "<svg "@,
        "<path "@,
        "</svg>"@,
        "<img "@,
        "<div "@,
        "</div>"@,
        "<h1 "@,
        "</h1>"@,
        "<h2 "@,
        "</h2>"@,
        "<h3 "@,
        "</h3>"@,
        "<ul "@,
        "</ul>"@,
        "<li "@,
        "</li>"@,
        "<br/>"@,
        "<span "@,
        "</span>"@,
        "<code "@,
        "</code>"@,
        "<strong>"@,
        "</strong>"@,
        "<em>"@,
        "</em>"@,
    ]
}

/// `s` begins with one of the renderer's tags.
pub open spec fn starts_own_tag(s: Seq<char>) -> bool {
    exists|n: int| 1 <= n <= s.len() && #[trigger] own_tags().contains(s.take(n))
}

/// Every `<` of `s` begins one of the renderer's tags.
pub open spec fn only_own_tags(s: Seq<char>) -> bool {
    forall|i: int| 0 <= i < s.len() && s[i] == '<' ==> #[trigger] starts_own_tag(s.skip(i))
}

/// Text without `<` qualifies.
proof fn lemma_no_lt(s: Seq<char>)
    requires
        forall|i: int| 0 <= i < s.len() ==> s[i] != '<',
    ensures
        only_own_tags(s),
{
}

/// A text beginning with the `k`-th tag and holding no other `<` qualifies.
proof fn lemma_tag_text(s: Seq<char>, k: int)
    requires
        0 <= k < own_tags().len(),
        1 <= own_tags()[k].len() <= s.len(),
        s.take(own_tags()[k].len() as int) == own_tags()[k],
        forall|i: int| 1 <= i < s.len() ==> s[i] != '<',
    ensures
        only_own_tags(s),
{
    let t = own_tags()[k];
    assert forall|i: int| 0 <= i < s.len() && s[i] == '<' implies #[trigger] starts_own_tag(s.skip(i)) by {
        assert(i == 0);
        assert(s.skip(0) =~= s);
        assert(own_tags()[k] == t);
        assert(own_tags().contains(s.skip(i).take(t.len() as int)));
    }
}

/// Joining two qualifying texts gives a qualifying text.
proof fn lemma_join(a: Seq<char>, b: Seq<char>)
    requires
        only_own_tags(a),
        only_own_tags(b),
    ensures
        only_own_tags(a + b),
{
    let ab = a + b;
    assert forall|i: int| 0 <= i < ab.len() && ab[i] == '<' implies #[trigger] starts_own_tag(ab.skip(i)) by {
        if i < a.len() {
            assert(a[i] == '<');
            assert(starts_own_tag(a.skip(i)));
            let n = choose|n: int| 1 <= n <= a.skip(i).len() && #[trigger] own_tags().contains(a.skip(i).take(n));
            assert(ab.skip(i).take(n) =~= a.skip(i).take(n));
            assert(own_tags().contains(ab.skip(i).take(n)));
        } else {
            let j = i - a.len();
            assert(b[j] == '<');
            assert(starts_own_tag(b.skip(j)));
            assert(ab.skip(i) =~= b.skip(j));
        }
    }
}

/// Escaped text qualifies: it holds no `<` at all.
proof fn lemma_escaped(s: Seq<char>)
    ensures
        only_own_tags(escape(s)),
{
    lemma_escape_is_inert(s);
    assert forall|i: int| 0 <= i < escape(s).len() implies escape(s)[i] != '<' by {
        assert(!is_markup_char(escape(s)[i]));
    }
    lemma_no_lt(escape(s));
}

/// One escaped character qualifies.
proof fn lemma_escaped_char(c: char)
    ensures
        only_own_tags(escape_char(c)),
{
    let one = seq![c];
    assert(one.drop_last() =~= Seq::<char>::empty());
    assert(escape(one.drop_last()) =~= Seq::<char>::empty());
    assert(escape(one) =~= escape_char(c));
    lemma_escaped(one);
}

/// The colours qualify (they hold no `<`).
pub open spec fn colors_ok(c: MarkdownColors) -> bool {
    &&& only_own_tags(c.code_bg@)
    &&& only_own_tags(c.code_fg@)
    &&& only_own_tags(c.code_border@)
    &&& only_own_tags(c.ref_bg@)
    &&& only_own_tags(c.ref_fg@)
    &&& only_own_tags(c.ref_border@)
}

/// Both palettes qualify.
proof fn lemma_palette(dark: bool)
    ensures
        colors_ok(palette(dark)),
{
    reveal_strlit("#1a1a2e");
    reveal_strlit("#e2e4f0");
    reveal_strlit("rgba(255,255,255,0.08)");
    reveal_strlit("rgba(124,157,255,0.12)");
    reveal_strlit("#7c9dff");
    reveal_strlit("rgba(124,157,255,0.30)");
    reveal_strlit("#f0f0f8");
    reveal_strlit("#1a1b2e");
    reveal_strlit("rgba(0,0,0,0.08)");
    reveal_strlit("rgba(79,110,247,0.10)");
    reveal_strlit("#4f6ef7");
    reveal_strlit("rgba(79,110,247,0.28)");
    let c = palette(dark);
    lemma_no_lt(c.code_bg@);
    lemma_no_lt(c.code_fg@);
    lemma_no_lt(c.code_border@);
    lemma_no_lt(c.ref_bg@);
    lemma_no_lt(c.ref_fg@);
    lemma_no_lt(c.ref_border@);
}

/// The `;`-separated style fragments between colours hold no `<`.
proof fn lemma_fragments()
    ensures
        only_own_tags(";color:"@),
        only_own_tags(";border:1px solid "@),
        only_own_tags(";border-radius:3px;padding:1px 5px;font-family:'Fira Code',monospace;font-size:11px;\">"@),
        only_own_tags(";\">"@),
        only_own_tags(
            ";border-radius:6px;padding:10px 12px;margin:6px 0;overflow-x:auto;font-family:'Fira Code',monospace;font-size:11.5px;color:"@,
        ),
        only_own_tags(";line-height:1.55;white-space:pre;\">"@),
        only_own_tags(";margin:3px 0;\">"@),
        only_own_tags("\n                     "@),
{
    reveal_strlit(";color:");
    reveal_strlit(";border:1px solid ");
    reveal_strlit(";border-radius:3px;padding:1px 5px;font-family:'Fira Code',monospace;font-size:11px;\">");
    reveal_strlit(";\">");
    reveal_strlit(
        ";border-radius:6px;padding:10px 12px;margin:6px 0;overflow-x:auto;font-family:'Fira Code',monospace;font-size:11.5px;color:",
    );
    reveal_strlit(";line-height:1.55;white-space:pre;\">");
    reveal_strlit(";margin:3px 0;\">");
    reveal_strlit("\n                     ");
    lemma_no_lt(";color:"@);
    lemma_no_lt(";border:1px solid "@);
    lemma_no_lt(";border-radius:3px;padding:1px 5px;font-family:'Fira Code',monospace;font-size:11px;\">"@);
    lemma_no_lt(";\">"@);
    lemma_no_lt(
        ";border-radius:6px;padding:10px 12px;margin:6px 0;overflow-x:auto;font-family:'Fira Code',monospace;font-size:11.5px;color:"@,
    );
    lemma_no_lt(";line-height:1.55;white-space:pre;\">"@);
    lemma_no_lt(";margin:3px 0;\">"@);
    lemma_no_lt("\n                     "@);
}

/// The tags of the inline constructs qualify.
proof fn lemma_inline_tags()
    ensures
        only_own_tags("<code style=\"background:"@),
        only_own_tags("</code>"@),
        only_own_tags(
            "<span style=\"display:inline-flex;align-items:center;gap:4px;padding:1px 7px;border-radius:4px;font-size:10.5px;font-weight:600;font-family:'Fira Code',monospace;background:"@,
        ),
        only_own_tags("</span>"@),
        only_own_tags("<strong>"@),
        only_own_tags("</strong>"@),
        only_own_tags("<em>"@),
        only_own_tags("</em>"@),
{
    reveal_strlit("<code style=\"background:");
    reveal_strlit("<code ");
    reveal_strlit("</code>");
    reveal_strlit(
        "<span style=\"display:inline-flex;align-items:center;gap:4px;padding:1px 7px;border-radius:4px;font-size:10.5px;font-weight:600;font-family:'Fira Code',monospace;background:",
    );
    reveal_strlit("<span ");
    reveal_strlit("</span>");
    reveal_strlit("<strong>");
    reveal_strlit("</strong>");
    reveal_strlit("<em>");
    reveal_strlit("</em>");
    assert("<code style=\"background:"@.take(own_tags()[21].len() as int) =~= own_tags()[21]);
    lemma_tag_text("<code style=\"background:"@, 21);
    assert("</code>"@.take(own_tags()[22].len() as int) =~= own_tags()[22]);
    lemma_tag_text("</code>"@, 22);
    let span_open = "<span style=\"display:inline-flex;align-items:center;gap:4px;padding:1px 7px;border-radius:4px;font-size:10.5px;font-weight:600;font-family:'Fira Code',monospace;background:"@;
    assert(span_open.take(own_tags()[19].len() as int) =~= own_tags()[19]);
    lemma_tag_text(span_open, 19);
    assert("</span>"@.take(own_tags()[20].len() as int) =~= own_tags()[20]);
    lemma_tag_text("</span>"@, 20);
    assert("<strong>"@.take(own_tags()[23].len() as int) =~= own_tags()[23]);
    lemma_tag_text("<strong>"@, 23);
    assert("</strong>"@.take(own_tags()[24].len() as int) =~= own_tags()[24]);
    lemma_tag_text("</strong>"@, 24);
    assert("<em>"@.take(own_tags()[25].len() as int) =~= own_tags()[25]);
    lemma_tag_text("<em>"@, 25);
    assert("</em>"@.take(own_tags()[26].len() as int) =~= own_tags()[26]);
    lemma_tag_text("</em>"@, 26);
}

/// Inline code and reference chips qualify.
proof fn lemma_code_and_chip(x: Seq<char>, c: MarkdownColors)
    requires
        colors_ok(c),
    ensures
        only_own_tags(code_html(x, c)),
        only_own_tags(chip_html(x, c)),
{
    lemma_fragments();
    lemma_inline_tags();
    lemma_escaped(x);
    let a1 = "<code style=\"background:"@ + c.code_bg@;
    lemma_join("<code style=\"background:"@, c.code_bg@);
    let a2 = a1 + ";color:"@;
    lemma_join(a1, ";color:"@);
    let a3 = a2 + c.code_fg@;
    lemma_join(a2, c.code_fg@);
    let a4 = a3 + ";border:1px solid "@;
    lemma_join(a3, ";border:1px solid "@);
    let a5 = a4 + c.code_border@;
    lemma_join(a4, c.code_border@);
    let a6 = a5 + ";border-radius:3px;padding:1px 5px;font-family:'Fira Code',monospace;font-size:11px;\">"@;
    lemma_join(a5, ";border-radius:3px;padding:1px 5px;font-family:'Fira Code',monospace;font-size:11px;\">"@);
    let a7 = a6 + escape(x);
    lemma_join(a6, escape(x));
    lemma_join(a7, "</code>"@);
    assert(code_html(x, c) == a7 + "</code>"@);

    let s0 = "<span style=\"display:inline-flex;align-items:center;gap:4px;padding:1px 7px;border-radius:4px;font-size:10.5px;font-weight:600;font-family:'Fira Code',monospace;background:"@;
    let b1 = s0 + c.ref_bg@;
    lemma_join(s0, c.ref_bg@);
    let b2 = b1 + ";color:"@;
    lemma_join(b1, ";color:"@);
    let b3 = b2 + c.ref_fg@;
    lemma_join(b2, c.ref_fg@);
    let b4 = b3 + ";border:1px solid "@;
    lemma_join(b3, ";border:1px solid "@);
    let b5 = b4 + c.ref_border@;
    lemma_join(b4, c.ref_border@);
    let b6 = b5 + ";\">"@;
    lemma_join(b5, ";\">"@);
    let b7 = b6 + escape(x);
    lemma_join(b6, escape(x));
    lemma_join(b7, "</span>"@);
    assert(chip_html(x, c) == b7 + "</span>"@);
}

/// A wrapped, escaped text `open + escape(x) + close` qualifies when the
/// two tags do.
proof fn lemma_wrapped(open: Seq<char>, x: Seq<char>, close: Seq<char>)
    requires
        only_own_tags(open),
        only_own_tags(close),
    ensures
        only_own_tags(open + escape(x) + close),
{
    lemma_escaped(x);
    lemma_join(open, escape(x));
    lemma_join(open + escape(x), close);
}

/// The HTML of an inline construct qualifies.
proof fn lemma_construct(chars: Seq<char>, i: int, c: MarkdownColors)
    requires
        0 <= i < chars.len(),
        colors_ok(c),
    ensures
        construct_at(chars, i, c) matches Some((h, k)) ==> only_own_tags(h),
{
    lemma_inline_tags();
    if inline_code_at(chars, i, c) is Some {
        let end = crate::markdown::inline::next_from(chars, i, '`');
        lemma_code_and_chip(chars.subrange(i + 1, i + 1 + end), c);
    } else if ref_chip_at(chars, i, c) is Some {
        let end = crate::markdown::inline::next_from(chars, i, ']');
        lemma_code_and_chip(chars.subrange(i + 1, i + 1 + end), c);
    } else if bold_at(chars, i) is Some {
        let end = crate::markdown::inline::find_pair_spec(chars, i + 2, seq!['*', '*'])->0;
        lemma_wrapped("<strong>"@, chars.subrange(i + 2, end), "</strong>"@);
    } else if italic_at(chars, i) is Some {
        let end = crate::markdown::inline::next_from(chars, i, '*');
        lemma_wrapped("<em>"@, chars.subrange(i + 1, i + 1 + end), "</em>"@);
    }
}

/// Inline markdown of `chars[i..]` qualifies.
proof fn lemma_inline_from(chars: Seq<char>, i: int, c: MarkdownColors)
    requires
        colors_ok(c),
    ensures
        only_own_tags(inline_from(chars, i, c)),
    decreases chars.len() - i,
{
    if i < 0 || i >= chars.len() {
        lemma_no_lt(inline_from(chars, i, c));
    } else {
        lemma_construct_len(chars, i, c);
        lemma_construct(chars, i, c);
        match construct_at(chars, i, c) {
            Some((h, k)) => {
                lemma_inline_from(chars, i + k, c);
                lemma_join(h, inline_from(chars, i + k, c));
            },
            None => {
                lemma_inline_from(chars, i + 1, c);
                lemma_escaped_char(chars[i]);
                lemma_join(escape_char(chars[i]), inline_from(chars, i + 1, c));
            },
        }
    }
}

/// Law: whatever the text, every `<` of its inline rendering begins one of
/// the renderer's own tags.
pub proof fn lemma_inline_only_own_tags(s: Seq<char>, dark: bool)
    ensures
        only_own_tags(inline_spec(s, dark)),
{
    lemma_palette(dark);
    lemma_inline_from(s, 0, palette(dark));
}


/// A literal that begins with the `k`-th tag and holds no other `<`.
proof fn lemma_tag_literal(s: Seq<char>, k: int)
    requires
        0 <= k < own_tags().len(),
        1 <= own_tags()[k].len() <= s.len(),
        s.take(own_tags()[k].len() as int) =~= own_tags()[k],
        forall|i: int| 1 <= i < s.len() ==> s[i] != '<',
    ensures
        only_own_tags(s),
{
    lemma_tag_text(s, k);
}

/// The tags of the block constructs qualify.
proof fn lemma_block_tags()
    ensures
        only_own_tags("<pre style=\"background:"@),
        only_own_tags("</pre>"@),
        only_own_tags("<svg width='10' height='10' viewBox='0 0 16 16' fill='currentColor'>"@),
        only_own_tags(
            "<path d='M7.657 6.247c.11-.33.576-.33.686 0l.645 1.937a2.89 2.89 0 0 0 1.829 1.828l1.936.645c.33.11.33.576 0 .686l-1.937.645a2.89 2.89 0 0 0-1.828 1.829l-.645 1.936a.361.361 0 0 1-.686 0l-.645-1.937a2.89 2.89 0 0 0-1.828-1.828l-1.937-.645a.361.361 0 0 1 0-.686l1.937-.645a2.89 2.89 0 0 0 1.828-1.828l.645-1.937z'/>"@,
        ),
        only_own_tags("</svg>"@),
        only_own_tags(
            "<img src='/public/LoganIcon.png' width='10' height='10' style='border-radius:2px;opacity:0.6' alt='Logan' />"@,
        ),
        only_own_tags(
            "<div style=\"display:inline-flex;align-items:center;gap:5px;padding:3px 9px;border-radius:5px;font-size:11px;font-weight:600;font-family:'Fira Code',monospace;background:"@,
        ),
        only_own_tags("</div>"@),
        only_own_tags("<h1 style=\"font-size:15px;font-weight:700;margin:12px 0 4px;\">"@),
        only_own_tags("</h1>"@),
        only_own_tags("<h2 style=\"font-size:14px;font-weight:700;margin:12px 0 4px;\">"@),
        only_own_tags("</h2>"@),
        only_own_tags("<h3 style=\"font-size:13px;font-weight:700;margin:10px 0 4px;\">"@),
        only_own_tags("</h3>"@),
        only_own_tags("<ul style=\"margin:4px 0;padding-left:18px;\">"@),
        only_own_tags("</ul>"@),
        only_own_tags("<li style=\"margin:2px 0;\">"@),
        only_own_tags("</li>"@),
        only_own_tags("<br/>"@),
        only_own_tags("<span style=\"display:block;\">"@),
        only_own_tags("</span>"@),
{
    reveal_strlit("<pre ");
    reveal_strlit("</pre>");
    reveal_strlit("<svg ");
    reveal_strlit("<path ");
    reveal_strlit("</svg>");
    reveal_strlit("<img ");
    reveal_strlit("<div ");
    reveal_strlit("</div>");
    reveal_strlit("<h1 ");
    reveal_strlit("</h1>");
    reveal_strlit("<h2 ");
    reveal_strlit("</h2>");
    reveal_strlit("<h3 ");
    reveal_strlit("</h3>");
    reveal_strlit("<ul ");
    reveal_strlit("</ul>");
    reveal_strlit("<li ");
    reveal_strlit("</li>");
    reveal_strlit("<br/>");
    reveal_strlit("<span ");
    reveal_strlit("</span>");
    reveal_strlit("<pre style=\"background:");
    reveal_strlit("<svg width='10' height='10' viewBox='0 0 16 16' fill='currentColor'>");
    reveal_strlit(
        "<path d='M7.657 6.247c.11-.33.576-.33.686 0l.645 1.937a2.89 2.89 0 0 0 1.829 1.828l1.936.645c.33.11.33.576 0 .686l-1.937.645a2.89 2.89 0 0 0-1.828 1.829l-.645 1.936a.361.361 0 0 1-.686 0l-.645-1.937a2.89 2.89 0 0 0-1.828-1.828l-1.937-.645a.361.361 0 0 1 0-.686l1.937-.645a2.89 2.89 0 0 0 1.828-1.828l.645-1.937z'/>",
    );
    reveal_strlit(
        "<img src='/public/LoganIcon.png' width='10' height='10' style='border-radius:2px;opacity:0.6' alt='Logan' />",
    );
    reveal_strlit(
        "<div style=\"display:inline-flex;align-items:center;gap:5px;padding:3px 9px;border-radius:5px;font-size:11px;font-weight:600;font-family:'Fira Code',monospace;background:",
    );
    reveal_strlit("<h1 style=\"font-size:15px;font-weight:700;margin:12px 0 4px;\">");
    reveal_strlit("<h2 style=\"font-size:14px;font-weight:700;margin:12px 0 4px;\">");
    reveal_strlit("<h3 style=\"font-size:13px;font-weight:700;margin:10px 0 4px;\">");
    reveal_strlit("<ul style=\"margin:4px 0;padding-left:18px;\">");
    reveal_strlit("<li style=\"margin:2px 0;\">");
    reveal_strlit("<span style=\"display:block;\">");
    let t0 = "<pre style=\"background:"@;
    lemma_tag_literal(t0, 0);
    lemma_tag_literal("</pre>"@, 1);
    lemma_tag_literal("<svg width='10' height='10' viewBox='0 0 16 16' fill='currentColor'>"@, 2);
    let t3 = "<path d='M7.657 6.247c.11-.33.576-.33.686 0l.645 1.937a2.89 2.89 0 0 0 1.829 1.828l1.936.645c.33.11.33.576 0 .686l-1.937.645a2.89 2.89 0 0 0-1.828 1.829l-.645 1.936a.361.361 0 0 1-.686 0l-.645-1.937a2.89 2.89 0 0 0-1.828-1.828l-1.937-.645a.361.361 0 0 1 0-.686l1.937-.645a2.89 2.89 0 0 0 1.828-1.828l.645-1.937z'/>"@;
    lemma_tag_literal(t3, 3);
    lemma_tag_literal("</svg>"@, 4);
    let t5 = "<img src='/public/LoganIcon.png' width='10' height='10' style='border-radius:2px;opacity:0.6' alt='Logan' />"@;
    lemma_tag_literal(t5, 5);
    let t6 = "<div style=\"display:inline-flex;align-items:center;gap:5px;padding:3px 9px;border-radius:5px;font-size:11px;font-weight:600;font-family:'Fira Code',monospace;background:"@;
    lemma_tag_literal(t6, 6);
    lemma_tag_literal("</div>"@, 7);
    lemma_tag_literal("<h1 style=\"font-size:15px;font-weight:700;margin:12px 0 4px;\">"@, 8);
    lemma_tag_literal("</h1>"@, 9);
    lemma_tag_literal("<h2 style=\"font-size:14px;font-weight:700;margin:12px 0 4px;\">"@, 10);
    lemma_tag_literal("</h2>"@, 11);
    lemma_tag_literal("<h3 style=\"font-size:13px;font-weight:700;margin:10px 0 4px;\">"@, 12);
    lemma_tag_literal("</h3>"@, 13);
    lemma_tag_literal("<ul style=\"margin:4px 0;padding-left:18px;\">"@, 14);
    lemma_tag_literal("</ul>"@, 15);
    lemma_tag_literal("<li style=\"margin:2px 0;\">"@, 16);
    lemma_tag_literal("</li>"@, 17);
    lemma_tag_literal("<br/>"@, 18);
    lemma_tag_literal("<span style=\"display:block;\">"@, 19);
    lemma_tag_literal("</span>"@, 20);
}


/// A code block qualifies.
proof fn lemma_pre(buf: Seq<char>, c: MarkdownColors)
    requires
        colors_ok(c),
    ensures
        only_own_tags(pre_html(buf, c)),
{
    lemma_block_tags();
    lemma_fragments();
    lemma_escaped(buf);
    let a1 = "<pre style=\"background:"@ + c.code_bg@;
    lemma_join("<pre style=\"background:"@, c.code_bg@);
    let a2 = a1 + ";border:1px solid "@;
    lemma_join(a1, ";border:1px solid "@);
    let a3 = a2 + c.code_border@;
    lemma_join(a2, c.code_border@);
    let f = ";border-radius:6px;padding:10px 12px;margin:6px 0;overflow-x:auto;font-family:'Fira Code',monospace;font-size:11.5px;color:"@;
    let a4 = a3 + f;
    lemma_join(a3, f);
    let a5 = a4 + c.code_fg@;
    lemma_join(a4, c.code_fg@);
    let a6 = a5 + ";line-height:1.55;white-space:pre;\">"@;
    lemma_join(a5, ";line-height:1.55;white-space:pre;\">"@);
    let a7 = a6 + escape(buf);
    lemma_join(a6, escape(buf));
    lemma_join(a7, "</pre>"@);
    assert(pre_html(buf, c) == a7 + "</pre>"@);
}

/// The icon of a reference line qualifies.
proof fn lemma_icon(legacy: bool)
    ensures
        only_own_tags(chip_icon(legacy)),
{
    lemma_block_tags();
    lemma_fragments();
    if legacy {
        let a = "\n                     "@;
        let b = "<svg width='10' height='10' viewBox='0 0 16 16' fill='currentColor'>"@;
        let p = "<path d='M7.657 6.247c.11-.33.576-.33.686 0l.645 1.937a2.89 2.89 0 0 0 1.829 1.828l1.936.645c.33.11.33.576 0 .686l-1.937.645a2.89 2.89 0 0 0-1.828 1.829l-.645 1.936a.361.361 0 0 1-.686 0l-.645-1.937a2.89 2.89 0 0 0-1.828-1.828l-1.937-.645a.361.361 0 0 1 0-.686l1.937-.645a2.89 2.89 0 0 0 1.828-1.828l.645-1.937z'/>"@;
        lemma_join(a, b);
        lemma_join(a + b, p);
        lemma_join(a + b + p, "</svg>"@);
    }
}

/// A reference line qualifies.
proof fn lemma_block_chip(inner: Seq<char>, c: MarkdownColors, legacy: bool)
    requires
        colors_ok(c),
    ensures
        only_own_tags(block_chip_html(inner, c, legacy)),
{
    lemma_block_tags();
    lemma_fragments();
    lemma_icon(legacy);
    lemma_escaped(inner);
    let d = "<div style=\"display:inline-flex;align-items:center;gap:5px;padding:3px 9px;border-radius:5px;font-size:11px;font-weight:600;font-family:'Fira Code',monospace;background:"@;
    let a1 = d + c.ref_bg@;
    lemma_join(d, c.ref_bg@);
    let a2 = a1 + ";color:"@;
    lemma_join(a1, ";color:"@);
    let a3 = a2 + c.ref_fg@;
    lemma_join(a2, c.ref_fg@);
    let a4 = a3 + ";border:1px solid "@;
    lemma_join(a3, ";border:1px solid "@);
    let a5 = a4 + c.ref_border@;
    lemma_join(a4, c.ref_border@);
    let a6 = a5 + ";margin:3px 0;\">"@;
    lemma_join(a5, ";margin:3px 0;\">"@);
    let a7 = a6 + chip_icon(legacy);
    lemma_join(a6, chip_icon(legacy));
    let a8 = a7 + escape(inner);
    lemma_join(a7, escape(inner));
    lemma_join(a8, "</div>"@);
    assert(block_chip_html(inner, c, legacy) == a8 + "</div>"@);
}

/// `open + inline_spec(x) + close` qualifies when the two tags do.
proof fn lemma_inline_wrapped(open: Seq<char>, x: Seq<char>, dark: bool, close: Seq<char>)
    requires
        only_own_tags(open),
        only_own_tags(close),
    ensures
        only_own_tags(open + inline_spec(x, dark) + close),
{
    lemma_inline_only_own_tags(x, dark);
    lemma_join(open, inline_spec(x, dark));
    lemma_join(open + inline_spec(x, dark), close);
}

/// A header qualifies.
proof fn lemma_header(t: Seq<char>, dark: bool)
    ensures
        header_html(t, dark) matches Some(h) ==> only_own_tags(h),
{
    lemma_block_tags();
    lemma_inline_wrapped(
        "<h3 style=\"font-size:13px;font-weight:700;margin:10px 0 4px;\">"@,
        t.skip(4),
        dark,
        "</h3>"@,
    );
    lemma_inline_wrapped(
        "<h2 style=\"font-size:14px;font-weight:700;margin:12px 0 4px;\">"@,
        t.skip(3),
        dark,
        "</h2>"@,
    );
    lemma_inline_wrapped(
        "<h1 style=\"font-size:15px;font-weight:700;margin:12px 0 4px;\">"@,
        t.skip(2),
        dark,
        "</h1>"@,
    );
}

/// Closing an open list keeps the output qualifying.
proof fn lemma_close_list(st: MdState)
    requires
        only_own_tags(st.out),
    ensures
        only_own_tags(close_list(st).out),
{
    lemma_block_tags();
    lemma_join(st.out, "</ul>"@);
}

/// One input line keeps the output qualifying.
proof fn lemma_md_line(line: Seq<char>, st: MdState, dark: bool, legacy: bool)
    requires
        only_own_tags(st.out),
    ensures
        only_own_tags(md_line(line, st, dark, legacy).out),
{
    let c = palette(dark);
    lemma_palette(dark);
    lemma_block_tags();
    lemma_close_list(st);
    let t = crate::text::trim(line);
    let cl = close_list(st);
    lemma_pre(st.buf, c);
    lemma_join(st.out, pre_html(st.buf, c));
    lemma_block_chip(t.subrange(1, t.len() - 1), c, legacy);
    lemma_join(cl.out, block_chip_html(t.subrange(1, t.len() - 1), c, legacy));
    lemma_header(t, dark);
    if header_html(t, dark) is Some {
        lemma_join(cl.out, header_html(t, dark)->0);
    }
    let li = "<li style=\"margin:2px 0;\">"@ + inline_spec(t.skip(2), dark) + "</li>"@;
    lemma_inline_wrapped("<li style=\"margin:2px 0;\">"@, t.skip(2), dark, "</li>"@);
    let ul = st.out + "<ul style=\"margin:4px 0;padding-left:18px;\">"@;
    lemma_join(st.out, "<ul style=\"margin:4px 0;padding-left:18px;\">"@);
    lemma_join(ul, li);
    lemma_join(st.out, li);
    lemma_join(cl.out, "<br/>"@);
    let para = "<span style=\"display:block;\">"@ + inline_spec(t, dark) + "</span>"@;
    lemma_inline_wrapped("<span style=\"display:block;\">"@, t, dark, "</span>"@);
    lemma_join(cl.out, para);
}

/// The lines `ls` keep the output qualifying.
proof fn lemma_md_fold(ls: Seq<Seq<char>>, st: MdState, dark: bool, legacy: bool)
    requires
        only_own_tags(st.out),
    ensures
        only_own_tags(md_fold(ls, st, dark, legacy).out),
    decreases ls.len(),
{
    if ls.len() > 0 {
        lemma_md_line(ls[0], st, dark, legacy);
        lemma_md_fold(ls.drop_first(), md_line(ls[0], st, dark, legacy), dark, legacy);
    }
}

/// Law: whatever the input, every `<` of the rendered HTML begins one of
/// the renderer's own tags (`<pre`, `<svg`, `<path`, `<img`, `<div`, `<h1`
/// to `<h3`, `<ul`, `<li`, `<br/>`, `<span`, `<code`, `<strong>`, `<em>` and
/// their closing tags): no input text can add an element.
pub proof fn lemma_only_own_tags(input: Seq<char>, dark: bool, legacy: bool)
    ensures
        only_own_tags(md_spec(input, dark, legacy)),
{
    let st = md_fold(lines(input), md_start(), dark, legacy);
    lemma_no_lt(md_start().out);
    lemma_md_fold(lines(input), md_start(), dark, legacy);
    lemma_block_tags();
    lemma_palette(dark);
    lemma_join(st.out, "</ul>"@);
    let o1 = if st.in_list { st.out + "</ul>"@ } else { st.out };
    lemma_pre(st.buf, palette(dark));
    lemma_join(o1, pre_html(st.buf, palette(dark)));
    assert(md_spec(input, dark, legacy) == md_finish(st, dark));
}

} // verus!
