use logarithm::components::markdown::md_to_html as legacy_md_to_html;
use logarithm::markdown::colors::MarkdownColors;
use logarithm::markdown::escape::{html_escape, html_escape_char};
use logarithm::markdown::inline::{find_pair, inline_md};
use logarithm::markdown::md_to_html;

fn code_html(code: &str, dark: bool) -> String {
    let c = MarkdownColors::for_theme(dark);
    format!(
        "<code style=\"background:{};color:{};border:1px solid {};border-radius:3px;padding:1px 5px;font-family:'Fira Code',monospace;font-size:11px;\">{}</code>",
        c.code_bg, c.code_fg, c.code_border, code
    )
}

fn chip_html(inner: &str, dark: bool) -> String {
    let c = MarkdownColors::for_theme(dark);
    format!(
        "<span style=\"display:inline-flex;align-items:center;gap:4px;padding:1px 7px;border-radius:4px;font-size:10.5px;font-weight:600;font-family:'Fira Code',monospace;background:{};color:{};border:1px solid {};\">{}</span>",
        c.ref_bg, c.ref_fg, c.ref_border, inner
    )
}

fn pre_html(code: &str, dark: bool) -> String {
    let c = MarkdownColors::for_theme(dark);
    format!(
        "<pre style=\"background:{};border:1px solid {};border-radius:6px;padding:10px 12px;margin:6px 0;overflow-x:auto;font-family:'Fira Code',monospace;font-size:11.5px;color:{};line-height:1.55;white-space:pre;\">{}</pre>",
        c.code_bg, c.code_border, c.code_fg, code
    )
}

fn block_chip_start(dark: bool) -> String {
    let c = MarkdownColors::for_theme(dark);
    format!(
        "<div style=\"display:inline-flex;align-items:center;gap:5px;padding:3px 9px;border-radius:5px;font-size:11px;font-weight:600;font-family:'Fira Code',monospace;background:{};color:{};border:1px solid {};margin:3px 0;\">",
        c.ref_bg, c.ref_fg, c.ref_border
    )
}

const UL: &str = "<ul style=\"margin:4px 0;padding-left:18px;\">";

fn li(s: &str) -> String {
    format!("<li style=\"margin:2px 0;\">{}</li>", s)
}

fn span(s: &str) -> String {
    format!("<span style=\"display:block;\">{}</span>", s)
}

const SVG: &str = "\n                     <svg width='10' height='10' viewBox='0 0 16 16' fill='currentColor'><path d='M7.657 6.247c.11-.33.576-.33.686 0l.645 1.937a2.89 2.89 0 0 0 1.829 1.828l1.936.645c.33.11.33.576 0 .686l-1.937.645a2.89 2.89 0 0 0-1.828 1.829l-.645 1.936a.361.361 0 0 1-.686 0l-.645-1.937a2.89 2.89 0 0 0-1.828-1.828l-1.937-.645a.361.361 0 0 1 0-.686l1.937-.645a2.89 2.89 0 0 0 1.828-1.828l.645-1.937z'/></svg>";

const IMG: &str = "<img src='/public/LoganIcon.png' width='10' height='10' style='border-radius:2px;opacity:0.6' alt='Logan' />";

#[test]
fn colors_for_both_themes() {
    let d = MarkdownColors::for_theme(true);
    assert_eq!(d.code_bg, "#1a1a2e");
    assert_eq!(d.code_fg, "#e2e4f0");
    assert_eq!(d.code_border, "rgba(255,255,255,0.08)");
    assert_eq!(d.ref_bg, "rgba(124,157,255,0.12)");
    assert_eq!(d.ref_fg, "#7c9dff");
    assert_eq!(d.ref_border, "rgba(124,157,255,0.30)");
    let l = MarkdownColors::for_theme(false);
    assert_eq!(l.code_bg, "#f0f0f8");
    assert_eq!(l.code_fg, "#1a1b2e");
    assert_eq!(l.code_border, "rgba(0,0,0,0.08)");
    assert_eq!(l.ref_bg, "rgba(79,110,247,0.10)");
    assert_eq!(l.ref_fg, "#4f6ef7");
    assert_eq!(l.ref_border, "rgba(79,110,247,0.28)");
}

#[test]
fn escape_special_characters() {
    assert_eq!(html_escape("<a href=\"x\">Tom & Jerry's</a>"),
        "&lt;a href=&quot;x&quot;&gt;Tom &amp; Jerry&#39;s&lt;/a&gt;");
    assert_eq!(html_escape(""), "");
    assert_eq!(html_escape("plain é"), "plain é");
    assert_eq!(html_escape_char('&'), "&amp;");
    assert_eq!(html_escape_char('\''), "&#39;");
    assert_eq!(html_escape_char('z'), "z");
}

#[test]
fn escaped_text_has_no_markup_characters() {
    let out = html_escape("<script>alert('x')</script> & \"q\"");
    assert!(!out.contains('<') && !out.contains('>') && !out.contains('"') && !out.contains('\''));
}

#[test]
fn inline_code_bold_italic() {
    assert_eq!(
        inline_md("use `a<b` now", true),
        format!("use {} now", code_html("a&lt;b", true))
    );
    assert_eq!(inline_md("**bold** and *it*", false), "<strong>bold</strong> and <em>it</em>");
    assert_eq!(inline_md("**<x>**", false), "<strong>&lt;x&gt;</strong>");
}

#[test]
fn inline_reference_chip() {
    assert_eq!(
        inline_md("see [app.log:12] here", true),
        format!("see {} here", chip_html("app.log:12", true))
    );
    // Without a colon the brackets stay text.
    assert_eq!(inline_md("[plain]", true), "[plain]");
}

#[test]
fn inline_unclosed_markers_stay_text() {
    assert_eq!(inline_md("a `b", true), "a `b");
    assert_eq!(inline_md("2 * 3", true), "2 * 3");
    // An unclosed bold marker falls back to italic between the two stars.
    assert_eq!(inline_md("**x", true), "<em></em>x");
    assert_eq!(inline_md("", true), "");
}

#[test]
fn find_pair_positions() {
    let chars: Vec<char> = "a**b**c".chars().collect();
    assert_eq!(find_pair(&chars, 0, "**"), Some(1));
    assert_eq!(find_pair(&chars, 2, "**"), Some(4));
    assert_eq!(find_pair(&chars, 5, "**"), None);
    assert_eq!(find_pair(&vec![], 0, "**"), None);
}

#[test]
fn headers_and_paragraphs() {
    assert_eq!(
        md_to_html("# Title\n## Sub\n### Small\nHello **world**", true),
        format!(
            "<h1 style=\"font-size:15px;font-weight:700;margin:12px 0 4px;\">Title</h1><h2 style=\"font-size:14px;font-weight:700;margin:12px 0 4px;\">Sub</h2><h3 style=\"font-size:13px;font-weight:700;margin:10px 0 4px;\">Small</h3>{}",
            span("Hello <strong>world</strong>")
        )
    );
    // Without the space it is a paragraph.
    assert_eq!(md_to_html("#nospace", true), span("#nospace"));
}

#[test]
fn lists_and_blank_lines() {
    assert_eq!(
        md_to_html("- a\n* *b*\ntext\n\nend", false),
        format!("{}{}{}</ul>{}<br/>{}", UL, li("a"), li("<em>b</em>"), span("text"), span("end"))
    );
    // A list still open at the end is closed.
    assert_eq!(md_to_html("  - x", true), format!("{}{}</ul>", UL, li("x")));
}

#[test]
fn code_blocks() {
    assert_eq!(
        md_to_html("```rust\nlet x = 1 < 2;\n  indented\n```\nafter", true),
        format!("{}{}", pre_html("let x = 1 &lt; 2;\n  indented", true), span("after"))
    );
    // An unclosed block is still shown; an empty one is dropped.
    assert_eq!(md_to_html("```\nfoo", false), pre_html("foo", false));
    assert_eq!(md_to_html("```", false), "");
    assert_eq!(md_to_html("```\n```", false), pre_html("", false));
}

#[test]
fn fence_inside_list_keeps_list_open() {
    assert_eq!(
        md_to_html("- item\n```\ncode\n```\nafter", true),
        format!("{}{}{}</ul>{}", UL, li("item"), pre_html("code", true), span("after"))
    );
}

#[test]
fn block_reference_chip() {
    assert_eq!(
        md_to_html("  [app.log:7]  ", true),
        format!("{}{}app.log:7</div>", block_chip_start(true), IMG)
    );
    assert_eq!(
        md_to_html("- a\n[x:1]", false),
        format!("{}{}</ul>{}{}x:1</div>", UL, li("a"), block_chip_start(false), IMG)
    );
}

#[test]
fn empty_input_gives_empty_output() {
    assert_eq!(md_to_html("", true), "");
    assert_eq!(legacy_md_to_html("", true), "");
}

#[test]
fn legacy_renderer_closes_list_at_fence_and_uses_svg() {
    assert_eq!(
        legacy_md_to_html("- item\n```\ncode\n```", true),
        format!("{}{}</ul>{}", UL, li("item"), pre_html("code", true))
    );
    assert_eq!(
        legacy_md_to_html("[a.log:3]", false),
        format!("{}{}a.log:3</div>", block_chip_start(false), SVG)
    );
    assert_eq!(legacy_md_to_html("# T\n*i*", true), md_to_html("# T\n*i*", true));
}

#[test]
fn inline_edge_cases() {
    assert_eq!(inline_md("`a`b`", true), format!("{}b`", code_html("a", true)));
    assert_eq!(inline_md("[x]:[a:b]", true), format!("[x]:{}", chip_html("a:b", true)));
    assert_eq!(inline_md("***a***", true), "<strong>*a</strong>*");
    assert_eq!(inline_md("*a**b*", true), "<em>a</em><em>b</em>");
    assert_eq!(inline_md("é`ü`", false), format!("é{}", code_html("ü", false)));
    assert_eq!(inline_md("[a:b", true), "[a:b");
    assert_eq!(inline_md("x'y\"z", true), "x&#39;y&quot;z");
}

#[test]
fn indented_fence_is_text() {
    assert_eq!(md_to_html("  ```", true), span(&format!("{}`", code_html("", true))));
    assert_eq!(md_to_html("#", true), span("#"));
    assert_eq!(md_to_html("-x", true), span("-x"));
    assert_eq!(md_to_html("[]", true), span("[]"));
}

#[test]
fn plain_line_is_one_escaped_paragraph() {
    assert_eq!(
        md_to_html("  hello <world> & 'q'  ", true),
        span("hello &lt;world&gt; &amp; &#39;q&#39;")
    );
    assert_eq!(
        legacy_md_to_html("<script>alert(1)</script>", false),
        span("&lt;script&gt;alert(1)&lt;/script&gt;")
    );
    assert_eq!(inline_md("a<b>\"c\"", true), html_escape("a<b>\"c\""));
}

const OWN_TAGS: [&str; 27] = [
    "<pre ", "</pre>", "<svg ", "<path ", "</svg>", "<img ", "<div ", "</div>", "<h1 ", "</h1>",
    "<h2 ", "</h2>", "<h3 ", "</h3>", "<ul ", "</ul>", "<li ", "</li>", "<br/>", "<span ",
    "</span>", "<code ", "</code>", "<strong>", "</strong>", "<em>", "</em>",
];

fn only_own_tags(html: &str) -> bool {
    html.match_indices('<').all(|(i, _)| OWN_TAGS.iter().any(|t| html[i..].starts_with(t)))
}

#[test]
fn hostile_input_adds_no_element() {
    let input = "# <script>x</script>\n- <img src=x onerror=alert(1)>\n[<a:b>]\n`<iframe>`\n**<b>** *<i>*\n```\n</pre><script>\n```\n<svg onload=1>";
    for dark in [true, false] {
        let html = md_to_html(input, dark);
        assert!(only_own_tags(&html), "{}", html);
        assert!(!html.contains("<script") && !html.contains("<iframe") && !html.contains("<a:"));
        assert!(only_own_tags(&legacy_md_to_html(input, dark)));
        assert!(only_own_tags(&inline_md("<b>x</b> [<x>:1] `<y>`", dark)));
    }
}

#[test]
fn html_escape_keeps_texts_apart() {
    assert_eq!(html_escape("<"), "&lt;");
    assert_eq!(html_escape("&lt;"), "&amp;lt;");
    assert_ne!(html_escape("<"), html_escape("&lt;"));
    assert_eq!(html_escape("&#39;'"), "&amp;#39;&#39;");
}

#[test]
fn theme_changes_only_code_and_reference_colours() {
    let text = "# Title\n- **bold** item\n* *it* <b>\n\nplain & text";
    assert_eq!(md_to_html(text, true), md_to_html(text, false));
    assert_eq!(legacy_md_to_html(text, true), legacy_md_to_html(text, false));
    assert_ne!(md_to_html("`x`", true), md_to_html("`x`", false));
    assert_ne!(md_to_html("[a.log:1]", true), md_to_html("[a.log:1]", false));
}

#[test]
fn renderers_agree_without_fences_in_lists_or_reference_lines() {
    let text = "# T\n- a\n- b `c` [x.log:2]\n\n```\ncode\n```\ntext";
    assert_eq!(md_to_html(text, true), legacy_md_to_html(text, true));
    assert_eq!(md_to_html(text, false), legacy_md_to_html(text, false));
    let fence_in_list = "- a\n```\ncode\n```";
    assert_ne!(md_to_html(fence_in_list, true), legacy_md_to_html(fence_in_list, true));
    let reference_line = "[a.log:1]";
    assert_ne!(md_to_html(reference_line, true), legacy_md_to_html(reference_line, true));
}
