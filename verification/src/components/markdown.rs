//! The chat panel's stand-alone markdown renderer.
//!
//! It renders as [`crate::markdown::md_to_html`] does, with two
//! differences: an opening code fence also closes an open bullet list, and
//! a reference line carries an inline SVG icon.

use vstd::prelude::*;
use crate::markdown::parser::{md_spec, render_markdown};

verus! {

/// Minimal markdown to HTML: code blocks, inline code, bold, italic,
/// headers, bullet lists, reference chips and line breaks.  All input text
/// is escaped.
pub fn md_to_html(input: &str, dark: bool) -> (r: String)
    ensures
        r@ == md_spec(input@, dark, true),
{
    render_markdown(input, dark, true)
}

} // verus!
