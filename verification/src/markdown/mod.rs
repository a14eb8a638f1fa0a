//! Markdown to HTML for the chat panel.
//!
//! Supports fenced code blocks, headers (`#`, `##`, `###`), bullet lists
//! (`- `, `* `), lines that are a `[file:line]` reference, and inline
//! `` `code` ``, `**bold**`, `*italic*` and `[file:line]` chips.  All text
//! taken from the input is HTML-escaped, so the output holds no element but
//! the renderer's own (`safety`).

pub mod agreement;
pub mod colors;
pub mod escape;
pub mod inline;
pub mod parser;
pub mod safety;

pub use parser::md_to_html;
