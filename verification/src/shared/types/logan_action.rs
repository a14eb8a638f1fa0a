//! Actions sent from the file viewer to the chat panel.

use vstd::prelude::*;

verus! {

/// A user action on log lines that the chat assistant handles.
#[derive(Debug, Clone, PartialEq, Eq)]
pub enum LoganAction {
    /// Add a single line as a context chip (does not send).
    AddContext { file: String, line: usize, text: String },
    /// Add several lines as context chips (does not send).
    AddMultipleContext { items: Vec<(String, usize, String)> },
    /// Add a line and immediately ask for an explanation.
    Explain { file: String, line: usize, text: String },
}

} // verus!
