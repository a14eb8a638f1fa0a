//! Request and filter types of the back-end commands.

use vstd::prelude::*;

pub use crate::shared::types::LogEntry;

verus! {

/// Filter settings of the `filter_entries` command.
#[derive(Debug, Clone)]
pub struct FilterParams {
    pub status: String,
    pub custom_status: String,
    pub query: String,
    pub match_case: bool,
    pub fuzzy: bool,
    pub from_datetime: String,
    pub to_datetime: String,
}

/// One message of a chat conversation.
#[derive(Debug, Clone)]
pub struct AiMessage {
    /// "user", "assistant" or "system".
    pub role: String,
    pub content: String,
}

/// A chat request sent to a provider.
#[derive(Debug)]
pub struct AiChatRequest {
    /// "gemini" or "openai".
    pub provider: String,
    pub api_key: String,
    pub model: String,
    pub messages: Vec<AiMessage>,
}

} // verus!
