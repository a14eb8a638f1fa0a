//! Messages of the conversation.

use vstd::prelude::*;
use crate::text::str_eq;

verus! {

/// A message of the conversation: its role ("user", "assistant" or
/// "error") and its markdown content.
#[derive(Debug, Clone, PartialEq)]
pub struct ChatMessage {
    pub role: String,
    pub content: String,
}

impl ChatMessage {
    /// A message from the user.
    pub fn user(content: String) -> (r: Self)
        ensures
            r.role@ == "user"@,
            r.content == content,
    {
        Self { role: String::from_str("user"), content }
    }

    /// A reply of the assistant.
    pub fn assistant(content: String) -> (r: Self)
        ensures
            r.role@ == "assistant"@,
            r.content == content,
    {
        Self { role: String::from_str("assistant"), content }
    }

    /// An error shown in the conversation.
    pub fn error(content: String) -> (r: Self)
        ensures
            r.role@ == "error"@,
            r.content == content,
    {
        Self { role: String::from_str("error"), content }
    }

    /// Whether the user wrote the message.
    pub fn is_user(&self) -> (r: bool)
        ensures
            r == (self.role@ == "user"@),
    {
        str_eq(self.role.as_str(), "user")
    }

    /// Whether the assistant wrote the message.
    pub fn is_assistant(&self) -> (r: bool)
        ensures
            r == (self.role@ == "assistant"@),
    {
        str_eq(self.role.as_str(), "assistant")
    }

    /// Whether the message is an error.
    pub fn is_error(&self) -> (r: bool)
        ensures
            r == (self.role@ == "error"@),
    {
        str_eq(self.role.as_str(), "error")
    }
}

} // verus!
