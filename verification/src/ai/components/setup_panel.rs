//! The setup screen of the chat panel.

use vstd::prelude::*;
use crate::ai::types::{ChatMessage, Provider};

verus! {

/// The first message after setup, naming the provider.
pub open spec fn setup_greeting_spec(label: Seq<char>) -> Seq<char> {
    "Hi! I'm Logan, your AI log analysis assistant powered by "@ + label
        + ". Open a log file and ask me anything — I can help you find errors, understand patterns, and diagnose issues."@
}

/// "Start chatting": with an API key the setup is done and, if the
/// conversation is empty, the greeting is added.  Returns whether the
/// setup is done.
pub fn finish_setup(api_key: &str, provider: &Provider, messages: &mut Vec<ChatMessage>) -> (r: bool)
    ensures
        r == (api_key@.len() > 0),
        r && old(messages)@.len() == 0 ==> final(messages)@.len() == 1 && final(messages)@[0].role@
            == "assistant"@ && final(messages)@[0].content@ == setup_greeting_spec(
            match *provider {
                Provider::Gemini => "Gemini"@,
                Provider::OpenAI => "OpenAI"@,
            },
        ),
        !(r && old(messages)@.len() == 0) ==> final(messages)@ == old(messages)@,
{
    if api_key.is_empty() {
        return false;
    }
    if messages.len() == 0 {
        let mut g = String::from_str("Hi! I'm Logan, your AI log analysis assistant powered by ");
        g.append(provider.label());
        g.append(". Open a log file and ask me anything — I can help you find errors, understand patterns, and diagnose issues.");
        messages.push(ChatMessage::assistant(g));
    }
    true
}

} // verus!
