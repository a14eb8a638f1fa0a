//! The chat panel's initial state.

use vstd::prelude::*;
use crate::ai::types::{ChatMessage, Provider};

verus! {

/// Settings and conversation the panel starts with.
pub struct PanelState {
    pub provider: Provider,
    pub api_key: String,
    pub model: String,
    pub setup_done: bool,
    pub messages: Vec<ChatMessage>,
}

/// The greeting shown when a key is already saved.
pub open spec fn saved_greeting_spec() -> Seq<char> {
    "Hi! I'm Logan, your AI log analysis assistant. Open a log file and ask me anything."@
}

impl PanelState {
    /// The panel's state from the saved settings: the setup is done when a
    /// key is saved, and the conversation then starts with a greeting.
    pub fn new(provider: Provider, api_key: String, model: String) -> (r: Self)
        ensures
            r.provider == provider,
            r.api_key == api_key,
            r.model == model,
            r.setup_done == (api_key@.len() > 0),
            r.setup_done ==> r.messages@.len() == 1 && r.messages@[0].role@ == "assistant"@
                && r.messages@[0].content@ == saved_greeting_spec(),
            !r.setup_done ==> r.messages@.len() == 0,
    {
        let ready = !api_key.as_str().is_empty();
        let mut messages: Vec<ChatMessage> = Vec::new();
        if ready {
            messages.push(
                ChatMessage::assistant(
                    String::from_str(
                        "Hi! I'm Logan, your AI log analysis assistant. Open a log file and ask me anything.",
                    ),
                ),
            );
        }
        PanelState { provider, api_key, model, setup_done: ready, messages }
    }

    /// A provider button on the setup screen: the chosen provider becomes
    /// the current one, with the key saved for it (empty when none is).
    pub fn select_provider(&mut self, provider: Provider, saved_key: String)
        ensures
            final(self).provider == provider,
            final(self).api_key == saved_key,
            final(self).model == old(self).model,
            final(self).setup_done == old(self).setup_done,
            final(self).messages == old(self).messages,
    {
        self.provider = provider;
        self.api_key = saved_key;
    }
}

} // verus!
