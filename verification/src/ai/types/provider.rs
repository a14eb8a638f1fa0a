//! Chat providers and their settings.

use vstd::prelude::*;
use crate::text::str_eq;

verus! {

/// A chat provider.
#[derive(Debug, Clone, Copy, PartialEq, Eq, Structural)]
pub enum Provider {
    Gemini,
    OpenAI,
}

impl Provider {
    /// Name shown to the user.
    pub fn label(&self) -> (r: &'static str)
        ensures
            r@ == match *self {
                Provider::Gemini => "Gemini"@,
                Provider::OpenAI => "OpenAI"@,
            },
    {
        match self {
            Provider::Gemini => "Gemini",
            Provider::OpenAI => "OpenAI",
        }
    }

    /// Identifier sent to the back end.
    pub open spec fn id(self) -> Seq<char> {
        match self {
            Provider::Gemini => "gemini"@,
            Provider::OpenAI => "openai"@,
        }
    }

    /// Identifier sent to the back end.
    pub fn to_str(&self) -> (r: &'static str)
        ensures
            r@ == self.id(),
    {
        match self {
            Provider::Gemini => "gemini",
            Provider::OpenAI => "openai",
        }
    }

    /// Model used when none is configured.
    pub open spec fn default_model_spec(self) -> Seq<char> {
        match self {
            Provider::Gemini => "gemini-1.5-flash"@,
            Provider::OpenAI => "gpt-4o-mini"@,
        }
    }

    /// Model used when none is configured.
    pub fn default_model(&self) -> (r: &'static str)
        ensures
            r@ == self.default_model_spec(),
    {
        match self {
            Provider::Gemini => "gemini-1.5-flash",
            Provider::OpenAI => "gpt-4o-mini",
        }
    }

    /// Label of the API-key field.
    pub fn key_label(&self) -> (r: &'static str)
        ensures
            r@ == match *self {
                Provider::Gemini => "Google AI API Key"@,
                Provider::OpenAI => "OpenAI API Key"@,
            },
    {
        match self {
            Provider::Gemini => "Google AI API Key",
            Provider::OpenAI => "OpenAI API Key",
        }
    }

    /// Placeholder of the API-key field.
    pub fn key_hint(&self) -> (r: &'static str)
        ensures
            r@ == match *self {
                Provider::Gemini => "AIza…"@,
                Provider::OpenAI => "sk-…"@,
            },
    {
        match self {
            Provider::Gemini => "AIza…",
            Provider::OpenAI => "sk-…",
        }
    }

    /// Where an API key can be created.
    pub fn docs_url(&self) -> (r: &'static str)
        ensures
            r@ == match *self {
                Provider::Gemini => "https://aistudio.google.com/app/apikey"@,
                Provider::OpenAI => "https://platform.openai.com/api-keys"@,
            },
    {
        match self {
            Provider::Gemini => "https://aistudio.google.com/app/apikey",
            Provider::OpenAI => "https://platform.openai.com/api-keys",
        }
    }

    /// Local-storage key of the provider's API key.
    pub open spec fn ls_key_spec(self) -> Seq<char> {
        match self {
            Provider::Gemini => "logan_gemini_key"@,
            Provider::OpenAI => "logan_openai_key"@,
        }
    }

    /// Local-storage key of the provider's API key.
    pub fn ls_key(&self) -> (r: &'static str)
        ensures
            r@ == self.ls_key_spec(),
    {
        match self {
            Provider::Gemini => "logan_gemini_key",
            Provider::OpenAI => "logan_openai_key",
        }
    }

    /// The provider named `s`: OpenAI for "openai", Gemini otherwise.
    pub open spec fn from_str_spec(s: Seq<char>) -> Provider {
        if s == "openai"@ {
            Provider::OpenAI
        } else {
            Provider::Gemini
        }
    }

    /// The provider named `s`: OpenAI for "openai", Gemini otherwise.
    pub fn from_str(s: &str) -> (r: Self)
        ensures
            r == Self::from_str_spec(s@),
    {
        if str_eq(s, "openai") {
            Provider::OpenAI
        } else {
            Provider::Gemini
        }
    }
}

/// Reading back a provider's identifier gives the provider.
pub proof fn lemma_provider_round_trip(p: Provider)
    ensures
        Provider::from_str_spec(p.id()) == p,
{
    reveal_strlit("openai");
    reveal_strlit("gemini");
    assert("gemini"@[0] != "openai"@[0]);
}

} // verus!
