//! The input area of the chat panel.

use vstd::prelude::*;
use crate::ai::types::Provider;
use crate::ai::handlers::mention::handle_mention_keydown;
use crate::text::{str_eq, to_chars, trim, trim_chars};

verus! {

/// Whether the send button is enabled: the typed text is not blank.
pub fn ready_to_send(input: &str) -> (r: bool)
    ensures
        r == (trim(input@).len() > 0),
{
    let v = to_chars(input);
    trim_chars(&v).len() > 0
}

/// The hint below the input: provider, model and keys.
pub open spec fn input_hint_spec(label: Seq<char>, model: Seq<char>) -> Seq<char> {
    label + " · "@ + model + " · Enter to send  Shift+Enter for newline"@
}

/// The hint below the input.
pub fn input_hint(provider: &Provider, model: &str) -> (r: String)
    ensures
        r@ == input_hint_spec(
            match *provider {
                Provider::Gemini => "Gemini"@,
                Provider::OpenAI => "OpenAI"@,
            },
            if model@.len() == 0 {
                provider.default_model_spec()
            } else {
                model@
            },
        ),
{
    let mut s = String::from_str(provider.label());
    s.append(" · ");
    if model.is_empty() {
        s.append(provider.default_model());
    } else {
        s.append(model);
    }
    s.append(" · Enter to send  Shift+Enter for newline");
    s
}


/// What a key press in the input does.
pub struct KeyOutcome {
    /// The browser's own handling of the key is cancelled.
    pub prevent_default: bool,
    /// The new selected suggestion, when it changes.
    pub select: Option<usize>,
    /// The suggestion picked (its position), if one is.
    pub pick: Option<usize>,
    /// Whether the suggestion list is open afterwards.
    pub mention_active: bool,
    /// Whether the message is sent.
    pub send: bool,
}

/// Whether a suggestion is picked: Enter or Tab on a valid selection while
/// the list is open.
pub open spec fn picks(key: Seq<char>, active: bool, n: int, selected: int) -> bool {
    active && (key == "Enter"@ || key == "Tab"@) && n > 0 && selected < n
}

/// Whether the list is open after the key.
pub open spec fn active_after(key: Seq<char>, active: bool, n: int, selected: int) -> bool {
    active && !picks(key, active, n, selected) && key != "Escape"@
}

/// A key press in the input: while the suggestion list is open, the arrows
/// move the selection, Enter or Tab picks the selected file and Escape
/// closes the list; Enter without Shift then sends the message once the
/// list is closed (so Enter that picks a file sends too).
pub fn input_keydown(key: &str, shift: bool, mention_active: bool, suggestions: &[String], selected: usize) -> (r: KeyOutcome)
    requires
        mention_active && key@ == "ArrowDown"@ ==> selected < usize::MAX,
    ensures
        ({
            let n = suggestions@.len() as int;
            let arrows = mention_active && (key@ == "ArrowDown"@ || key@ == "ArrowUp"@);
            let picked = picks(key@, mention_active, n, selected as int);
            let open = active_after(key@, mention_active, n, selected as int);
            let send = key@ == "Enter"@ && !shift && !open;
            &&& r.mention_active == open
            &&& r.send == send
            &&& r.pick == (if picked { Some(selected) } else { None })
            &&& r.prevent_default == (arrows || picked || send)
            &&& r.select == (if mention_active && key@ == "ArrowDown"@ && selected + 1 < n {
                Some((selected + 1) as usize)
            } else if mention_active && key@ == "ArrowUp"@ && selected > 0 {
                Some((selected - 1) as usize)
            } else {
                None
            })
        }),
{
    proof {
        reveal_strlit("ArrowDown");
        reveal_strlit("ArrowUp");
        reveal_strlit("Enter");
        reveal_strlit("Tab");
        reveal_strlit("Escape");
        assert("ArrowUp"@.len() != "ArrowDown"@.len());
        assert("Enter"@.len() != "ArrowDown"@.len() && "Enter"@.len() != "ArrowUp"@.len());
        assert("Tab"@.len() != "ArrowDown"@.len() && "Tab"@.len() != "ArrowUp"@.len());
        assert("Escape"@.len() != "ArrowDown"@.len() && "Escape"@.len() != "ArrowUp"@.len());
        assert("Escape"@.len() != "Enter"@.len() && "Escape"@.len() != "Tab"@.len());
    }
    let (handled, select) = if mention_active {
        handle_mention_keydown(key, suggestions, selected)
    } else {
        (false, None)
    };
    let picked = mention_active && (str_eq(key, "Enter") || str_eq(key, "Tab")) && suggestions.len() > 0
        && selected < suggestions.len();
    let active = mention_active && !picked && !str_eq(key, "Escape");
    let send = str_eq(key, "Enter") && !shift && !active;
    let pick = if picked {
        Some(selected)
    } else {
        None
    };
    let prevent = handled || picked || send;
    KeyOutcome { prevent_default: prevent, select, pick, mention_active: active, send }
}

} // verus!
