//! Handling actions sent from the file viewer to the chat panel.

use vstd::prelude::*;
use crate::shared::types::LoganAction;
use crate::text::decimal;

verus! {

/// The input set by an "Explain" action.
pub open spec fn explain_prompt(file: Seq<char>, line: usize, text: Seq<char>) -> Seq<char> {
    "Explain this log line from "@ + file + seq![':'] + decimal(line as nat) + "\n\n```\n"@ + text
        + "\n```"@
}

/// The prompt asking to explain a log line.
pub fn explain_message(file: &str, line: usize, text: &str) -> (r: String)
    ensures
        r@ == explain_prompt(file@, line, text@),
{
    let mut v: Vec<char> = Vec::new();
    crate::text::extend_str(&mut v, "Explain this log line from ");
    crate::text::extend_str(&mut v, file);
    v.push(':');
    crate::text::push_decimal(&mut v, line);
    crate::text::extend_str(&mut v, "\n\n```\n");
    crate::text::extend_str(&mut v, text);
    crate::text::extend_str(&mut v, "\n```");
    assert(v@ =~= explain_prompt(file@, line, text@));
    crate::text::from_chars(&v)
}

/// Applies an action to the panel's state: context chips are added (or,
/// for "Explain", cleared and the input set to the explanation prompt), and
/// the panel leaves its setup screen.  Returns whether the message is to be
/// sent at once.
pub fn apply_logan_action(
    action: LoganAction,
    chips: &mut Vec<(String, usize, String)>,
    input: &mut String,
    setup_done: &mut bool,
) -> (send: bool)
    ensures
        *final(setup_done),
        match action {
            LoganAction::AddContext { file, line, text } => {
                &&& !send
                &&& final(chips)@ == old(chips)@.push((file, line, text))
                &&& final(input)@ == old(input)@
            },
            LoganAction::AddMultipleContext { items } => {
                &&& !send
                &&& final(chips)@ == old(chips)@ + items@
                &&& final(input)@ == old(input)@
            },
            LoganAction::Explain { file, line, text } => {
                &&& send
                &&& final(chips)@.len() == 0
                &&& final(input)@ == explain_prompt(file@, line, text@)
            },
        },
{
    *setup_done = true;
    match action {
        LoganAction::AddContext { file, line, text } => {
            chips.push((file, line, text));
            false
        },
        LoganAction::AddMultipleContext { items } => {
            let ghost start = chips@;
            let mut i: usize = 0;
            while i < items.len()
                invariant
                    i <= items@.len(),
                    chips@ =~= start + items@.take(i as int),
                decreases items@.len() - i,
            {
                let it = &items[i];
                chips.push((it.0.clone(), it.1, it.2.clone()));
                assert(items@.take(i + 1) =~= items@.take(i as int).push(items@[i as int]));
                i += 1;
            }
            assert(items@.take(i as int) =~= items@);
            false
        },
        LoganAction::Explain { file, line, text } => {
            *input = explain_message(file.as_str(), line, text.as_str());
            chips.clear();
            true
        },
    }
}

} // verus!
