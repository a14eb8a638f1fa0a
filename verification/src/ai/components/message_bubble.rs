//! A message of the conversation.

use vstd::prelude::*;
use crate::ai::types::ChatMessage;
use crate::markdown::parser::md_spec;
use crate::text::to_chars;

verus! {

/// `&`, `<` and `>` replaced by their entities (quotes are kept).
pub open spec fn escape_plain(s: Seq<char>) -> Seq<char>
    decreases s.len(),
{
    if s.len() == 0 {
        seq![]
    } else {
        escape_plain(s.drop_last()) + if s.last() == '&' {
            "&amp;"@
        } else if s.last() == '<' {
            "&lt;"@
        } else if s.last() == '>' {
            "&gt;"@
        } else {
            seq![s.last()]
        }
    }
}

/// Law: a message shown as plain text holds no `<` or `>` once escaped, so
/// it cannot add markup to the bubble.
pub proof fn lemma_plain_text_inert(s: Seq<char>)
    ensures
        forall|i: int| 0 <= i < escape_plain(s).len() ==> {
            let c = #[trigger] escape_plain(s)[i];
            c != '<' && c != '>'
        },
    decreases s.len(),
{
    reveal_strlit("&amp;");
    reveal_strlit("&lt;");
    reveal_strlit("&gt;");
    if s.len() > 0 {
        lemma_plain_text_inert(s.drop_last());
        let a = escape_plain(s.drop_last());
        let b = if s.last() == '&' {
            "&amp;"@
        } else if s.last() == '<' {
            "&lt;"@
        } else if s.last() == '>' {
            "&gt;"@
        } else {
            seq![s.last()]
        };
        assert(escape_plain(s) == a + b);
        assert forall|i: int| 0 <= i < escape_plain(s).len() implies #[trigger] escape_plain(s)[i] != '<'
            && escape_plain(s)[i] != '>' by {
            if i < a.len() {
                assert(escape_plain(s)[i] == a[i]);
            } else {
                assert(escape_plain(s)[i] == b[i - a.len()]);
            }
        }
    }
}

/// The HTML of a message: the user's messages and errors are shown as
/// plain text, the assistant's replies as markdown.
pub open spec fn message_html_spec(content: Seq<char>, plain: bool, dark: bool) -> Seq<char> {
    if plain {
        "<div style='white-space:pre-wrap'>"@ + escape_plain(content) + "</div>"@
    } else {
        md_spec(content, dark, false)
    }
}

/// The HTML of a message bubble.
pub fn message_html(content: &str, is_user: bool, is_error: bool, dark: bool) -> (r: String)
    ensures
        r@ == message_html_spec(content@, is_user || is_error, dark),
{
    if is_user || is_error {
        let v = to_chars(content);
        let mut out = String::from_str("<div style='white-space:pre-wrap'>");
        let ghost start = out@;
        let mut i: usize = 0;
        while i < v.len()
            invariant
                i <= v.len(),
                out@ == start + escape_plain(v@.take(i as int)),
            decreases v.len() - i,
        {
            let c = v[i];
            assert(v@.take(i + 1).drop_last() =~= v@.take(i as int));
            assert(v@.take(i + 1).last() == c);
            if c == '&' {
                out.append("&amp;");
            } else if c == '<' {
                out.append("&lt;");
            } else if c == '>' {
                out.append("&gt;");
            } else {
                let ghost before = out@;
                crate::text::push_char(&mut out, c);
                assert(out@ =~= before + seq![c]);
            }
            i += 1;
        }
        assert(v@.take(i as int) =~= v@);
        out.append("</div>");
        out
    } else {
        crate::markdown::md_to_html(content, dark)
    }
}


/// Whether a message gets a "Retry" button: only the assistant's replies.
pub fn can_retry(message: &ChatMessage) -> (r: bool)
    ensures
        r == (message.role@ != "user"@ && message.role@ != "error"@),
{
    !message.is_user() && !message.is_error()
}

/// "Retry" on the reply at `index`: when the message before it is the
/// user's, the conversation is cut back to before that message and its
/// text is returned, to be put in the input and sent again; otherwise
/// nothing changes.
pub fn retry_message(messages: &mut Vec<ChatMessage>, index: usize) -> (r: Option<String>)
    ensures
        ({
            let ok = 0 < index <= old(messages)@.len() && old(messages)@[index - 1].role@ == "user"@;
            &&& ok ==> (r matches Some(s) && s@ == old(messages)@[index - 1].content@ && final(messages)@
                == old(messages)@.take(index - 1))
            &&& !ok ==> (r is None && final(messages)@ == old(messages)@)
        }),
{
    if index > 0 && index - 1 < messages.len() && messages[index - 1].is_user() {
        let text = messages[index - 1].content.clone();
        messages.truncate(index - 1);
        Some(text)
    } else {
        None
    }
}

} // verus!
