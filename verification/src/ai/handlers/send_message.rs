//! Building and sending a chat message.
//!
//! The message sent to the model holds each context chip (`[file:line]`
//! and its text), the first hundred entries of each mentioned open file,
//! and the typed text, separated by blank lines.  The message shown in the
//! conversation holds only the chip labels, the `@file` mentions and the
//! typed text.

use vstd::prelude::*;
use crate::ai::state::panel_state::{saved_greeting_spec, PanelState};
use crate::ai::types::{ChatMessage, Provider};
use crate::backend::types::{AiChatRequest, AiMessage};
use crate::shared::types::log_entry::{EntryView, LogEntry};
use crate::shared::types::log_file::{last_component, short_name_of, LogFile};
use crate::text::{
    chars_eq, decimal, extend_chars, extend_str, from_chars, join, join_chars, push_decimal,
    str_eq, to_chars, trim, trim_chars, views,
};

verus! {

/// A context chip: file, line and text.
pub open spec fn chip_part(c: (String, usize, String)) -> Seq<char> {
    seq!['['] + c.0@ + seq![':'] + decimal(c.1 as nat) + seq![']', '\n'] + c.2@
}

/// The label of a context chip.
pub open spec fn chip_label(c: (String, usize, String)) -> Seq<char> {
    seq!['['] + c.0@ + seq![':'] + decimal(c.1 as nat) + seq![']']
}

/// One entry as quoted for the model.
pub open spec fn entry_line(e: EntryView) -> Seq<char> {
    "[Line "@ + decimal(e.line as nat) + seq![']', ' '] + e.datetime + seq![' '] + e.status
        + seq![' '] + e.message
}

/// Index of the first file at or after `i` whose short name is `name`.
pub open spec fn file_index(files: Seq<LogFile>, name: Seq<char>, i: int) -> Option<int>
    decreases files.len() - i,
{
    if i < 0 || i >= files.len() {
        None
    } else if last_component(files[i].name@) == name {
        Some(i)
    } else {
        file_index(files, name, i + 1)
    }
}

/// The file found is at or after `i` and has the short name asked for.
pub proof fn lemma_file_index_range(files: Seq<LogFile>, name: Seq<char>, i: int)
    ensures
        file_index(files, name, i) matches Some(k) ==> 0 <= i <= k < files.len() && last_component(
            files[k].name@,
        ) == name,
    decreases files.len() - i,
{
    if 0 <= i < files.len() && last_component(files[i].name@) != name {
        lemma_file_index_range(files, name, i + 1);
    }
}

/// Number of entries of a mentioned file that are quoted.
pub open spec fn quoted_count(f: LogFile) -> int {
    if f.entries@.len() < 100 {
        f.entries@.len() as int
    } else {
        100
    }
}

/// A mentioned file as quoted for the model.
pub open spec fn file_part(name: Seq<char>, f: LogFile) -> Seq<char> {
    "File: @"@ + name + seq!['\n'] + join(
        f.entries@.take(quoted_count(f)).map_values(|e: LogEntry| entry_line(e@)),
        seq!['\n'],
    )
}

/// The quoted files of the mentions that name an open file.
pub open spec fn mention_parts(ms: Seq<String>, files: Seq<LogFile>) -> Seq<Seq<char>>
    decreases ms.len(),
{
    if ms.len() == 0 {
        seq![]
    } else {
        let rest = mention_parts(ms.drop_last(), files);
        match file_index(files, ms.last()@, 0) {
            Some(i) => rest.push(file_part(ms.last()@, files[i])),
            None => rest,
        }
    }
}

/// The typed text as a part, when there is any.
pub open spec fn msg_part(msg: Seq<char>) -> Seq<Seq<char>> {
    if msg.len() > 0 {
        seq![msg]
    } else {
        seq![]
    }
}

/// The message sent to the model.
pub open spec fn full_message(
    msg: Seq<char>,
    chips: Seq<(String, usize, String)>,
    mentions: Seq<String>,
    files: Seq<LogFile>,
) -> Seq<char> {
    join(
        chips.map_values(|c: (String, usize, String)| chip_part(c)) + mention_parts(mentions, files)
            + msg_part(msg),
        seq!['\n', '\n'],
    )
}

/// The message shown in the conversation.
pub open spec fn display_message(
    msg: Seq<char>,
    chips: Seq<(String, usize, String)>,
    mentions: Seq<String>,
) -> Seq<char> {
    join(
        chips.map_values(|c: (String, usize, String)| chip_label(c)) + mentions.map_values(
            |m: String| seq!['@'] + m@,
        ) + msg_part(msg),
        seq![' '],
    )
}

/// The text of a chip as sent to the model.
fn chip_text(c: &(String, usize, String), label_only: bool) -> (r: Vec<char>)
    ensures
        r@ == if label_only {
            chip_label(*c)
        } else {
            chip_part(*c)
        },
{
    let mut v: Vec<char> = Vec::new();
    v.push('[');
    extend_str(&mut v, c.0.as_str());
    v.push(':');
    push_decimal(&mut v, c.1);
    v.push(']');
    if !label_only {
        v.push('\n');
        extend_str(&mut v, c.2.as_str());
        assert(v@ =~= chip_part(*c));
    } else {
        assert(v@ =~= chip_label(*c));
    }
    v
}

/// One entry as quoted for the model.
fn entry_text(e: &LogEntry) -> (r: Vec<char>)
    ensures
        r@ == entry_line(e@),
{
    let mut v: Vec<char> = Vec::new();
    extend_str(&mut v, "[Line ");
    push_decimal(&mut v, e.line);
    v.push(']');
    v.push(' ');
    extend_str(&mut v, e.datetime.as_str());
    v.push(' ');
    extend_str(&mut v, e.status.as_str());
    v.push(' ');
    extend_str(&mut v, e.message.as_str());
    assert(v@ =~= entry_line(e@));
    v
}

/// Index of the first open file whose short name is `name`.
fn find_file(files: &[LogFile], name: &str) -> (r: Option<usize>)
    ensures
        match file_index(files@, name@, 0) {
            Some(i) => r == Some(i as usize),
            None => r is None,
        },
{
    let mut i: usize = 0;
    while i < files.len()
        invariant
            i <= files@.len(),
            file_index(files@, name@, 0) == file_index(files@, name@, i as int),
        decreases files@.len() - i,
    {
        let short = short_name_of(files[i].name.as_str());
        if str_eq(short.as_str(), name) {
            return Some(i);
        }
        i += 1;
    }
    None
}

/// A mentioned file as quoted for the model.
fn file_text(name: &str, f: &LogFile) -> (r: Vec<char>)
    ensures
        r@ == file_part(name@, *f),
{
    let n = if f.entries.len() < 100 {
        f.entries.len()
    } else {
        100
    };
    let ghost quoted = f.entries@.take(n as int).map_values(|e: LogEntry| entry_line(e@));
    let mut lines: Vec<Vec<char>> = Vec::new();
    let mut k: usize = 0;
    while k < n
        invariant
            k <= n <= f.entries@.len(),
            n == quoted_count(*f),
            quoted == f.entries@.take(n as int).map_values(|e: LogEntry| entry_line(e@)),
            views(lines@) =~= quoted.take(k as int),
        decreases n - k,
    {
        let t = entry_text(&f.entries[k]);
        lines.push(t);
        assert(quoted[k as int] == entry_line(f.entries@[k as int]@));
        assert(quoted.take(k + 1) =~= quoted.take(k as int).push(quoted[k as int]));
        k += 1;
    }
    assert(quoted.take(n as int) =~= quoted);
    let mut v: Vec<char> = Vec::new();
    extend_str(&mut v, "File: @");
    extend_str(&mut v, name);
    v.push('\n');
    let sep = vec!['\n'];
    assert(sep@ =~= seq!['\n']);
    let body = join_chars(&lines, &sep);
    extend_chars(&mut v, &body);
    assert(v@ =~= file_part(name@, *f));
    v
}

/// The message sent to the model.
pub fn build_full_message(
    msg: &str,
    chips: &[(String, usize, String)],
    mentions: &[String],
    open_files: &[LogFile],
) -> (r: String)
    ensures
        r@ == full_message(msg@, chips@, mentions@, open_files@),
{
    let mut parts: Vec<Vec<char>> = Vec::new();
    let ghost cm = chips@.map_values(|c: (String, usize, String)| chip_part(c));
    let mut i: usize = 0;
    while i < chips.len()
        invariant
            i <= chips@.len(),
            cm == chips@.map_values(|c: (String, usize, String)| chip_part(c)),
            views(parts@) =~= cm.take(i as int),
        decreases chips@.len() - i,
    {
        let t = chip_text(&chips[i], false);
        parts.push(t);
        assert(cm.take(i + 1) =~= cm.take(i as int).push(cm[i as int]));
        i += 1;
    }
    assert(cm.take(i as int) =~= cm);
    let mut j: usize = 0;
    while j < mentions.len()
        invariant
            j <= mentions@.len(),
            views(parts@) =~= cm + mention_parts(mentions@.take(j as int), open_files@),
        decreases mentions@.len() - j,
    {
        let ghost before = views(parts@);
        assert(mentions@.take(j + 1).drop_last() =~= mentions@.take(j as int));
        assert(mentions@.take(j + 1).last() == mentions@[j as int]);
        proof {
            lemma_file_index_range(open_files@, mentions@[j as int]@, 0);
        }
        match find_file(open_files, mentions[j].as_str()) {
            Some(fi) => {
                let t = file_text(mentions[j].as_str(), &open_files[fi]);
                parts.push(t);
                assert(views(parts@) =~= before.push(t@));
            },
            None => {},
        }
        j += 1;
    }
    assert(mentions@.take(j as int) =~= mentions@);
    let mv = to_chars(msg);
    if mv.len() > 0 {
        parts.push(mv);
    }
    assert(views(parts@) =~= cm + mention_parts(mentions@, open_files@) + msg_part(msg@));
    let sep = vec!['\n', '\n'];
    assert(sep@ =~= seq!['\n', '\n']);
    let r = join_chars(&parts, &sep);
    from_chars(&r)
}

/// The message shown in the conversation.
pub fn build_display_message(msg: &str, chips: &[(String, usize, String)], mentions: &[String]) -> (r:
    String)
    ensures
        r@ == display_message(msg@, chips@, mentions@),
{
    let mut parts: Vec<Vec<char>> = Vec::new();
    let ghost cm = chips@.map_values(|c: (String, usize, String)| chip_label(c));
    let ghost mm = mentions@.map_values(|m: String| seq!['@'] + m@);
    let mut i: usize = 0;
    while i < chips.len()
        invariant
            i <= chips@.len(),
            cm == chips@.map_values(|c: (String, usize, String)| chip_label(c)),
            views(parts@) =~= cm.take(i as int),
        decreases chips@.len() - i,
    {
        let t = chip_text(&chips[i], true);
        parts.push(t);
        assert(cm.take(i + 1) =~= cm.take(i as int).push(cm[i as int]));
        i += 1;
    }
    assert(cm.take(i as int) =~= cm);
    let mut j: usize = 0;
    while j < mentions.len()
        invariant
            j <= mentions@.len(),
            mm == mentions@.map_values(|m: String| seq!['@'] + m@),
            views(parts@) =~= cm + mm.take(j as int),
        decreases mentions@.len() - j,
    {
        let mut t: Vec<char> = Vec::new();
        t.push('@');
        extend_str(&mut t, mentions[j].as_str());
        assert(t@ =~= mm[j as int]);
        let ghost before = views(parts@);
        parts.push(t);
        assert(views(parts@) =~= before.push(mm[j as int]));
        assert(mm.take(j + 1) =~= mm.take(j as int).push(mm[j as int]));
        j += 1;
    }
    assert(mm.take(j as int) =~= mm);
    let mv = to_chars(msg);
    if mv.len() > 0 {
        parts.push(mv);
    }
    assert(views(parts@) =~= cm + mm + msg_part(msg@));
    let sep = vec![' '];
    assert(sep@ =~= seq![' ']);
    let r = join_chars(&parts, &sep);
    from_chars(&r)
}

/// The model to ask: the configured one, or the provider's default.
pub fn get_model_name(model: &str, provider: &Provider) -> (r: String)
    ensures
        r@ == if model@.len() == 0 {
            provider.default_model_spec()
        } else {
            model@
        },
{
    if model.is_empty() {
        String::from_str(provider.default_model())
    } else {
        String::from_str(model)
    }
}

/// The conversation as (role, content) pairs, errors left out.
pub open spec fn history_spec(ms: Seq<ChatMessage>) -> Seq<(Seq<char>, Seq<char>)>
    decreases ms.len(),
{
    if ms.len() == 0 {
        seq![]
    } else {
        let rest = history_spec(ms.drop_last());
        if ms.last().role@ == "error"@ {
            rest
        } else {
            rest.push((ms.last().role@, ms.last().content@))
        }
    }
}

/// Law: the conversation history sent with a request holds no error
/// message, and no more messages than the conversation.
pub proof fn lemma_history_has_no_errors(ms: Seq<ChatMessage>)
    ensures
        history_spec(ms).len() <= ms.len(),
        forall|i: int| 0 <= i < history_spec(ms).len() ==> (#[trigger] history_spec(ms)[i]).0 != "error"@,
    decreases ms.len(),
{
    if ms.len() > 0 {
        lemma_history_has_no_errors(ms.drop_last());
    }
}

/// The views of (role, content) pairs.
pub open spec fn pair_views(v: Seq<(String, String)>) -> Seq<(Seq<char>, Seq<char>)> {
    v.map_values(|p: (String, String)| (p.0@, p.1@))
}

/// The conversation so far, without the error messages.
pub fn get_message_history(messages: &[ChatMessage]) -> (r: Vec<(String, String)>)
    ensures
        pair_views(r@) == history_spec(messages@),
{
    let mut out: Vec<(String, String)> = Vec::new();
    let mut i: usize = 0;
    while i < messages.len()
        invariant
            i <= messages@.len(),
            pair_views(out@) =~= history_spec(messages@.take(i as int)),
        decreases messages@.len() - i,
    {
        let m = &messages[i];
        assert(messages@.take(i + 1).drop_last() =~= messages@.take(i as int));
        assert(messages@.take(i + 1).last() == messages@[i as int]);
        if !m.is_error() {
            let ghost before = out@;
            out.push((m.role.clone(), m.content.clone()));
            assert(pair_views(out@) =~= pair_views(before).push((m.role@, m.content@)));
        }
        i += 1;
    }
    assert(messages@.take(i as int) =~= messages@);
    out
}


/// The instructions sent first in every conversation.
pub open spec fn system_prompt_spec() -> Seq<char> {
    "You are Logan, an expert log analysis assistant. Be concise and precise. Answer directly without unnecessary explanations. Use markdown for code/logs."@
}

/// The instructions sent first in every conversation.
pub fn system_prompt() -> (r: &'static str)
    ensures
        r@ == system_prompt_spec(),
{
    "You are Logan, an expert log analysis assistant. Be concise and precise. Answer directly without unnecessary explanations. Use markdown for code/logs."
}

/// The (role, content) pairs of request messages.
pub open spec fn message_views(v: Seq<AiMessage>) -> Seq<(Seq<char>, Seq<char>)> {
    v.map_values(|m: AiMessage| (m.role@, m.content@))
}

/// The messages of a request: the instructions, the history, then the
/// user's message.
pub open spec fn request_messages_spec(
    history: Seq<(Seq<char>, Seq<char>)>,
    user_message: Seq<char>,
) -> Seq<(Seq<char>, Seq<char>)> {
    seq![("system"@, system_prompt_spec())] + history + seq![("user"@, user_message)]
}

/// The messages of a request: the instructions, the history, then the
/// user's message.
pub fn request_messages(history: &[(String, String)], user_message: &str) -> (r: Vec<AiMessage>)
    ensures
        message_views(r@) == request_messages_spec(pair_views(history@), user_message@),
{
    let mut out: Vec<AiMessage> = Vec::new();
    out.push(AiMessage { role: String::from_str("system"), content: String::from_str(system_prompt()) });
    let mut i: usize = 0;
    while i < history.len()
        invariant
            i <= history@.len(),
            message_views(out@) =~= seq![("system"@, system_prompt_spec())] + pair_views(history@).take(i as int),
        decreases history@.len() - i,
    {
        let ghost before = message_views(out@);
        out.push(AiMessage { role: history[i].0.clone(), content: history[i].1.clone() });
        assert(message_views(out@) =~= before.push((history@[i as int].0@, history@[i as int].1@)));
        assert(pair_views(history@).take(i + 1) =~= pair_views(history@).take(i as int).push(
            (history@[i as int].0@, history@[i as int].1@),
        ));
        i += 1;
    }
    assert(pair_views(history@).take(i as int) =~= pair_views(history@));
    let ghost before = message_views(out@);
    out.push(AiMessage { role: String::from_str("user"), content: String::from_str(user_message) });
    assert(message_views(out@) =~= before.push(("user"@, user_message@)));
    out
}

/// What sending does: the message shown in the conversation and the
/// request made to the back end.
pub struct SendPlan {
    pub display: String,
    pub request: AiChatRequest,
}

/// Decides whether the typed text, chips and mentions are sent, and what is
/// sent.  Nothing is sent while a reply is awaited, without an API key, or
/// when there is nothing to send.  The history is taken before the new
/// message is added to the conversation.
pub fn plan_send(
    input: &str,
    chips: &[(String, usize, String)],
    mentions: &[String],
    open_files: &[LogFile],
    loading: bool,
    api_key: &str,
    provider: &Provider,
    model: &str,
    messages: &[ChatMessage],
) -> (r: Option<SendPlan>)
    ensures
        ({
            let msg = trim(input@);
            let full = full_message(msg, chips@, mentions@, open_files@);
            match r {
                None => full.len() == 0 || loading || api_key@.len() == 0,
                Some(p) => {
                    &&& full.len() != 0 && !loading && api_key@.len() != 0
                    &&& p.display@ == display_message(msg, chips@, mentions@)
                    &&& p.request.provider@ == provider.id()
                    &&& p.request.api_key@ == api_key@
                    &&& p.request.model@ == (if model@.len() == 0 {
                        provider.default_model_spec()
                    } else {
                        model@
                    })
                    &&& message_views(p.request.messages@) == request_messages_spec(
                        history_spec(messages@),
                        full,
                    )
                },
            }
        }),
{
    let iv = to_chars(input);
    let mv = trim_chars(&iv);
    let msg = from_chars(&mv);
    let full = build_full_message(msg.as_str(), chips, mentions, open_files);
    let display = build_display_message(msg.as_str(), chips, mentions);
    if full.as_str().is_empty() || loading {
        return None;
    }
    if api_key.is_empty() {
        return None;
    }
    let mdl = get_model_name(model, provider);
    let history = get_message_history(messages);
    let msgs = request_messages(history.as_slice(), full.as_str());
    Some(SendPlan {
        display,
        request: AiChatRequest {
            provider: String::from_str(provider.to_str()),
            api_key: String::from_str(api_key),
            model: mdl,
            messages: msgs,
        },
    })
}

/// The shape of the back end's reply as seen by the front end.
pub enum AiReply {
    /// The reply is a string.
    Text(String),
    /// The reply has an `Ok` field, a string or not.
    OkField(Option<String>),
    /// The reply has an `Err` field: its text if it is a string, and the
    /// debug rendering of the whole reply.
    ErrField(Option<String>, String),
    /// Anything else: its JSON text, if it has one.
    Other(Option<String>),
}

/// The conversation message made of a reply.
pub open spec fn reply_spec(reply: AiReply) -> (Seq<char>, Seq<char>) {
    match reply {
        AiReply::Text(s) => ("assistant"@, s@),
        AiReply::OkField(Some(s)) => ("assistant"@, s@),
        AiReply::OkField(None) => ("error"@, "Empty response from API."@),
        AiReply::ErrField(Some(e), _) => ("error"@, "Error: "@ + e@),
        AiReply::ErrField(None, d) => ("error"@, "Error: "@ + d@),
        AiReply::Other(Some(raw)) => ("error"@, "Unexpected response: "@ + raw@),
        AiReply::Other(None) => ("error"@, "Unexpected response: "@ + "Unknown response"@),
    }
}

/// Turns the back end's reply into a conversation message: the assistant's
/// text, or an error message.
pub fn reply_message(reply: AiReply) -> (r: ChatMessage)
    ensures
        (r.role@, r.content@) == reply_spec(reply),
{
    match reply {
        AiReply::Text(s) => ChatMessage::assistant(s),
        AiReply::OkField(Some(s)) => ChatMessage::assistant(s),
        AiReply::OkField(None) => ChatMessage::error(String::from_str("Empty response from API.")),
        AiReply::ErrField(Some(e), _) => {
            let mut c = String::from_str("Error: ");
            c.append(e.as_str());
            ChatMessage::error(c)
        },
        AiReply::ErrField(None, d) => {
            let mut c = String::from_str("Error: ");
            c.append(d.as_str());
            ChatMessage::error(c)
        },
        AiReply::Other(Some(raw)) => {
            let mut c = String::from_str("Unexpected response: ");
            c.append(raw.as_str());
            ChatMessage::error(c)
        },
        AiReply::Other(None) => {
            let mut c = String::from_str("Unexpected response: ");
            c.append("Unknown response");
            ChatMessage::error(c)
        },
    }
}

/// The conversation `after` is `before` with one more message, of this
/// role and content.
pub open spec fn appended(before: Seq<ChatMessage>, after: Seq<ChatMessage>, role: Seq<char>, content: Seq<char>) -> bool {
    &&& after.len() == before.len() + 1
    &&& forall|i: int| 0 <= i < before.len() ==> after[i] == before[i]
    &&& after.last().role@ == role
    &&& after.last().content@ == content
}

/// The chat panel: its settings and conversation, what is being typed
/// (text, context chips and `@` mentions) and whether a reply is awaited.
pub struct ChatPanel {
    pub state: PanelState,
    pub input: String,
    pub chips: Vec<(String, usize, String)>,
    pub mentioned: Vec<String>,
    pub loading: bool,
}

impl ChatPanel {
    /// The panel as it opens: the state from the saved settings (see
    /// `PanelState::new`), nothing typed, no chip or mention, and no reply
    /// awaited.
    pub fn new(provider: Provider, api_key: String, model: String) -> (r: Self)
        ensures
            r.state.provider == provider,
            r.state.api_key == api_key,
            r.state.model == model,
            r.state.setup_done == (api_key@.len() > 0),
            r.state.setup_done ==> r.state.messages@.len() == 1 && r.state.messages@[0].role@ == "assistant"@
                && r.state.messages@[0].content@ == saved_greeting_spec(),
            !r.state.setup_done ==> r.state.messages@.len() == 0,
            r.input@.len() == 0,
            r.chips@.len() == 0,
            r.mentioned@.len() == 0,
            !r.loading,
    {
        ChatPanel {
            state: PanelState::new(provider, api_key, model),
            input: String::new(),
            chips: Vec::new(),
            mentioned: Vec::new(),
            loading: false,
        }
    }

    /// Starts sending what was typed (see `plan_send`).  When something is
    /// sent, the input, chips and mentions are cleared, a reply is awaited,
    /// the message shown is added to the conversation, and the request to
    /// make is returned; otherwise nothing changes.
    pub fn start_send(&mut self, open_files: &[LogFile]) -> (r: Option<AiChatRequest>)
        ensures
            ({
                let msg = trim(old(self).input@);
                let full = full_message(msg, old(self).chips@, old(self).mentioned@, open_files@);
                match r {
                    None => {
                        &&& full.len() == 0 || old(self).loading || old(self).state.api_key@.len() == 0
                        &&& *final(self) == *old(self)
                    },
                    Some(req) => {
                        &&& full.len() != 0 && !old(self).loading && old(self).state.api_key@.len() != 0
                        &&& final(self).input@.len() == 0
                        &&& final(self).chips@.len() == 0
                        &&& final(self).mentioned@.len() == 0
                        &&& final(self).loading
                        &&& final(self).state.provider == old(self).state.provider
                        &&& final(self).state.api_key == old(self).state.api_key
                        &&& final(self).state.model == old(self).state.model
                        &&& final(self).state.setup_done == old(self).state.setup_done
                        &&& appended(
                            old(self).state.messages@,
                            final(self).state.messages@,
                            "user"@,
                            display_message(msg, old(self).chips@, old(self).mentioned@),
                        )
                        &&& req.provider@ == old(self).state.provider.id()
                        &&& req.api_key@ == old(self).state.api_key@
                        &&& req.model@ == (if old(self).state.model@.len() == 0 {
                            old(self).state.provider.default_model_spec()
                        } else {
                            old(self).state.model@
                        })
                        &&& message_views(req.messages@) == request_messages_spec(
                            history_spec(old(self).state.messages@),
                            full,
                        )
                    },
                }
            }),
    {
        let plan = plan_send(
            self.input.as_str(),
            self.chips.as_slice(),
            self.mentioned.as_slice(),
            open_files,
            self.loading,
            self.state.api_key.as_str(),
            &self.state.provider,
            self.state.model.as_str(),
            self.state.messages.as_slice(),
        );
        match plan {
            None => None,
            Some(p) => {
                self.input = String::new();
                self.chips = Vec::new();
                self.mentioned = Vec::new();
                self.loading = true;
                self.state.messages.push(ChatMessage::user(p.display));
                Some(p.request)
            },
        }
    }

    /// Ends sending: no reply is awaited any more, and the reply (or the
    /// error) is added to the conversation.
    pub fn finish_send(&mut self, reply: AiReply)
        ensures
            !final(self).loading,
            final(self).input == old(self).input,
            final(self).chips == old(self).chips,
            final(self).mentioned == old(self).mentioned,
            final(self).state.provider == old(self).state.provider,
            final(self).state.api_key == old(self).state.api_key,
            final(self).state.model == old(self).state.model,
            final(self).state.setup_done == old(self).state.setup_done,
            appended(old(self).state.messages@, final(self).state.messages@, reply_spec(reply).0, reply_spec(reply).1),
    {
        let m = reply_message(reply);
        self.loading = false;
        self.state.messages.push(m);
    }
}

} // verus!
