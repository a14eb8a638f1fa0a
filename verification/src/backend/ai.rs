//! Chat-provider helpers of the back end: routing a request to its
//! provider, the Gemini conversation format, the request URL and model,
//! and reading the reply text out of a provider's JSON answer.

use vstd::prelude::*;
use crate::backend::types::{AiChatRequest, AiMessage};
use crate::text::{extend_str, from_chars, str_eq};

verus! {

/// Where a chat request goes.
#[derive(Debug, Clone, Copy, PartialEq, Eq, Structural)]
pub enum ChatRoute {
    Gemini,
    OpenAI,
}

/// The provider of a request: "gemini" or "openai"; any other name is
/// refused with "Unknown provider: <name>".
pub fn route_provider(provider: &str) -> (r: Result<ChatRoute, String>)
    ensures
        provider@ == "gemini"@ ==> r == Ok::<ChatRoute, String>(ChatRoute::Gemini),
        provider@ != "gemini"@ && provider@ == "openai"@ ==> r == Ok::<ChatRoute, String>(ChatRoute::OpenAI),
        provider@ != "gemini"@ && provider@ != "openai"@ ==> (r matches Err(m) && m@ == "Unknown provider: "@ + provider@),
{
    if str_eq(provider, "gemini") {
        Ok(ChatRoute::Gemini)
    } else if str_eq(provider, "openai") {
        Ok(ChatRoute::OpenAI)
    } else {
        let mut m = String::from_str("Unknown provider: ");
        m.append(provider);
        Err(m)
    }
}

/// The message shown when the provider does not answer in time.
pub fn timeout_message() -> (r: &'static str)
    ensures
        r@ == "Request timed out after 30 seconds."@,
{
    "Request timed out after 30 seconds."
}

/// The model of a request: the one asked for, or the route's default.
pub open spec fn request_model_spec(model: Seq<char>, route: ChatRoute) -> Seq<char> {
    if model.len() == 0 {
        match route {
            ChatRoute::Gemini => "gemini-1.5-flash"@,
            ChatRoute::OpenAI => "gpt-4o-mini"@,
        }
    } else {
        model
    }
}

/// The model of a request: the one asked for, or the route's default.
pub fn request_model(model: &str, route: ChatRoute) -> (r: String)
    ensures
        r@ == request_model_spec(model@, route),
{
    if model.is_empty() {
        match route {
            ChatRoute::Gemini => String::from_str("gemini-1.5-flash"),
            ChatRoute::OpenAI => String::from_str("gpt-4o-mini"),
        }
    } else {
        String::from_str(model)
    }
}

/// The Gemini endpoint for a model and key.
pub open spec fn gemini_url_spec(model: Seq<char>, api_key: Seq<char>) -> Seq<char> {
    "https://generativelanguage.googleapis.com/v1beta/models/"@ + model + ":generateContent?key="@
        + api_key
}

/// The Gemini endpoint for a model and key.
pub fn gemini_url(model: &str, api_key: &str) -> (r: String)
    ensures
        r@ == gemini_url_spec(model@, api_key@),
{
    let mut u = String::from_str("https://generativelanguage.googleapis.com/v1beta/models/");
    u.append(model);
    u.append(":generateContent?key=");
    u.append(api_key);
    u
}

/// One turn of a Gemini conversation.
#[derive(Debug, Clone)]
pub struct GeminiTurn {
    /// "user" or "model".
    pub role: String,
    pub text: String,
}

/// The content of the first "system" message, if there is one.
pub open spec fn first_system(ms: Seq<AiMessage>) -> Option<Seq<char>>
    decreases ms.len(),
{
    if ms.len() == 0 {
        None
    } else if first_system(ms.drop_last()) is Some {
        first_system(ms.drop_last())
    } else if ms.last().role@ == "system"@ {
        Some(ms.last().content@)
    } else {
        None
    }
}

/// The system text: the content of the first "system" message (empty when
/// there is none).
pub open spec fn system_text(ms: Seq<AiMessage>) -> Seq<char> {
    match first_system(ms) {
        Some(c) => c,
        None => seq![],
    }
}

/// The messages that are not "system" ones.
pub open spec fn not_system() -> spec_fn(AiMessage) -> bool {
    |m: AiMessage| m.role@ != "system"@
}

/// The Gemini role of a message.
pub open spec fn gemini_role(m: AiMessage) -> Seq<char> {
    if m.role@ == "assistant"@ {
        "model"@
    } else {
        "user"@
    }
}

/// Position of the first message of `chat` that becomes a user turn
/// (`chat.len()` when there is none).
pub open spec fn first_user(chat: Seq<AiMessage>) -> int
    decreases chat.len(),
{
    if chat.len() == 0 {
        0
    } else {
        let k = first_user(chat.drop_last());
        if k < chat.len() - 1 {
            k
        } else if gemini_role(chat.last()) == "user"@ {
            chat.len() - 1
        } else {
            chat.len() as int
        }
    }
}

/// `first_user` is the first user turn, or the length when there is none.
pub proof fn lemma_first_user(chat: Seq<AiMessage>)
    ensures
        0 <= first_user(chat) <= chat.len(),
        first_user(chat) < chat.len() ==> gemini_role(chat[first_user(chat)]) == "user"@,
        forall|j: int| 0 <= j < first_user(chat) ==> gemini_role(#[trigger] chat[j]) != "user"@,
    decreases chat.len(),
{
    if chat.len() > 0 {
        lemma_first_user(chat.drop_last());
        assert forall|j: int| 0 <= j < first_user(chat) implies gemini_role(#[trigger] chat[j]) != "user"@ by {
            if j < chat.len() - 1 {
                assert(chat[j] == chat.drop_last()[j]);
            }
        }
    }
}

/// The `i`-th Gemini turn of `m`: the system text (when not empty) and a
/// blank line are put before the first user turn, at `u`.
pub open spec fn gemini_turn(m: AiMessage, i: int, u: int, sys: Seq<char>) -> (Seq<char>, Seq<char>) {
    (gemini_role(m), if i == u && sys.len() > 0 {
        sys + "\n\n"@ + m.content@
    } else {
        m.content@
    })
}

/// The turns of a Gemini conversation.
pub open spec fn gemini_contents_spec(ms: Seq<AiMessage>) -> Seq<(Seq<char>, Seq<char>)> {
    let chat = ms.filter(not_system());
    Seq::new(chat.len(), |i: int| gemini_turn(chat[i], i, first_user(chat), system_text(ms)))
}

/// Law: the Gemini conversation has one turn per message that is not a
/// "system" one, in order, each from "user" or "model"; only the first user
/// turn can carry the system text, and every other turn is its message's
/// text.
pub proof fn lemma_gemini_turns(ms: Seq<AiMessage>)
    ensures
        gemini_contents_spec(ms).len() == ms.filter(not_system()).len(),
        forall|i: int|
            0 <= i < gemini_contents_spec(ms).len() ==> {
                let t = #[trigger] gemini_contents_spec(ms)[i];
                &&& (t.0 == "user"@ || t.0 == "model"@)
                &&& (i != first_user(ms.filter(not_system())) ==> t.1 == ms.filter(not_system())[i].content@)
            },
{
}

/// The views of Gemini turns.
pub open spec fn turn_views(v: Seq<GeminiTurn>) -> Seq<(Seq<char>, Seq<char>)> {
    v.map_values(|t: GeminiTurn| (t.role@, t.text@))
}

/// The conversation in Gemini's format, which needs alternating user and
/// model turns: "system" messages are taken out and the first one's text is
/// put, with a blank line, before the first user turn; "assistant" becomes
/// "model".  With no message left the request is refused.
pub fn build_gemini_contents(messages: &[AiMessage]) -> (r: Result<Vec<GeminiTurn>, String>)
    ensures
        match r {
            Ok(v) => messages@.filter(not_system()).len() > 0 && turn_views(v@) == gemini_contents_spec(messages@),
            Err(e) => messages@.filter(not_system()).len() == 0 && e@ == "No messages to send."@,
        },
{
    let ghost ms = messages@;
    let ghost pred = not_system();
    let mut system = String::new();
    let mut found = false;
    let mut chat: Vec<AiMessage> = Vec::new();
    let mut i: usize = 0;
    while i < messages.len()
        invariant
            i <= ms.len(),
            ms == messages@,
            pred == not_system(),
            found == first_system(ms.take(i as int)) is Some,
            system@ == system_text(ms.take(i as int)),
            chat@ == ms.take(i as int).filter(pred),
        decreases ms.len() - i,
    {
        let m = &messages[i];
        assert(ms.take(i + 1).drop_last() =~= ms.take(i as int));
        assert(ms.take(i + 1).last() == ms[i as int]);
        proof {
            reveal_with_fuel(Seq::<_>::filter, 1);
        }
        if str_eq(m.role.as_str(), "system") {
            if !found {
                system = m.content.clone();
                found = true;
            }
        } else {
            chat.push(AiMessage { role: m.role.clone(), content: m.content.clone() });
        }
        i += 1;
    }
    assert(ms.take(i as int) =~= ms);
    if chat.len() == 0 {
        return Err(String::from_str("No messages to send."));
    }
    let mut out: Vec<GeminiTurn> = Vec::new();
    let ghost sys = system_text(ms);
    let ghost u = first_user(chat@);
    proof {
        lemma_first_user(chat@);
    }
    let mut placed = false;
    let mut j: usize = 0;
    while j < chat.len()
        invariant
            j <= chat@.len(),
            chat@ == ms.filter(pred),
            pred == not_system(),
            system@ == sys,
            sys == system_text(ms),
            u == first_user(chat@),
            0 <= u <= chat@.len(),
            u < chat@.len() ==> gemini_role(chat@[u]) == "user"@,
            forall|k: int| 0 <= k < u ==> gemini_role(#[trigger] chat@[k]) != "user"@,
            placed == (u < j),
            turn_views(out@) =~= gemini_contents_spec(ms).take(j as int),
        decreases chat@.len() - j,
    {
        let m = &chat[j];
        let is_model = str_eq(m.role.as_str(), "assistant");
        let role = if is_model {
            String::from_str("model")
        } else {
            String::from_str("user")
        };
        proof {
            reveal_strlit("model");
            reveal_strlit("user");
            assert("model"@ != "user"@);
        }
        let at_first_user = !placed && !is_model;
        if at_first_user {
            assert(j as int == u);
            placed = true;
        } else {
            assert(j as int != u);
        }
        let text = if at_first_user && !system.as_str().is_empty() {
            let mut t = system.clone();
            t.append("\n\n");
            t.append(m.content.as_str());
            t
        } else {
            m.content.clone()
        };
        let ghost before = turn_views(out@);
        out.push(GeminiTurn { role, text });
        assert(gemini_contents_spec(ms)[j as int] == gemini_turn(chat@[j as int], j as int, u, sys));
        assert(turn_views(out@) =~= before.push(gemini_turn(chat@[j as int], j as int, u, sys)));
        assert(gemini_contents_spec(ms).take(j + 1) =~= gemini_contents_spec(ms).take(j as int).push(
            gemini_contents_spec(ms)[j as int],
        ));
        j += 1;
    }
    assert(gemini_contents_spec(ms).take(j as int) =~= gemini_contents_spec(ms));
    Ok(out)
}

// ---------------------------------------------------------------------------
// Provider replies (JSON)
// ---------------------------------------------------------------------------

/// `serde_json::Error`.
#[verifier::external_type_specification]
#[verifier::external_body]
pub struct ExJsonError(serde_json::Error);

/// `serde_json::Value`.
#[verifier::external_type_specification]
#[verifier::external_body]
pub struct ExJsonValue(serde_json::Value);

/// The strings held in a JSON value, each under its path from the root.  A
/// step of a path is `(key, -1)` into an object's member `key`, or
/// `(empty, i)` into an array's element `i`.  A string value holds one
/// string, under the empty path; `null`, booleans and numbers hold none.
pub uninterp spec fn json_strings(v: serde_json::Value) -> Map<Seq<(Seq<char>, int)>, Seq<char>>;

/// What `serde_json` reads from a text: `None` when it is not one JSON
/// value, else the strings of that value (as `json_strings` gives them).
pub uninterp spec fn json_text_strings(text: Seq<char>) -> Option<Map<Seq<(Seq<char>, int)>, Seq<char>>>;

/// The strings of `m` under the path step `step`, with that step taken off.
pub open spec fn json_below(m: Map<Seq<(Seq<char>, int)>, Seq<char>>, step: (Seq<char>, int)) -> Map<
    Seq<(Seq<char>, int)>,
    Seq<char>,
> {
    Map::new(|p: Seq<(Seq<char>, int)>| m.dom().contains(seq![step] + p), |p: Seq<(Seq<char>, int)>| m[seq![step] + p])
}

/// The strings of `m` under the path `prefix`, with the prefix taken off.
pub open spec fn json_under(m: Map<Seq<(Seq<char>, int)>, Seq<char>>, prefix: Seq<(Seq<char>, int)>) -> Map<
    Seq<(Seq<char>, int)>,
    Seq<char>,
> {
    Map::new(|p: Seq<(Seq<char>, int)>| m.dom().contains(prefix + p), |p: Seq<(Seq<char>, int)>| m[prefix + p])
}

/// The string at `path` in `m`, if there is one.
pub open spec fn json_string_at(m: Map<Seq<(Seq<char>, int)>, Seq<char>>, path: Seq<(Seq<char>, int)>) -> Option<Seq<char>> {
    if m.dom().contains(path) {
        Some(m[path])
    } else {
        None
    }
}

/// `serde_json::from_str::<serde_json::Value>`.  The contract states that
/// the parse succeeds exactly when `serde_json` reads the text as one JSON
/// value, and that the value's strings are those read from the text (both
/// named by `json_text_strings`).
#[verifier::external_body]
fn json_parse(text: &str) -> (r: Result<serde_json::Value, serde_json::Error>)
    ensures
        r is Ok <==> json_text_strings(text@) is Some,
        r matches Ok(v) ==> json_text_strings(text@) == Some(json_strings(v)),
{
    serde_json::from_str(text)
}

/// `Value`'s index by a key, `&v[key]`: the member `key` of an object, and
/// `null` for a missing member or a value that is not an object (it never
/// panics).  Its strings are those of `v` under the step into `key`.
#[verifier::external_body]
fn json_key<'a>(v: &'a serde_json::Value, key: &str) -> (r: &'a serde_json::Value)
    ensures
        json_strings(*r) == json_below(json_strings(*v), (key@, -1)),
{
    &v[key]
}

/// `Value`'s index by a position, `&v[i]`: the element `i` of an array, and
/// `null` past its end or for a value that is not an array (it never
/// panics).  Its strings are those of `v` under the step into element `i`.
#[verifier::external_body]
fn json_index<'a>(v: &'a serde_json::Value, i: usize) -> (r: &'a serde_json::Value)
    ensures
        json_strings(*r) == json_below(json_strings(*v), (seq![], i as int)),
{
    &v[i]
}

/// `Value::as_str`: the string of a string value, `None` for any other.
#[verifier::external_body]
fn json_as_str<'a>(v: &'a serde_json::Value) -> (r: Option<&'a str>)
    ensures
        match r {
            Some(s) => json_strings(*v).dom().contains(seq![]) && json_strings(*v)[seq![]] == s@,
            None => !json_strings(*v).dom().contains(seq![]),
        },
{
    v.as_str()
}

/// The `Display` text of a `serde_json::Error`.  Nothing is stated of it:
/// the error is opaque here.
#[verifier::external_body]
fn json_error_text(e: &serde_json::Error) -> (r: String) {
    e.to_string()
}

/// One step of a path into a JSON value.
pub enum PathStep {
    /// The member of an object with this key.
    Key(String),
    /// The element of an array at this position.
    Index(usize),
}

/// The step as the strings of `json_strings` index it.
pub open spec fn step_view(s: PathStep) -> (Seq<char>, int) {
    match s {
        PathStep::Key(k) => (k@, -1),
        PathStep::Index(i) => (seq![], i as int),
    }
}

/// The steps of a path.
pub open spec fn path_view(p: Seq<PathStep>) -> Seq<(Seq<char>, int)> {
    p.map_values(|s: PathStep| step_view(s))
}

/// The string found in `v` by following `path`, if it leads to a string.
pub fn json_string_at_path(v: &serde_json::Value, path: &Vec<PathStep>) -> (r: Option<String>)
    ensures
        opt_view(r) == json_string_at(json_strings(*v), path_view(path@)),
{
    let ghost m = json_strings(*v);
    let ghost pv = path_view(path@);
    let mut cur: &serde_json::Value = v;
    let mut i: usize = 0;
    assert(json_under(m, pv.take(0)) =~= m) by {
        assert forall|q: Seq<(Seq<char>, int)>| #[trigger] (pv.take(0) + q) == q by {
            assert(pv.take(0) + q =~= q);
        }
    }
    while i < path.len()
        invariant
            i <= path@.len(),
            m == json_strings(*v),
            pv == path_view(path@),
            json_strings(*cur) == json_under(m, pv.take(i as int)),
        decreases path@.len() - i,
    {
        let ghost pre = pv.take(i as int);
        let ghost step = pv[i as int];
        let next = match &path[i] {
            PathStep::Key(k) => json_key(cur, k.as_str()),
            PathStep::Index(n) => json_index(cur, *n),
        };
        assert(step == step_view(path@[i as int]));
        assert(json_strings(*next) == json_below(json_under(m, pre), step));
        assert forall|q: Seq<(Seq<char>, int)>| #[trigger] (pv.take(i + 1) + q) == pre + (seq![step] + q) by {
            assert(pv.take(i + 1) + q =~= pre + (seq![step] + q));
        }
        assert(json_below(json_under(m, pre), step) =~= json_under(m, pv.take(i + 1)));
        cur = next;
        i += 1;
    }
    assert(pv.take(i as int) =~= pv);
    assert(pv + seq![] =~= pv);
    match json_as_str(cur) {
        Some(s) => Some(String::from_str(s)),
        None => None,
    }
}

/// Where Gemini puts the reply: `candidates[0].content.parts[0].text`.
pub open spec fn gemini_path() -> Seq<(Seq<char>, int)> {
    seq![("candidates"@, -1), (seq![], 0), ("content"@, -1), ("parts"@, -1), (seq![], 0), ("text"@, -1)]
}

/// Where OpenAI puts the reply: `choices[0].message.content`.
pub open spec fn openai_path() -> Seq<(Seq<char>, int)> {
    seq![("choices"@, -1), (seq![], 0), ("message"@, -1), ("content"@, -1)]
}

/// The reply string found at `path` in the JSON read from `text`.
pub open spec fn reply_text_at(text: Seq<char>, path: Seq<(Seq<char>, int)>) -> Option<Seq<char>> {
    match json_text_strings(text) {
        Some(m) => json_string_at(m, path),
        None => None,
    }
}

/// The string at Gemini's reply path in the JSON read from the text, if any.
pub open spec fn gemini_reply_text(text: Seq<char>) -> Option<Seq<char>> {
    reply_text_at(text, gemini_path())
}

/// The string at OpenAI's reply path in the JSON read from the text, if any.
pub open spec fn openai_reply_text(text: Seq<char>) -> Option<Seq<char>> {
    reply_text_at(text, openai_path())
}

/// Whether `serde_json` reads the text as one JSON value.
pub open spec fn json_value_ok(text: Seq<char>) -> bool {
    json_text_strings(text) is Some
}

/// The view of an optional string.
pub open spec fn opt_view(o: Option<String>) -> Option<Seq<char>> {
    match o {
        Some(s) => Some(s@),
        None => None,
    }
}

/// The path `candidates[0].content.parts[0].text`.
fn gemini_steps() -> (r: Vec<PathStep>)
    ensures
        path_view(r@) == gemini_path(),
{
    let r = vec![
        PathStep::Key(String::from_str("candidates")),
        PathStep::Index(0),
        PathStep::Key(String::from_str("content")),
        PathStep::Key(String::from_str("parts")),
        PathStep::Index(0),
        PathStep::Key(String::from_str("text")),
    ];
    assert(path_view(r@) =~= gemini_path());
    r
}

/// The path `choices[0].message.content`.
fn openai_steps() -> (r: Vec<PathStep>)
    ensures
        path_view(r@) == openai_path(),
{
    let r = vec![
        PathStep::Key(String::from_str("choices")),
        PathStep::Index(0),
        PathStep::Key(String::from_str("message")),
        PathStep::Key(String::from_str("content")),
    ];
    assert(path_view(r@) =~= openai_path());
    r
}

/// Reads the JSON text and looks up the string at `path`: `Err` with the
/// parser's message when the text is not JSON.
fn lookup_reply(text: &str, path: &Vec<PathStep>) -> (r: Result<Option<String>, String>)
    ensures
        r is Err <==> !json_value_ok(text@),
        r matches Ok(o) ==> opt_view(o) == reply_text_at(text@, path_view(path@)),
{
    match json_parse(text) {
        Err(e) => Err(json_error_text(&e)),
        Ok(v) => Ok(json_string_at_path(&v, path)),
    }
}

/// The error for an answer whose HTTP status is not a success:
/// "<label> API error <status>: <body>".
pub fn api_error_message(label: &str, status: &str, body: &str) -> (r: String)
    ensures
        r@ == label@ + " API error "@ + status@ + ": "@ + body@,
{
    let mut m = String::from_str(label);
    m.append(" API error ");
    m.append(status);
    m.append(": ");
    m.append(body);
    m
}

/// The reply of a provider from the JSON text found at `found`.
pub open spec fn reply_result(text: Seq<char>, found: Option<Seq<char>>, label: Seq<char>, r: Result<String, String>) -> bool {
    match r {
        Ok(s) => json_value_ok(text) && found == Some(s@),
        Err(e) => if !json_value_ok(text) {
            e@.take(18) == "JSON parse error: "@ && e@.len() >= 18
        } else {
            found is None && e@ == "Unexpected "@ + label + " response: "@ + text
        },
    }
}

/// The reply of a provider once its JSON answer `text` was read: `lookup`
/// is `Err(m)` when the text is not JSON (`m` the parser's message), else
/// the string found at the reply's path, if any.  `label` names the
/// provider in the error.
pub fn reply_from_lookup(text: &str, label: &str, lookup: Result<Option<String>, String>) -> (r: Result<String, String>)
    ensures
        match lookup {
            Err(m) => r matches Err(e) && e@ == "JSON parse error: "@ + m@,
            Ok(Some(s)) => r == Ok::<String, String>(s),
            Ok(None) => r matches Err(e) && e@ == "Unexpected "@ + label@ + " response: "@ + text@,
        },
{
    match lookup {
        Err(msg) => {
            let mut m = String::from_str("JSON parse error: ");
            m.append(msg.as_str());
            Err(m)
        },
        Ok(Some(s)) => Ok(s),
        Ok(None) => {
            let mut m = String::from_str("Unexpected ");
            m.append(label);
            m.append(" response: ");
            m.append(text);
            Err(m)
        },
    }
}

/// Reads the reply text of a Gemini answer.
pub fn parse_gemini_response(text: &str) -> (r: Result<String, String>)
    ensures
        reply_result(text@, gemini_reply_text(text@), "Gemini"@, r),
{
    proof {
        reveal_strlit("JSON parse error: ");
    }
    let lookup = lookup_reply(text, &gemini_steps());
    let ghost lk = lookup;
    let r = reply_from_lookup(text, "Gemini", lookup);
    proof {
        if let Err(e) = &r {
            if let Err(m) = lk {
                assert(e@.take(18) =~= "JSON parse error: "@);
            }
        }
    }
    r
}

/// Reads the reply text of an OpenAI answer.
pub fn parse_openai_response(text: &str) -> (r: Result<String, String>)
    ensures
        reply_result(text@, openai_reply_text(text@), "OpenAI"@, r),
{
    proof {
        reveal_strlit("JSON parse error: ");
    }
    let lookup = lookup_reply(text, &openai_steps());
    let ghost lk = lookup;
    let r = reply_from_lookup(text, "OpenAI", lookup);
    proof {
        if let Err(e) = &r {
            if let Err(m) = lk {
                assert(e@.take(18) =~= "JSON parse error: "@);
            }
        }
    }
    r
}

} // verus!
