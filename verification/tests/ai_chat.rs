use logarithm::ai::components::input_area::{input_hint, ready_to_send};
use logarithm::ai::components::message_bubble::{can_retry, message_html, retry_message};
use logarithm::ai::components::setup_panel::finish_setup;
use logarithm::ai::handlers::logan_action::{apply_logan_action, explain_message};
use logarithm::ai::handlers::mention::{
    handle_mention_input, handle_mention_keydown, pick_suggestions, select_mention,
};
use logarithm::ai::handlers::send_message::{
    build_display_message, build_full_message, get_message_history, get_model_name, plan_send,
    reply_message, request_messages, system_prompt, AiReply, ChatPanel,
};
use logarithm::ai::state::panel_state::PanelState;
use logarithm::ai::types::{ChatMessage, Provider};
use logarithm::backend::ai::{
    api_error_message, build_gemini_contents, gemini_url, json_string_at_path, parse_gemini_response, parse_openai_response,
    reply_from_lookup, PathStep, request_model, route_provider, timeout_message, ChatRoute,
};
use logarithm::backend::types::AiMessage;
use logarithm::markdown::md_to_html;
use logarithm::shared::types::{LogEntry, LogFile, LoganAction};

fn entry(line: usize, datetime: &str, status: &str, message: &str) -> LogEntry {
    LogEntry {
        line,
        datetime: datetime.to_string(),
        status: status.to_string(),
        message: message.to_string(),
    }
}

fn files() -> Vec<LogFile> {
    vec![
        LogFile::new(
            "/tmp/logs/server.log".to_string(),
            vec![entry(1, "2024-01-01 10:00:00", "INFO", "up"), entry(2, "", "", "more")],
        ),
        LogFile::new("Client.log".to_string(), vec![]),
        LogFile::new("other.txt".to_string(), vec![entry(1, "", "ERROR", "x")]),
    ]
}

fn msg(role: &str, content: &str) -> AiMessage {
    AiMessage { role: role.to_string(), content: content.to_string() }
}

fn pairs(v: &[AiMessage]) -> Vec<(String, String)> {
    v.iter().map(|m| (m.role.clone(), m.content.clone())).collect()
}

fn s(x: &str) -> String {
    x.to_string()
}

#[test]
fn provider_properties() {
    let g = Provider::Gemini;
    let o = Provider::OpenAI;
    assert_eq!((g.label(), o.label()), ("Gemini", "OpenAI"));
    assert_eq!((g.to_str(), o.to_str()), ("gemini", "openai"));
    assert_eq!((g.default_model(), o.default_model()), ("gemini-1.5-flash", "gpt-4o-mini"));
    assert_eq!((g.key_label(), o.key_label()), ("Google AI API Key", "OpenAI API Key"));
    assert_eq!((g.key_hint(), o.key_hint()), ("AIza…", "sk-…"));
    assert_eq!(g.docs_url(), "https://aistudio.google.com/app/apikey");
    assert_eq!(o.docs_url(), "https://platform.openai.com/api-keys");
    assert_eq!((g.ls_key(), o.ls_key()), ("logan_gemini_key", "logan_openai_key"));
}

#[test]
fn provider_from_str_round_trip() {
    assert_eq!(Provider::from_str("openai"), Provider::OpenAI);
    assert_eq!(Provider::from_str("gemini"), Provider::Gemini);
    assert_eq!(Provider::from_str("OpenAI"), Provider::Gemini);
    assert_eq!(Provider::from_str(""), Provider::Gemini);
    for p in [Provider::Gemini, Provider::OpenAI] {
        assert_eq!(Provider::from_str(p.to_str()), p);
    }
}

#[test]
fn chat_message_roles() {
    let u = ChatMessage::user(s("hi"));
    assert_eq!(u.role, "user");
    assert!(u.is_user() && !u.is_assistant() && !u.is_error());
    let a = ChatMessage::assistant(s("yo"));
    assert!(a.is_assistant() && !a.is_user());
    let e = ChatMessage::error(s("bad"));
    assert_eq!(e.role, "error");
    assert!(e.is_error());
    assert_eq!(e.content, "bad");
}

#[test]
fn full_message_with_chips_mentions_and_text() {
    let chips = vec![(s("server.log"), 2, s("more"))];
    let mentions = vec![s("server.log"), s("missing.log"), s("Client.log")];
    let full = build_full_message("why?", &chips, &mentions, &files());
    assert_eq!(
        full,
        "[server.log:2]\nmore\n\nFile: @server.log\n[Line 1] 2024-01-01 10:00:00 INFO up\n[Line 2]   more\n\nFile: @Client.log\n\n\nwhy?"
    );
    assert_eq!(build_full_message("", &[], &[], &files()), "");
    assert_eq!(build_full_message("only", &[], &[], &[]), "only");
}

#[test]
fn full_message_takes_first_hundred_entries() {
    let entries: Vec<LogEntry> = (1..=150).map(|i| entry(i, "", "INFO", "m")).collect();
    let f = vec![LogFile::new(s("big.log"), entries)];
    let full = build_full_message("", &[], &[s("big.log")], &f);
    assert_eq!(full.lines().count(), 101);
    assert!(full.ends_with("[Line 100]  INFO m"));
}

#[test]
fn display_message_parts() {
    let chips = vec![(s("a.log"), 3, s("text")), (s("b.log"), 10, s("t"))];
    assert_eq!(
        build_display_message("hello", &chips, &[s("c.log")]),
        "[a.log:3] [b.log:10] @c.log hello"
    );
    assert_eq!(build_display_message("", &[], &[]), "");
}

#[test]
fn model_and_history() {
    assert_eq!(get_model_name("", &Provider::OpenAI), "gpt-4o-mini");
    assert_eq!(get_model_name("gpt-4o", &Provider::Gemini), "gpt-4o");
    let msgs = vec![
        ChatMessage::assistant(s("hello")),
        ChatMessage::error(s("oops")),
        ChatMessage::user(s("q")),
    ];
    assert_eq!(
        get_message_history(&msgs),
        vec![(s("assistant"), s("hello")), (s("user"), s("q"))]
    );
}

#[test]
fn request_message_list() {
    let history = vec![(s("user"), s("a")), (s("assistant"), s("b"))];
    let out = request_messages(&history, "c");
    assert_eq!(
        pairs(&out),
        vec![
            (s("system"), s(system_prompt())),
            (s("user"), s("a")),
            (s("assistant"), s("b")),
            (s("user"), s("c")),
        ]
    );
    assert_eq!(
        system_prompt(),
        "You are Logan, an expert log analysis assistant. Be concise and precise. Answer directly without unnecessary explanations. Use markdown for code/logs."
    );
}

#[test]
fn planning_a_send() {
    let history = vec![ChatMessage::assistant(s("hi")), ChatMessage::error(s("e"))];
    let plan = plan_send("  hello  ", &[], &[], &[], false, "KEY", &Provider::OpenAI, "", &history)
        .expect("sent");
    assert_eq!(plan.display, "hello");
    assert_eq!(plan.request.provider, "openai");
    assert_eq!(plan.request.api_key, "KEY");
    assert_eq!(plan.request.model, "gpt-4o-mini");
    assert_eq!(
        pairs(&plan.request.messages),
        vec![(s("system"), s(system_prompt())), (s("assistant"), s("hi")), (s("user"), s("hello"))]
    );
    // Nothing is sent while loading, without a key, or with nothing to send.
    assert!(plan_send("hello", &[], &[], &[], true, "KEY", &Provider::Gemini, "", &[]).is_none());
    assert!(plan_send("hello", &[], &[], &[], false, "", &Provider::Gemini, "", &[]).is_none());
    assert!(plan_send("   ", &[], &[], &[], false, "KEY", &Provider::Gemini, "", &[]).is_none());
    // Chips alone are enough.
    let chips = vec![(s("a.log"), 1, s("x"))];
    let plan = plan_send("", &chips, &[], &[], false, "K", &Provider::Gemini, "m1", &[]).expect("sent");
    assert_eq!(plan.display, "[a.log:1]");
    assert_eq!(plan.request.model, "m1");
    assert_eq!(plan.request.messages.last().unwrap().content, "[a.log:1]\nx");
}

#[test]
fn replies_become_messages() {
    let m = reply_message(AiReply::Text(s("answer")));
    assert_eq!((m.role.as_str(), m.content.as_str()), ("assistant", "answer"));
    let m = reply_message(AiReply::OkField(Some(s("ok"))));
    assert_eq!((m.role.as_str(), m.content.as_str()), ("assistant", "ok"));
    let m = reply_message(AiReply::OkField(None));
    assert_eq!((m.role.as_str(), m.content.as_str()), ("error", "Empty response from API."));
    let m = reply_message(AiReply::ErrField(Some(s("boom")), s("raw")));
    assert_eq!(m.content, "Error: boom");
    let m = reply_message(AiReply::ErrField(None, s("JsValue(1)")));
    assert_eq!(m.content, "Error: JsValue(1)");
    let m = reply_message(AiReply::Other(Some(s("{\"a\":1}"))));
    assert_eq!((m.role.as_str(), m.content.as_str()), ("error", "Unexpected response: {\"a\":1}"));
    let m = reply_message(AiReply::Other(None));
    assert_eq!(m.content, "Unexpected response: Unknown response");
}

#[test]
fn mention_suggestions() {
    let f = files();
    assert_eq!(handle_mention_input("look at @ser", &f), Some(vec![s("server.log")]));
    assert_eq!(
        handle_mention_input("@", &f),
        Some(vec![s("server.log"), s("Client.log"), s("other.txt")])
    );
    assert_eq!(handle_mention_input("@CLI", &f), Some(vec![s("Client.log")]));
    assert_eq!(handle_mention_input("@zzz", &f), None);
    assert_eq!(handle_mention_input("mail@ser", &f), None);
    assert_eq!(handle_mention_input("@ser ver", &f), None);
    assert_eq!(handle_mention_input("no mention", &f), None);
}

#[test]
fn mention_keys() {
    let sug = vec![s("a"), s("b")];
    assert_eq!(handle_mention_keydown("ArrowDown", &sug, 0), (true, Some(1)));
    assert_eq!(handle_mention_keydown("ArrowDown", &sug, 1), (true, None));
    assert_eq!(handle_mention_keydown("ArrowUp", &sug, 1), (true, Some(0)));
    assert_eq!(handle_mention_keydown("ArrowUp", &sug, 0), (true, None));
    assert_eq!(handle_mention_keydown("Enter", &sug, 0), (false, None));
}

#[test]
fn selecting_a_mention() {
    let mut mentioned = vec![s("a.log")];
    assert_eq!(select_mention(s("b.log"), "check  @b", &mut mentioned), Some(s("check")));
    assert_eq!(mentioned, vec![s("a.log"), s("b.log")]);
    assert_eq!(select_mention(s("a.log"), "no at", &mut mentioned), None);
    assert_eq!(mentioned, vec![s("a.log"), s("b.log")]);
}

#[test]
fn mention_matching_folds_unicode_case() {
    let f = vec![LogFile::new(s("/x/ÉTÉ.log"), vec![])];
    assert_eq!(handle_mention_input("@été", &f), Some(vec![s("ÉTÉ.log")]));
    assert_eq!(handle_mention_input("@ete", &f), None);
}

#[test]
fn explain_prompt_and_actions() {
    assert_eq!(
        explain_message("app.log", 12, "boom"),
        "Explain this log line from app.log:12\n\n```\nboom\n```"
    );
    let mut chips = vec![(s("x.log"), 1, s("a"))];
    let mut input = s("typed");
    let mut setup = false;
    let send = apply_logan_action(
        LoganAction::AddContext { file: s("y.log"), line: 2, text: s("b") },
        &mut chips,
        &mut input,
        &mut setup,
    );
    assert!(!send && setup);
    assert_eq!(chips, vec![(s("x.log"), 1, s("a")), (s("y.log"), 2, s("b"))]);
    assert_eq!(input, "typed");
    let send = apply_logan_action(
        LoganAction::AddMultipleContext { items: vec![(s("z.log"), 3, s("c")), (s("z.log"), 4, s("d"))] },
        &mut chips,
        &mut input,
        &mut setup,
    );
    assert!(!send);
    assert_eq!(chips.len(), 4);
    assert_eq!(chips[3], (s("z.log"), 4, s("d")));
    let send = apply_logan_action(
        LoganAction::Explain { file: s("w.log"), line: 9, text: s("t") },
        &mut chips,
        &mut input,
        &mut setup,
    );
    assert!(send);
    assert!(chips.is_empty());
    assert_eq!(input, "Explain this log line from w.log:9\n\n```\nt\n```");
}

#[test]
fn input_area_texts() {
    assert!(ready_to_send(" x "));
    assert!(!ready_to_send(" \n\t"));
    assert_eq!(
        input_hint(&Provider::Gemini, ""),
        "Gemini · gemini-1.5-flash · Enter to send  Shift+Enter for newline"
    );
    assert_eq!(
        input_hint(&Provider::OpenAI, "gpt-4o"),
        "OpenAI · gpt-4o · Enter to send  Shift+Enter for newline"
    );
}

#[test]
fn message_bubble_html() {
    assert_eq!(
        message_html("a < b & \"c\"", true, false, true),
        "<div style='white-space:pre-wrap'>a &lt; b &amp; \"c\"</div>"
    );
    assert_eq!(message_html("<x>", false, true, false), "<div style='white-space:pre-wrap'>&lt;x&gt;</div>");
    assert_eq!(message_html("**hi**", false, false, true), md_to_html("**hi**", true));
}

#[test]
fn setup_and_panel_state() {
    let mut msgs = vec![];
    assert!(!finish_setup("", &Provider::Gemini, &mut msgs));
    assert!(msgs.is_empty());
    assert!(finish_setup("k", &Provider::OpenAI, &mut msgs));
    assert_eq!(msgs.len(), 1);
    assert_eq!(
        msgs[0].content,
        "Hi! I'm Logan, your AI log analysis assistant powered by OpenAI. Open a log file and ask me anything — I can help you find errors, understand patterns, and diagnose issues."
    );
    assert!(finish_setup("k", &Provider::OpenAI, &mut msgs));
    assert_eq!(msgs.len(), 1);

    let st = PanelState::new(Provider::Gemini, s("key"), s(""));
    assert!(st.setup_done);
    assert_eq!(st.messages.len(), 1);
    assert_eq!(
        st.messages[0].content,
        "Hi! I'm Logan, your AI log analysis assistant. Open a log file and ask me anything."
    );
    let st = PanelState::new(Provider::OpenAI, s(""), s("m"));
    assert!(!st.setup_done);
    assert!(st.messages.is_empty());
    assert_eq!(st.model, "m");
}

#[test]
fn routing_and_request_parts() {
    assert_eq!(route_provider("gemini"), Ok(ChatRoute::Gemini));
    assert_eq!(route_provider("openai"), Ok(ChatRoute::OpenAI));
    assert_eq!(route_provider("mistral"), Err(s("Unknown provider: mistral")));
    assert_eq!(timeout_message(), "Request timed out after 30 seconds.");
    assert_eq!(request_model("", ChatRoute::Gemini), "gemini-1.5-flash");
    assert_eq!(request_model("", ChatRoute::OpenAI), "gpt-4o-mini");
    assert_eq!(request_model("custom", ChatRoute::OpenAI), "custom");
    assert_eq!(
        gemini_url("gemini-1.5-flash", "K1"),
        "https://generativelanguage.googleapis.com/v1beta/models/gemini-1.5-flash:generateContent?key=K1"
    );
}

#[test]
fn gemini_contents() {
    let ms = vec![msg("system", "S"), msg("user", "u1"), msg("assistant", "a1"), msg("user", "u2")];
    let turns = build_gemini_contents(&ms).expect("turns");
    let t: Vec<(String, String)> = turns.iter().map(|t| (t.role.clone(), t.text.clone())).collect();
    assert_eq!(
        t,
        vec![(s("user"), s("S\n\nu1")), (s("model"), s("a1")), (s("user"), s("u2"))]
    );
    // The system text goes before the first user turn, wherever it is.
    let ms = vec![msg("system", "S"), msg("assistant", "Hi"), msg("user", "Q")];
    let turns = build_gemini_contents(&ms).expect("turns");
    let t: Vec<(String, String)> = turns.iter().map(|t| (t.role.clone(), t.text.clone())).collect();
    assert_eq!(t, vec![(s("model"), s("Hi")), (s("user"), s("S\n\nQ"))]);
    // Only the first system message is used.
    let ms = vec![msg("system", "S1"), msg("user", "u"), msg("system", "S2")];
    let turns = build_gemini_contents(&ms).expect("turns");
    assert_eq!(turns[0].text, "S1\n\nu");
    // Without a user turn the system text is not sent.
    let ms = vec![msg("assistant", "a"), msg("system", "S")];
    let turns = build_gemini_contents(&ms).expect("turns");
    assert_eq!((turns[0].role.as_str(), turns[0].text.as_str()), ("model", "a"));
    // Only system messages: refused.
    let err = build_gemini_contents(&[msg("system", "S")]).unwrap_err();
    assert_eq!(err, "No messages to send.");
    assert_eq!(build_gemini_contents(&[]).unwrap_err(), "No messages to send.");
}

#[test]
fn parsing_provider_replies() {
    let g = r#"{"candidates":[{"content":{"parts":[{"text":"Hello from Gemini"}]}}]}"#;
    assert_eq!(parse_gemini_response(g), Ok(s("Hello from Gemini")));
    let o = r#"{"choices":[{"message":{"content":"Hi from OpenAI"}}]}"#;
    assert_eq!(parse_openai_response(o), Ok(s("Hi from OpenAI")));
    assert_eq!(
        parse_gemini_response("{}"),
        Err(s("Unexpected Gemini response: {}"))
    );
    assert_eq!(
        parse_openai_response(g),
        Err(format!("Unexpected OpenAI response: {}", g))
    );
    let bad = parse_openai_response("not json").unwrap_err();
    assert!(bad.starts_with("JSON parse error: "));
    assert!(bad.len() > "JSON parse error: ".len());
}

#[test]
fn reply_from_lookup_cases() {
    assert_eq!(reply_from_lookup("t", "Gemini", Ok(Some(s("x")))), Ok(s("x")));
    assert_eq!(reply_from_lookup("t", "Gemini", Ok(None)), Err(s("Unexpected Gemini response: t")));
    assert_eq!(reply_from_lookup("t", "OpenAI", Err(s("eof"))), Err(s("JSON parse error: eof")));
}

#[test]
fn retrying_a_reply() {
    let mut msgs = vec![
        ChatMessage::assistant(s("hello")),
        ChatMessage::user(s("q1")),
        ChatMessage::assistant(s("a1")),
        ChatMessage::error(s("e")),
    ];
    assert!(can_retry(&msgs[2]));
    assert!(!can_retry(&msgs[1]) && !can_retry(&msgs[3]));
    // The message before index 3 is the assistant's: nothing happens.
    assert_eq!(retry_message(&mut msgs, 3), None);
    assert_eq!(msgs.len(), 4);
    assert_eq!(retry_message(&mut msgs, 0), None);
    assert_eq!(retry_message(&mut msgs, 2), Some(s("q1")));
    assert_eq!(msgs, vec![ChatMessage::assistant(s("hello"))]);
    assert_eq!(retry_message(&mut msgs, 5), None);
}

#[test]
fn picking_suggestions_from_lowered_names() {
    let names = vec![s("Server.LOG"), s("client.log"), s("ÉTÉ.log")];
    let lowered = vec![s("server.log"), s("client.log"), s("été.log")];
    assert_eq!(pick_suggestions(&names, &lowered, "log"), names);
    assert_eq!(pick_suggestions(&names, &lowered, "ser"), vec![s("Server.LOG")]);
    assert_eq!(pick_suggestions(&names, &lowered, "été"), vec![s("ÉTÉ.log")]);
    assert_eq!(pick_suggestions(&names, &lowered, ""), names);
    assert!(pick_suggestions(&names, &lowered, "SER").is_empty());
}

#[test]
fn json_string_at_path_walks_keys_and_indices() {
    let v: serde_json::Value =
        serde_json::from_str(r#"{"a":[{"b":"x"},{"b":"y"}],"n":3,"s":"top"}"#).unwrap();
    let k = |name: &str| PathStep::Key(name.to_string());
    assert_eq!(json_string_at_path(&v, &vec![k("a"), PathStep::Index(1), k("b")]), Some(s("y")));
    assert_eq!(json_string_at_path(&v, &vec![k("a"), PathStep::Index(0), k("b")]), Some(s("x")));
    assert_eq!(json_string_at_path(&v, &vec![k("a"), PathStep::Index(2), k("b")]), None);
    assert_eq!(json_string_at_path(&v, &vec![k("n")]), None);
    assert_eq!(json_string_at_path(&v, &vec![k("s")]), Some(s("top")));
    assert_eq!(json_string_at_path(&v, &vec![k("s"), PathStep::Index(0)]), None);
    assert_eq!(json_string_at_path(&v, &vec![PathStep::Index(0)]), None);
    assert_eq!(json_string_at_path(&v, &vec![]), None);
    let t: serde_json::Value = serde_json::from_str(r#""plain""#).unwrap();
    assert_eq!(json_string_at_path(&t, &vec![]), Some(s("plain")));
}

#[test]
fn parsing_provider_replies_second_part_is_not_read() {
    let g = r#"{"candidates":[{"content":{"parts":[{"text":"first"},{"text":"second"}]}}]}"#;
    assert_eq!(parse_gemini_response(g), Ok(s("first")));
    let o = r#"{"choices":[{"message":{"content":5}}]}"#;
    assert_eq!(parse_openai_response(o), Err(format!("Unexpected OpenAI response: {}", o)));
}

#[test]
fn chat_panel_send_round() {
    let mut panel = ChatPanel {
        state: PanelState::new(Provider::Gemini, s("KEY"), s("")),
        input: s("  why?  "),
        chips: vec![(s("a.log"), 3, s("boom"))],
        mentioned: vec![],
        loading: false,
    };
    let req = panel.start_send(&[]).expect("sent");
    assert_eq!(req.provider, "gemini");
    assert_eq!(req.api_key, "KEY");
    assert_eq!(req.messages.last().unwrap().content, "[a.log:3]\nboom\n\nwhy?");
    assert_eq!(panel.input, "");
    assert!(panel.chips.is_empty());
    assert!(panel.loading);
    assert_eq!(panel.state.messages.len(), 2);
    assert_eq!(panel.state.messages[1], ChatMessage::user(s("[a.log:3] why?")));
    // While the reply is awaited nothing more is sent.
    panel.input = s("again");
    assert!(panel.start_send(&[]).is_none());
    assert_eq!(panel.input, "again");
    assert_eq!(panel.state.messages.len(), 2);
    panel.finish_send(AiReply::Text(s("because")));
    assert!(!panel.loading);
    assert_eq!(panel.state.messages.len(), 3);
    assert_eq!(panel.state.messages[2], ChatMessage::assistant(s("because")));
    panel.finish_send(AiReply::OkField(None));
    assert_eq!(panel.state.messages[3], ChatMessage::error(s("Empty response from API.")));
}

#[test]
fn api_error_messages() {
    assert_eq!(api_error_message("Gemini", "404 Not Found", "nope"), "Gemini API error 404 Not Found: nope");
    assert_eq!(api_error_message("OpenAI", "500", ""), "OpenAI API error 500: ");
}

#[test]
fn chat_panel_opens_empty_and_idle() {
    let p = ChatPanel::new(Provider::OpenAI, s("K"), s("m"));
    assert_eq!(p.input, "");
    assert!(p.chips.is_empty());
    assert!(p.mentioned.is_empty());
    assert!(!p.loading);
    assert!(p.state.setup_done);
    assert_eq!(p.state.provider, Provider::OpenAI);
    assert_eq!(p.state.model, "m");
    assert_eq!(
        p.state.messages,
        vec![ChatMessage::assistant(s(
            "Hi! I'm Logan, your AI log analysis assistant. Open a log file and ask me anything."
        ))]
    );
    let q = ChatPanel::new(Provider::Gemini, s(""), s(""));
    assert!(!q.state.setup_done);
    assert!(q.state.messages.is_empty());
    assert!(!q.loading);
}

#[test]
fn selecting_a_provider_takes_its_saved_key() {
    let mut st = PanelState::new(Provider::Gemini, s(""), s("m"));
    st.select_provider(Provider::OpenAI, s("sk-1"));
    assert_eq!(st.provider, Provider::OpenAI);
    assert_eq!(st.api_key, "sk-1");
    assert_eq!(st.model, "m");
    assert!(!st.setup_done);
    st.select_provider(Provider::Gemini, s(""));
    assert_eq!(st.api_key, "");
}
