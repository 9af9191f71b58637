use ring_core::error::RingError;
use ring_core::llm::{
    apply_tool_delta, build_messages, completion_result, connection_report, connection_settings,
    llm_settings, push_tool_round, ChatCompleteWithToolsResult, ChatMessage, ChatStream,
    ConnectionOutcome, SseEvent, StreamAction, StreamChunk, StreamRelay, ToolCall, ToolCallDelta,
};

fn s(x: &str) -> String {
    x.to_string()
}

#[test]
fn event_names() {
    assert_eq!(SseEvent::Start { message_id: s("m"), role: s("r") }.event_name(), "message_start");
    assert_eq!(SseEvent::Delta { content: s("x") }.event_name(), "delta");
    assert_eq!(
        SseEvent::End { message_id: s("m"), full_content: s(""), token_usage: None }.event_name(),
        "message_end"
    );
    assert_eq!(SseEvent::Error(s("e")).event_name(), "error");
}

#[test]
fn relay_keeps_order() {
    let mut r = StreamRelay::new();
    r.relay(&SseEvent::Start { message_id: s("m1"), role: s("assistant") });
    r.relay(&SseEvent::Delta { content: s("a") });
    r.relay(&SseEvent::Error(s("e")));
    r.relay(&SseEvent::Delta { content: s("b") });
    assert_eq!(r.content, "ab");
    assert_eq!(r.message_id, Some(s("m1")));
}

#[test]
fn messages_for_a_request() {
    let msgs = build_messages(
        s("sys"),
        vec![(s("user"), s("q1")), (s("assistant"), s("a1")), (s("other"), s("x"))],
        s("q2"),
    );
    assert_eq!(msgs.len(), 5);
    assert!(matches!(&msgs[0], ChatMessage::System(t) if t == "sys"));
    assert!(matches!(&msgs[1], ChatMessage::User(t) if t == "q1"));
    assert!(matches!(&msgs[2], ChatMessage::Assistant { content, .. } if content == "a1"));
    assert!(matches!(&msgs[4], ChatMessage::User(t) if t == "q2"));
}

#[test]
fn tool_round_appends_call_and_results() {
    let mut msgs = vec![ChatMessage::User(s("q"))];
    let calls = vec![ToolCall { id: s("c1"), name: s("f"), arguments: s("{}") }];
    push_tool_round(&mut msgs, s("thinking"), calls, vec![s("42")]);
    assert_eq!(msgs.len(), 3);
    assert!(matches!(&msgs[1], ChatMessage::Assistant { content, tool_calls }
        if content == "thinking" && tool_calls.len() == 1));
    assert!(matches!(&msgs[2], ChatMessage::Tool { tool_call_id, content }
        if tool_call_id == "c1" && content == "42"));
}

#[test]
fn tool_call_fragments_concatenate() {
    let mut calls: Vec<ToolCall> = vec![];
    apply_tool_delta(
        &mut calls,
        &ToolCallDelta { index: 1, id: Some(s("c2")), name: Some(s("search")), arguments: Some(s("{\"q\":")) },
    );
    assert_eq!(calls.len(), 2);
    assert_eq!(calls[0].id, "");
    apply_tool_delta(&mut calls, &ToolCallDelta { index: 1, id: None, name: None, arguments: Some(s("\"x\"}")) });
    assert_eq!(calls[1].id, "c2");
    assert_eq!(calls[1].name, "search");
    assert_eq!(calls[1].arguments, "{\"q\":\"x\"}");
}

fn text_chunk(t: &str) -> StreamChunk {
    StreamChunk { has_choice: true, content: Some(s(t)), tool_calls: None, finished_for_tools: false, usage: None }
}

#[test]
fn plain_stream_ends_with_full_text() {
    let (mut st, acts) = ChatStream::start(s("m1"), s("assistant"), false);
    assert!(matches!(&acts[0], StreamAction::Send(SseEvent::Start { message_id, role })
        if message_id == "m1" && role == "assistant"));
    st.opened();
    let a = st.chunk(text_chunk("Hel"));
    assert!(matches!(&a[0], StreamAction::Send(SseEvent::Delta { content }) if content == "Hel"));
    st.chunk(text_chunk("lo"));
    let end = st.ended();
    assert_eq!(end.len(), 2);
    assert!(matches!(&end[0], StreamAction::Send(SseEvent::End { message_id, full_content, .. })
        if message_id == "m1" && full_content == "Hello"));
    assert!(matches!(&end[1], StreamAction::Complete { content, .. } if content == "Hello"));
    // Once done, nothing more is sent.
    assert!(st.chunk(text_chunk("late")).is_empty());
    assert!(st.ended().is_empty());
}

#[test]
fn stream_with_tools_runs_them_then_follows_up() {
    let (mut st, _) = ChatStream::start(s("m2"), s("assistant"), true);
    st.opened();
    let c = StreamChunk {
        has_choice: true,
        content: None,
        tool_calls: Some(vec![ToolCallDelta {
            index: 0,
            id: Some(s("c1")),
            name: Some(s("lookup")),
            arguments: Some(s("{}")),
        }]),
        finished_for_tools: true,
        usage: None,
    };
    let a = st.chunk(c);
    assert_eq!(a.len(), 1);
    match &a[0] {
        StreamAction::RunTools(calls) => {
            assert_eq!(calls.len(), 1);
            assert_eq!(calls[0].name, "lookup");
        }
        _ => panic!("expected tools to run"),
    }
    st.opened();
    st.chunk(text_chunk("answer"));
    let end = st.ended();
    assert!(matches!(&end[1], StreamAction::Complete { content, .. } if content.ends_with("answer")));
}

#[test]
fn failures_end_the_stream() {
    let (mut st, _) = ChatStream::start(s("m3"), s("assistant"), false);
    let a = st.open_failed(s("boom"));
    assert!(matches!(&a[0], StreamAction::Send(SseEvent::Error(e)) if e == "boom"));
    let (mut st, _) = ChatStream::start(s("m4"), s("assistant"), false);
    st.opened();
    st.chunk(text_chunk("part"));
    let a = st.failed(s("cut"));
    assert_eq!(a.len(), 3);
    assert!(matches!(&a[0], StreamAction::Send(SseEvent::Error(e)) if e == "cut"));
    assert!(matches!(&a[1], StreamAction::Send(SseEvent::End { full_content, .. }) if full_content == "part"));
}

#[test]
fn client_settings() {
    assert_eq!(
        llm_settings(None, None, "gpt").err(),
        Some(RingError::Internal(s("LLM API key not configured")))
    );
    let st = llm_settings(Some("k"), Some("https://api.x"), "gpt").unwrap();
    assert_eq!(st.api_key, "k");
    assert_eq!(st.api_base, Some(s("https://api.x")));
    assert_eq!(st.model, "gpt");
}

#[test]
fn connection_test_settings() {
    let o = connection_settings("ollama", "llama3", None, None).unwrap();
    assert_eq!(o.api_key, "ollama");
    assert_eq!(o.api_base, Some(s("http://localhost:11434/v1")));
    let o = connection_settings("openai", "gpt", Some("k"), Some("")).unwrap();
    assert_eq!(o.api_base, None);
    assert_eq!(
        connection_settings("openai", "gpt", None, None).err(),
        Some(RingError::BadRequest(s("API key required")))
    );
}

#[test]
fn connection_reports() {
    assert_eq!(connection_report(ConnectionOutcome::Succeeded), (true, s("Connection successful")));
    assert_eq!(connection_report(ConnectionOutcome::Failed(s("401"))), (false, s("401")));
    assert_eq!(
        connection_report(ConnectionOutcome::TimedOut),
        (false, s("Connection timed out after 15s"))
    );
}

#[test]
fn completion_results() {
    match completion_result(Some(s("hi")), None) {
        ChatCompleteWithToolsResult::Message { content } => assert_eq!(content, "hi"),
        _ => panic!(),
    }
    match completion_result(None, None) {
        ChatCompleteWithToolsResult::Message { content } => assert_eq!(content, ""),
        _ => panic!(),
    }
    let calls = vec![ToolCall { id: s("c"), name: s("n"), arguments: s("{}") }];
    match completion_result(Some(s("ignored")), Some(calls)) {
        ChatCompleteWithToolsResult::ToolCalls { tool_calls } => assert_eq!(tool_calls.len(), 1),
        _ => panic!(),
    }
}
