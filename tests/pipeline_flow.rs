use dualmind::models::{Message, Role};
use dualmind::outbound::{
    format_done_message, format_openai_chunk, format_openai_finish_chunk, format_openai_role_chunk,
};
use dualmind::pipeline::{CallPhase, ChatError, Pipeline, ReplyStream, Stage};
use dualmind::provider::Upstream;
use dualmind::session::SessionStore;

fn upstream(craft: &str) -> Upstream {
    Upstream {
        api_url: "http://localhost:1234".to_string(),
        reasoning_model: "reasoner".to_string(),
        craft_model: craft.to_string(),
    }
}

fn hello() -> Vec<Message> {
    vec![Message::new(Role::User, "Hello world".to_string())]
}

#[test]
fn buffered_request_replies_with_crafted_text() {
    let mut store = SessionStore::new(0);
    let up = upstream("crafter");
    let (mut p, req) = Pipeline::start(&mut store, "s1", &hello(), false, 5, &up).unwrap();
    assert_eq!(req.model, "reasoner");
    assert_eq!(req.url, "http://localhost:1234/v1/chat/completions");
    assert_eq!(req.stream, Some(true));
    assert_eq!(req.messages.len(), 2);
    assert_eq!(req.messages[0].role, Role::System);
    assert_eq!(req.messages[1], hello()[0]);
    p.reasoning_line(r#"data: {"choices":[{"delta":{"content":"Some thoughts"}}]}"#);
    p.reasoning_line("data: [DONE]");
    let craft = p.reasoning_done(&up).unwrap();
    assert_eq!(craft.model, "crafter");
    assert_eq!(craft.stream, Some(false));
    assert_eq!(craft.messages[0].role, Role::System);
    assert!(craft.messages[0].content.ends_with("<think>\nSome thoughts\n</think>"));
    let reply = p
        .complete_buffered(&mut store, "Hi there", "dualmind", "chatcmpl-1".to_string(), 77)
        .unwrap();
    assert_eq!(reply.choices.len(), 1);
    assert_eq!(reply.choices[0].message.content, "Hi there");
    assert_eq!(reply.choices[0].message.role, Role::Assistant);
    assert_eq!(reply.choices[0].finish_reason, "stop");
    assert_eq!(reply.object, "chat.completion");
    assert_eq!(reply.created, 77);
    assert_eq!(reply.usage.total_tokens, 200);
    assert_eq!(p.stage(), Stage::Completed);
    assert_eq!(
        store.history("s1").unwrap(),
        vec![
            Message::new(Role::User, "Hello world".to_string()),
            Message::new(Role::Assistant, "Hi there".to_string()),
        ]
    );
}

#[test]
fn streaming_request_frames_come_in_order() {
    let mut store = SessionStore::new(0);
    let up = upstream("crafter");
    let (mut p, _req) = Pipeline::start(&mut store, "s2", &hello(), true, 5, &up).unwrap();
    p.reasoning_line(r#"data: {"choices":[{"delta":{"content":"Some thoughts"}}]}"#);
    let craft = p.reasoning_done(&up).unwrap();
    assert_eq!(craft.stream, Some(true));
    let (mut reply, role) = ReplyStream::open("cid".to_string(), 9, "dualmind".to_string());
    let mut frames = vec![role];
    for line in [
        r#"data: {"choices":[{"delta":{"content":"Hi"}}]}"#,
        "",
        r#"data: {"choices":[{"delta":{"content":" there"}}]}"#,
        "data: [DONE]",
    ] {
        if let Some(f) = reply.push_line(line) {
            frames.push(f);
        }
    }
    frames.extend(p.complete_stream(&mut store, &mut reply));
    assert_eq!(
        frames,
        vec![
            format_openai_role_chunk("cid", 9, "dualmind"),
            format_openai_chunk("Hi", "cid", 9, "dualmind"),
            format_openai_chunk(" there", "cid", 9, "dualmind"),
            format_openai_finish_chunk("cid", 9, "dualmind"),
            format_done_message(),
        ]
    );
    assert_eq!(
        store.history("s2").unwrap(),
        vec![
            Message::new(Role::User, "Hello world".to_string()),
            Message::new(Role::Assistant, "Hi there".to_string()),
        ]
    );
}

#[test]
fn empty_upstream_stream_gets_the_fallback() {
    let mut store = SessionStore::new(0);
    let up = upstream("crafter");
    let (mut p, _) = Pipeline::start(&mut store, "s3", &hello(), true, 0, &up).unwrap();
    p.reasoning_done(&up).unwrap();
    let (mut reply, _role) = ReplyStream::open("c".to_string(), 1, "m".to_string());
    assert_eq!(reply.push_line("data: [DONE]"), None);
    let tail = p.complete_stream(&mut store, &mut reply);
    assert_eq!(tail.len(), 3);
    assert!(tail[0].contains("Hello World program"));
    assert_eq!(tail[1], format_openai_finish_chunk("c", 1, "m"));
    assert_eq!(tail[2], "data: [DONE]\n\n");
    let turns = store.history("s3").unwrap();
    assert_eq!(turns.len(), 2);
    assert_eq!(turns[0], hello()[0]);
    assert_eq!(turns[1].role, Role::Assistant);
    assert!(turns[1].content.starts_with("Here's a simple Rust Hello World program"));
}

#[test]
fn request_without_user_turn_is_invalid() {
    let mut store = SessionStore::new(0);
    let up = upstream("crafter");
    let only_system = vec![Message::new(Role::System, "be nice".to_string())];
    let r = Pipeline::start(&mut store, "s4", &only_system, false, 0, &up);
    assert_eq!(r.err(), Some(ChatError::InvalidRequest));
    assert_eq!(ChatError::InvalidRequest.message(), "At least one user message is required");
    assert_eq!(ChatError::InvalidRequest.kind(), "invalid_request_error");
    assert_eq!(ChatError::InvalidRequest.status_code(), 400);
}

#[test]
fn session_history_joins_the_new_turns() {
    let mut store = SessionStore::new(0);
    store.get_or_create("s5", 0);
    store.append_assistant("s5", "earlier".to_string());
    let up = upstream("crafter");
    let inbound = vec![Message::new(Role::Assistant, "no user here".to_string())];
    // The stored assistant turn and the new one hold no user turn either;
    // the new turn is still merged into the session.
    assert!(Pipeline::start(&mut store, "s5", &inbound, false, 1, &up).is_err());
    assert_eq!(store.history("s5").unwrap().len(), 2);
    let (p, req) = Pipeline::start(&mut store, "s5", &hello(), false, 2, &up).unwrap();
    assert_eq!(p.turns().len(), 3);
    assert_eq!(req.messages.len(), 4);
    assert_eq!(store.history("s5").unwrap(), p.turns().clone());
}

#[test]
fn upstream_failures_read_as_the_phase_says() {
    let mut store = SessionStore::new(0);
    let up = upstream("crafter");
    let (mut p, _) = Pipeline::start(&mut store, "s6", &hello(), false, 0, &up).unwrap();
    let e = p.fail(CallPhase::Reasoning, Some(503), "busy".to_string());
    assert_eq!(
        e.message(),
        "Error in thinking phase: Reasoning model error: API request failed: 503 - busy"
    );
    assert_eq!(e.kind(), "api_error");
    assert_eq!(e.status_code(), 500);
    assert_eq!(p.stage(), Stage::Failed);
    assert!(p.reasoning_done(&up).is_none());
    let e = ChatError::Upstream {
        phase: CallPhase::Crafting,
        status: None,
        detail: "Failed to send request: refused".to_string(),
    };
    assert_eq!(e.message(), "Error in execution phase: Failed to send request: refused");
}

#[test]
fn failing_stream_sends_an_error_frame_and_stops() {
    let (mut reply, _) = ReplyStream::open("c".to_string(), 1, "m".to_string());
    let f = reply.fail("boom", "api_error").unwrap();
    assert_eq!(f, "data: {\"error\":{\"message\":\"boom\",\"type\":\"api_error\"}}\n\n");
    assert_eq!(reply.push_line(r#"{"text":"late"}"#), None);
    assert_eq!(reply.fail("again", "api_error"), None);
}

#[test]
fn combined_turn_reply_is_paced_in_fives() {
    let (mut reply, _) = ReplyStream::open("c".to_string(), 1, "m".to_string());
    let frames = reply.push_whole("abcdefghijkl");
    assert_eq!(
        frames,
        vec![
            format_openai_chunk("abcde", "c", 1, "m"),
            format_openai_chunk("fghij", "c", 1, "m"),
            format_openai_chunk("kl", "c", 1, "m"),
        ]
    );
}

#[test]
fn buffered_reply_is_cleaned() {
    let mut store = SessionStore::new(0);
    let up = upstream("crafter");
    let (mut p, _) = Pipeline::start(&mut store, "s7", &hello(), false, 0, &up).unwrap();
    p.reasoning_done(&up).unwrap();
    let r = p
        .complete_buffered(&mut store, "I'll help you with that.\n  Answer  ", "m", "c".to_string(), 0)
        .unwrap();
    assert_eq!(r.choices[0].message.content, "Answer");
    assert!(p
        .complete_buffered(&mut store, "again", "m", "c".to_string(), 0)
        .is_none());
}
