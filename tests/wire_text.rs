use dualmind::models::{
    format_error, message_content_text, process_data, ContentError, DataType, Role,
};
use dualmind::outbound::{
    error_body, format_done_message, format_error_frame, format_openai_chunk,
    format_openai_finish_chunk, format_openai_role_chunk, get_system_prompt, is_litellm,
    is_openrouter, is_sensitive_header, OutboundChunk,
};

#[test]
fn content_frame_matches_serde_json_layout() {
    assert_eq!(
        format_openai_chunk("Hi \"you\"\n", "cid", 1700000000, "dualmind"),
        "data: {\"choices\":[{\"delta\":{\"content\":\"Hi \\\"you\\\"\\n\"},\"finish_reason\":null,\"index\":0}],\"created\":1700000000,\"id\":\"cid\",\"model\":\"dualmind\",\"object\":\"chat.completion.chunk\"}\n\n"
    );
}

#[test]
fn frames_agree_with_serde_json() {
    let mut chunk = serde_json::Map::new();
    chunk.insert("id".to_string(), serde_json::Value::from("c1"));
    chunk.insert("object".to_string(), serde_json::Value::from("chat.completion.chunk"));
    chunk.insert("created".to_string(), serde_json::Value::from(0u64));
    chunk.insert("model".to_string(), serde_json::Value::from("m"));
    let mut delta = serde_json::Map::new();
    delta.insert("role".to_string(), serde_json::Value::from("assistant"));
    let mut choice = serde_json::Map::new();
    choice.insert("index".to_string(), serde_json::Value::from(0));
    choice.insert("delta".to_string(), serde_json::Value::Object(delta));
    choice.insert("finish_reason".to_string(), serde_json::Value::Null);
    chunk.insert(
        "choices".to_string(),
        serde_json::Value::Array(vec![serde_json::Value::Object(choice.clone())]),
    );
    let expected = serde_json::Value::Object(chunk.clone());
    assert_eq!(format_openai_role_chunk("c1", 0, "m"), format!("data: {}\n\n", expected));
    choice.insert("delta".to_string(), serde_json::Value::Object(serde_json::Map::new()));
    choice.insert("finish_reason".to_string(), serde_json::Value::from("stop"));
    chunk.insert(
        "choices".to_string(),
        serde_json::Value::Array(vec![serde_json::Value::Object(choice)]),
    );
    chunk.insert("created".to_string(), serde_json::Value::from(u64::MAX));
    let expected = serde_json::Value::Object(chunk);
    assert_eq!(
        format_openai_finish_chunk("c1", u64::MAX, "m"),
        format!("data: {}\n\n", expected)
    );
}

#[test]
fn done_and_error_frames() {
    assert_eq!(format_done_message(), "data: [DONE]\n\n");
    assert_eq!(
        format_error_frame("bad \\ input", "api_error"),
        "data: {\"error\":{\"message\":\"bad \\\\ input\",\"type\":\"api_error\"}}\n\n"
    );
    assert_eq!(
        error_body(400, "At least one user message is required", "invalid_request_error"),
        "{\"error\":{\"code\":400,\"message\":\"At least one user message is required\",\"param\":null,\"type\":\"invalid_request_error\"}}"
    );
}

#[test]
fn chunks_render_as_their_frames() {
    assert_eq!(OutboundChunk::Done.render("c", 1, "m"), format_done_message());
    assert_eq!(
        OutboundChunk::Content("x".to_string()).render("c", 1, "m"),
        format_openai_chunk("x", "c", 1, "m")
    );
}

#[test]
fn provider_urls_are_recognised() {
    assert!(is_openrouter("https://openrouter.ai/api"));
    assert!(!is_openrouter("http://localhost:1234"));
    assert!(is_litellm("http://litellm.local"));
    assert!(!is_litellm("http://openrouter.ai"));
}

#[test]
fn sensitive_headers_are_recognised() {
    assert!(is_sensitive_header("Authorization"));
    assert!(is_sensitive_header("X-API-KEY"));
    assert!(!is_sensitive_header("content-type"));
}

#[test]
fn message_content_forms() {
    assert_eq!(message_content_text("\"plain\""), Ok("plain".to_string()));
    assert_eq!(
        message_content_text(r#"["a", {"type":"text","text":"b"}, "c"]"#),
        Ok("a b c".to_string())
    );
    assert_eq!(message_content_text("[]"), Ok(String::new()));
    assert_eq!(message_content_text("5"), Err(ContentError::NotTextOrArray));
    assert_eq!(message_content_text("[1]"), Err(ContentError::UnexpectedElement));
    assert_eq!(message_content_text(r#"[{"type":"text"}]"#), Err(ContentError::MissingText));
    assert_eq!(message_content_text(r#"[{"foo":1}]"#), Err(ContentError::MissingText));
    assert_eq!(
        message_content_text(r#"[{"type":"image_url","text":"x"}]"#),
        Err(ContentError::NonTextPart)
    );
    assert_eq!(message_content_text(r#"[{"type":5,"text":"x"}]"#), Err(ContentError::NonTextPart));
    assert_eq!(message_content_text(r#"[{"text":"plain"}]"#), Ok("plain".to_string()));
    assert_eq!(message_content_text(r#"[{"text":3}]"#), Err(ContentError::TextNotString));
    assert_eq!(message_content_text("{"), Err(ContentError::NotJson));
}

#[test]
fn roles_have_wire_names() {
    assert_eq!(Role::System.as_str(), "system");
    assert_eq!(Role::User.to_string(), "user");
    assert_eq!(Role::Assistant.as_str(), "assistant");
}

#[test]
fn processing_and_error_text() {
    let r = process_data(DataType { id: "1".to_string(), value: "a\"b".to_string() });
    assert!(r.success);
    assert_eq!(r.message, "Processed data: DataType { id: \"1\", value: \"a\\\"b\" }");
    let d = DataType { id: "1".to_string(), value: "a\"b".to_string() };
    assert_eq!(r.message, format!("Processed data: {:?}", d));
    assert_eq!(format_error("boom"), "Error: boom");
    assert!(get_system_prompt().starts_with("You are DualMind"));
}
