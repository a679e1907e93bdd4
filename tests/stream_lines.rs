use dualmind::json::Json;
use dualmind::stream::{extraction_order, fragment_of_json, process_stream, reply_content, Strategy};

#[test]
fn delta_content_is_extracted() {
    let line = r#"data: {"choices":[{"delta":{"content":"Hel"}}]}"#;
    assert_eq!(process_stream(line), Some("Hel".to_string()));
}

#[test]
fn message_content_is_extracted() {
    let line = r#"data: {"choices":[{"message":{"content":"Whole"}}]}"#;
    assert_eq!(process_stream(line), Some("Whole".to_string()));
}

#[test]
fn flat_text_is_extracted_without_prefix() {
    assert_eq!(process_stream(r#"{"text":"flat"}"#), Some("flat".to_string()));
}

#[test]
fn delta_wins_over_message_and_text() {
    let line = r#"data: {"choices":[{"delta":{"content":"d"},"message":{"content":"m"}}],"text":"t"}"#;
    assert_eq!(process_stream(line), Some("d".to_string()));
}

#[test]
fn empty_delta_falls_through_to_message() {
    let line = r#"data: {"choices":[{"delta":{"content":""},"message":{"content":"m"}}]}"#;
    assert_eq!(process_stream(line), Some("m".to_string()));
}

#[test]
fn empty_choices_fall_through_to_text() {
    let line = r#"data: {"choices":[],"text":"t"}"#;
    assert_eq!(process_stream(line), Some("t".to_string()));
}

#[test]
fn lines_without_content_give_none() {
    assert_eq!(process_stream(""), None);
    assert_eq!(process_stream("data: "), None);
    assert_eq!(process_stream("[DONE]"), None);
    assert_eq!(process_stream("data: [DONE]"), None);
    assert_eq!(process_stream(": OPENROUTER PROCESSING"), None);
    assert_eq!(process_stream(r#"data: {"choices":[{"delta":{"content":"x"}}"#), None);
    assert_eq!(process_stream(r#"data: {"choices":[{"delta":{"role":"assistant"}}]}"#), None);
    assert_eq!(process_stream(r#"data: {"choices":[{"delta":{"content":""}}]}"#), None);
    assert_eq!(process_stream(r#"data: {"text":5}"#), None);
    assert_eq!(process_stream("not json at all"), None);
    assert_eq!(process_stream("data: 42"), None);
}

#[test]
fn heartbeat_with_content_shape_is_still_skipped() {
    let line = r#"data: {"text":"OPENROUTER PROCESSING"}"#;
    assert_eq!(process_stream(line), None);
}

#[test]
fn strategies_run_in_documented_order() {
    assert_eq!(
        extraction_order(),
        vec![Strategy::DeltaContent, Strategy::MessageContent, Strategy::FlatText]
    );
}

#[test]
fn fragment_of_json_reads_a_built_document() {
    let doc = Json::Object(vec![("text".to_string(), Json::Str("hi".to_string()))]);
    assert_eq!(fragment_of_json(&doc), Some("hi".to_string()));
    let doc = Json::Object(vec![("text".to_string(), Json::Null)]);
    assert_eq!(fragment_of_json(&doc), None);
    assert_eq!(fragment_of_json(&Json::Array(vec![])), None);
}

#[test]
fn unicode_content_survives() {
    let line = r#"data: {"choices":[{"delta":{"content":"héllo \"q\""}}]}"#;
    assert_eq!(process_stream(line), Some("héllo \"q\"".to_string()));
}

#[test]
fn buffered_reply_content_is_read() {
    assert_eq!(
        reply_content(r#"{"choices":[{"index":0,"message":{"role":"assistant","content":"Hi there"}}]}"#),
        Some("Hi there".to_string())
    );
    assert_eq!(reply_content(r#"{"choices":[]}"#), Some(String::new()));
    assert_eq!(reply_content("<html>"), None);
}
