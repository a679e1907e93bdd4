use dualmind::classify::{clean_response_text, is_coding_request, is_continuation_request};
use dualmind::reasoning::{reasoning_from_lines, wrap_reasoning};

#[test]
fn coding_keywords_are_case_insensitive() {
    assert!(is_coding_request("Write a PYTHON script"));
    assert!(is_coding_request("How do I use an API?"));
    assert!(!is_coding_request("Tell me about the weather today"));
}

#[test]
fn coding_markers_count_as_they_are() {
    assert!(is_coding_request("what does `x` mean"));
    assert!(is_coding_request("#include <stdio.h>"));
    assert!(is_coding_request("please explain def foo"));
    assert!(!is_coding_request(""));
}

#[test]
fn short_messages_continue() {
    assert!(is_continuation_request("ok"));
    assert!(is_continuation_request("   a b c d   "));
    assert!(!is_continuation_request("Describe the history of the Roman empire"));
    assert!(is_continuation_request("Describe the Roman empire, and tell me MORE about it"));
}

#[test]
fn five_words_do_not_continue_by_length() {
    assert!(!is_continuation_request("one two three four five"));
    assert!(is_continuation_request("one two three four"));
}

#[test]
fn opener_near_start_is_cut_with_its_line() {
    assert_eq!(
        clean_response_text("Let me think about this carefully.\nThe answer is 4."),
        "The answer is 4."
    );
    assert_eq!(clean_response_text("  plain reply  "), "plain reply");
}

#[test]
fn opener_far_from_start_stays() {
    let text = format!("{}I'll provide more.\nEnd", "x".repeat(50));
    assert_eq!(clean_response_text(&text), text);
    let text = format!("{}I'll provide more.\nEnd", "x".repeat(49));
    assert_eq!(clean_response_text(&text), "End");
}

#[test]
fn opener_bound_counts_bytes() {
    // 25 two-byte characters take 50 bytes.
    let text = format!("{}I'll provide more.\nEnd", "é".repeat(25));
    assert_eq!(clean_response_text(&text), text);
}

#[test]
fn opener_without_line_break_stays() {
    assert_eq!(clean_response_text("I'll provide it all"), "I'll provide it all");
}

#[test]
fn openers_apply_in_turn() {
    assert_eq!(
        clean_response_text("Here's my response\nI'll provide this:\nBody"),
        "Body"
    );
}

#[test]
fn reasoning_is_wrapped_once() {
    assert_eq!(wrap_reasoning("<think>X</think>"), "<think>\nX\n</think>");
    assert_eq!(wrap_reasoning("  thoughts \n"), "<think>\nthoughts\n</think>");
    assert_eq!(wrap_reasoning("a<think>b</think>c<think>"), "<think>\nabc\n</think>");
    assert_eq!(wrap_reasoning(""), "<think>\n\n</think>");
    assert_eq!(wrap_reasoning("<thi<think>nk>"), "<think>\n\n</think>");
    assert_eq!(wrap_reasoning("a<</think>/think>b"), "<think>\nab\n</think>");
}

#[test]
fn reasoning_gathers_fragments_from_lines() {
    let lines = vec![
        r#"data: {"choices":[{"delta":{"content":"Some "}}]}"#.to_string(),
        ": OPENROUTER PROCESSING".to_string(),
        r#"data: {"choices":[{"delta":{"content":"thoughts"}}]}"#.to_string(),
        "data: [DONE]".to_string(),
    ];
    assert_eq!(reasoning_from_lines(&lines), "<think>\nSome thoughts\n</think>");
}

#[test]
fn uppercase_keyword_needs_lowering() {
    assert!(is_coding_request("Tell me about PYTHON"));
    assert!(is_continuation_request("Please CONTINUE the story from where you stopped"));
}
