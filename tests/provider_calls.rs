use dualmind::ids::{new_completion_id, session_id_or_new};
use dualmind::models::{Message, Role};
use dualmind::provider::{
    crafting_request, pace, parse_setting, prompt_turns, provider_family, reasoning_request,
    ProviderFamily, Setting, Upstream,
};

fn up(url: &str, craft: &str) -> Upstream {
    Upstream {
        api_url: url.to_string(),
        reasoning_model: "r".to_string(),
        craft_model: craft.to_string(),
    }
}

#[test]
fn gemini_models_take_the_combined_shape() {
    assert_eq!(provider_family("google/gemini-pro"), ProviderFamily::CombinedTurn);
    assert_eq!(provider_family("gpt-4o"), ProviderFamily::Standard);
    assert!(!ProviderFamily::CombinedTurn.supports_streaming());
    assert!(!ProviderFamily::CombinedTurn.supports_system_role());
    assert!(ProviderFamily::Standard.supports_streaming());
}

#[test]
fn combined_shape_folds_framing_into_first_user_turn() {
    let turns = vec![
        Message::new(Role::Assistant, "earlier".to_string()),
        Message::new(Role::User, "first".to_string()),
        Message::new(Role::User, "second".to_string()),
    ];
    let req = crafting_request(&up("http://g", "gemini-1.5"), &turns, "R", true);
    assert_eq!(req.url, "http://g");
    assert_eq!(req.stream, None);
    assert_eq!(req.messages.len(), 3);
    assert_eq!(req.messages[0], turns[0]);
    assert_eq!(req.messages[1].role, Role::User);
    assert!(req.messages[1].content.starts_with(&format!("{}", "You are a ")));
    assert!(req.messages[1]
        .content
        .ends_with("Use the following reasoning to help craft a response: R\n\nUser request: first"));
    assert_eq!(req.messages[2], turns[2]);
}

#[test]
fn combined_shape_without_user_turn_adds_framing() {
    let turns = vec![Message::new(Role::Assistant, "only".to_string())];
    let req = crafting_request(&up("http://g", "gemini"), &turns, "R", false);
    assert_eq!(req.messages.len(), 1);
    assert_eq!(req.messages[0].role, Role::User);
    assert!(req.messages[0].content.contains("Format your response in Markdown. Use"));
    assert!(req.messages[0].content.ends_with("craft a response: R"));
}

#[test]
fn standard_shape_has_system_turn_and_attribution() {
    let turns = vec![Message::new(Role::User, "write a rust function".to_string())];
    let req = crafting_request(&up("https://openrouter.ai/api", "chat-model"), &turns, "R", true);
    assert_eq!(req.url, "https://openrouter.ai/api/v1/chat/completions");
    assert_eq!(req.stream, Some(true));
    assert!(req.attribution);
    assert_eq!(req.messages[0].role, Role::System);
    assert_eq!(
        req.messages[0].content,
        "You are a coding assistant. Use the following reasoning to help implement a solution: R"
    );
    assert_eq!(req.messages[1], turns[0]);
    let req = crafting_request(&up("http://local", "chat-model"), &turns, "R", false);
    assert!(!req.attribution);
    assert_eq!(req.stream, Some(false));
    assert!(req.messages[0].content.contains("Markdown with proper code blocks"));
}

#[test]
fn reasoning_prompt_depends_on_latest_user_turn() {
    let turns = vec![
        Message::new(Role::User, "fix my python".to_string()),
        Message::new(Role::Assistant, "sure".to_string()),
    ];
    let req = reasoning_request(&up("http://x", "c"), &turns);
    assert!(req.messages[0].content.contains("for a coding assistant"));
    let turns = vec![Message::new(Role::User, "hello there".to_string())];
    let req = reasoning_request(&up("http://x", "c"), &turns);
    assert!(req.messages[0].content.contains("for an AI assistant"));
}

#[test]
fn pacing_cuts_fixed_pieces() {
    assert_eq!(pace("abcdefg", 5), vec!["abcde".to_string(), "fg".to_string()]);
    assert_eq!(pace("", 5), Vec::<String>::new());
    assert_eq!(pace("héllo", 2), vec!["hé".to_string(), "ll".to_string(), "o".to_string()]);
}

#[test]
fn blank_prompt_asks_for_help() {
    assert_eq!(prompt_turns("  ")[0].content, "Hello, I need assistance.");
    assert_eq!(prompt_turns("hi")[0].content, "hi");
}

#[test]
fn settings_come_from_prefixed_arguments() {
    assert_eq!(
        parse_setting("--craft_model=gpt"),
        Some((Setting::CraftModel, "gpt".to_string()))
    );
    assert_eq!(
        parse_setting("--api_url=http://x"),
        Some((Setting::ApiUrl, "http://x".to_string()))
    );
    assert_eq!(parse_setting("--api_key="), Some((Setting::ApiKey, String::new())));
    assert_eq!(parse_setting("--api"), None);
}

#[test]
fn ids_have_their_forms() {
    assert_eq!(session_id_or_new(Some("given".to_string())), "given");
    let fresh = session_id_or_new(None);
    assert_eq!(fresh.len(), 36);
    let a = new_completion_id();
    let b = new_completion_id();
    assert!(a.starts_with("chatcmpl-"));
    assert_eq!(a.len(), "chatcmpl-".len() + 32);
    assert_ne!(a, b);
}
