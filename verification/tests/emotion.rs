use lettuce_core::chat::emotion::llm::{build_messages, EMOTION_EXTRACTION_SYSTEM_PROMPT};
use lettuce_core::chat::emotion::llm::{
    build_user_content, clean_label, disables_thinking, extract_json_object, message_to_analyse,
    render_context_messages, resolve_emotion_model, sanitize_role, supports_text_generation_model,
    truncate_context, EmotionContextMessage, EmotionModelSource,
};
use lettuce_core::chat::emotion::mapper::{
    apply_emotion_label, category_effect, category_signal, label_category,
    label_threshold_permille, normalize_label, push_signal, EmotionCategory,
};
use lettuce_core::chat::types::Model;

fn context(role: &str, content: &str) -> EmotionContextMessage {
    EmotionContextMessage {
        role: role.to_string(),
        content: content.to_string(),
    }
}

fn model(inputs: &[&str], outputs: &[&str]) -> Model {
    Model {
        name: "m".to_string(),
        advanced_model_settings: None,
        input_scopes: inputs.iter().map(|s| s.to_string()).collect(),
        output_scopes: outputs.iter().map(|s| s.to_string()).collect(),
    }
}

#[test]
fn roles_are_quoted_from_a_fixed_set() {
    assert_eq!(sanitize_role("ASSISTANT"), "assistant");
    assert_eq!(sanitize_role("User"), "user");
    assert_eq!(sanitize_role("system"), "system");
    assert_eq!(sanitize_role("narrator"), "unknown");
}

#[test]
fn context_is_trimmed_and_cut() {
    assert_eq!(truncate_context("  hi  "), "hi");
    let long = "é".repeat(1300);
    assert_eq!(truncate_context(&long).chars().count(), 1200);
}

#[test]
fn blank_context_messages_are_left_out() {
    let rendered = render_context_messages(&vec![
        context("user", "  hello "),
        context("assistant", "   "),
        context("Bot", "x"),
    ]);
    assert_eq!(
        rendered,
        "<context_message role=\"user\">\nhello\n</context_message>\n<context_message role=\"unknown\">\nx\n</context_message>"
    );
}

#[test]
fn request_without_context_names_the_role() {
    assert_eq!(
        build_user_content("user", "I am happy", &vec![]),
        "Analyze this current user message:\n<current_message role=\"user\">\nI am happy\n</current_message>"
    );
    let with_context = build_user_content("assistant", "ok", &vec![context("user", "hi")]);
    assert!(with_context.starts_with("Context messages, for reference only:\n<context_messages>\n<context_message role=\"user\">\nhi\n</context_message>\n</context_messages>\n\nAnalyze only this current assistant message:"));
    assert_eq!(message_to_analyse("   "), None);
    assert_eq!(message_to_analyse(" hey ").as_deref(), Some("hey"));
}

#[test]
fn json_object_is_found_in_a_reply() {
    assert_eq!(extract_json_object(" {\"a\":1} ").as_deref(), Some("{\"a\":1}"));
    assert_eq!(
        extract_json_object("```json\n{\"a\":{\"b\":2}}\n```").as_deref(),
        Some("{\"a\":{\"b\":2}}")
    );
    assert_eq!(extract_json_object("no braces"), None);
    assert_eq!(extract_json_object("} then {"), None);
}

#[test]
fn models_must_read_and_write_text() {
    let text = model(&["Text", "image"], &["text"]);
    let vision = model(&["image"], &["text"]);
    assert!(supports_text_generation_model(&text));
    assert!(!supports_text_generation_model(&vision));
    assert_eq!(
        resolve_emotion_model(Some("soul"), Some(&text), Some(&text)),
        Some(EmotionModelSource::Configured)
    );
    assert_eq!(
        resolve_emotion_model(Some("  "), Some(&text), Some(&text)),
        Some(EmotionModelSource::Default)
    );
    assert_eq!(
        resolve_emotion_model(Some("soul"), Some(&vision), Some(&vision)),
        None
    );
    assert_eq!(resolve_emotion_model(None, None, Some(&text)), Some(EmotionModelSource::Default));
    assert!(disables_thinking("deepseek"));
    assert!(!disables_thinking("openai"));
    assert_eq!(clean_label("  Joy "), Some("joy".to_string()));
    assert_eq!(clean_label("   "), None);
}

#[test]
fn labels_are_normalised_and_thresholded() {
    assert_eq!(normalize_label(" Very Happy "), "very_happy");
    assert_eq!(label_threshold_permille("Neutral"), 650);
    assert_eq!(label_threshold_permille(" hurt"), 250);
    assert_eq!(label_threshold_permille("joy"), 300);
    assert_eq!(label_category("Gratitude"), Some(EmotionCategory::Appreciation));
    assert_eq!(label_category("hurt"), None);
    assert_eq!(category_signal(EmotionCategory::Conflict), "emotion:conflict");
}

#[test]
fn labels_map_to_signals_once_and_to_effects() {
    let mut signals = Vec::new();
    let love = apply_emotion_label("Love", &mut signals).expect("love");
    assert_eq!(love.warmth, 100);
    assert_eq!(love.affection_intensity, 150);
    assert_eq!(love.affection, 55);
    apply_emotion_label("joy", &mut signals);
    apply_emotion_label("amusement", &mut signals);
    assert!(apply_emotion_label("boredom", &mut signals).is_none());
    assert_eq!(signals, vec!["emotion:love".to_string(), "emotion:positive".to_string()]);
    let conflict = category_effect(EmotionCategory::Conflict);
    assert_eq!(conflict.tension, 120);
    assert_eq!(conflict.affection, -60);
    assert_eq!(conflict.stability, -35);
    assert_eq!(category_effect(EmotionCategory::Neutral).stability, 10);
    let mut list = vec!["a".to_string()];
    push_signal(&mut list, "a");
    push_signal(&mut list, "b");
    assert_eq!(list, vec!["a".to_string(), "b".to_string()]);
}

#[test]
fn extraction_request_has_instructions_then_message() {
    let messages = build_messages("user", "hi", &vec![]);
    assert_eq!(messages.len(), 2);
    assert_eq!(messages[0].get_str("role").map(|s| s.as_str()), Some("system"));
    assert_eq!(
        messages[0].get_str("content").map(|s| s.as_str()),
        Some(EMOTION_EXTRACTION_SYSTEM_PROMPT)
    );
    assert!(EMOTION_EXTRACTION_SYSTEM_PROMPT.starts_with("You are an emotion extraction component"));
    assert_eq!(messages[1].get_str("role").map(|s| s.as_str()), Some("user"));
    assert_eq!(
        messages[1].get_str("content").map(|s| s.as_str()),
        Some("Analyze this current user message:\n<current_message role=\"user\">\nhi\n</current_message>")
    );
}
