use lettuce_core::chat::openai_responses::{
    extract_output_text, extract_reasoning_summary, first_call_positions, is_provider_id,
    is_terminal_stream_event, looks_like_response, messages_to_input, response_item_to_tool_call,
    sse_line_payload, stream_error_message, stream_reasoning_delta, stream_text_delta,
    stream_tool_call, tool_choice, tools, InputItem, JsonText, CUSTOM_PROVIDER_ID,
};
use lettuce_core::chat::provider_adapter::custom_openai_responses::CustomOpenAIResponsesAdapter;
use lettuce_core::chat::provider_adapter::moonshot::{moonshot_thinking_type, MoonshotAdapter};
use lettuce_core::chat::provider_adapter::responses_compatibility::{
    apply_reasoning, dialect_for, ResponsesDialect,
};
use lettuce_core::chat::provider_native_tools::apply;
use lettuce_core::chat::tooling::{ToolChoice, ToolConfig, ToolDefinition};
use lettuce_core::chat::types::ProviderCredential;
use lettuce_core::json::{Json, JsonNumber};
use lettuce_core::reasoning::ReasoningMode;

fn s(text: &str) -> Json {
    Json::Str(text.to_string())
}

fn n(value: u64) -> Json {
    Json::Number(JsonNumber::PosInt(value))
}

fn obj(members: Vec<(&str, Json)>) -> Json {
    Json::Object(members.into_iter().map(|(k, v)| (k.to_string(), v)).collect())
}

fn at<'a>(value: &'a Json, path: &[&str]) -> Option<&'a Json> {
    let mut current = value;
    for step in path {
        current = match current {
            Json::Array(items) => items.get(step.parse::<usize>().ok()?)?,
            _ => current.get(step)?,
        };
    }
    Some(current)
}

fn text_at<'a>(value: &'a Json, path: &[&str]) -> Option<&'a str> {
    at(value, path).and_then(|v| v.as_str()).map(|s| s.as_str())
}

fn credential(config: Option<Json>) -> ProviderCredential {
    ProviderCredential {
        id: "credential-1".to_string(),
        provider_id: CUSTOM_PROVIDER_ID.to_string(),
        label: "Responses".to_string(),
        api_key: None,
        base_url: Some("https://example.com".to_string()),
        default_model: None,
        headers: None,
        config,
    }
}

fn dialect_credential(dialect: Option<&str>) -> ProviderCredential {
    credential(Some(match dialect {
        Some(dialect) => obj(vec![("responsesDialect", s(dialect))]),
        None => obj(vec![]),
    }))
}

#[test]
fn ark_enabled_sends_thinking_and_effort() {
    let mut body = obj(vec![("reasoning", obj(vec![("effort", s("minimal"))]))]);
    apply_reasoning(
        &mut body,
        &dialect_credential(Some("volcengine-ark")),
        ReasoningMode::Enabled,
        Some("max"),
    );
    assert_eq!(text_at(&body, &["thinking", "type"]), Some("enabled"));
    assert_eq!(text_at(&body, &["reasoning", "effort"]), Some("max"));
}

#[test]
fn provider_default_omits_control_fields() {
    let mut body = obj(vec![("reasoning", obj(vec![("effort", s("minimal"))]))]);
    apply_reasoning(&mut body, &dialect_credential(None), ReasoningMode::ProviderDefault, None);
    assert!(body.get("reasoning").is_none());
    assert!(body.get("thinking").is_none());
}

#[test]
fn ark_disabled_forces_minimal_effort() {
    let mut body = obj(vec![("reasoning", obj(vec![("effort", s("max"))]))]);
    apply_reasoning(
        &mut body,
        &dialect_credential(Some("volcengine-ark")),
        ReasoningMode::Disabled,
        Some("max"),
    );
    assert_eq!(text_at(&body, &["thinking", "type"]), Some("disabled"));
    assert_eq!(text_at(&body, &["reasoning", "effort"]), Some("minimal"));
}

#[test]
fn reasoning_dialects_and_other_providers() {
    let legacy = credential(Some(obj(vec![("webSearch", obj(vec![("mode", s("volcengine-ark"))]))])));
    assert_eq!(dialect_for(&legacy), ResponsesDialect::VolcengineArk);
    assert_eq!(dialect_for(&credential(None)), ResponsesDialect::OpenAi);
    let mut body = obj(vec![("thinking", s("x"))]);
    apply_reasoning(&mut body, &dialect_credential(Some("openai")), ReasoningMode::Disabled, None);
    assert!(body.get("thinking").is_none());
    assert_eq!(text_at(&body, &["reasoning", "effort"]), Some("minimal"));
    let mut other = credential(None);
    other.provider_id = "openai".to_string();
    let mut untouched = obj(vec![("thinking", s("x"))]);
    apply_reasoning(&mut untouched, &other, ReasoningMode::Disabled, None);
    assert_eq!(text_at(&untouched, &["thinking"]), Some("x"));
    assert!(is_provider_id("Custom-OpenAI-Responses"));
}

#[test]
fn applies_ark_web_search_with_bounded_settings() {
    let credential = credential(Some(obj(vec![(
        "webSearch",
        obj(vec![
            ("mode", s("volcengine-ark")),
            ("maxKeyword", n(99)),
            ("limit", n(0)),
            ("maxToolCalls", n(4)),
        ]),
    )])));
    let mut body = obj(vec![("model", s("doubao")), ("tools", Json::Array(vec![]))]);

    let applied = apply(&mut body, &credential, true);

    assert!(applied.web_search);
    assert_eq!(text_at(&body, &["tools", "0", "type"]), Some("web_search"));
    assert_eq!(at(&body, &["tools", "0", "max_keyword"]).and_then(|v| v.as_u64()), Some(50));
    assert_eq!(at(&body, &["tools", "0", "limit"]).and_then(|v| v.as_u64()), Some(1));
    assert_eq!(body.get_u64("max_tool_calls"), Some(4));
    assert_eq!(text_at(&body, &["tool_choice"]), Some("auto"));
}

#[test]
fn requires_both_provider_configuration_and_model_enablement() {
    let enabled_credential =
        credential(Some(obj(vec![("webSearch", obj(vec![("mode", s("volcengine-ark"))]))])));
    let mut body = obj(vec![("model", s("doubao"))]);

    assert!(!apply(&mut body, &enabled_credential, false).web_search);
    assert!(body.get("tools").is_none());

    let mut unconfigured = obj(vec![("model", s("doubao"))]);
    let disabled_credential = credential(Some(obj(vec![("webSearch", obj(vec![("mode", s("none"))]))])));
    assert!(!apply(&mut unconfigured, &disabled_credential, true).web_search);
    assert!(unconfigured.get("tools").is_none());
}

#[test]
fn web_search_is_added_once_and_keeps_tool_choice() {
    let credential =
        credential(Some(obj(vec![("webSearch", obj(vec![("mode", s("volcengine-ark"))]))])));
    let mut body = obj(vec![
        ("tools", Json::Array(vec![obj(vec![("type", s("web_search"))])])),
        ("tool_choice", s("required")),
    ]);
    assert!(apply(&mut body, &credential, true).web_search);
    assert_eq!(body.get_array("tools").unwrap().len(), 1);
    assert_eq!(text_at(&body, &["tool_choice"]), Some("required"));
    assert_eq!(body.get_u64("max_tool_calls"), Some(3));
    let mut bad_tools = obj(vec![("tools", s("x"))]);
    assert!(!apply(&mut bad_tools, &credential, true).web_search);
    assert!(bad_tools.get("max_tool_calls").is_none());
}

fn moonshot_body(model_name: &str, reasoning_enabled: bool) -> Json {
    MoonshotAdapter.body(
        model_name,
        vec![obj(vec![("role", s("user")), ("content", s("hello"))])],
        1024,
        None,
        true,
        None,
        reasoning_enabled,
        Some(2048),
    )
}

#[test]
fn kimi_k27_code_never_sends_disabled_thinking() {
    let body = moonshot_body("kimi-k2.7-code", false);

    assert_eq!(text_at(&body, &["thinking", "type"]), Some("enabled"));
    assert!(body.get("enable_thinking").is_none());
    assert!(body.get("reasoning_effort").is_none());
}

#[test]
fn kimi_k26_can_disable_thinking() {
    let body = moonshot_body("kimi-k2.6", false);

    assert_eq!(text_at(&body, &["thinking", "type"]), Some("disabled"));
}

#[test]
fn unknown_moonshot_model_omits_thinking() {
    let body = moonshot_body("moonshot-v1-8k", false);

    assert!(body.get("thinking").is_none());
}

#[test]
fn moonshot_body_members() {
    let body = moonshot_body("kimi-k2.6", true);
    assert_eq!(text_at(&body, &["model"]), Some("kimi-k2.6"));
    assert!(matches!(body.get("stream"), Some(Json::Bool(true))));
    assert_eq!(body.get_u64("max_tokens"), Some(3072));
    assert_eq!(body.get_array("messages").unwrap().len(), 1);
    assert_eq!(text_at(&body, &["thinking", "type"]), Some("enabled"));
    assert!(body.get("context_length").is_none());
    assert!(body.get("tools").is_none());
    assert!(body.get("tool_choice").is_none());
    assert!(body.get("max_completion_tokens").is_none());

    let config = ToolConfig {
        tools: vec![ToolDefinition {
            name: "lookup".to_string(),
            description: Some("Looks a word up".to_string()),
            parameters: obj(vec![("type", s("object"))]),
        }],
        choice: Some(ToolChoice::Tool { name: "lookup".to_string() }),
    };
    let with_tools = MoonshotAdapter.body("moonshot-v1-8k", vec![], 100, Some(8192), false, Some(&config), false, None);
    assert_eq!(with_tools.get_u64("max_tokens"), Some(100));
    assert_eq!(with_tools.get_u64("context_length"), Some(8192));
    let tools = with_tools.get_array("tools").unwrap();
    assert_eq!(tools.len(), 1);
    assert_eq!(text_at(&tools[0], &["type"]), Some("function"));
    assert_eq!(text_at(&tools[0], &["function", "name"]), Some("lookup"));
    assert_eq!(text_at(&tools[0], &["function", "description"]), Some("Looks a word up"));
    assert_eq!(text_at(&with_tools, &["tool_choice", "function", "name"]), Some("lookup"));

    let no_tools = ToolConfig { tools: vec![], choice: Some(ToolChoice::Required) };
    let without = MoonshotAdapter.body("moonshot-v1-8k", vec![], 100, None, false, Some(&no_tools), false, None);
    assert!(without.get("tools").is_none());
    assert!(without.get("tool_choice").is_none());
}

#[test]
fn moonshot_endpoint_headers_and_budget() {
    assert_eq!(MoonshotAdapter.endpoint("https://api.moonshot.ai//"), "https://api.moonshot.ai/v1/chat/completions");
    assert_eq!(MoonshotAdapter.endpoint("https://x/v1/"), "https://x/v1/chat/completions");
    assert_eq!(moonshot_thinking_type("KIMI-K2.5-preview", true), Some("enabled"));
    let extra = vec![("Accept".to_string(), "application/json".to_string())];
    let headers = MoonshotAdapter.headers("k", Some(&extra));
    assert_eq!(headers.len(), 4);
    assert!(headers.contains(&("Authorization".to_string(), "Bearer k".to_string())));
    assert!(headers.contains(&("Accept".to_string(), "application/json".to_string())));
    assert_eq!(MoonshotAdapter::total_tokens(1024, Some(2048)), 3072);
}

#[test]
fn builds_standard_responses_request() {
    let adapter = CustomOpenAIResponsesAdapter::new(&credential(None));
    let input = vec![obj(vec![("type", s("message")), ("role", s("user")), ("content", s("hello"))])];
    let body = adapter.body("model-1", input, Some("system".to_string()), 1024, true, None, false, None);

    assert!(matches!(body.get("stream"), Some(Json::Bool(true))));
    assert!(matches!(body.get("store"), Some(Json::Bool(false))));
    assert_eq!(body.get_u64("max_output_tokens"), Some(1024));
    assert_eq!(text_at(&body, &["reasoning", "effort"]), Some("minimal"));
    assert!(body.get("messages").is_none());
}

#[test]
fn responses_adapter_pieces() {
    let adapter = CustomOpenAIResponsesAdapter::new(&credential(None));
    let reasoning = adapter.reasoning(false, None).unwrap();
    assert_eq!(text_at(&reasoning, &["effort"]), Some("minimal"));
    assert!(adapter.reasoning(true, None).is_none());
    assert_eq!(adapter.endpoint("https://example.com/"), "https://example.com/v1/responses");
    assert!(adapter.supports_stream());
    let input = messages_to_input(&[obj(vec![("role", s("user")), ("content", s("hello"))])]);
    assert_eq!(input.len(), 1);
    assert!(matches!(&input[0], InputItem::Message { role, .. } if role == "user"));
}

#[test]
fn custom_adapter_authentication_modes() {
    let query = CustomOpenAIResponsesAdapter::new(&credential(Some(obj(vec![
        ("authMode", s("QUERY")),
        ("authQueryParamName", s("key")),
        ("chatEndpoint", s(" chat/run ")),
    ]))));
    assert_eq!(query.build_url("https://h/base/", "secret"), "https://h/base/chat/run?key=secret");
    assert_eq!(query.build_url("https://h", " "), "https://h/chat/run");
    assert_eq!(query.headers("secret", None).len(), 2);
    let header = CustomOpenAIResponsesAdapter::new(&credential(Some(obj(vec![("authMode", s("header"))]))));
    assert!(header.headers("k", None).contains(&("x-api-key".to_string(), "k".to_string())));
    let bearer = CustomOpenAIResponsesAdapter::new(&credential(None));
    assert!(bearer.headers("k", None).contains(&("Authorization".to_string(), "Bearer k".to_string())));
    let absolute = CustomOpenAIResponsesAdapter::new(&credential(Some(obj(vec![
        ("modelsEndpoint", s("https://other/models")),
        ("supportsStream", Json::Bool(false)),
    ]))));
    assert_eq!(absolute.list_models_endpoint("https://h"), "https://other/models");
    assert!(!absolute.supports_stream());
}

#[test]
fn tool_choice_modes_of_custom_adapter() {
    let config = ToolConfig {
        tools: vec![ToolDefinition {
            name: "remember".to_string(),
            description: Some("store".to_string()),
            parameters: obj(vec![]),
        }],
        choice: Some(ToolChoice::Tool { name: "remember".to_string() }),
    };
    let passthrough = CustomOpenAIResponsesAdapter::new(&credential(Some(obj(vec![("toolChoiceMode", s("passthrough"))]))));
    let (offered, choice) = passthrough.tools_and_choice(Some(&config));
    assert_eq!(text_at(&offered.unwrap()[0], &["description"]), Some("store"));
    assert_eq!(text_at(&choice.unwrap(), &["name"]), Some("remember"));
    let omit = CustomOpenAIResponsesAdapter::new(&credential(Some(obj(vec![("toolChoiceMode", s("omit"))]))));
    assert!(omit.tools_and_choice(Some(&config)).1.is_none());
    let empty = ToolConfig { tools: vec![], choice: None };
    assert!(omit.tools_and_choice(Some(&empty)).0.is_none());
    assert!(tools(&empty).is_none());
    assert_eq!(tool_choice(Some(&ToolChoice::Any)).unwrap().as_str().map(|s| s.as_str()), Some("required"));
}

#[test]
fn converts_chat_messages_images_and_tool_history() {
    let input = messages_to_input(&[
        obj(vec![
            ("role", s("user")),
            (
                "content",
                Json::Array(vec![
                    obj(vec![("type", s("text")), ("text", s("look"))]),
                    obj(vec![("type", s("image_url")), ("image_url", obj(vec![("file_id", s("file-1"))]))]),
                ]),
            ),
        ]),
        obj(vec![
            ("role", s("assistant")),
            ("content", Json::Null),
            (
                "tool_calls",
                Json::Array(vec![obj(vec![
                    ("id", s("call-1")),
                    ("type", s("function")),
                    (
                        "function",
                        obj(vec![("name", s("remember")), ("arguments", s("{\"value\":1}"))]),
                    ),
                ])]),
            ),
        ]),
        obj(vec![("role", s("tool")), ("tool_call_id", s("call-1")), ("content", s("ok"))]),
    ]);

    match &input[0] {
        InputItem::Message { content, .. } => {
            assert_eq!(text_at(content, &["0", "type"]), Some("input_text"));
            assert_eq!(text_at(content, &["1", "file_id"]), Some("file-1"));
        }
        _ => panic!("expected a message"),
    }
    assert!(matches!(&input[1], InputItem::FunctionCall { call_id, .. } if call_id == "call-1"));
    assert!(matches!(&input[2], InputItem::FunctionCallOutput { output: JsonText::Text(t), .. } if t == "ok"));
}

#[test]
fn extracts_only_visible_response_text() {
    let response = obj(vec![
        ("object", s("response")),
        (
            "output",
            Json::Array(vec![
                obj(vec![
                    ("type", s("reasoning")),
                    ("summary", Json::Array(vec![obj(vec![("type", s("summary_text")), ("text", s("why"))])])),
                ]),
                obj(vec![
                    ("type", s("message")),
                    ("content", Json::Array(vec![obj(vec![("type", s("output_text")), ("text", s("hello"))])])),
                ]),
            ]),
        ),
    ]);

    assert_eq!(extract_output_text(&response).as_deref(), Some("hello"));
    assert_eq!(extract_reasoning_summary(&response).as_deref(), Some("why"));
    assert!(looks_like_response(&response));
}

#[test]
fn extracts_refusal_as_visible_text() {
    let response = obj(vec![
        ("object", s("response")),
        (
            "output",
            Json::Array(vec![obj(vec![
                ("type", s("message")),
                ("content", Json::Array(vec![obj(vec![("type", s("refusal")), ("refusal", s("cannot comply"))])])),
            ])]),
        ),
    ]);

    assert_eq!(extract_output_text(&response).as_deref(), Some("cannot comply"));
    assert_eq!(
        stream_text_delta(&obj(vec![("type", s("response.refusal.delta")), ("delta", s("cannot comply"))]))
            .as_deref(),
        Some("cannot comply")
    );
}

#[test]
fn extracts_function_calls_using_call_id() {
    let item = obj(vec![
        ("type", s("function_call")),
        ("id", s("fc-1")),
        ("call_id", s("call-1")),
        ("name", s("remember")),
        ("arguments", s("{\"value\":1}")),
    ]);

    let call = response_item_to_tool_call(&item).unwrap();
    assert_eq!(call.id, "call-1");
    assert!(matches!(&call.raw_arguments, JsonText::Text(t) if t == "{\"value\":1}"));
    let calls = vec![call, response_item_to_tool_call(&item).unwrap()];
    assert_eq!(first_call_positions(&calls), vec![0]);
}

#[test]
fn stream_events_are_classified() {
    let done = obj(vec![
        ("type", s("response.output_item.done")),
        ("item", obj(vec![("type", s("function_call")), ("id", s("x")), ("name", s("f"))])),
    ]);
    let call = stream_tool_call(&done).unwrap();
    assert_eq!(call.id, "x");
    assert!(matches!(&call.raw_arguments, JsonText::Text(t) if t == "{}"));
    assert_eq!(
        stream_reasoning_delta(&obj(vec![("type", s("response.reasoning_text.delta")), ("delta", s("hm"))])).as_deref(),
        Some("hm")
    );
    let failed = obj(vec![
        ("type", s("response.failed")),
        ("response", obj(vec![("error", obj(vec![("message", s("boom"))]))])),
    ]);
    assert_eq!(stream_error_message(&failed).as_deref(), Some("boom"));
    assert!(is_terminal_stream_event(&failed));
    let error = obj(vec![("type", s("error")), ("message", s("bad"))]);
    assert_eq!(stream_error_message(&error).as_deref(), Some("bad"));
    assert_eq!(sse_line_payload("  data: {\"a\":1} ").as_deref(), Some("{\"a\":1}"));
    assert_eq!(sse_line_payload("data: [DONE]"), None);
    assert_eq!(sse_line_payload("event: x"), None);
}

#[test]
fn applying_web_search_twice_changes_nothing_more() {
    let credential = credential(Some(obj(vec![(
        "webSearch",
        obj(vec![("mode", s("volcengine-ark")), ("maxToolCalls", n(5))]),
    )])));
    let mut body = obj(vec![("model", s("doubao"))]);
    assert!(apply(&mut body, &credential, true).web_search);
    let once = format!("{:?}", body);
    assert!(apply(&mut body, &credential, true).web_search);
    assert_eq!(format!("{:?}", body), once);
    assert_eq!(body.get_array("tools").unwrap().len(), 1);
    assert_eq!(body.get_u64("max_tool_calls"), Some(5));
}

#[test]
fn custom_responses_body_assembles_its_members() {
    let adapter = CustomOpenAIResponsesAdapter::new(&credential(None));
    let input = vec![obj(vec![("type", s("message")), ("role", s("user"))])];
    let tools = ToolConfig {
        tools: vec![ToolDefinition {
            name: "remember".to_string(),
            description: None,
            parameters: obj(vec![("type", s("object"))]),
        }],
        choice: None,
    };
    let body = adapter.body("gpt-x", input, Some("be brief".to_string()), 512, true, Some(&tools), false, None);
    assert_eq!(text_at(&body, &["model"]), Some("gpt-x"));
    assert_eq!(body.get_array("input").map(|items| items.len()), Some(1));
    assert!(matches!(body.get("stream"), Some(Json::Bool(true))));
    assert!(matches!(body.get("store"), Some(Json::Bool(false))));
    assert_eq!(text_at(&body, &["instructions"]), Some("be brief"));
    assert_eq!(body.get_u64("max_output_tokens"), Some(512));
    assert_eq!(text_at(&body, &["reasoning", "effort"]), Some("minimal"));
    assert_eq!(text_at(&body, &["tools", "0", "name"]), Some("remember"));
    assert_eq!(text_at(&body, &["tool_choice"]), Some("auto"));
    let bare = adapter.body("gpt-x", vec![], None, 64, false, None, true, None);
    assert!(bare.get("instructions").is_none());
    assert!(bare.get("reasoning").is_none());
    assert!(bare.get("tools").is_none());
    assert!(bare.get("tool_choice").is_none());
    let with_effort = adapter.body("gpt-x", vec![], None, 64, false, None, true, Some("high"));
    assert_eq!(text_at(&with_effort, &["reasoning", "effort"]), Some("high"));
}
