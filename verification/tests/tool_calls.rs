use lettuce_core::chat::openai_responses::{JsonText, ToolCallParts};
use lettuce_core::chat::tool_call_scan::{first_calls, scan_tool_calls, ScanItem};
use lettuce_core::json::Json;

fn s(text: &str) -> Json {
    Json::Str(text.to_string())
}

fn obj(members: Vec<(&str, Json)>) -> Json {
    Json::Object(members.into_iter().map(|(k, v)| (k.to_string(), v)).collect())
}

fn call(id: &str, name: &str) -> Json {
    obj(vec![
        ("type", s("function_call")),
        ("call_id", s(id)),
        ("name", s(name)),
        ("arguments", s("{\"q\":1}")),
    ])
}

fn described(items: &[ScanItem]) -> Vec<String> {
    items
        .iter()
        .map(|item| match item {
            ScanItem::Call(c) => format!("call {} {}", c.id, c.name),
            ScanItem::EventText(t) => format!("event {t}"),
        })
        .collect()
}

#[test]
fn response_output_items_are_scanned_in_order() {
    let response = obj(vec![(
        "output",
        Json::Array(vec![
            obj(vec![("type", s("message")), ("content", Json::Array(vec![]))]),
            call("call-1", "search"),
            call("call-2", "remember"),
        ]),
    )]);
    assert_eq!(described(&scan_tool_calls(&response)), vec!["call call-1 search", "call call-2 remember"]);
}

#[test]
fn stream_events_only_report_their_own_item_or_response() {
    let done = obj(vec![("type", s("response.output_item.done")), ("item", call("call-7", "lookup"))]);
    assert_eq!(described(&scan_tool_calls(&done)), vec!["call call-7 lookup"]);
    let completed = obj(vec![
        ("type", s("response.completed")),
        ("response", obj(vec![("output", Json::Array(vec![call("call-8", "save")]))])),
        ("item", call("call-9", "ignored")),
    ]);
    assert_eq!(described(&scan_tool_calls(&completed)), vec!["call call-8 save"]);
    let delta = obj(vec![("type", s("response.output_text.delta")), ("item", call("call-10", "x"))]);
    assert!(scan_tool_calls(&delta).is_empty());
    let other = obj(vec![("type", s("custom")), ("output", Json::Array(vec![call("call-11", "y")]))]);
    assert_eq!(described(&scan_tool_calls(&other)), vec!["call call-11 y"]);
}

#[test]
fn event_stream_text_yields_its_data_lines() {
    let raw = s("event: response.created\r\ndata: {\"type\":\"a\"}\r\n\r\ndata:   \ndata: [DONE]\ndata:{\"type\":\"b\"}");
    assert_eq!(
        described(&scan_tool_calls(&raw)),
        vec!["event {\"type\":\"a\"}", "event {\"type\":\"b\"}"]
    );
    assert!(scan_tool_calls(&s("no events here")).is_empty());
}

#[test]
fn the_first_call_of_each_id_is_kept() {
    let part = |id: &str, name: &str| ToolCallParts {
        id: id.to_string(),
        name: name.to_string(),
        raw_arguments: JsonText::Text("{}".to_string()),
    };
    let kept = first_calls(vec![part("a", "one"), part("b", "two"), part("a", "three"), part("c", "four")]);
    let names: Vec<&str> = kept.iter().map(|c| c.name.as_str()).collect();
    assert_eq!(names, vec!["one", "two", "four"]);
}
