use lettuce_core::json::{Json, JsonNumber};

#[test]
fn a_read_gives_back_the_last_write() {
    let mut doc = Json::Object(vec![
        ("a".to_string(), Json::Number(JsonNumber::PosInt(1))),
        ("b".to_string(), Json::Bool(true)),
    ]);
    doc.insert("a", Json::Str("x".to_string()));
    doc.insert("c", Json::Null);
    assert_eq!(doc.get_str("a").map(|s| s.as_str()), Some("x"));
    assert_eq!(doc.get_bool("b"), Some(true));
    assert!(doc.get("c").map(|v| v.is_null()).unwrap_or(false));
    doc.remove("a");
    assert!(doc.get("a").is_none());
    assert_eq!(doc.get_bool("b"), Some(true));
}
