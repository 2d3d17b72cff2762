use lettuce_core::json::{Json, JsonNumber};
use lettuce_core::storage::memory_rewind::{
    apply_rewind, apply_rewind_with_anchor_id, missing_event_message_ids,
    repair_orphaned_history_state, rewind_state_for_deleted_messages, RewindState,
};

fn s(text: &str) -> Json {
    Json::Str(text.to_string())
}

fn n(value: u64) -> Json {
    Json::Number(JsonNumber::PosInt(value))
}

fn arr(items: Vec<Json>) -> Json {
    Json::Array(items)
}

fn obj(members: Vec<(&str, Json)>) -> Json {
    Json::Object(members.into_iter().map(|(k, v)| (k.to_string(), v)).collect())
}

fn strs(items: &[&str]) -> Json {
    arr(items.iter().map(|item| s(item)).collect())
}

fn memory(id: &str, source_message_id: Option<&str>) -> Json {
    obj(vec![
        ("id", s(id)),
        ("text", s(&format!("memory-{id}"))),
        ("embedding", arr(vec![])),
        ("sourceMessageId", source_message_id.map(s).unwrap_or(Json::Null)),
    ])
}

fn text_of<'a>(value: &'a Json, key: &str) -> Option<&'a str> {
    value.get_str(key).map(|s| s.as_str())
}

#[test]
fn rewinds_affected_actions_and_adds_cursor_anchor() {
    let mut old = memory("old", Some("kept"));
    old.insert("supersededBy", s("new"));
    old.insert("supersededAt", n(20));
    let mut new = memory("new", Some("deleted"));
    new.insert("supersedes", strs(&["old"]));
    let mut state = RewindState {
        memories: vec![old, new],
        events: vec![
            obj(vec![
                ("id", s("e1")),
                ("windowMessageIds", strs(&["kept"])),
                ("summary", s("before")),
                ("actions", arr(vec![])),
            ]),
            obj(vec![
                ("id", s("e2")),
                ("windowMessageIds", strs(&["deleted"])),
                ("summary", s("after")),
                (
                    "actions",
                    arr(vec![obj(vec![("name", s("create_memory")), ("memoryId", s("new"))])]),
                ),
            ]),
        ],
        summary: Some("after".to_string()),
        summary_token_count: 42,
    };

    let outcome = apply_rewind(
        &mut state,
        "session",
        Some("kept"),
        1,
        &["deleted".to_string()],
        100,
        "chat_rewind",
    );

    assert_eq!(outcome.reverted_events, 1);
    assert_eq!(state.memories.len(), 1);
    assert!(matches!(state.memories[0].get("supersededBy"), None | Some(Json::Null)));
    assert_eq!(state.summary.as_deref(), Some("before"));
    assert_eq!(state.summary_token_count, 0);
    assert_eq!(text_of(state.events.last().unwrap(), "type"), Some("rewind_anchor"));
}

#[test]
fn restores_deleted_memory_snapshot() {
    let snapshot = memory("restored", Some("kept"));
    let mut state = RewindState {
        memories: vec![],
        events: vec![obj(vec![
            ("windowMessageIds", strs(&["deleted"])),
            (
                "actions",
                arr(vec![obj(vec![
                    ("name", s("delete_memory")),
                    ("deletedMemoryId", s("restored")),
                    ("memorySnapshot", snapshot),
                ])]),
            ),
        ])],
        summary: Some("after".to_string()),
        summary_token_count: 10,
    };

    let outcome = apply_rewind(
        &mut state,
        "session",
        Some("kept"),
        1,
        &["deleted".to_string()],
        100,
        "chat_rewind",
    );

    assert_eq!(outcome.restored_memories, 1);
    assert_eq!(text_of(&state.memories[0], "id"), Some("restored"));
    assert_eq!(state.summary, None);
}

#[test]
fn shared_event_from_another_session_is_not_reverted() {
    let mut state = RewindState {
        memories: vec![memory("other", None)],
        events: vec![obj(vec![
            ("sourceSessionId", s("other-session")),
            ("windowMessageIds", strs(&["deleted"])),
            (
                "actions",
                arr(vec![obj(vec![("name", s("create_memory")), ("memoryId", s("other"))])]),
            ),
        ])],
        summary: None,
        summary_token_count: 0,
    };

    let outcome = apply_rewind(
        &mut state,
        "session",
        Some("kept"),
        1,
        &["deleted".to_string()],
        100,
        "chat_rewind",
    );

    assert_eq!(outcome.reverted_events, 0);
    assert_eq!(state.memories.len(), 1);
}

#[test]
fn shared_repair_only_collects_current_session_missing_ids() {
    let events = vec![
        obj(vec![
            ("sourceSessionId", s("current")),
            ("windowMessageIds", strs(&["kept", "deleted-current"])),
        ]),
        obj(vec![
            ("sourceSessionId", s("other")),
            ("windowMessageIds", strs(&["deleted-other"])),
        ]),
        obj(vec![("windowMessageIds", strs(&["legacy-unscoped"]))]),
    ];
    let live = vec!["kept".to_string()];

    let missing = missing_event_message_ids(&events, "current", true, &live);

    assert_eq!(missing, vec!["deleted-current".to_string()]);
}

#[test]
fn repair_anchor_keeps_recent_window_pending() {
    let mut state = RewindState {
        memories: vec![],
        events: vec![obj(vec![
            ("sourceSessionId", s("session")),
            ("windowMessageIds", strs(&["deleted"])),
            ("actions", arr(vec![])),
        ])],
        summary: None,
        summary_token_count: 0,
    };

    apply_rewind(
        &mut state,
        "session",
        Some("anchor"),
        20,
        &["deleted".to_string()],
        100,
        "orphaned_history_repair",
    );

    let anchor = state.events.last().unwrap();
    assert_eq!(anchor.get_u64("windowEnd"), Some(20));
    let ids: Vec<&str> = anchor
        .get_array("windowMessageIds")
        .unwrap()
        .iter()
        .map(|id| id.as_str().unwrap().as_str())
        .collect();
    assert_eq!(ids, vec!["anchor"]);
    assert_eq!(text_of(anchor, "reason"), Some("orphaned_history_repair"));
}

#[test]
fn reverted_events_are_marked_and_pins_restored() {
    let mut pinned = memory("m1", None);
    pinned.insert("isPinned", Json::Bool(true));
    let mut state = RewindState {
        memories: vec![pinned],
        events: vec![obj(vec![
            ("id", s("e")),
            ("windowMessageIds", strs(&["gone"])),
            (
                "actions",
                arr(vec![
                    obj(vec![("name", s("pin_memory")), ("memoryId", s("m1")), ("previousIsPinned", Json::Bool(false))]),
                    obj(vec![("name", s("create_memory")), ("skipped", Json::Bool(true)), ("memoryId", s("m1"))]),
                    obj(vec![("name", s("create_memory"))]),
                ]),
            ),
        ])],
        summary: Some("x".to_string()),
        summary_token_count: 3,
    };
    let outcome = apply_rewind_with_anchor_id(
        &mut state,
        "s",
        None,
        0,
        &["gone".to_string()],
        7,
        "chat_rewind",
        "anchor-id".to_string(),
    );
    assert_eq!(outcome.reverted_events, 1);
    assert_eq!(outcome.unrestorable_actions, 1);
    assert_eq!(outcome.removed_memories, 0);
    assert_eq!(state.memories[0].get_bool("isPinned"), Some(false));
    assert_eq!(state.events[0].get_u64("revertedAt"), Some(7));
    assert_eq!(text_of(&state.events[0], "revertReason"), Some("chat_rewind"));
    assert!(state.events[0].get("revertedByMessageId").is_none());
    let anchor = &state.events[1];
    assert_eq!(text_of(anchor, "id"), Some("anchor-id"));
    assert_eq!(anchor.get_array("windowMessageIds").unwrap().len(), 0);
    assert_eq!(text_of(anchor, "summary"), Some(""));
    assert_eq!(state.summary, None);
}

#[test]
fn events_are_capped_to_the_most_recent() {
    let mut events = Vec::new();
    for i in 0..50u64 {
        events.push(obj(vec![("id", n(i)), ("windowMessageIds", strs(&["live"]))]));
    }
    let mut state = RewindState { memories: vec![], events, summary: None, summary_token_count: 0 };
    let outcome = apply_rewind(&mut state, "s", Some("m"), 3, &[], 1, "chat_rewind");
    assert_eq!(outcome.reverted_events, 0);
    assert_eq!(state.events.len(), 50);
    assert_eq!(state.events[0].get_u64("id"), Some(1));
    assert_eq!(text_of(state.events.last().unwrap(), "type"), Some("rewind_anchor"));
}

#[test]
fn repair_and_deleted_message_rewinds_report_sharing() {
    let mut state = RewindState {
        memories: vec![memory("a", Some("m2"))],
        events: vec![obj(vec![("windowMessageIds", strs(&["m1", "m2", "m2"]))])],
        summary: Some("kept".to_string()),
        summary_token_count: 5,
    };
    let live = vec!["m1".to_string(), "m3".to_string(), "m4".to_string()];
    let repair = repair_orphaned_history_state(&mut state, "s", false, &live, 1, 9);
    assert_eq!(repair.missing_message_ids, 1);
    assert_eq!(repair.anchor_window_end, 2);
    assert!(!repair.rewind.shared);
    assert_eq!(repair.rewind.reverted_events, 1);
    assert_eq!(repair.rewind.removed_memories, 1);
    let anchor = state.events.last().unwrap();
    assert_eq!(text_of(&anchor.get_array("windowMessageIds").unwrap()[0], "x"), None);
    assert_eq!(anchor.get_array("windowMessageIds").unwrap()[0].as_str().map(|s| s.as_str()), Some("m3"));

    let mut shared_state = RewindState { memories: vec![], events: vec![], summary: None, summary_token_count: 0 };
    let outcome = rewind_state_for_deleted_messages(&mut shared_state, "s", true, "r", 4, &[], 2);
    assert!(outcome.shared);
    assert_eq!(shared_state.events.len(), 1);
}

#[test]
fn memories_drawn_from_deleted_messages_are_removed_and_events_counted() {
    let event = |id: &str, window: &str| {
        obj(vec![("id", s(id)), ("windowMessageIds", strs(&[window])), ("actions", arr(vec![]))])
    };
    let mut state = RewindState {
        memories: vec![
            memory("a", Some("gone-1")),
            memory("b", Some("kept")),
            memory("c", Some("gone-2")),
            memory("d", None),
        ],
        events: vec![event("e1", "gone-1"), event("e2", "kept"), event("e3", "gone-2")],
        summary: None,
        summary_token_count: 0,
    };
    let outcome = apply_rewind(
        &mut state,
        "session",
        Some("kept"),
        1,
        &["gone-1".to_string(), "gone-2".to_string()],
        7,
        "chat_rewind",
    );
    assert_eq!(outcome.reverted_events, 2);
    assert_eq!(outcome.removed_memories, 2);
    let ids: Vec<&str> = state.memories.iter().filter_map(|m| text_of(m, "id")).collect();
    assert_eq!(ids, vec!["b", "d"]);
}
