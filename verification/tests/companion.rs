use lettuce_core::storage::companion_shared_memory::{
    keeps_existing_state, resolve_effective_memory_owner, seeded_state, seeds_shared_memory,
    CharacterMemorySettings, SessionKind, SharedMemoryState,
};
use lettuce_core::storage::imported_memory_jobs::{start_or_resume, ActiveJobs, ImportedMemoryJob};

#[test]
fn a_session_job_is_claimed_once_until_released() {
    let mut jobs = ActiveJobs::active_jobs();
    assert!(jobs.try_claim("s1"));
    assert!(!jobs.try_claim("s1"));
    assert!(jobs.try_claim("s2"));
    jobs.release("s1");
    assert!(!jobs.is_active("s1"));
    assert!(jobs.is_active("s2"));
    assert!(jobs.try_claim("s1"));
}

fn job(window_size: u32, next: usize, index: usize, windows: usize, messages: usize) -> ImportedMemoryJob {
    ImportedMemoryJob {
        id: "job-1".to_string(),
        session_id: "s1".to_string(),
        status: "paused".to_string(),
        window_size,
        next_window_start: next,
        window_index: index,
        total_windows: windows,
        processed_messages: 0,
        total_messages: messages,
        current_window_start: None,
        current_window_end: None,
        last_error: None,
        created_at: 1,
        updated_at: 2,
    }
}

#[test]
fn new_jobs_start_at_the_first_window() {
    let start = start_or_resume(None, 20, 100, 5);
    assert_eq!(start.id.len(), 36);
    let id: Vec<char> = start.id.chars().collect();
    assert_eq!((id[8], id[13], id[14], id[18], id[23]), ('-', '-', '4', '-', '-'));
    assert!(matches!(id[19], '8' | '9' | 'a' | 'b'));
    assert_eq!(start.window_size, 20);
    assert_eq!(start.next_window_start, 0);
    assert_eq!(start.window_index, 1);
    assert_eq!(start.total_windows, 5);
    assert_eq!(start.processed_messages, 0);
    assert_eq!(start.total_messages, 100);
}

#[test]
fn resumed_jobs_keep_their_stored_progress() {
    let stored = job(0, 120, 0, 7, 100);
    let start = start_or_resume(Some(&stored), 30, 90, 4);
    assert_eq!(start.id, "job-1");
    assert_eq!(start.window_size, 30);
    assert_eq!(start.next_window_start, 120);
    assert_eq!(start.window_index, 1);
    assert_eq!(start.total_windows, 7);
    assert_eq!(start.total_messages, 100);
    assert_eq!(start.processed_messages, 100);
    let stored = job(25, 40, 3, 0, 0);
    let start = start_or_resume(Some(&stored), 30, 90, 4);
    assert_eq!(start.window_size, 25);
    assert_eq!(start.window_index, 3);
    assert_eq!(start.total_windows, 4);
    assert_eq!(start.total_messages, 90);
    assert_eq!(start.processed_messages, 40);
}

#[test]
fn companion_characters_that_share_memory_own_it() {
    let sharing = CharacterMemorySettings {
        mode: Some("Companion".to_string()),
        companion_shares_memory: true,
    };
    let owner = resolve_effective_memory_owner("s1", "c1", "chat", Some(&sharing));
    assert_eq!(owner.owner_id, "c1");
    assert_eq!(owner.kind, SessionKind::CompanionShared);
    assert!(owner.shared);
    let roleplay = CharacterMemorySettings {
        mode: Some("roleplay".to_string()),
        companion_shares_memory: true,
    };
    let owner = resolve_effective_memory_owner("s1", "c1", "COMPANION", Some(&roleplay));
    assert!(owner.shared);
    let owner = resolve_effective_memory_owner("s1", "c1", "chat", Some(&roleplay));
    assert_eq!(owner.owner_id, "s1");
    assert_eq!(owner.kind, SessionKind::Session);
    assert!(!owner.shared);
    let owner = resolve_effective_memory_owner("s1", "c1", "companion", None);
    assert!(!owner.shared);
    let off = CharacterMemorySettings {
        mode: None,
        companion_shares_memory: false,
    };
    assert!(!resolve_effective_memory_owner("s1", "c1", "companion", Some(&off)).shared);
}

#[test]
fn shared_memory_is_seeded_only_when_richer() {
    assert!(keeps_existing_state(true, false));
    assert!(!keeps_existing_state(true, true));
    assert!(!keeps_existing_state(false, false));
    assert!(seeds_shared_memory(false, 100, 1));
    assert!(!seeds_shared_memory(true, 5, 5));
    assert!(seeds_shared_memory(true, 4, 5));
    assert!(seeds_shared_memory(true, -1, 0));
    let state = seeded_state("[1]".to_string(), None, -3, "[]".to_string(), None, None, Some(2));
    assert_eq!(state.memory_summary_token_count, 0);
    assert_eq!(state.memories_json, "[1]");
    let empty = SharedMemoryState::default();
    assert_eq!(empty.memories_json, "[]");
    assert_eq!(empty.memory_tool_events_json, "[]");
    assert_eq!(empty.memory_summary_token_count, 0);
}
