//! Memory shared across a companion character's sessions: whose memory a session reads and
//! writes, and when a new shared memory is seeded from the character's richest session.
use vstd::prelude::*;

use crate::text::{eq_ignore_ascii_case, lower_seq, push_str};

verus! {

/// Whose memory a record belongs to.
#[derive(Debug, Clone, Copy, PartialEq, Eq, Structural)]
pub enum SessionKind {
    Session,
    CompanionShared,
}

/// The owner of the memory a session uses.
#[derive(Debug, Clone)]
pub struct EffectiveMemoryOwner {
    pub owner_id: String,
    pub kind: SessionKind,
    pub shared: bool,
}

/// A shared memory's stored state.
#[derive(Debug, Clone)]
pub struct SharedMemoryState {
    pub memories_json: String,
    pub memory_summary: Option<String>,
    pub memory_summary_token_count: i64,
    pub memory_tool_events_json: String,
    pub memory_status: Option<String>,
    pub memory_error: Option<String>,
    pub memory_progress_step: Option<i64>,
}

impl Default for SharedMemoryState {
    /// An empty state: no memories, no events, no summary.
    fn default() -> (r: Self)
        ensures
            r.memories_json@ == "[]"@,
            r.memory_tool_events_json@ == "[]"@,
            r.memory_summary is None,
            r.memory_summary_token_count == 0,
            r.memory_status is None,
            r.memory_error is None,
            r.memory_progress_step is None,
    {
        let mut memories = String::new();
        push_str(&mut memories, "[]");
        let mut events = String::new();
        push_str(&mut events, "[]");
        SharedMemoryState {
            memories_json: memories,
            memory_summary: None,
            memory_summary_token_count: 0,
            memory_tool_events_json: events,
            memory_status: None,
            memory_error: None,
            memory_progress_step: None,
        }
    }
}

/// What the stored character says about sharing: its own mode, and whether its companion
/// settings turn on memory shared across sessions (false when it has none).
#[derive(Debug, Clone)]
pub struct CharacterMemorySettings {
    pub mode: Option<String>,
    pub companion_shares_memory: bool,
}

/// A session uses its character's shared memory when the character exists, the session or the
/// character is in companion mode (any case), and the companion settings turn sharing on.
pub open spec fn shares_memory(mode: Seq<char>, character: Option<CharacterMemorySettings>) -> bool {
    match character {
        None => false,
        Some(c) => {
            let companion = lower_seq(mode) == lower_seq("companion"@) || match c.mode {
                Some(m) => lower_seq(m@) == lower_seq("companion"@),
                None => false,
            };
            companion && c.companion_shares_memory
        },
    }
}

/// Memory is shared only with a stored character whose companion settings turn sharing on,
/// and then whenever the session or the character is in companion mode, in any letter case.
pub proof fn law_when_memory_is_shared(mode: Seq<char>, character: Option<CharacterMemorySettings>)
    ensures
        character is None ==> !shares_memory(mode, character),
        character matches Some(c) && !c.companion_shares_memory ==> !shares_memory(mode, character),
        character matches Some(c) && c.companion_shares_memory && lower_seq(mode) == "companion"@
            ==> shares_memory(mode, character),
        character matches Some(c) && c.companion_shares_memory && (c.mode matches Some(m) && lower_seq(m@)
            == "companion"@) ==> shares_memory(mode, character),
        character matches Some(c) && c.companion_shares_memory && lower_seq(mode) != "companion"@ && (
        c.mode matches Some(m) ==> lower_seq(m@) != "companion"@) ==> !shares_memory(mode, character),
{
    reveal_strlit("companion");
    assert(lower_seq("companion"@) =~= "companion"@);
}

pub fn resolve_effective_memory_owner(
    session_id: &str,
    character_id: &str,
    mode: &str,
    character: Option<&CharacterMemorySettings>,
) -> (r: EffectiveMemoryOwner)
    ensures
        shares_memory(mode@, match character { Some(c) => Some(*c), None => None }) ==> {
            &&& r.owner_id@ == character_id@
            &&& r.kind == SessionKind::CompanionShared
            &&& r.shared
        },
        !shares_memory(mode@, match character { Some(c) => Some(*c), None => None }) ==> {
            &&& r.owner_id@ == session_id@
            &&& r.kind == SessionKind::Session
            &&& !r.shared
        },
{
    let shared = match character {
        None => false,
        Some(c) => {
            let companion = eq_ignore_ascii_case(mode, "companion") || match &c.mode {
                Some(m) => eq_ignore_ascii_case(m.as_str(), "companion"),
                None => false,
            };
            companion && c.companion_shares_memory
        },
    };
    if shared {
        EffectiveMemoryOwner {
            owner_id: character_id.to_owned(),
            kind: SessionKind::CompanionShared,
            shared: true,
        }
    } else {
        EffectiveMemoryOwner {
            owner_id: session_id.to_owned(),
            kind: SessionKind::Session,
            shared: false,
        }
    }
}

/// Without a comparison on an off-to-on transition, an existing shared state is kept and no
/// source session is looked up.
pub fn keeps_existing_state(shared_state_exists: bool, compare_existing_on_transition: bool) -> (r:
    bool)
    ensures
        r == (shared_state_exists && !compare_existing_on_transition),
{
    shared_state_exists && !compare_existing_on_transition
}

/// The source session's memories seed the shared owner unless a shared state exists that
/// already holds at least as many memories.
pub fn seeds_shared_memory(
    shared_state_exists: bool,
    existing_shared_count: i64,
    source_memory_count: usize,
) -> (r: bool)
    ensures
        r == !(shared_state_exists && existing_shared_count >= source_memory_count),
{
    if !shared_state_exists {
        return true;
    }
    if existing_shared_count < 0 {
        return true;
    }
    !((existing_shared_count as u64) >= (source_memory_count as u64))
}

/// The source session's stored memory, as the shared state takes it over (a negative token
/// count reads as 0).
pub fn seeded_state(
    memories_json: String,
    memory_summary: Option<String>,
    memory_summary_token_count: i64,
    memory_tool_events_json: String,
    memory_status: Option<String>,
    memory_error: Option<String>,
    memory_progress_step: Option<i64>,
) -> (r: SharedMemoryState)
    ensures
        r.memories_json == memories_json,
        r.memory_summary == memory_summary,
        r.memory_summary_token_count == if memory_summary_token_count < 0 {
            0
        } else {
            memory_summary_token_count
        },
        r.memory_tool_events_json == memory_tool_events_json,
        r.memory_status == memory_status,
        r.memory_error == memory_error,
        r.memory_progress_step == memory_progress_step,
{
    SharedMemoryState {
        memories_json,
        memory_summary,
        memory_summary_token_count: if memory_summary_token_count < 0 {
            0
        } else {
            memory_summary_token_count
        },
        memory_tool_events_json,
        memory_status,
        memory_error,
        memory_progress_step,
    }
}

} // verus!
