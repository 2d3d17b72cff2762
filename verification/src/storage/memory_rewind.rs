//! Rewinding a session's long-term memory when chat messages are deleted.
//!
//! Memory events record, for a window of messages, the memory tool actions that the window
//! produced. When messages of a window disappear, the window's events are reverted (their
//! actions undone in reverse order), memories sourced from the deleted messages are dropped,
//! the running summary falls back to the last checkpoint before the first reverted event, and
//! a `rewind_anchor` event marks where the memory cursor now stands.
//!
//! Memories and events are the JSON documents they are stored as.
use vstd::prelude::*;

use crate::json::{
    int_number, law_get_after_insert, member_insert, string_array, string_items, views, Json,
    JsonNumber, JsonV,
};
use crate::text::{str_eq, string_views};

verus! {

/// At most this many memory events are kept, the most recent ones.
pub const MAX_EVENTS: usize = 50;

#[derive(Debug, Clone, Copy, PartialEq, Eq, Structural)]
pub struct MemoryRewindOutcome {
    pub reverted_events: usize,
    pub removed_memories: usize,
    pub restored_memories: usize,
    pub unrestorable_actions: usize,
    pub shared: bool,
}

#[derive(Debug, Clone, Copy, PartialEq, Eq, Structural)]
pub struct MemoryHistoryRepairOutcome {
    pub rewind: MemoryRewindOutcome,
    pub missing_message_ids: usize,
    pub anchor_window_end: usize,
}

/// The memory of a session (or of a shared companion) while it is rewound.
#[derive(Debug)]
pub struct RewindState {
    pub memories: Vec<Json>,
    pub events: Vec<Json>,
    pub summary: Option<String>,
    pub summary_token_count: i64,
}

pub struct RewindStateV {
    pub memories: Seq<JsonV>,
    pub events: Seq<JsonV>,
    pub summary: Option<Seq<char>>,
    pub summary_token_count: i64,
}

impl View for RewindState {
    type V = RewindStateV;

    open spec fn view(&self) -> RewindStateV {
        RewindStateV {
            memories: views(self.memories@),
            events: views(self.events@),
            summary: match self.summary {
                Some(s) => Some(s@),
                None => None,
            },
            summary_token_count: self.summary_token_count,
        }
    }
}

pub open spec fn zero_outcome() -> MemoryRewindOutcome {
    MemoryRewindOutcome {
        reverted_events: 0,
        removed_memories: 0,
        restored_memories: 0,
        unrestorable_actions: 0,
        shared: false,
    }
}

impl Default for MemoryRewindOutcome {
    fn default() -> (r: Self)
        ensures
            r == zero_outcome(),
    {
        MemoryRewindOutcome {
            reverted_events: 0,
            removed_memories: 0,
            restored_memories: 0,
            unrestorable_actions: 0,
            shared: false,
        }
    }
}

// ---------------------------------------------------------------------------
// The model
// ---------------------------------------------------------------------------

/// One more, saturating at `usize::MAX`.
pub open spec fn bump(n: usize) -> usize {
    if n < usize::MAX {
        (n + 1) as usize
    } else {
        n
    }
}

pub open spec fn count_removed(o: MemoryRewindOutcome) -> MemoryRewindOutcome {
    MemoryRewindOutcome { removed_memories: bump(o.removed_memories), ..o }
}

pub open spec fn count_restored(o: MemoryRewindOutcome) -> MemoryRewindOutcome {
    MemoryRewindOutcome { restored_memories: bump(o.restored_memories), ..o }
}

pub open spec fn count_unrestorable(o: MemoryRewindOutcome) -> MemoryRewindOutcome {
    MemoryRewindOutcome { unrestorable_actions: bump(o.unrestorable_actions), ..o }
}

pub open spec fn count_reverted(o: MemoryRewindOutcome) -> MemoryRewindOutcome {
    MemoryRewindOutcome { reverted_events: bump(o.reverted_events), ..o }
}

/// An event still counts: it was not reverted and did not fail.
pub open spec fn is_active(e: JsonV) -> bool {
    &&& match e.get("revertedAt"@) {
        Some(v) => v.is_null(),
        None => true,
    }
    &&& e.get_str("status"@) != Some("error"@)
}

/// The message ids of an event's window.
pub open spec fn window_ids(e: JsonV) -> Seq<Seq<char>> {
    match e.get_array("windowMessageIds"@) {
        Some(a) => string_items(a),
        None => Seq::empty(),
    }
}

/// An event was recorded for the session: by its `sourceSessionId`, or, without one, when the
/// memory is the session's own.
pub open spec fn belongs_to_session(e: JsonV, session: Seq<char>, shared: bool) -> bool {
    match e.get_str("sourceSessionId"@) {
        Some(s) => s == session,
        None => !shared,
    }
}

/// An event of the session whose window holds a deleted message.
pub open spec fn belongs_to_rewind(e: JsonV, session: Seq<char>, deleted: Seq<Seq<char>>) -> bool {
    &&& match e.get_str("sourceSessionId"@) {
        Some(s) => s == session,
        None => true,
    }
    &&& exists|k: int| 0 <= k < window_ids(e).len() && deleted.contains(#[trigger] window_ids(e)[k])
}

/// The memory an action names: `arguments.id`, else `memoryId`, else `deletedMemoryId`.
pub open spec fn named_memory(a: JsonV) -> Option<Seq<char>> {
    let from_arguments = match a.get("arguments"@) {
        Some(args) => args.get_str("id"@),
        None => None,
    };
    match from_arguments {
        Some(id) => Some(id),
        None => match a.get_str("memoryId"@) {
            Some(id) => Some(id),
            None => a.get_str("deletedMemoryId"@),
        },
    }
}

pub open spec fn memory_id(m: JsonV) -> Seq<char> {
    match m.get_str("id"@) {
        Some(id) => id,
        None => Seq::empty(),
    }
}

/// Index of the first memory with the given id.
pub open spec fn memory_position(ms: Seq<JsonV>, id: Seq<char>) -> Option<int>
    decreases ms.len(),
{
    if ms.len() == 0 {
        None
    } else {
        match memory_position(ms.drop_last(), id) {
            Some(i) => Some(i),
            None => if memory_id(ms.last()) == id {
                Some(ms.len() - 1)
            } else {
                None
            },
        }
    }
}

/// The items of an array other than the string `s`.
pub open spec fn without_string(a: Seq<JsonV>, s: Seq<char>) -> Seq<JsonV>
    decreases a.len(),
{
    if a.len() == 0 {
        Seq::empty()
    } else {
        let rest = without_string(a.drop_last(), s);
        if a.last() == JsonV::Str(s) {
            rest
        } else {
            rest.push(a.last())
        }
    }
}

/// A memory with every link to the removed memory dropped.
pub open spec fn unlinked(m: JsonV, removed: Seq<char>) -> JsonV {
    let m1 = if m.get_str("supersededBy"@) == Some(removed) {
        m.insert("supersededBy"@, JsonV::Null).insert("supersededAt"@, JsonV::Null)
    } else {
        m
    };
    match m1.get_array("supersedes"@) {
        Some(a) => m1.insert("supersedes"@, JsonV::Array(without_string(a, removed))),
        None => m1,
    }
}

pub open spec fn all_unlinked(ms: Seq<JsonV>, removed: Seq<char>) -> Seq<JsonV> {
    Seq::new(ms.len(), |i: int| unlinked(ms[i], removed))
}

/// Removing the first memory with an id (and the links to it); whether one was found.
pub open spec fn without_memory(ms: Seq<JsonV>, id: Seq<char>) -> (Seq<JsonV>, bool) {
    match memory_position(ms, id) {
        Some(i) => (all_unlinked(ms.remove(i), id), true),
        None => (ms, false),
    }
}

/// A snapshot reads back as a memory.
pub open spec fn is_memory_snapshot(snapshot: JsonV) -> bool {
    snapshot.is_object() && snapshot.get_str("id"@) is Some && snapshot.get_str("text"@) is Some
}

/// Undoing a `delete_memory` action: the snapshot replaces the memory with its id, or is
/// added.
pub open spec fn restored(ms: Seq<JsonV>, o: MemoryRewindOutcome, action: JsonV) -> (
    Seq<JsonV>,
    MemoryRewindOutcome,
) {
    match action.get("memorySnapshot"@) {
        Some(snapshot) => if is_memory_snapshot(snapshot) {
            match memory_position(ms, memory_id(snapshot)) {
                Some(i) => (ms.update(i, snapshot), count_restored(o)),
                None => (ms.push(snapshot), count_restored(o)),
            }
        } else {
            (ms, count_unrestorable(o))
        },
        None => (ms, count_unrestorable(o)),
    }
}

/// Undoing a pin or unpin action on a memory.
pub open spec fn repinned(m: JsonV, action: JsonV) -> JsonV {
    let pinned = match action.get_bool("previousIsPinned"@) {
        Some(b) => b,
        None => action.get_str("name"@) == Some("unpin_memory"@),
    };
    let m1 = m.insert("isPinned"@, JsonV::Bool(pinned));
    match action.get("previousImportanceScore"@) {
        Some(JsonV::Number(n)) => m1.insert("importanceScore"@, JsonV::Number(n)),
        _ => m1,
    }
}

/// Undoing one memory tool action.
pub open spec fn reverted_action(ms: Seq<JsonV>, o: MemoryRewindOutcome, action: JsonV) -> (
    Seq<JsonV>,
    MemoryRewindOutcome,
) {
    let name = action.get_str("name"@);
    if action.get_bool("skipped"@) == Some(true) {
        (ms, o)
    } else if name == Some("create_memory"@) {
        match named_memory(action) {
            Some(id) => {
                let (ms1, found) = without_memory(ms, id);
                (
                    ms1,
                    if found {
                        count_removed(o)
                    } else {
                        o
                    },
                )
            },
            None => (ms, count_unrestorable(o)),
        }
    } else if name == Some("delete_memory"@) {
        restored(ms, o, action)
    } else if name == Some("pin_memory"@) || name == Some("unpin_memory"@) {
        match named_memory(action) {
            Some(id) => match memory_position(ms, id) {
                Some(i) => (ms.update(i, repinned(ms[i], action)), o),
                None => (ms, o),
            },
            None => (ms, count_unrestorable(o)),
        }
    } else {
        (ms, o)
    }
}

/// Undoing actions, the last one first.
pub open spec fn reverted_actions(ms: Seq<JsonV>, o: MemoryRewindOutcome, actions: Seq<JsonV>) -> (
    Seq<JsonV>,
    MemoryRewindOutcome,
)
    decreases actions.len(),
{
    if actions.len() == 0 {
        (ms, o)
    } else {
        let (ms1, o1) = reverted_action(ms, o, actions.last());
        reverted_actions(ms1, o1, actions.drop_last())
    }
}

/// Undoing the actions of an event.
pub open spec fn reverted_event(ms: Seq<JsonV>, o: MemoryRewindOutcome, event: JsonV) -> (
    Seq<JsonV>,
    MemoryRewindOutcome,
) {
    match event.get_array("actions"@) {
        Some(actions) => reverted_actions(ms, o, actions),
        None => (ms, o),
    }
}

/// An event marked as reverted.
pub open spec fn marked(event: JsonV, now: u64, reason: Seq<char>, retained: Option<Seq<char>>) -> JsonV {
    let e = event.insert("revertedAt"@, JsonV::Number(JsonNumber::PosInt(now))).insert(
        "revertReason"@,
        JsonV::Str(reason),
    );
    match retained {
        Some(id) => e.insert("revertedByMessageId"@, JsonV::Str(id)),
        None => e,
    }
}

/// Indices among the first `n` events of the active events the rewind reaches, ascending.
pub open spec fn affected(events: Seq<JsonV>, n: nat, session: Seq<char>, deleted: Seq<Seq<char>>) -> Seq<int>
    decreases n,
{
    if n == 0 {
        Seq::empty()
    } else {
        let rest = affected(events, (n - 1) as nat, session, deleted);
        let e = events[n - 1];
        if is_active(e) && belongs_to_rewind(e, session, deleted) {
            rest.push(n - 1)
        } else {
            rest
        }
    }
}

/// Reverting the events at the given indices, the last index first.
pub open spec fn reverted_events(
    ms: Seq<JsonV>,
    events: Seq<JsonV>,
    o: MemoryRewindOutcome,
    indices: Seq<int>,
    now: u64,
    reason: Seq<char>,
    retained: Option<Seq<char>>,
) -> (Seq<JsonV>, Seq<JsonV>, MemoryRewindOutcome)
    decreases indices.len(),
{
    if indices.len() == 0 {
        (ms, events, o)
    } else {
        let i = indices.last();
        let (ms1, o1) = reverted_event(ms, o, events[i]);
        reverted_events(
            ms1,
            events.update(i, marked(events[i], now, reason, retained)),
            count_reverted(o1),
            indices.drop_last(),
            now,
            reason,
            retained,
        )
    }
}

/// Ids of the memories drawn from a deleted message.
pub open spec fn source_linked_ids(ms: Seq<JsonV>, deleted: Seq<Seq<char>>) -> Seq<Seq<char>>
    decreases ms.len(),
{
    if ms.len() == 0 {
        Seq::empty()
    } else {
        let rest = source_linked_ids(ms.drop_last(), deleted);
        match ms.last().get_str("sourceMessageId"@) {
            Some(source) => if deleted.contains(source) {
                rest.push(memory_id(ms.last()))
            } else {
                rest
            },
            None => rest,
        }
    }
}

/// Removing the memories with the given ids, in order.
pub open spec fn without_memories(ms: Seq<JsonV>, o: MemoryRewindOutcome, ids: Seq<Seq<char>>) -> (
    Seq<JsonV>,
    MemoryRewindOutcome,
)
    decreases ids.len(),
{
    if ids.len() == 0 {
        (ms, o)
    } else {
        let (ms1, o1) = without_memories(ms, o, ids.drop_last());
        let (ms2, found) = without_memory(ms1, ids.last());
        (
            ms2,
            if found {
                count_removed(o1)
            } else {
                o1
            },
        )
    }
}

/// The last active event.
pub open spec fn last_active(events: Seq<JsonV>) -> Option<JsonV>
    decreases events.len(),
{
    if events.len() == 0 {
        None
    } else if is_active(events.last()) {
        Some(events.last())
    } else {
        last_active(events.drop_last())
    }
}

/// The summary a checkpoint event carries (a non-empty one).
pub open spec fn checkpoint_summary(checkpoint: Option<JsonV>) -> Option<Seq<char>> {
    match checkpoint {
        Some(e) => match e.get_str("summary"@) {
            Some(s) => if s.len() > 0 {
                Some(s)
            } else {
                None
            },
            None => None,
        },
        None => None,
    }
}

pub open spec fn checkpoint_tokens(checkpoint: Option<JsonV>) -> i64 {
    match checkpoint {
        Some(e) => match e.get("summaryTokenCount"@) {
            Some(v) => match v.as_i64() {
                Some(n) => n,
                None => 0,
            },
            None => 0,
        },
        None => 0,
    }
}

/// The anchor event a rewind leaves behind.
pub open spec fn anchor_event(
    id: Seq<char>,
    session: Seq<char>,
    retained_count: usize,
    retained: Option<Seq<char>>,
    summary: Option<Seq<char>>,
    tokens: i64,
    reason: Seq<char>,
    now: u64,
) -> JsonV {
    JsonV::Object(
        seq![
            ("id"@, JsonV::Str(id)),
            ("type"@, JsonV::Str("rewind_anchor"@)),
            ("sourceSessionId"@, JsonV::Str(session)),
            ("windowStart"@, JsonV::Number(JsonNumber::PosInt(retained_count as u64))),
            ("windowEnd"@, JsonV::Number(JsonNumber::PosInt(retained_count as u64))),
            (
                "windowMessageIds"@,
                string_array(
                    match retained {
                        Some(m) => seq![m],
                        None => Seq::empty(),
                    },
                ),
            ),
            (
                "summary"@,
                JsonV::Str(
                    match summary {
                        Some(s) => s,
                        None => Seq::empty(),
                    },
                ),
            ),
            ("summaryTokenCount"@, int_number(tokens)),
            ("actions"@, JsonV::Array(Seq::empty())),
            ("reason"@, JsonV::Str(reason)),
            ("createdAt"@, JsonV::Number(JsonNumber::PosInt(now))),
        ],
    )
}

/// The most recent events, at most `MAX_EVENTS`.
pub open spec fn most_recent(events: Seq<JsonV>) -> Seq<JsonV> {
    if events.len() > MAX_EVENTS {
        events.skip(events.len() - MAX_EVENTS)
    } else {
        events
    }
}

/// The whole rewind: the state afterwards and the outcome.
pub open spec fn rewound(
    s: RewindStateV,
    session: Seq<char>,
    retained: Option<Seq<char>>,
    retained_count: usize,
    deleted: Seq<Seq<char>>,
    now: u64,
    reason: Seq<char>,
    anchor_id: Seq<char>,
) -> (RewindStateV, MemoryRewindOutcome) {
    let idx = affected(s.events, s.events.len(), session, deleted);
    let (ms1, events1, o1) = reverted_events(
        s.memories,
        s.events,
        zero_outcome(),
        idx,
        now,
        reason,
        retained,
    );
    let linked = source_linked_ids(ms1, deleted);
    let (ms2, o2) = without_memories(ms1, o1, linked);
    let (summary, tokens) = if idx.len() > 0 {
        let checkpoint = last_active(events1.take(idx[0]));
        (checkpoint_summary(checkpoint), checkpoint_tokens(checkpoint))
    } else if linked.len() > 0 {
        (None, 0i64)
    } else {
        (s.summary, s.summary_token_count)
    };
    let anchor = anchor_event(anchor_id, session, retained_count, retained, summary, tokens, reason, now);
    (
        RewindStateV {
            memories: ms2,
            events: most_recent(events1.push(anchor)),
            summary,
            summary_token_count: tokens,
        },
        o2,
    )
}

// ---------------------------------------------------------------------------
// Memories
// ---------------------------------------------------------------------------

pub fn event_is_active(event: &Json) -> (r: bool)
    ensures
        r == is_active(event@),
{
    let not_reverted = match event.get("revertedAt") {
        Some(v) => v.is_null(),
        None => true,
    };
    let failed = match event.get_str("status") {
        Some(status) => str_eq(status.as_str(), "error"),
        None => false,
    };
    not_reverted && !failed
}

fn contains_string(ids: &[String], id: &str) -> (r: bool)
    ensures
        r == string_views(ids@).contains(id@),
{
    let mut i: usize = 0;
    while i < ids.len()
        invariant
            i <= ids.len(),
            forall|j: int| 0 <= j < i ==> ids@[j]@ != id@,
        decreases ids.len() - i,
    {
        if str_eq(ids[i].as_str(), id) {
            assert(string_views(ids@)[i as int] == id@);
            return true;
        }
        i += 1;
    }
    assert forall|j: int| 0 <= j < ids@.len() implies #[trigger] string_views(ids@)[j] != id@ by {}
    false
}

pub fn event_belongs_to_session(event: &Json, session_id: &str, shared: bool) -> (r: bool)
    ensures
        r == belongs_to_session(event@, session_id@, shared),
{
    match event.get_str("sourceSessionId") {
        Some(source) => str_eq(source.as_str(), session_id),
        None => !shared,
    }
}

pub fn event_belongs_to_rewind(event: &Json, session_id: &str, deleted_ids: &[String]) -> (r: bool)
    ensures
        r == belongs_to_rewind(event@, session_id@, string_views(deleted_ids@)),
{
    if let Some(source) = event.get_str("sourceSessionId") {
        if !str_eq(source.as_str(), session_id) {
            return false;
        }
    }
    let ids = match event.get_array("windowMessageIds") {
        Some(items) => Json::string_items_of(items),
        None => Vec::new(),
    };
    assert(string_views(ids@) == window_ids(event@)) by {
        if event@.get_array("windowMessageIds"@) is None {
            assert(string_views(ids@) =~= Seq::<Seq<char>>::empty());
        }
    }
    let mut k: usize = 0;
    while k < ids.len()
        invariant
            k <= ids.len(),
            string_views(ids@) == window_ids(event@),
            match event@.get_str("sourceSessionId"@) {
                Some(source) => source == session_id@,
                None => true,
            },
            forall|j: int| 0 <= j < k ==> !string_views(deleted_ids@).contains(#[trigger] window_ids(event@)[j]),
        decreases ids.len() - k,
    {
        if contains_string(deleted_ids, ids[k].as_str()) {
            assert(window_ids(event@)[k as int] == ids@[k as int]@);
            assert(string_views(deleted_ids@).contains(window_ids(event@)[k as int]));
            return true;
        }
        k += 1;
    }
    false
}

pub fn action_memory_id(action: &Json) -> (r: Option<&String>)
    ensures
        match r {
            Some(id) => named_memory(action@) == Some(id@),
            None => named_memory(action@) is None,
        },
{
    let from_arguments = match action.get("arguments") {
        Some(args) => args.get_str("id"),
        None => None,
    };
    match from_arguments {
        Some(id) => Some(id),
        None => match action.get_str("memoryId") {
            Some(id) => Some(id),
            None => action.get_str("deletedMemoryId"),
        },
    }
}

fn memory_id_of(memory: &Json) -> (r: &str)
    ensures
        r@ == memory_id(memory@),
{
    match memory.get_str("id") {
        Some(id) => id.as_str(),
        None => {
            proof {
                reveal_strlit("");
            }
            assert(""@ =~= Seq::<char>::empty());
            ""
        },
    }
}

fn position_of_memory(memories: &Vec<Json>, id: &str) -> (r: Option<usize>)
    ensures
        match r {
            Some(i) => memory_position(views(memories@), id@) == Some(i as int) && i < memories.len(),
            None => memory_position(views(memories@), id@) is None,
        },
{
    let ghost ms = views(memories@);
    let mut i: usize = 0;
    while i < memories.len()
        invariant
            i <= memories.len(),
            ms == views(memories@),
            memory_position(ms.take(i as int), id@) is None,
        decreases memories.len() - i,
    {
        assert(ms.take(i + 1).drop_last() =~= ms.take(i as int));
        if str_eq(memory_id_of(&memories[i]), id) {
            proof {
                lemma_position_prefix(ms, id@, (i + 1) as nat);
            }
            return Some(i);
        }
        i += 1;
    }
    assert(ms.take(memories.len() as int) =~= ms);
    None
}

/// A position found in a prefix is the position in the whole sequence.
proof fn lemma_position_prefix(ms: Seq<JsonV>, id: Seq<char>, n: nat)
    requires
        n <= ms.len(),
        memory_position(ms.take(n as int), id) is Some,
    ensures
        memory_position(ms, id) == memory_position(ms.take(n as int), id),
    decreases ms.len() - n,
{
    if n < ms.len() {
        assert(ms.take(n + 1 as int).drop_last() =~= ms.take(n as int));
        lemma_position_prefix(ms, id, n + 1);
    } else {
        assert(ms.take(n as int) =~= ms);
    }
}

fn without_string_items(items: &Vec<Json>, s: &str) -> (r: Vec<Json>)
    ensures
        views(r@) == without_string(views(items@), s@),
{
    let mut out: Vec<Json> = Vec::new();
    let mut i: usize = 0;
    while i < items.len()
        invariant
            i <= items.len(),
            views(out@) == without_string(views(items@).take(i as int), s@),
        decreases items.len() - i,
    {
        let ghost prev = views(out@);
        assert(views(items@).take(i + 1).drop_last() =~= views(items@).take(i as int));
        let same = match &items[i] {
            Json::Str(t) => str_eq(t.as_str(), s),
            _ => false,
        };
        if !same {
            out.push(items[i].copy());
            assert(views(out@) =~= prev.push(views(items@)[i as int]));
        }
        i += 1;
    }
    assert(views(items@).take(items.len() as int) =~= views(items@));
    out
}

fn unlink(memory: &mut Json, removed: &str)
    ensures
        final(memory)@ == unlinked(old(memory)@, removed@),
{
    let hit = match memory.get_str("supersededBy") {
        Some(by) => str_eq(by.as_str(), removed),
        None => false,
    };
    if hit {
        memory.insert("supersededBy", Json::Null);
        memory.insert("supersededAt", Json::Null);
    }
    let kept = match memory.get_array("supersedes") {
        Some(items) => Some(without_string_items(items, removed)),
        None => None,
    };
    if let Some(kept) = kept {
        let value = Json::Array(kept);
        proof {
            value.lemma_array_view();
        }
        memory.insert("supersedes", value);
    }
}

/// Clears links to a removed memory: a `supersededBy` naming it (with its `supersededAt`),
/// and its id in `supersedes` lists.
fn repair_removed_memory_links(memories: &mut Vec<Json>, memory_id: &str)
    ensures
        views(final(memories)@) == all_unlinked(views(old(memories)@), memory_id@),
{
    let ghost removed = views(memories@);
    let mut i: usize = 0;
    while i < memories.len()
        invariant
            i <= memories.len(),
            memories.len() == removed.len(),
            forall|j: int| 0 <= j < i ==> (#[trigger] memories@[j])@ == unlinked(removed[j], memory_id@),
            forall|j: int| i <= j < memories.len() ==> (#[trigger] memories@[j])@ == removed[j],
        decreases memories.len() - i,
    {
        let mut m = memories[i].copy();
        unlink(&mut m, memory_id);
        memories.set(i, m);
        i += 1;
    }
    assert(views(memories@) =~= all_unlinked(removed, memory_id@));
}

fn remove_memory(memories: &mut Vec<Json>, memory_id: &str, outcome: &mut MemoryRewindOutcome)
    ensures
        ({
            let (ms, found) = without_memory(views(old(memories)@), memory_id@);
            &&& views(final(memories)@) == ms
            &&& *final(outcome) == if found {
                count_removed(*old(outcome))
            } else {
                *old(outcome)
            }
        }),
{
    if let Some(index) = position_of_memory(memories, memory_id) {
        let ghost before = views(memories@);
        memories.remove(index);
        assert(views(memories@) =~= before.remove(index as int));
        repair_removed_memory_links(memories, memory_id);
        outcome.removed_memories = outcome.removed_memories.saturating_add(1);
    }
}

fn restore_memory(memories: &mut Vec<Json>, action: &Json, outcome: &mut MemoryRewindOutcome)
    ensures
        (views(final(memories)@), *final(outcome)) == restored(views(old(memories)@), *old(outcome), action@),
{
    let snapshot = match action.get("memorySnapshot") {
        Some(snapshot) => snapshot,
        None => {
            outcome.unrestorable_actions = outcome.unrestorable_actions.saturating_add(1);
            return;
        },
    };
    let readable = snapshot.is_object() && snapshot.get_str("id").is_some() && snapshot.get_str("text").is_some();
    if !readable {
        outcome.unrestorable_actions = outcome.unrestorable_actions.saturating_add(1);
        return;
    }
    let memory = snapshot.copy();
    let ghost before = views(memories@);
    match position_of_memory(memories, memory_id_of(snapshot)) {
        Some(index) => {
            memories.set(index, memory);
            assert(views(memories@) =~= before.update(index as int, snapshot@));
        },
        None => {
            memories.push(memory);
            assert(views(memories@) =~= before.push(snapshot@));
        },
    }
    outcome.restored_memories = outcome.restored_memories.saturating_add(1);
}

fn repin(memory: &mut Json, action: &Json)
    ensures
        final(memory)@ == repinned(old(memory)@, action@),
{
    let pinned = match action.get_bool("previousIsPinned") {
        Some(b) => b,
        None => match action.get_str("name") {
            Some(name) => str_eq(name.as_str(), "unpin_memory"),
            None => false,
        },
    };
    memory.insert("isPinned", Json::Bool(pinned));
    if let Some(Json::Number(n)) = action.get("previousImportanceScore") {
        memory.insert("importanceScore", Json::Number(*n));
    }
}

fn revert_action(memories: &mut Vec<Json>, action: &Json, outcome: &mut MemoryRewindOutcome)
    ensures
        (views(final(memories)@), *final(outcome)) == reverted_action(
            views(old(memories)@),
            *old(outcome),
            action@,
        ),
{
    if action.get_bool("skipped") == Some(true) {
        return;
    }
    let name = match action.get_str("name") {
        Some(name) => name.as_str(),
        None => "",
    };
    let named = action.get_str("name").is_some();
    if named && str_eq(name, "create_memory") {
        match action_memory_id(action) {
            Some(memory_id) => remove_memory(memories, memory_id.as_str(), outcome),
            None => {
                outcome.unrestorable_actions = outcome.unrestorable_actions.saturating_add(1);
            },
        }
    } else if named && str_eq(name, "delete_memory") {
        restore_memory(memories, action, outcome);
    } else if named && (str_eq(name, "pin_memory") || str_eq(name, "unpin_memory")) {
        match action_memory_id(action) {
            Some(memory_id) => {
                if let Some(index) = position_of_memory(memories, memory_id.as_str()) {
                    let ghost before = views(memories@);
                    let mut m = memories[index].copy();
                    repin(&mut m, action);
                    memories.set(index, m);
                    assert(views(memories@) =~= before.update(index as int, repinned(before[index as int], action@)));
                }
            },
            None => {
                outcome.unrestorable_actions = outcome.unrestorable_actions.saturating_add(1);
            },
        }
    } else {
        assert(action@.get_str("name"@) != Some("create_memory"@));
    }
}

/// Undoes the memory actions of an event, the last one first.
pub fn revert_event_actions(memories: &mut Vec<Json>, event: &Json, outcome: &mut MemoryRewindOutcome)
    ensures
        (views(final(memories)@), *final(outcome)) == reverted_event(
            views(old(memories)@),
            *old(outcome),
            event@,
        ),
{
    let actions = match event.get_array("actions") {
        Some(actions) => actions,
        None => return ,
    };
    let ghost all = views(actions@);
    assert(all.take(actions.len() as int) =~= all);
    let mut i: usize = actions.len();
    while i > 0
        invariant
            i <= actions.len(),
            all == views(actions@),
            event@.get_array("actions"@) == Some(all),
            reverted_actions(views(memories@), *outcome, all.take(i as int)) == reverted_actions(
                views(old(memories)@),
                *old(outcome),
                all,
            ),
        decreases i,
    {
        assert(all.take(i as int).drop_last() =~= all.take(i - 1));
        assert(all.take(i as int).last() == all[i - 1]);
        revert_action(memories, &actions[i - 1], outcome);
        i -= 1;
    }
    assert(all.take(actions.len() as int) =~= all);
}

// ---------------------------------------------------------------------------
// Rewinding
// ---------------------------------------------------------------------------

pub open spec fn index_views(v: Seq<usize>) -> Seq<int> {
    v.map_values(|i: usize| i as int)
}

pub open spec fn opt_str_view(o: Option<&str>) -> Option<Seq<char>> {
    match o {
        Some(s) => Some(s@),
        None => None,
    }
}

/// A fresh identifier (`Uuid::new_v4().to_string()`): the hyphenated lower-case form of a
/// random version-4 UUID, `xxxxxxxx-xxxx-4xxx-yxxx-xxxxxxxxxxxx` with `y` one of 8, 9, a, b.
#[verifier::external_body]
pub(crate) fn new_uuid() -> (r: String)
    ensures
        r@.len() == 36,
        r@[8] == '-' && r@[13] == '-' && r@[18] == '-' && r@[23] == '-',
        r@[14] == '4',
        r@[19] == '8' || r@[19] == '9' || r@[19] == 'a' || r@[19] == 'b',
        forall|i: int|
            0 <= i < 36 && i != 8 && i != 13 && i != 18 && i != 23 ==> ('0' <= #[trigger] r@[i] <= '9'
                || 'a' <= r@[i] <= 'f'),
{
    uuid::Uuid::new_v4().to_string()
}

fn affected_indices(events: &Vec<Json>, session_id: &str, deleted: &[String]) -> (r: Vec<usize>)
    ensures
        index_views(r@) == affected(views(events@), events.len() as nat, session_id@, string_views(deleted@)),
        forall|j: int| 0 <= j < r.len() ==> r@[j] < events.len(),
{
    let mut r: Vec<usize> = Vec::new();
    let mut i: usize = 0;
    while i < events.len()
        invariant
            i <= events.len(),
            index_views(r@) == affected(views(events@), i as nat, session_id@, string_views(deleted@)),
            forall|j: int| 0 <= j < r.len() ==> r@[j] < i,
        decreases events.len() - i,
    {
        let ghost prev = r@;
        if event_is_active(&events[i]) && event_belongs_to_rewind(&events[i], session_id, deleted) {
            r.push(i);
            assert(index_views(r@) =~= index_views(prev).push(i as int));
        }
        i += 1;
    }
    r
}

/// Marks an event as reverted.
fn mark(event: &mut Json, now: u64, reason: &str, retained_message_id: Option<&str>)
    ensures
        final(event)@ == marked(old(event)@, now, reason@, opt_str_view(retained_message_id)),
{
    event.insert("revertedAt", Json::from_u64(now));
    event.insert("revertReason", Json::from_str(reason));
    if let Some(id) = retained_message_id {
        event.insert("revertedByMessageId", Json::from_str(id));
    }
}

fn source_linked_memory_ids(memories: &Vec<Json>, deleted: &[String]) -> (r: Vec<String>)
    ensures
        string_views(r@) == source_linked_ids(views(memories@), string_views(deleted@)),
{
    let ghost ms = views(memories@);
    let mut r: Vec<String> = Vec::new();
    let mut i: usize = 0;
    while i < memories.len()
        invariant
            i <= memories.len(),
            ms == views(memories@),
            string_views(r@) == source_linked_ids(ms.take(i as int), string_views(deleted@)),
        decreases memories.len() - i,
    {
        let ghost prev = r@;
        assert(ms.take(i + 1).drop_last() =~= ms.take(i as int));
        let linked = match memories[i].get_str("sourceMessageId") {
            Some(source) => contains_string(deleted, source.as_str()),
            None => false,
        };
        if linked {
            r.push(memory_id_of(&memories[i]).to_owned());
            assert(string_views(r@) =~= string_views(prev).push(memory_id(ms[i as int])));
        }
        i += 1;
    }
    assert(ms.take(memories.len() as int) =~= ms);
    r
}

fn last_active_index(events: &Vec<Json>, end: usize) -> (r: Option<usize>)
    requires
        end <= events.len(),
    ensures
        match r {
            Some(j) => j < end && last_active(views(events@).take(end as int)) == Some(views(events@)[j as int]),
            None => last_active(views(events@).take(end as int)) is None,
        },
{
    let ghost evs = views(events@);
    let mut j: usize = end;
    while j > 0
        invariant
            j <= end <= events.len(),
            evs == views(events@),
            last_active(evs.take(end as int)) == last_active(evs.take(j as int)),
        decreases j,
    {
        assert(evs.take(j as int).drop_last() =~= evs.take(j - 1));
        assert(evs.take(j as int).last() == evs[j - 1]);
        if event_is_active(&events[j - 1]) {
            return Some(j - 1);
        }
        j -= 1;
    }
    None
}

fn anchor(
    id: String,
    session_id: &str,
    retained_conversation_count: usize,
    retained_message_id: Option<&str>,
    summary: &Option<String>,
    tokens: i64,
    reason: &str,
    now: u64,
) -> (r: Json)
    ensures
        r@ == anchor_event(
            id@,
            session_id@,
            retained_conversation_count,
            opt_str_view(retained_message_id),
            match summary {
                Some(s) => Some(s@),
                None => None,
            },
            tokens,
            reason@,
            now,
        ),
{
    let mut window: Vec<String> = Vec::new();
    if let Some(m) = retained_message_id {
        window.push(m.to_owned());
    }
    assert(string_views(window@) =~= match retained_message_id {
        Some(m) => seq![m@],
        None => Seq::<Seq<char>>::empty(),
    });
    let summary_text = match summary {
        Some(s) => s.clone(),
        None => String::new(),
    };
    let mut members: Vec<(String, Json)> = Vec::new();
    members.push(("id".to_owned(), Json::Str(id)));
    members.push(("type".to_owned(), Json::from_str("rewind_anchor")));
    members.push(("sourceSessionId".to_owned(), Json::from_str(session_id)));
    members.push(("windowStart".to_owned(), Json::from_u64(retained_conversation_count as u64)));
    members.push(("windowEnd".to_owned(), Json::from_u64(retained_conversation_count as u64)));
    members.push(("windowMessageIds".to_owned(), Json::from_strings(&window)));
    members.push(("summary".to_owned(), Json::Str(summary_text)));
    members.push(("summaryTokenCount".to_owned(), Json::from_i64(tokens)));
    let actions = Json::Array(Vec::new());
    proof {
        actions.lemma_array_view();
        assert(views(Seq::<Json>::empty()) =~= Seq::empty());
    }
    members.push(("actions".to_owned(), actions));
    members.push(("reason".to_owned(), Json::from_str(reason)));
    members.push(("createdAt".to_owned(), Json::from_u64(now)));
    let r = Json::Object(members);
    proof {
        r.lemma_array_view();
        assert(crate::json::member_views(members@) =~= anchor_event(
            id@,
            session_id@,
            retained_conversation_count,
            opt_str_view(retained_message_id),
            match summary {
                Some(s) => Some(s@),
                None => None,
            },
            tokens,
            reason@,
            now,
        )->Object_0);
    }
    r
}

/// Rewinds the memory for deleted messages, leaving an anchor event with the given id; see
/// the module documentation.
pub fn apply_rewind_with_anchor_id(
    state: &mut RewindState,
    session_id: &str,
    retained_message_id: Option<&str>,
    retained_conversation_count: usize,
    deleted_message_ids: &[String],
    now: u64,
    reason: &str,
    anchor_id: String,
) -> (o: MemoryRewindOutcome)
    ensures
        (final(state)@, o) == rewound(
            old(state)@,
            session_id@,
            opt_str_view(retained_message_id),
            retained_conversation_count,
            string_views(deleted_message_ids@),
            now,
            reason@,
            anchor_id@,
        ),
{
    let ghost s0 = state@;
    let ghost deleted = string_views(deleted_message_ids@);
    let ghost retained = opt_str_view(retained_message_id);
    let mut outcome = MemoryRewindOutcome::default();
    let affected_idx = affected_indices(&state.events, session_id, deleted_message_ids);
    let ghost idx = index_views(affected_idx@);
    let ghost target = reverted_events(s0.memories, s0.events, zero_outcome(), idx, now, reason@, retained);
    assert(idx.take(affected_idx.len() as int) =~= idx);
    let mut k: usize = affected_idx.len();
    while k > 0
        invariant
            k <= affected_idx.len(),
            idx == index_views(affected_idx@),
            forall|j: int| 0 <= j < affected_idx.len() ==> affected_idx@[j] < state.events.len(),
            reverted_events(views(state.memories@), views(state.events@), outcome, idx.take(k as int), now, reason@, retained)
                == target,
            state@.summary == s0.summary,
            state.summary_token_count == s0.summary_token_count,
            retained == opt_str_view(retained_message_id),
        decreases k,
    {
        let index = affected_idx[k - 1];
        assert(idx.take(k as int).drop_last() =~= idx.take(k - 1));
        assert(idx.take(k as int).last() == index as int);
        let ghost evs = views(state.events@);
        let event = state.events[index].copy();
        assert(event@ == evs[index as int]);
        revert_event_actions(&mut state.memories, &event, &mut outcome);
        let mut marked_event = event;
        mark(&mut marked_event, now, reason, retained_message_id);
        assert(marked_event@ == marked(evs[index as int], now, reason@, retained));
        let ghost before_set = state.events@;
        state.events.set(index, marked_event);
        assert(state.events@ == before_set.update(index as int, marked_event));
        assert(views(before_set) == evs);
        assert(views(state.events@) =~= evs.update(index as int, marked(evs[index as int], now, reason@, retained)));
        outcome.reverted_events = outcome.reverted_events.saturating_add(1);
        k -= 1;
    }
    assert(idx.take(0) =~= Seq::<int>::empty());
    let ghost ms1 = views(state.memories@);
    let ghost events1 = views(state.events@);
    let ghost o1 = outcome;
    assert((ms1, events1, o1) == target);
    let linked = source_linked_memory_ids(&state.memories, deleted_message_ids);
    let ghost linked_v = string_views(linked@);
    let mut j: usize = 0;
    while j < linked.len()
        invariant
            j <= linked.len(),
            linked_v == string_views(linked@),
            (views(state.memories@), outcome) == without_memories(ms1, o1, linked_v.take(j as int)),
            views(state.events@) == events1,
            state@.summary == s0.summary,
            state.summary_token_count == s0.summary_token_count,
        decreases linked.len() - j,
    {
        assert(linked_v.take(j + 1).drop_last() =~= linked_v.take(j as int));
        remove_memory(&mut state.memories, linked[j].as_str(), &mut outcome);
        j += 1;
    }
    assert(linked_v.take(linked.len() as int) =~= linked_v);
    assert(linked_v == source_linked_ids(ms1, deleted));
    let ghost o2 = outcome;
    let ghost ms2 = views(state.memories@);
    assert((ms2, o2) == without_memories(ms1, o1, linked_v));
    if affected_idx.len() > 0 {
        let first = affected_idx[0];
        match last_active_index(&state.events, first) {
            Some(c) => {
                let checkpoint = &state.events[c];
                let summary = match checkpoint.get_str("summary") {
                    Some(text) => if !text.as_str().is_empty() {
                        Some(text.clone())
                    } else {
                        None
                    },
                    None => None,
                };
                let tokens = match checkpoint.get("summaryTokenCount") {
                    Some(v) => match v.as_i64() {
                        Some(n) => n,
                        None => 0,
                    },
                    None => 0,
                };
                state.summary = summary;
                state.summary_token_count = tokens;
            },
            None => {
                state.summary = None;
                state.summary_token_count = 0;
            },
        }
    } else if linked.len() > 0 {
        state.summary = None;
        state.summary_token_count = 0;
    }
    let anchor_doc = anchor(
        anchor_id,
        session_id,
        retained_conversation_count,
        retained_message_id,
        &state.summary,
        state.summary_token_count,
        reason,
        now,
    );
    let ghost summary_v = state@.summary;
    let ghost tokens_v = state.summary_token_count;
    assert(summary_v == (if idx.len() > 0 {
        checkpoint_summary(last_active(events1.take(idx[0])))
    } else if linked_v.len() > 0 {
        None
    } else {
        s0.summary
    }));
    assert(tokens_v == (if idx.len() > 0 {
        checkpoint_tokens(last_active(events1.take(idx[0])))
    } else if linked_v.len() > 0 {
        0i64
    } else {
        s0.summary_token_count
    }));
    state.events.push(anchor_doc);
    let ghost full = views(state.events@);
    assert(full =~= events1.push(anchor_doc@));
    if state.events.len() > MAX_EVENTS {
        let excess = state.events.len() - MAX_EVENTS;
        let mut removed: usize = 0;
        while removed < excess
            invariant
                removed <= excess,
                full.len() > MAX_EVENTS,
                excess == full.len() - MAX_EVENTS,
                views(state.events@) == full.skip(removed as int),
                state.events.len() == full.len() - removed,
                views(state.memories@) == ms2,
                state@.summary == summary_v,
                state.summary_token_count == tokens_v,
            decreases excess - removed,
        {
            let ghost before = views(state.events@);
            state.events.remove(0);
            assert(views(state.events@) =~= before.skip(1));
            assert(full.skip(removed as int).skip(1) =~= full.skip(removed + 1));
            removed += 1;
        }
    } else {
        assert(views(state.events@) == most_recent(full));
    }
    assert(views(state.events@) == most_recent(full));
    assert(idx == affected(s0.events, s0.events.len(), session_id@, deleted));
    assert(full == events1.push(anchor_event(
        anchor_id@,
        session_id@,
        retained_conversation_count,
        retained,
        summary_v,
        tokens_v,
        reason@,
        now,
    )));
    assert(state@.memories == ms2);
    assert(outcome == o2);
    outcome
}

/// Rewinds the memory for deleted messages; the anchor event gets a fresh random id.
pub fn apply_rewind(
    state: &mut RewindState,
    session_id: &str,
    retained_message_id: Option<&str>,
    retained_conversation_count: usize,
    deleted_message_ids: &[String],
    now: u64,
    reason: &str,
) -> (o: MemoryRewindOutcome)
    ensures
        exists|anchor_id: Seq<char>|
            anchor_id.len() == 36 && (final(state)@, o) == #[trigger] rewound(
                old(state)@,
                session_id@,
                opt_str_view(retained_message_id),
                retained_conversation_count,
                string_views(deleted_message_ids@),
                now,
                reason@,
                anchor_id,
            ),
{
    let anchor_id = new_uuid();
    let ghost id = anchor_id@;
    let o = apply_rewind_with_anchor_id(
        state,
        session_id,
        retained_message_id,
        retained_conversation_count,
        deleted_message_ids,
        now,
        reason,
        anchor_id,
    );
    o
}

// ---------------------------------------------------------------------------
// Repairing orphaned history
// ---------------------------------------------------------------------------

/// The ids that are not live.
pub open spec fn not_live(ids: Seq<Seq<char>>, live: Seq<Seq<char>>) -> Seq<Seq<char>>
    decreases ids.len(),
{
    if ids.len() == 0 {
        Seq::empty()
    } else {
        let rest = not_live(ids.drop_last(), live);
        if live.contains(ids.last()) {
            rest
        } else {
            rest.push(ids.last())
        }
    }
}

/// Window message ids of the session's active events that are no longer live, event by event.
pub open spec fn orphaned_ids(
    events: Seq<JsonV>,
    session: Seq<char>,
    shared: bool,
    live: Seq<Seq<char>>,
) -> Seq<Seq<char>>
    decreases events.len(),
{
    if events.len() == 0 {
        Seq::empty()
    } else {
        let e = events.last();
        orphaned_ids(events.drop_last(), session, shared, live) + if is_active(e) && belongs_to_session(
            e,
            session,
            shared,
        ) {
            not_live(window_ids(e), live)
        } else {
            Seq::empty()
        }
    }
}

/// The items of a sequence without repeats, in order of first occurrence.
pub open spec fn distinct(s: Seq<Seq<char>>) -> Seq<Seq<char>>
    decreases s.len(),
{
    if s.len() == 0 {
        Seq::empty()
    } else {
        let rest = distinct(s.drop_last());
        if rest.contains(s.last()) {
            rest
        } else {
            rest.push(s.last())
        }
    }
}

pub open spec fn no_repeats(s: Seq<Seq<char>>) -> bool {
    forall|i: int, j: int| 0 <= i < j < s.len() ==> s[i] != s[j]
}

/// Appending an item adds exactly that item to what a sequence contains.
proof fn lemma_contains_push(t: Seq<Seq<char>>, l: Seq<char>)
    ensures
        forall|x: Seq<char>| t.push(l).contains(x) <==> (t.contains(x) || x == l),
{
    assert forall|x: Seq<char>| t.push(l).contains(x) <==> (t.contains(x) || x == l) by {
        if t.push(l).contains(x) {
            let i = choose|i: int| 0 <= i < t.push(l).len() && t.push(l)[i] == x;
            if i < t.len() {
                assert(t[i] == x);
            }
        }
        if t.contains(x) {
            let i = choose|i: int| 0 <= i < t.len() && t[i] == x;
            assert(t.push(l)[i] == x);
        }
        if x == l {
            assert(t.push(l)[t.len() as int] == x);
        }
    }
}

/// `distinct` keeps every item once.
pub proof fn lemma_distinct(s: Seq<Seq<char>>)
    ensures
        no_repeats(distinct(s)),
        forall|x: Seq<char>| distinct(s).contains(x) <==> s.contains(x),
    decreases s.len(),
{
    if s.len() == 0 {
        assert(distinct(s) =~= s);
    } else {
        let t = s.drop_last();
        let l = s.last();
        lemma_distinct(t);
        assert(t.push(l) =~= s);
        lemma_contains_push(t, l);
        let rest = distinct(t);
        lemma_contains_push(rest, l);
        assert forall|x: Seq<char>| distinct(s).contains(x) <==> s.contains(x) by {
            assert(rest.contains(x) <==> t.contains(x));
            assert(rest.contains(l) <==> t.contains(l));
            assert(t.push(l).contains(x) <==> (t.contains(x) || x == l));
            assert(rest.push(l).contains(x) <==> (rest.contains(x) || x == l));
        }
        if !rest.contains(l) {
            assert forall|i: int, j: int| 0 <= i < j < rest.push(l).len() implies rest.push(l)[i]
                != rest.push(l)[j] by {
                if j == rest.len() {
                    assert(rest[i] == rest.push(l)[i]);
                }
            }
        }
    }
}

/// The distinct message ids, in order of first occurrence, that active events of the session
/// name in their windows and that are no longer live.
pub fn missing_event_message_ids(
    events: &Vec<Json>,
    session_id: &str,
    shared: bool,
    live_message_ids: &[String],
) -> (r: Vec<String>)
    ensures
        string_views(r@) == distinct(
            orphaned_ids(views(events@), session_id@, shared, string_views(live_message_ids@)),
        ),
        no_repeats(string_views(r@)),
{
    let ghost evs = views(events@);
    let ghost live = string_views(live_message_ids@);
    let mut out: Vec<String> = Vec::new();
    let mut i: usize = 0;
    while i < events.len()
        invariant
            i <= events.len(),
            evs == views(events@),
            live == string_views(live_message_ids@),
            string_views(out@) == distinct(orphaned_ids(evs.take(i as int), session_id@, shared, live)),
        decreases events.len() - i,
    {
        assert(evs.take(i + 1).drop_last() =~= evs.take(i as int));
        assert(evs.take(i + 1).last() == evs[i as int]);
        let ghost before = orphaned_ids(evs.take(i as int), session_id@, shared, live);
        let event = &events[i];
        if event_is_active(event) && event_belongs_to_session(event, session_id, shared) {
            let ids = match event.get_array("windowMessageIds") {
                Some(items) => Json::string_items_of(items),
                None => Vec::new(),
            };
            assert(string_views(ids@) == window_ids(evs[i as int])) by {
                if evs[i as int].get_array("windowMessageIds"@) is None {
                    assert(string_views(ids@) =~= Seq::<Seq<char>>::empty());
                }
            }
            let ghost idv = string_views(ids@);
            assert(before + not_live(idv.take(0), live) =~= before);
            let mut k: usize = 0;
            while k < ids.len()
                invariant
                    k <= ids.len(),
                    idv == string_views(ids@),
                    live == string_views(live_message_ids@),
                    string_views(out@) == distinct(before + not_live(idv.take(k as int), live)),
                decreases ids.len() - k,
            {
                assert(idv.take(k + 1).drop_last() =~= idv.take(k as int));
                assert(idv.take(k + 1).last() == ids@[k as int]@);
                let ghost prev = string_views(out@);
                let id = ids[k].as_str();
                if !contains_string(live_message_ids, id) {
                    let ghost x = before + not_live(idv.take(k as int), live);
                    assert(before + not_live(idv.take(k + 1), live) =~= x.push(id@));
                    assert(x.push(id@).drop_last() =~= x);
                    assert(x.push(id@).last() == id@);
                    if !contains_string(&out, id) {
                        out.push(ids[k].clone());
                        assert(string_views(out@) =~= prev.push(id@));
                    }
                } else {
                    assert(before + not_live(idv.take(k + 1), live) =~= before + not_live(
                        idv.take(k as int),
                        live,
                    ));
                }
                k += 1;
            }
            assert(idv.take(ids.len() as int) =~= idv);
        } else {
            assert(before + Seq::<Seq<char>>::empty() =~= before);
        }
        i += 1;
    }
    assert(evs.take(events.len() as int) =~= evs);
    proof {
        lemma_distinct(orphaned_ids(evs, session_id@, shared, live));
    }
    out
}

/// The number of live messages before the recent window, which stays pending.
pub open spec fn anchor_end(live: nat, recent_window_size: usize) -> usize {
    if live > recent_window_size {
        (live - recent_window_size) as usize
    } else {
        0
    }
}

/// The repair of orphaned history, with the anchor event's id.
pub open spec fn repaired(
    s: RewindStateV,
    session: Seq<char>,
    shared: bool,
    live: Seq<Seq<char>>,
    recent_window_size: usize,
    now: u64,
    anchor_id: Seq<char>,
) -> (RewindStateV, MemoryHistoryRepairOutcome) {
    let missing = distinct(orphaned_ids(s.events, session, shared, live));
    let end = anchor_end(live.len(), recent_window_size);
    let retained = if end > 0 {
        Some(live[end - 1])
    } else {
        None
    };
    let (after, o) = rewound(s, session, retained, end, missing, now, "orphaned_history_repair"@, anchor_id);
    (
        after,
        MemoryHistoryRepairOutcome {
            rewind: MemoryRewindOutcome { shared, ..o },
            missing_message_ids: missing.len() as usize,
            anchor_window_end: end,
        },
    )
}

/// Repairs memory history whose windows name messages that no longer exist: their events are
/// rewound, and the anchor is placed before the most recent `recent_window_size` live
/// messages, which stay pending.
pub fn repair_orphaned_history_state(
    state: &mut RewindState,
    session_id: &str,
    shared: bool,
    live_message_ids: &[String],
    recent_window_size: usize,
    now: u64,
) -> (r: MemoryHistoryRepairOutcome)
    ensures
        exists|anchor_id: Seq<char>|
            anchor_id.len() == 36 && (final(state)@, r) == #[trigger] repaired(
                old(state)@,
                session_id@,
                shared,
                string_views(live_message_ids@),
                recent_window_size,
                now,
                anchor_id,
            ),
{
    let ghost s0 = state@;
    let missing = missing_event_message_ids(&state.events, session_id, shared, live_message_ids);
    let end = live_message_ids.len().saturating_sub(recent_window_size);
    let retained: Option<&str> = if end > 0 {
        Some(live_message_ids[end - 1].as_str())
    } else {
        None
    };
    let ghost live = string_views(live_message_ids@);
    assert(opt_str_view(retained) == if end > 0 {
        Some(live[end - 1])
    } else {
        None::<Seq<char>>
    });
    assert(end == anchor_end(live.len(), recent_window_size));
    let mut rewind = apply_rewind(
        state,
        session_id,
        retained,
        end,
        missing.as_slice(),
        now,
        "orphaned_history_repair",
    );
    let ghost id = choose|id: Seq<char>|
        id.len() == 36 && (state@, rewind) == #[trigger] rewound(
            s0,
            session_id@,
            opt_str_view(retained),
            end,
            string_views(missing@),
            now,
            "orphaned_history_repair"@,
            id,
        );
    rewind.shared = shared;
    let r = MemoryHistoryRepairOutcome {
        rewind,
        missing_message_ids: missing.len(),
        anchor_window_end: end,
    };
    assert((state@, r) == repaired(s0, session_id@, shared, live, recent_window_size, now, id));
    r
}

/// Rewinds the memory of a session for messages deleted after `retained_message_id`.
pub fn rewind_state_for_deleted_messages(
    state: &mut RewindState,
    session_id: &str,
    shared: bool,
    retained_message_id: &str,
    retained_conversation_count: usize,
    deleted_message_ids: &[String],
    now: u64,
) -> (r: MemoryRewindOutcome)
    ensures
        exists|anchor_id: Seq<char>|
            #![trigger rewound(old(state)@, session_id@, Some(retained_message_id@), retained_conversation_count, string_views(deleted_message_ids@), now, "chat_rewind"@, anchor_id)]
            {
                let (after, o) = rewound(
                    old(state)@,
                    session_id@,
                    Some(retained_message_id@),
                    retained_conversation_count,
                    string_views(deleted_message_ids@),
                    now,
                    "chat_rewind"@,
                    anchor_id,
                );
                anchor_id.len() == 36 && final(state)@ == after && r == MemoryRewindOutcome { shared, ..o }
            },
{
    let mut outcome = apply_rewind(
        state,
        session_id,
        Some(retained_message_id),
        retained_conversation_count,
        deleted_message_ids,
        now,
        "chat_rewind",
    );
    outcome.shared = shared;
    outcome
}

// ---------------------------------------------------------------------------
// Laws
// ---------------------------------------------------------------------------

/// Reverting events changes only the events at the given indices, and keeps their number.
proof fn lemma_reverted_events_frame(
    ms: Seq<JsonV>,
    events: Seq<JsonV>,
    o: MemoryRewindOutcome,
    indices: Seq<int>,
    now: u64,
    reason: Seq<char>,
    retained: Option<Seq<char>>,
    i: int,
)
    requires
        forall|k: int| 0 <= k < indices.len() ==> 0 <= #[trigger] indices[k] < events.len(),
    ensures
        reverted_events(ms, events, o, indices, now, reason, retained).1.len() == events.len(),
        0 <= i < events.len() && !indices.contains(i) ==> reverted_events(
            ms,
            events,
            o,
            indices,
            now,
            reason,
            retained,
        ).1[i] == events[i],
    decreases indices.len(),
{
    if indices.len() > 0 {
        let j = indices.last();
        let (ms1, o1) = reverted_event(ms, o, events[j]);
        let events1 = events.update(j, marked(events[j], now, reason, retained));
        assert forall|k: int| 0 <= k < indices.drop_last().len() implies 0 <= #[trigger] indices.drop_last()[k]
            < events1.len() by {
            assert(indices.drop_last()[k] == indices[k]);
        }
        lemma_reverted_events_frame(ms1, events1, count_reverted(o1), indices.drop_last(), now, reason, retained, i);
        if !indices.contains(i) {
            assert(i != j);
            if indices.drop_last().contains(i) {
                let k = choose|k: int| 0 <= k < indices.drop_last().len() && indices.drop_last()[k] == i;
                assert(indices[k] == i);
            }
        }
    }
}

/// The indices the rewind reaches are events of the rewound session, in range.
proof fn lemma_affected(events: Seq<JsonV>, n: nat, session: Seq<char>, deleted: Seq<Seq<char>>)
    requires
        n <= events.len(),
    ensures
        forall|k: int|
            0 <= k < affected(events, n, session, deleted).len() ==> 0 <= #[trigger] affected(
                events,
                n,
                session,
                deleted,
            )[k] < n && belongs_to_rewind(events[affected(events, n, session, deleted)[k]], session, deleted),
    decreases n,
{
    if n > 0 {
        lemma_affected(events, (n - 1) as nat, session, deleted);
        let rest = affected(events, (n - 1) as nat, session, deleted);
        let all = affected(events, n, session, deleted);
        assert forall|k: int| 0 <= k < all.len() implies 0 <= #[trigger] all[k] < n && belongs_to_rewind(
            events[all[k]],
            session,
            deleted,
        ) by {
            if k < rest.len() {
                assert(all[k] == rest[k]);
            }
        }
    }
}

/// An event recorded for another session is never reverted (while no event is trimmed away).
pub proof fn law_other_session_events_untouched(
    s: RewindStateV,
    session: Seq<char>,
    retained: Option<Seq<char>>,
    retained_count: usize,
    deleted: Seq<Seq<char>>,
    now: u64,
    reason: Seq<char>,
    anchor_id: Seq<char>,
    i: int,
)
    requires
        0 <= i < s.events.len(),
        s.events.len() < MAX_EVENTS,
        s.events[i].get_str("sourceSessionId"@) is Some,
        s.events[i].get_str("sourceSessionId"@) != Some(session),
    ensures
        rewound(s, session, retained, retained_count, deleted, now, reason, anchor_id).0.events[i]
            == s.events[i],
{
    let idx = affected(s.events, s.events.len(), session, deleted);
    lemma_affected(s.events, s.events.len(), session, deleted);
    if idx.contains(i) {
        let k = choose|k: int| 0 <= k < idx.len() && idx[k] == i;
        assert(belongs_to_rewind(s.events[idx[k]], session, deleted));
    }
    lemma_reverted_events_frame(s.memories, s.events, zero_outcome(), idx, now, reason, retained, i);
}

/// A rewind ends the event list with its anchor, and keeps at most `MAX_EVENTS` events: one
/// more than before, up to that bound.
pub proof fn law_rewind_ends_with_anchor(
    s: RewindStateV,
    session: Seq<char>,
    retained: Option<Seq<char>>,
    retained_count: usize,
    deleted: Seq<Seq<char>>,
    now: u64,
    reason: Seq<char>,
    anchor_id: Seq<char>,
)
    ensures
        ({
            let after = rewound(s, session, retained, retained_count, deleted, now, reason, anchor_id).0;
            &&& after.events.len() == if s.events.len() + 1 > MAX_EVENTS {
                MAX_EVENTS as int
            } else {
                s.events.len() + 1 as int
            }
            &&& after.events.last() == anchor_event(
                anchor_id,
                session,
                retained_count,
                retained,
                after.summary,
                after.summary_token_count,
                reason,
                now,
            )
        }),
{
    let idx = affected(s.events, s.events.len(), session, deleted);
    lemma_affected(s.events, s.events.len(), session, deleted);
    lemma_reverted_events_frame(s.memories, s.events, zero_outcome(), idx, now, reason, retained, 0);
}

/// Undoing a memory action never changes the count of reverted events.
proof fn lemma_action_keeps_reverted_count(ms: Seq<JsonV>, o: MemoryRewindOutcome, action: JsonV)
    ensures
        reverted_action(ms, o, action).1.reverted_events == o.reverted_events,
{
}

proof fn lemma_actions_keep_reverted_count(ms: Seq<JsonV>, o: MemoryRewindOutcome, actions: Seq<JsonV>)
    ensures
        reverted_actions(ms, o, actions).1.reverted_events == o.reverted_events,
    decreases actions.len(),
{
    if actions.len() > 0 {
        let (ms1, o1) = reverted_action(ms, o, actions.last());
        lemma_action_keeps_reverted_count(ms, o, actions.last());
        lemma_actions_keep_reverted_count(ms1, o1, actions.drop_last());
    }
}

/// Reverting events counts each of them once.
proof fn lemma_reverted_events_count(
    ms: Seq<JsonV>,
    events: Seq<JsonV>,
    o: MemoryRewindOutcome,
    indices: Seq<int>,
    now: u64,
    reason: Seq<char>,
    retained: Option<Seq<char>>,
)
    requires
        o.reverted_events + indices.len() <= usize::MAX,
    ensures
        reverted_events(ms, events, o, indices, now, reason, retained).2.reverted_events
            == o.reverted_events + indices.len(),
    decreases indices.len(),
{
    if indices.len() > 0 {
        let i = indices.last();
        let (ms1, o1) = reverted_event(ms, o, events[i]);
        match events[i].get_array("actions"@) {
            Some(actions) => lemma_actions_keep_reverted_count(ms, o, actions),
            None => {},
        }
        lemma_reverted_events_count(
            ms1,
            events.update(i, marked(events[i], now, reason, retained)),
            count_reverted(o1),
            indices.drop_last(),
            now,
            reason,
            retained,
        );
    }
}

/// Removing memories never changes the count of reverted events.
proof fn lemma_removals_keep_reverted_count(ms: Seq<JsonV>, o: MemoryRewindOutcome, ids: Seq<Seq<char>>)
    ensures
        without_memories(ms, o, ids).1.reverted_events == o.reverted_events,
    decreases ids.len(),
{
    if ids.len() > 0 {
        lemma_removals_keep_reverted_count(ms, o, ids.drop_last());
    }
}

proof fn lemma_affected_len(events: Seq<JsonV>, n: nat, session: Seq<char>, deleted: Seq<Seq<char>>)
    ensures
        affected(events, n, session, deleted).len() <= n,
    decreases n,
{
    if n > 0 {
        lemma_affected_len(events, (n - 1) as nat, session, deleted);
    }
}

/// A rewind reports how many events it reverted: exactly the active events it reaches, those
/// of the session (or shared with it) that touch a deleted message, each counted once.
pub proof fn law_reverted_events_counted(
    s: RewindStateV,
    session: Seq<char>,
    retained: Option<Seq<char>>,
    retained_count: usize,
    deleted: Seq<Seq<char>>,
    now: u64,
    reason: Seq<char>,
    anchor_id: Seq<char>,
)
    requires
        s.events.len() <= usize::MAX,
    ensures
        rewound(s, session, retained, retained_count, deleted, now, reason, anchor_id).1.reverted_events
            == affected(s.events, s.events.len(), session, deleted).len(),
{
    let idx = affected(s.events, s.events.len(), session, deleted);
    lemma_affected_len(s.events, s.events.len(), session, deleted);
    lemma_reverted_events_count(s.memories, s.events, zero_outcome(), idx, now, reason, retained);
    let (ms1, events1, o1) = reverted_events(s.memories, s.events, zero_outcome(), idx, now, reason, retained);
    lemma_removals_keep_reverted_count(ms1, o1, source_linked_ids(ms1, deleted));
}

/// The source message a memory was drawn from.
pub open spec fn memory_source(m: JsonV) -> Option<Seq<char>> {
    m.get_str("sourceMessageId"@)
}

/// No two memories share an id.
pub open spec fn distinct_memory_ids(ms: Seq<JsonV>) -> bool {
    forall|i: int, j: int| 0 <= i < j < ms.len() ==> memory_id(#[trigger] ms[i]) != memory_id(#[trigger] ms[j])
}

/// A memory drawn from one of the deleted messages.
pub open spec fn drawn_from(m: JsonV, deleted: Seq<Seq<char>>) -> bool {
    match memory_source(m) {
        Some(source) => deleted.contains(source),
        None => false,
    }
}

proof fn lemma_memory_position(ms: Seq<JsonV>, id: Seq<char>)
    ensures
        match memory_position(ms, id) {
            Some(i) => 0 <= i < ms.len() && memory_id(ms[i]) == id,
            None => forall|j: int| 0 <= j < ms.len() ==> memory_id(#[trigger] ms[j]) != id,
        },
    decreases ms.len(),
{
    if ms.len() > 0 {
        let rest = ms.drop_last();
        lemma_memory_position(rest, id);
        match memory_position(rest, id) {
            Some(i) => {
                assert(rest[i] == ms[i]);
            },
            None => {
                assert forall|j: int| 0 <= j < ms.len() - 1 implies memory_id(#[trigger] ms[j]) != id by {
                    assert(rest[j] == ms[j]);
                }
            },
        }
    }
}

/// Dropping links to a removed memory keeps a memory's id and source.
proof fn lemma_unlinked_keeps(m: JsonV, removed: Seq<char>)
    ensures
        memory_id(unlinked(m, removed)) == memory_id(m),
        memory_source(unlinked(m, removed)) == memory_source(m),
{
    reveal_strlit("id");
    reveal_strlit("sourceMessageId");
    reveal_strlit("supersededBy");
    reveal_strlit("supersededAt");
    reveal_strlit("supersedes");
    assert("id"@.len() == 2 && "sourceMessageId"@.len() == 15 && "supersededBy"@.len() == 12
        && "supersededAt"@.len() == 12 && "supersedes"@.len() == 10);
    if let JsonV::Object(m0) = m {
        let m1 = if m.get_str("supersededBy"@) == Some(removed) {
            let a = member_insert(m0, "supersededBy"@, JsonV::Null);
            law_get_after_insert(m0, "supersededBy"@, "id"@, JsonV::Null);
            law_get_after_insert(m0, "supersededBy"@, "sourceMessageId"@, JsonV::Null);
            law_get_after_insert(a, "supersededAt"@, "id"@, JsonV::Null);
            law_get_after_insert(a, "supersededAt"@, "sourceMessageId"@, JsonV::Null);
            member_insert(a, "supersededAt"@, JsonV::Null)
        } else {
            m0
        };
        assert(JsonV::Object(m1) == if m.get_str("supersededBy"@) == Some(removed) {
            m.insert("supersededBy"@, JsonV::Null).insert("supersededAt"@, JsonV::Null)
        } else {
            m
        });
        match JsonV::Object(m1).get_array("supersedes"@) {
            Some(a) => {
                law_get_after_insert(m1, "supersedes"@, "id"@, JsonV::Array(without_string(a, removed)));
                law_get_after_insert(
                    m1,
                    "supersedes"@,
                    "sourceMessageId"@,
                    JsonV::Array(without_string(a, removed)),
                );
            },
            None => {},
        }
    }
}

/// What the removal step keeps: memories with distinct ids, each with the id and source of a
/// memory that was there before, a drawn one's id among `linked`, and none with an id already
/// removed.
pub open spec fn removal_invariant(
    ms: Seq<JsonV>,
    deleted: Seq<Seq<char>>,
    linked: Seq<Seq<char>>,
    removed: Seq<Seq<char>>,
) -> bool {
    &&& distinct_memory_ids(ms)
    &&& forall|j: int| 0 <= j < ms.len() && drawn_from(#[trigger] ms[j], deleted) ==> linked.contains(memory_id(ms[j]))
    &&& forall|j: int, t: int| 0 <= j < ms.len() && 0 <= t < removed.len() ==> memory_id(#[trigger] ms[j]) != #[trigger] removed[t]
}

proof fn lemma_removal_step(ms: Seq<JsonV>, deleted: Seq<Seq<char>>, linked: Seq<Seq<char>>, removed: Seq<Seq<char>>, id: Seq<char>)
    requires
        removal_invariant(ms, deleted, linked, removed),
    ensures
        removal_invariant(without_memory(ms, id).0, deleted, linked, removed.push(id)),
{
    lemma_memory_position(ms, id);
    let removed2 = removed.push(id);
    match memory_position(ms, id) {
        Some(i) => {
            let r = ms.remove(i);
            let out = all_unlinked(r, id);
            assert forall|j: int| 0 <= j < out.len() implies memory_id(#[trigger] out[j]) == memory_id(r[j])
                && memory_source(out[j]) == memory_source(r[j]) by {
                lemma_unlinked_keeps(r[j], id);
            }
            assert forall|j: int| 0 <= j < r.len() implies #[trigger] r[j] == ms[if j < i { j } else { j + 1 }] by {}
            assert forall|a: int, b: int| 0 <= a < b < out.len() implies memory_id(#[trigger] out[a]) != memory_id(
                #[trigger] out[b],
            ) by {
                assert(r[a] == ms[if a < i { a } else { a + 1 }]);
                assert(r[b] == ms[if b < i { b } else { b + 1 }]);
            }
            assert forall|j: int| 0 <= j < out.len() && drawn_from(#[trigger] out[j], deleted) implies linked.contains(
                memory_id(out[j]),
            ) by {
                let k = if j < i { j } else { j + 1 };
                assert(r[j] == ms[k]);
                assert(drawn_from(ms[k], deleted));
            }
            assert forall|j: int, t: int| 0 <= j < out.len() && 0 <= t < removed2.len() implies memory_id(
                #[trigger] out[j],
            ) != #[trigger] removed2[t] by {
                let k = if j < i { j } else { j + 1 };
                assert(r[j] == ms[k]);
                if t < removed.len() {
                    assert(removed2[t] == removed[t]);
                } else {
                    assert(memory_id(ms[i]) == id);
                }
            }
        },
        None => {
            assert forall|j: int, t: int| 0 <= j < ms.len() && 0 <= t < removed2.len() implies memory_id(
                #[trigger] ms[j],
            ) != #[trigger] removed2[t] by {
                if t < removed.len() {
                    assert(removed2[t] == removed[t]);
                }
            }
        },
    }
}

proof fn lemma_removals(ms: Seq<JsonV>, o: MemoryRewindOutcome, deleted: Seq<Seq<char>>, linked: Seq<Seq<char>>, ids: Seq<Seq<char>>)
    requires
        removal_invariant(ms, deleted, linked, Seq::empty()),
    ensures
        removal_invariant(without_memories(ms, o, ids).0, deleted, linked, ids),
    decreases ids.len(),
{
    if ids.len() > 0 {
        lemma_removals(ms, o, deleted, linked, ids.drop_last());
        let ms1 = without_memories(ms, o, ids.drop_last()).0;
        lemma_removal_step(ms1, deleted, linked, ids.drop_last(), ids.last());
        assert(ids.drop_last().push(ids.last()) =~= ids);
    } else {
        assert(without_memories(ms, o, ids).0 == ms);
    }
}

/// Every memory drawn from a deleted message has its id among the linked ids.
proof fn lemma_source_linked(ms: Seq<JsonV>, deleted: Seq<Seq<char>>)
    ensures
        forall|j: int| 0 <= j < ms.len() && drawn_from(#[trigger] ms[j], deleted) ==> source_linked_ids(
            ms,
            deleted,
        ).contains(memory_id(ms[j])),
    decreases ms.len(),
{
    if ms.len() > 0 {
        let rest = ms.drop_last();
        lemma_source_linked(rest, deleted);
        let linked = source_linked_ids(ms, deleted);
        let rl = source_linked_ids(rest, deleted);
        assert forall|j: int| 0 <= j < ms.len() && drawn_from(#[trigger] ms[j], deleted) implies linked.contains(
            memory_id(ms[j]),
        ) by {
            if j < ms.len() - 1 {
                assert(rest[j] == ms[j]);
                assert(drawn_from(rest[j], deleted));
                let t = choose|t: int| 0 <= t < rl.len() && rl[t] == memory_id(rest[j]);
                if linked != rl {
                    assert(linked == rl.push(memory_id(ms.last())));
                    assert(linked[t] == rl[t]);
                }
            } else {
                assert(linked == rl.push(memory_id(ms.last())));
                assert(linked[rl.len() as int] == memory_id(ms[j]));
            }
        }
    }
}

/// Removing the memories linked to deleted messages leaves none drawn from a deleted message
/// (memories with distinct ids, as memory ids are).
pub proof fn law_no_memory_of_deleted_messages(ms: Seq<JsonV>, o: MemoryRewindOutcome, deleted: Seq<Seq<char>>)
    requires
        distinct_memory_ids(ms),
    ensures
        forall|j: int|
            0 <= j < without_memories(ms, o, source_linked_ids(ms, deleted)).0.len() ==> !drawn_from(
                #[trigger] without_memories(ms, o, source_linked_ids(ms, deleted)).0[j],
                deleted,
            ),
{
    let linked = source_linked_ids(ms, deleted);
    lemma_source_linked(ms, deleted);
    lemma_removals(ms, o, deleted, linked, linked);
    let out = without_memories(ms, o, linked).0;
    assert forall|j: int| 0 <= j < out.len() implies !drawn_from(#[trigger] out[j], deleted) by {
        if drawn_from(out[j], deleted) {
            let t = choose|t: int| 0 <= t < linked.len() && linked[t] == memory_id(out[j]);
            assert(memory_id(out[j]) != linked[t]);
        }
    }
}

/// After a rewind no memory drawn from a deleted message remains (when the memories left by
/// undoing the reached events have distinct ids, as memory ids are).
pub proof fn law_rewind_keeps_no_memory_of_deleted_messages(
    s: RewindStateV,
    session: Seq<char>,
    retained: Option<Seq<char>>,
    retained_count: usize,
    deleted: Seq<Seq<char>>,
    now: u64,
    reason: Seq<char>,
    anchor_id: Seq<char>,
)
    requires
        distinct_memory_ids(
            reverted_events(
                s.memories,
                s.events,
                zero_outcome(),
                affected(s.events, s.events.len(), session, deleted),
                now,
                reason,
                retained,
            ).0,
        ),
    ensures
        forall|j: int|
            0 <= j < rewound(s, session, retained, retained_count, deleted, now, reason, anchor_id).0.memories.len()
                ==> !drawn_from(
                #[trigger] rewound(s, session, retained, retained_count, deleted, now, reason, anchor_id).0.memories[j],
                deleted,
            ),
{
    let idx = affected(s.events, s.events.len(), session, deleted);
    let (ms1, events1, o1) = reverted_events(s.memories, s.events, zero_outcome(), idx, now, reason, retained);
    law_no_memory_of_deleted_messages(ms1, o1, deleted);
}

/// The last active event is an active event with no active event after it; with none, no
/// event is active.
proof fn lemma_last_active(events: Seq<JsonV>) -> (i: int)
    ensures
        match last_active(events) {
            Some(e) => 0 <= i < events.len() && events[i] == e && is_active(e) && forall|j: int|
                i < j < events.len() ==> !is_active(#[trigger] events[j]),
            None => forall|j: int| 0 <= j < events.len() ==> !is_active(#[trigger] events[j]),
        },
    decreases events.len(),
{
    if events.len() == 0 {
        0
    } else if is_active(events.last()) {
        events.len() - 1
    } else {
        let i = lemma_last_active(events.drop_last());
        assert forall|j: int| 0 <= j < events.len() - 1 implies #[trigger] events[j] == events.drop_last()[j] by {}
        i
    }
}

/// The indices a rewind reaches ascend, and every active event of the rewound session that
/// touches a deleted message is among them.
proof fn lemma_affected_order(events: Seq<JsonV>, n: nat, session: Seq<char>, deleted: Seq<Seq<char>>)
    requires
        n <= events.len(),
    ensures
        ({
            let a = affected(events, n, session, deleted);
            &&& forall|k1: int, k2: int| 0 <= k1 < k2 < a.len() ==> #[trigger] a[k1] < #[trigger] a[k2]
            &&& forall|k: int| 0 <= k < a.len() ==> 0 <= #[trigger] a[k] < n && is_active(events[a[k]])
            &&& forall|j: int|
                0 <= j < n && is_active(#[trigger] events[j]) && belongs_to_rewind(events[j], session, deleted)
                    ==> a.contains(j)
        }),
    decreases n,
{
    if n > 0 {
        lemma_affected_order(events, (n - 1) as nat, session, deleted);
        let rest = affected(events, (n - 1) as nat, session, deleted);
        let a = affected(events, n, session, deleted);
        assert forall|k: int| 0 <= k < rest.len() implies #[trigger] a[k] == rest[k] by {}
        assert forall|j: int|
            0 <= j < n && is_active(#[trigger] events[j]) && belongs_to_rewind(events[j], session, deleted)
                implies a.contains(j) by {
            if j < n - 1 {
                let k = choose|k: int| 0 <= k < rest.len() && rest[k] == j;
                assert(a[k] == j);
            } else {
                assert(a[a.len() - 1] == j);
            }
        }
    }
}

/// After a rewind that reverts events, the state's summary and token count are those of the
/// latest active event before the first event it reverts (the earliest active event of the
/// session that touches a deleted message); with no active event before it, the summary is
/// cleared and the count is zero.
pub proof fn law_rewind_checkpoint_is_latest_active_event(
    s: RewindStateV,
    session: Seq<char>,
    retained: Option<Seq<char>>,
    retained_count: usize,
    deleted: Seq<Seq<char>>,
    now: u64,
    reason: Seq<char>,
    anchor_id: Seq<char>,
)
    requires
        affected(s.events, s.events.len(), session, deleted).len() > 0,
    ensures
        ({
            let first = affected(s.events, s.events.len(), session, deleted)[0];
            let after = rewound(s, session, retained, retained_count, deleted, now, reason, anchor_id).0;
            &&& 0 <= first < s.events.len()
            &&& is_active(s.events[first]) && belongs_to_rewind(s.events[first], session, deleted)
            &&& forall|j: int|
                0 <= j < first ==> !(is_active(#[trigger] s.events[j]) && belongs_to_rewind(
                    s.events[j],
                    session,
                    deleted,
                ))
            &&& (exists|i: int|
                0 <= i < first && is_active(s.events[i]) && (forall|j: int|
                    i < j < first ==> !is_active(#[trigger] s.events[j])) && after.summary
                    == checkpoint_summary(Some(s.events[i])) && after.summary_token_count
                    == checkpoint_tokens(Some(s.events[i]))) || ((forall|j: int|
                0 <= j < first ==> !is_active(#[trigger] s.events[j])) && after.summary is None
                && after.summary_token_count == 0)
        }),
{
    let n = s.events.len();
    let idx = affected(s.events, n, session, deleted);
    lemma_affected(s.events, n, session, deleted);
    lemma_affected_order(s.events, n, session, deleted);
    let first = idx[0];
    assert forall|k: int| 0 <= k < idx.len() implies first <= #[trigger] idx[k] by {
        if k > 0 {
            assert(idx[0] < idx[k]);
        }
    }
    assert forall|j: int| 0 <= j < first implies !(is_active(#[trigger] s.events[j]) && belongs_to_rewind(
        s.events[j],
        session,
        deleted,
    )) by {
        if is_active(s.events[j]) && belongs_to_rewind(s.events[j], session, deleted) {
            let k = choose|k: int| 0 <= k < idx.len() && idx[k] == j;
            assert(first <= idx[k]);
        }
    }
    let events1 = reverted_events(s.memories, s.events, zero_outcome(), idx, now, reason, retained).1;
    lemma_reverted_events_frame(s.memories, s.events, zero_outcome(), idx, now, reason, retained, 0);
    assert forall|j: int| 0 <= j < first implies #[trigger] events1[j] == s.events[j] by {
        if idx.contains(j) {
            let k = choose|k: int| 0 <= k < idx.len() && idx[k] == j;
            assert(first <= idx[k]);
        }
        lemma_reverted_events_frame(s.memories, s.events, zero_outcome(), idx, now, reason, retained, j);
    }
    let before = s.events.take(first);
    assert(events1.take(first) =~= before);
    let i = lemma_last_active(before);
    match last_active(before) {
        Some(e) => {
            assert forall|j: int| i < j < first implies !is_active(#[trigger] s.events[j]) by {
                assert(before[j] == s.events[j]);
            }
            assert(s.events[i] == before[i]);
        },
        None => {
            assert forall|j: int| 0 <= j < first implies !is_active(#[trigger] s.events[j]) by {
                assert(before[j] == s.events[j]);
            }
        },
    }
}

/// Each reverted event ends up marked once, from its value before the rewind.
proof fn lemma_reverted_events_marked(
    ms: Seq<JsonV>,
    events: Seq<JsonV>,
    o: MemoryRewindOutcome,
    indices: Seq<int>,
    now: u64,
    reason: Seq<char>,
    retained: Option<Seq<char>>,
    k: int,
)
    requires
        forall|j: int| 0 <= j < indices.len() ==> 0 <= #[trigger] indices[j] < events.len(),
        forall|j1: int, j2: int| 0 <= j1 < j2 < indices.len() ==> #[trigger] indices[j1] < #[trigger] indices[j2],
        0 <= k < indices.len(),
    ensures
        reverted_events(ms, events, o, indices, now, reason, retained).1[indices[k]] == marked(
            events[indices[k]],
            now,
            reason,
            retained,
        ),
    decreases indices.len(),
{
    let last = indices.last();
    let (ms1, o1) = reverted_event(ms, o, events[last]);
    let events1 = events.update(last, marked(events[last], now, reason, retained));
    let rest = indices.drop_last();
    assert forall|j: int| 0 <= j < rest.len() implies 0 <= #[trigger] rest[j] < events1.len() by {
        assert(rest[j] == indices[j]);
    }
    assert forall|j1: int, j2: int| 0 <= j1 < j2 < rest.len() implies #[trigger] rest[j1] < #[trigger] rest[j2] by {
        assert(rest[j1] == indices[j1] && rest[j2] == indices[j2]);
    }
    if k == indices.len() - 1 {
        assert forall|j: int| 0 <= j < rest.len() implies #[trigger] rest[j] != last by {
            assert(indices[j] < indices[indices.len() - 1]);
        }
        lemma_reverted_events_frame(ms1, events1, count_reverted(o1), rest, now, reason, retained, last);
    } else {
        assert(rest[k] == indices[k]);
        assert(indices[k] < last);
        lemma_reverted_events_marked(ms1, events1, count_reverted(o1), rest, now, reason, retained, k);
    }
}

/// A marked event is no longer active, and records when and why it was reverted.
proof fn lemma_marked(event: JsonV, now: u64, reason: Seq<char>, retained: Option<Seq<char>>)
    requires
        event is Object,
    ensures
        !is_active(marked(event, now, reason, retained)),
        marked(event, now, reason, retained).get("revertedAt"@) == Some(JsonV::Number(JsonNumber::PosInt(now))),
        marked(event, now, reason, retained).get("revertReason"@) == Some(JsonV::Str(reason)),
{
    reveal_strlit("revertedAt");
    reveal_strlit("revertReason");
    reveal_strlit("revertedByMessageId");
    assert("revertedAt"@.len() == 10 && "revertReason"@.len() == 12 && "revertedByMessageId"@.len() == 19);
    let m0 = match event {
        JsonV::Object(m) => m,
        _ => Seq::empty(),
    };
    let at = JsonV::Number(JsonNumber::PosInt(now));
    let m1 = member_insert(m0, "revertedAt"@, at);
    let m2 = member_insert(m1, "revertReason"@, JsonV::Str(reason));
    law_get_after_insert(m0, "revertedAt"@, "revertedAt"@, at);
    law_get_after_insert(m1, "revertReason"@, "revertedAt"@, JsonV::Str(reason));
    law_get_after_insert(m1, "revertReason"@, "revertReason"@, JsonV::Str(reason));
    match retained {
        Some(id) => {
            law_get_after_insert(m2, "revertedByMessageId"@, "revertedAt"@, JsonV::Str(id));
            law_get_after_insert(m2, "revertedByMessageId"@, "revertReason"@, JsonV::Str(id));
        },
        None => {},
    }
}

/// Every event a rewind reverts is marked: no longer active, with the time of the rewind as
/// `revertedAt` and its reason as `revertReason` (while no event is trimmed away).
pub proof fn law_reverted_events_are_marked(
    s: RewindStateV,
    session: Seq<char>,
    retained: Option<Seq<char>>,
    retained_count: usize,
    deleted: Seq<Seq<char>>,
    now: u64,
    reason: Seq<char>,
    anchor_id: Seq<char>,
    i: int,
)
    requires
        s.events.len() < MAX_EVENTS,
        0 <= i < s.events.len(),
        is_active(s.events[i]),
        belongs_to_rewind(s.events[i], session, deleted),
    ensures
        ({
            let e = rewound(s, session, retained, retained_count, deleted, now, reason, anchor_id).0.events[i];
            &&& !is_active(e)
            &&& e.get("revertedAt"@) == Some(JsonV::Number(JsonNumber::PosInt(now)))
            &&& e.get("revertReason"@) == Some(JsonV::Str(reason))
        }),
{
    let n = s.events.len();
    let idx = affected(s.events, n, session, deleted);
    lemma_affected(s.events, n, session, deleted);
    lemma_affected_order(s.events, n, session, deleted);
    assert(idx.contains(i));
    let k = choose|k: int| 0 <= k < idx.len() && idx[k] == i;
    lemma_reverted_events_marked(s.memories, s.events, zero_outcome(), idx, now, reason, retained, k);
    lemma_reverted_events_frame(s.memories, s.events, zero_outcome(), idx, now, reason, retained, i);
    let e = s.events[i];
    if e is Object {
        lemma_marked(e, now, reason, retained);
    } else {
        assert(e.get("revertedAt"@) is None);
        assert(e.get_str("status"@) is None);
    }
}

} // verus!
