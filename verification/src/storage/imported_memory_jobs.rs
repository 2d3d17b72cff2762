//! Background jobs that build memories for imported chat histories window by window: which
//! sessions have a job running, and where a started or resumed job picks up.
use vstd::prelude::*;

use crate::storage::memory_rewind::new_uuid;
use crate::text::{contains_string, distinct_strings, str_eq, str_set};

verus! {

/// A stored job.
#[derive(Debug, Clone)]
pub struct ImportedMemoryJob {
    pub id: String,
    pub session_id: String,
    pub status: String,
    pub window_size: u32,
    pub next_window_start: usize,
    pub window_index: usize,
    pub total_windows: usize,
    pub processed_messages: usize,
    pub total_messages: usize,
    pub current_window_start: Option<usize>,
    pub current_window_end: Option<usize>,
    pub last_error: Option<String>,
    pub created_at: i64,
    pub updated_at: i64,
}

/// The sessions whose job is running in this process.
pub struct ActiveJobs {
    sessions: Vec<String>,
}

impl View for ActiveJobs {
    type V = Set<Seq<char>>;

    closed spec fn view(&self) -> Set<Seq<char>> {
        str_set(self.sessions@)
    }
}

impl ActiveJobs {
    #[verifier::type_invariant]
    spec fn no_repeats(self) -> bool {
        distinct_strings(self.sessions@)
    }

    /// No job is running.
    pub fn active_jobs() -> (r: ActiveJobs)
        ensures
            r@ == Set::<Seq<char>>::empty(),
    {
        let r = ActiveJobs { sessions: Vec::new() };
        assert(r@ =~= Set::<Seq<char>>::empty());
        r
    }

    /// Claims a session's job; `false` when it is already running.
    pub fn try_claim(&mut self, session_id: &str) -> (r: bool)
        ensures
            r == !old(self)@.contains(session_id@),
            final(self)@ == old(self)@.insert(session_id@),
    {
        proof {
            use_type_invariant(&*self);
        }
        if contains_string(&self.sessions, session_id) {
            assert(self@ =~= self@.insert(session_id@));
            false
        } else {
            let mut sessions: Vec<String> = Vec::new();
            std::mem::swap(&mut sessions, &mut self.sessions);
            crate::text::insert_string(&mut sessions, session_id.to_owned());
            self.sessions = sessions;
            true
        }
    }

    /// Releases a session's job.
    pub fn release(&mut self, session_id: &str)
        ensures
            final(self)@ == old(self)@.remove(session_id@),
    {
        proof {
            use_type_invariant(&*self);
        }
        let ghost before = self.sessions@;
        let mut kept: Vec<String> = Vec::new();
        let mut i: usize = 0;
        while i < self.sessions.len()
            invariant
                i <= self.sessions.len(),
                self.sessions@ == before,
                distinct_strings(before),
                distinct_strings(kept@),
                str_set(kept@) == str_set(before.take(i as int)).remove(session_id@),
            decreases self.sessions.len() - i,
        {
            let ghost prev = kept@;
            if !str_eq(self.sessions[i].as_str(), session_id) {
                crate::text::insert_string(&mut kept, self.sessions[i].clone());
            }
            proof {
                let t = before.take(i + 1);
                assert(str_set(t) =~= str_set(before.take(i as int)).insert(before[i as int]@)) by {
                    assert forall|x: Seq<char>| str_set(t).contains(x) implies str_set(
                        before.take(i as int),
                    ).insert(before[i as int]@).contains(x) by {
                        let j = choose|j: int| 0 <= j < t.len() && (#[trigger] t[j])@ == x;
                        if j < i {
                            assert(before.take(i as int)[j] == t[j]);
                        }
                    }
                    assert forall|x: Seq<char>| str_set(before.take(i as int)).insert(
                        before[i as int]@,
                    ).contains(x) implies str_set(t).contains(x) by {
                        if x == before[i as int]@ {
                            assert(t[i as int] == before[i as int]);
                        } else {
                            let j = choose|j: int|
                                0 <= j < i && (#[trigger] before.take(i as int)[j])@ == x;
                            assert(t[j] == before.take(i as int)[j]);
                        }
                    }
                }
                assert(str_set(kept@) =~= str_set(t).remove(session_id@));
            }
            i += 1;
        }
        assert(before.take(before.len() as int) =~= before);
        self.sessions = kept;
    }

    /// Whether a session's job is running.
    pub fn is_active(&self, session_id: &str) -> (r: bool)
        ensures
            r == self@.contains(session_id@),
    {
        contains_string(&self.sessions, session_id)
    }
}

/// One job per session: once `try_claim` has succeeded for a session, a second claim is
/// refused (the claimed set contains it), and after `release` the session can be claimed
/// again; other sessions' claims are untouched by both.
pub proof fn law_claim_release(jobs: Set<Seq<char>>, session: Seq<char>, other: Seq<char>)
    requires
        other != session,
    ensures
        jobs.insert(session).contains(session),
        !jobs.insert(session).remove(session).contains(session),
        jobs.insert(session).contains(other) == jobs.contains(other),
        jobs.remove(session).contains(other) == jobs.contains(other),
{
}

/// Where a started or resumed job continues.
#[derive(Debug)]
pub struct JobStart {
    pub id: String,
    pub window_size: u32,
    pub next_window_start: usize,
    pub window_index: usize,
    pub total_windows: usize,
    pub processed_messages: usize,
    pub total_messages: usize,
}

/// A stored positive value wins over the requested one.
pub open spec fn kept_positive(stored: Option<int>, requested: int) -> int {
    match stored {
        Some(v) => if v > 0 {
            v
        } else {
            requested
        },
        None => requested,
    }
}

/// A resumed job keeps its id, its positive window size, message count and window count, its
/// next window and its window number (at least 1); a new job starts at window 1 of message 0.
/// The processed count is the next window's start, at most the message count.
pub open spec fn resumes_as(
    start: JobStart,
    existing: Option<ImportedMemoryJob>,
    window_size: u32,
    total_messages: usize,
    total_windows: usize,
) -> bool {
    let stored_size = match existing { Some(j) => Some(j.window_size as int), None => None };
    let stored_messages = match existing { Some(j) => Some(j.total_messages as int), None => None };
    let stored_windows = match existing { Some(j) => Some(j.total_windows as int), None => None };
    let next = match existing { Some(j) => j.next_window_start as int, None => 0 };
    &&& start.window_size == kept_positive(stored_size, window_size as int)
    &&& start.total_messages == kept_positive(stored_messages, total_messages as int)
    &&& start.total_windows == kept_positive(stored_windows, total_windows as int)
    &&& start.next_window_start == next
    &&& start.window_index == match existing {
        Some(j) => if j.window_index >= 1 { j.window_index as int } else { 1 },
        None => 1,
    }
    &&& start.processed_messages == if next < start.total_messages {
        next
    } else {
        start.total_messages as int
    }
    &&& match existing {
        Some(j) => start.id@ == j.id@,
        None => start.id@.len() == 36,
    }
}

pub fn start_or_resume(
    existing: Option<&ImportedMemoryJob>,
    window_size: u32,
    total_messages: usize,
    total_windows: usize,
) -> (r: JobStart)
    ensures
        resumes_as(
            r,
            match existing { Some(j) => Some(*j), None => None },
            window_size,
            total_messages,
            total_windows,
        ),
{
    match existing {
        Some(job) => {
            let size = if job.window_size > 0 { job.window_size } else { window_size };
            let messages = if job.total_messages > 0 { job.total_messages } else { total_messages };
            let windows = if job.total_windows > 0 { job.total_windows } else { total_windows };
            let next = job.next_window_start;
            JobStart {
                id: job.id.clone(),
                window_size: size,
                next_window_start: next,
                window_index: if job.window_index >= 1 { job.window_index } else { 1 },
                total_windows: windows,
                processed_messages: if next < messages { next } else { messages },
                total_messages: messages,
            }
        },
        None => JobStart {
            id: new_uuid(),
            window_size,
            next_window_start: 0,
            window_index: 1,
            total_windows,
            processed_messages: 0,
            total_messages,
        },
    }
}

} // verus!
