//! Core logic of the companion chat client: prompt shaping, provider request adaptation,
//! media framing, memory history rewinding and backup planning.
use vstd::prelude::*;

pub mod asr;
pub mod chat;
pub mod eviction;
pub mod json;
pub mod reasoning;
pub mod storage;
pub mod text;
pub mod tts;

verus! {
} // verus!
