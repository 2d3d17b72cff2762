//! Storage logic: memory history of chat sessions and the media of exported chats.
pub mod backup_plan;
pub mod companion_shared_memory;
pub mod imported_memory_jobs;
pub mod jsonl_media;
pub mod memory_rewind;
