//! Text-to-speech support: audio cache, cache metadata and usage accounting.
pub mod audio_cache;
pub mod cache_metadata;
pub mod pcm_output;
pub mod usage;
