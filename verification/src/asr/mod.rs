//! Speech recognition: the model catalog, model references, and the on-device engines'
//! request handling.

pub mod audio;
pub mod catalog;
pub mod engine;
pub mod sense_voice;
pub mod zipformer_ctc;
