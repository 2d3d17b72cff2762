//! Reading a companion's emotional signals from a chat message: the extraction prompt sent to
//! a text model and the reading of its answer, and how emotion labels map to signals and
//! to changes of the companion's emotional state.
pub mod llm;

pub mod mapper;
