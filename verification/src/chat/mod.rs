//! Chat request shaping: prompts, provider adaptation and response reading.
pub mod attachments;
pub mod calendar_context;
pub mod civil_date;
pub mod emotion;
pub mod model_image;
pub mod multimodal;
pub mod openai_responses;
pub mod provider_adapter;
pub mod provider_native_tools;
pub mod response_length;
pub mod speech_expression;
pub mod tool_call_scan;
pub mod tooling;
pub mod types;
