//! The parts of sessions, models, settings and credentials that the chat logic reads.
use vstd::prelude::*;

use crate::json::Json;

verus! {

/// Per-layer response settings (session, model or global).
#[derive(Debug, Clone, Default)]
pub struct AdvancedModelSettings {
    pub response_length_preset: Option<String>,
    pub response_length_chars: Option<u32>,
}

/// One entry of a system prompt template.
#[derive(Debug, Clone)]
pub struct SystemPromptEntry {
    pub id: String,
    pub name: String,
    pub content: String,
}

/// A chat session.
#[derive(Debug)]
pub struct Session {
    pub advanced_model_settings: Option<AdvancedModelSettings>,
    /// Companion state document; its `preferences` object holds calendar options.
    pub companion_state: Option<Json>,
}

/// A configured model.
#[derive(Debug, Clone)]
pub struct Model {
    pub name: String,
    pub advanced_model_settings: Option<AdvancedModelSettings>,
    pub input_scopes: Vec<String>,
    pub output_scopes: Vec<String>,
}

/// Global settings.
#[derive(Debug, Clone)]
pub struct Settings {
    pub advanced_model_settings: AdvancedModelSettings,
}

/// A provider credential and its free-form configuration document.
#[derive(Debug)]
pub struct ProviderCredential {
    pub id: String,
    pub provider_id: String,
    pub label: String,
    pub api_key: Option<String>,
    pub base_url: Option<String>,
    pub default_model: Option<String>,
    /// Extra request headers.
    pub headers: Option<Vec<(String, String)>>,
    pub config: Option<Json>,
}

/// An image attached to a message: inline data or a path in the attachment store.
#[derive(Debug, Clone)]
pub struct ImageAttachment {
    pub id: String,
    pub data: String,
    pub mime_type: String,
    pub filename: Option<String>,
    pub width: Option<u32>,
    pub height: Option<u32>,
    pub storage_path: Option<String>,
}

} // verus!
