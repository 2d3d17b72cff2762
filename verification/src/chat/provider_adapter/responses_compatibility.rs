//! Reasoning controls of Responses-compatible providers: the OpenAI dialect (`reasoning`) and
//! the Volcengine Ark dialect (`reasoning` and `thinking`).
use vstd::prelude::*;

use crate::chat::openai_responses::{is_provider_id, is_responses_provider};
use crate::chat::types::ProviderCredential;
use crate::json::{member_remove, unique_keys, Json, JsonV};
use crate::reasoning::ReasoningMode;
use crate::text::str_eq;

verus! {

#[derive(Debug, Clone, Copy, PartialEq, Eq, Structural)]
pub enum ResponsesDialect {
    OpenAi,
    VolcengineArk,
}

pub open spec fn config_of(credential: &ProviderCredential) -> Option<JsonV> {
    match credential.config {
        Some(c) => Some(c@),
        None => None,
    }
}

/// Ark Web Search configured: the marker of Ark providers made before the dialect setting.
pub open spec fn legacy_ark_search(config: JsonV) -> bool {
    match config.get("webSearch"@) {
        Some(search) => search.get_str("mode"@) == Some("volcengine-ark"@),
        None => false,
    }
}

/// The dialect of a provider: its `responsesDialect` setting, else Ark when Ark Web Search is
/// configured, else OpenAI.
pub open spec fn dialect_of(config: Option<JsonV>) -> ResponsesDialect {
    match config {
        None => ResponsesDialect::OpenAi,
        Some(c) => {
            let d = c.get_str("responsesDialect"@);
            if d == Some("volcengine-ark"@) {
                ResponsesDialect::VolcengineArk
            } else if d == Some("openai"@) {
                ResponsesDialect::OpenAi
            } else if legacy_ark_search(c) {
                ResponsesDialect::VolcengineArk
            } else {
                ResponsesDialect::OpenAi
            }
        },
    }
}

pub fn dialect_for(credential: &ProviderCredential) -> (r: ResponsesDialect)
    ensures
        r == dialect_of(config_of(credential)),
{
    let config = match &credential.config {
        Some(c) => c,
        None => return ResponsesDialect::OpenAi,
    };
    if let Some(d) = config.get_str("responsesDialect") {
        if str_eq(d.as_str(), "volcengine-ark") {
            return ResponsesDialect::VolcengineArk;
        }
        if str_eq(d.as_str(), "openai") {
            return ResponsesDialect::OpenAi;
        }
    }
    let legacy = match config.get("webSearch") {
        Some(search) => match search.get_str("mode") {
            Some(mode) => str_eq(mode.as_str(), "volcengine-ark"),
            None => false,
        },
        None => false,
    };
    if legacy {
        ResponsesDialect::VolcengineArk
    } else {
        ResponsesDialect::OpenAi
    }
}

pub open spec fn effort_value(effort: Seq<char>) -> JsonV {
    JsonV::Object(seq![("effort"@, JsonV::Str(effort))])
}

pub open spec fn thinking_value(kind: Seq<char>) -> JsonV {
    JsonV::Object(seq![("type"@, JsonV::Str(kind))])
}

/// `reasoning` set to the requested effort, or removed without one.
pub open spec fn with_effort(body: JsonV, effort: Option<Seq<char>>) -> JsonV {
    match effort {
        Some(e) => body.insert("reasoning"@, effort_value(e)),
        None => body.remove("reasoning"@),
    }
}

/// A request body with the reasoning controls of a mode, for Responses providers; other
/// bodies are left as they are.
pub open spec fn reasoning_applied(
    body: JsonV,
    provider_id: Seq<char>,
    dialect: ResponsesDialect,
    mode: ReasoningMode,
    effort: Option<Seq<char>>,
) -> JsonV {
    if !is_responses_provider(provider_id) || !body.is_object() {
        body
    } else {
        let b = body.remove("thinking"@);
        match dialect {
            ResponsesDialect::OpenAi => match mode {
                ReasoningMode::ProviderDefault => b.remove("reasoning"@),
                ReasoningMode::Auto => b.remove("reasoning"@),
                ReasoningMode::Enabled => with_effort(b, effort),
                ReasoningMode::Disabled => b.insert("reasoning"@, effort_value("minimal"@)),
            },
            ResponsesDialect::VolcengineArk => match mode {
                ReasoningMode::ProviderDefault => b.remove("reasoning"@),
                ReasoningMode::Auto => b.remove("reasoning"@).insert("thinking"@, thinking_value("auto"@)),
                ReasoningMode::Enabled => with_effort(b, effort).insert(
                    "thinking"@,
                    thinking_value("enabled"@),
                ),
                ReasoningMode::Disabled => b.insert("reasoning"@, effort_value("minimal"@)).insert(
                    "thinking"@,
                    thinking_value("disabled"@),
                ),
            },
        }
    }
}

/// Leaving reasoning to the provider sends neither a `reasoning` nor a `thinking` member in
/// a Responses request body whose keys are unique.
pub proof fn law_provider_default_omits_control_fields(
    m: Seq<(Seq<char>, JsonV)>,
    provider_id: Seq<char>,
    dialect: ResponsesDialect,
    effort: Option<Seq<char>>,
)
    requires
        unique_keys(m),
        is_responses_provider(provider_id),
    ensures
        reasoning_applied(JsonV::Object(m), provider_id, dialect, ReasoningMode::ProviderDefault, effort).get(
            "reasoning"@,
        ) is None,
        reasoning_applied(JsonV::Object(m), provider_id, dialect, ReasoningMode::ProviderDefault, effort).get(
            "thinking"@,
        ) is None,
{
    let m1 = member_remove(m, "thinking"@);
    crate::json::law_get_after_remove(m, "thinking"@);
    crate::json::lemma_remove_keeps(m, "thinking"@, "reasoning"@);
    crate::json::law_get_after_remove(m1, "reasoning"@);
    crate::json::lemma_remove_keeps(m1, "reasoning"@, "thinking"@);
}

pub open spec fn opt_str(o: Option<&str>) -> Option<Seq<char>> {
    match o {
        Some(s) => Some(s@),
        None => None,
    }
}

fn effort_json(effort: &str) -> (r: Json)
    ensures
        r@ == effort_value(effort@),
{
    Json::object1("effort", Json::from_str(effort))
}

fn thinking_json(kind: &str) -> (r: Json)
    ensures
        r@ == thinking_value(kind@),
{
    Json::object1("type", Json::from_str(kind))
}

fn set_reasoning(body: &mut Json, effort: Option<&str>)
    ensures
        final(body)@ == with_effort(old(body)@, opt_str(effort)),
{
    match effort {
        Some(e) => body.insert("reasoning", effort_json(e)),
        None => body.remove("reasoning"),
    }
}

/// Applies a reasoning mode (and requested effort) to a Responses request body.
pub fn apply_reasoning(
    body: &mut Json,
    credential: &ProviderCredential,
    mode: ReasoningMode,
    effort: Option<&str>,
)
    ensures
        final(body)@ == reasoning_applied(
            old(body)@,
            credential.provider_id@,
            dialect_of(config_of(credential)),
            mode,
            opt_str(effort),
        ),
{
    if !is_provider_id(credential.provider_id.as_str()) || !body.is_object() {
        return;
    }
    let dialect = dialect_for(credential);
    body.remove("thinking");
    match dialect {
        ResponsesDialect::OpenAi => match mode {
            ReasoningMode::ProviderDefault | ReasoningMode::Auto => body.remove("reasoning"),
            ReasoningMode::Enabled => set_reasoning(body, effort),
            ReasoningMode::Disabled => body.insert("reasoning", effort_json("minimal")),
        },
        ResponsesDialect::VolcengineArk => match mode {
            ReasoningMode::ProviderDefault => body.remove("reasoning"),
            ReasoningMode::Auto => {
                body.remove("reasoning");
                body.insert("thinking", thinking_json("auto"));
            },
            ReasoningMode::Enabled => {
                set_reasoning(body, effort);
                body.insert("thinking", thinking_json("enabled"));
            },
            ReasoningMode::Disabled => {
                body.insert("reasoning", effort_json("minimal"));
                body.insert("thinking", thinking_json("disabled"));
            },
        },
    }
}

} // verus!
