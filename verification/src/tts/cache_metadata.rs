//! Metadata that links cached TTS audio to the conversations that used it.
use vstd::prelude::*;

use crate::text::{is_blank, push_str, str_eq, trim};

verus! {

/// The schema version of exported cache metadata.
pub const BACKUP_SCHEMA_VERSION: u32 = 1;

/// The message (and variant) a cached utterance was played for.
#[derive(Debug, Clone)]
pub struct TtsCacheReference {
    pub conversation_kind: String,
    pub conversation_id: String,
    pub message_id: String,
    pub variant_id: Option<String>,
    pub character_id: Option<String>,
}

/// Provider, model and voice of a cached utterance, and where it was used.
#[derive(Debug, Clone)]
pub struct TtsCacheContext {
    pub provider_id: String,
    pub model_id: String,
    pub voice_id: String,
    pub reference: Option<TtsCacheReference>,
}

impl TtsCacheContext {
    pub fn new(
        provider_id: String,
        model_id: String,
        voice_id: String,
        reference: Option<TtsCacheReference>,
    ) -> (r: Self)
        ensures
            r.provider_id == provider_id,
            r.model_id == model_id,
            r.voice_id == voice_id,
            r.reference == reference,
    {
        TtsCacheContext { provider_id, model_id, voice_id, reference }
    }
}

/// Why a cache context cannot be recorded, if it cannot.
pub open spec fn context_error(context: TtsCacheContext) -> Option<Seq<char>> {
    if trim(context.provider_id@).len() == 0 || trim(context.model_id@).len() == 0 || trim(
        context.voice_id@,
    ).len() == 0 {
        Some("TTS cache context requires provider, model, and voice IDs"@)
    } else {
        match context.reference {
            None => None,
            Some(r) => if r.conversation_kind@ != "session"@ && r.conversation_kind@
                != "group_session"@ {
                Some("Unsupported TTS cache conversation kind: "@ + r.conversation_kind@)
            } else if trim(r.conversation_id@).len() == 0 || trim(r.message_id@).len() == 0 {
                Some("TTS cache reference requires conversation and message IDs"@)
            } else {
                None
            },
        }
    }
}

/// A cache context is recorded exactly when its provider, model and voice are not blank and it
/// has no reference or one to a session or group session that names its conversation and
/// message; a context with a blank provider, model or voice is refused whatever its
/// reference.
pub proof fn law_recorded_contexts(context: TtsCacheContext)
    ensures
        context_error(context) is None <==> {
            &&& trim(context.provider_id@).len() > 0
            &&& trim(context.model_id@).len() > 0
            &&& trim(context.voice_id@).len() > 0
            &&& match context.reference {
                None => true,
                Some(r) => (r.conversation_kind@ == "session"@ || r.conversation_kind@ == "group_session"@)
                    && trim(r.conversation_id@).len() > 0 && trim(r.message_id@).len() > 0,
            }
        },
        trim(context.voice_id@).len() == 0 ==> context_error(context) == Some(
            "TTS cache context requires provider, model, and voice IDs"@,
        ),
{
}

/// Checks that a cache context names its provider, model and voice, and a usable reference.
pub fn validate_context(context: &TtsCacheContext) -> (r: Result<(), String>)
    ensures
        match r {
            Ok(()) => context_error(*context) is None,
            Err(msg) => context_error(*context) == Some(msg@),
        },
{
    if is_blank(context.provider_id.as_str()) || is_blank(context.model_id.as_str()) || is_blank(
        context.voice_id.as_str(),
    ) {
        return Err("TTS cache context requires provider, model, and voice IDs".to_owned());
    }
    match &context.reference {
        None => Ok(()),
        Some(reference) => {
            let kind = reference.conversation_kind.as_str();
            if !str_eq(kind, "session") && !str_eq(kind, "group_session") {
                let mut msg = "Unsupported TTS cache conversation kind: ".to_owned();
                push_str(&mut msg, kind);
                return Err(msg);
            }
            if is_blank(reference.conversation_id.as_str()) || is_blank(
                reference.message_id.as_str(),
            ) {
                return Err("TTS cache reference requires conversation and message IDs".to_owned());
            }
            Ok(())
        },
    }
}

/// A timestamp as stored: milliseconds that fit a SQLite integer.
pub fn timestamp_millis(now_ms: u64) -> (r: Result<i64, String>)
    ensures
        match r {
            Ok(t) => now_ms <= i64::MAX && t == now_ms,
            Err(e) => now_ms > i64::MAX && e@ == "Current timestamp exceeds SQLite integer range"@,
        },
{
    if now_ms > 9223372036854775807u64 {
        Err("Current timestamp exceeds SQLite integer range".to_owned())
    } else {
        Ok(now_ms as i64)
    }
}

/// A byte count as stored (`i64::MAX` when it does not fit).
pub fn stored_size(size_bytes: u64) -> (r: i64)
    ensures
        r == if size_bytes > i64::MAX { i64::MAX as int } else { size_bytes as int },
{
    if size_bytes > 9223372036854775807u64 {
        9223372036854775807
    } else {
        size_bytes as i64
    }
}

/// A reference's variant as stored: its id, or empty text.
pub fn stored_variant(reference: &TtsCacheReference) -> (r: String)
    ensures
        r@ == match reference.variant_id {
            Some(v) => v@,
            None => Seq::<char>::empty(),
        },
{
    match &reference.variant_id {
        Some(v) => v.clone(),
        None => String::new(),
    }
}

/// Exported metadata is restored only when its schema is not newer than this one.
pub fn check_backup_schema(schema_version: u32) -> (r: Result<(), String>)
    ensures
        r is Ok <==> schema_version <= BACKUP_SCHEMA_VERSION,
        r matches Err(e) ==> e@ == "Unsupported TTS cache metadata schema version: "@
            + crate::text::decimal(schema_version as nat),
{
    if schema_version > BACKUP_SCHEMA_VERSION {
        let mut message = String::new();
        crate::text::push_str(&mut message, "Unsupported TTS cache metadata schema version: ");
        let digits = crate::text::decimal_string(schema_version as u64);
        crate::text::push_str(&mut message, digits.as_str());
        Err(message)
    } else {
        Ok(())
    }
}

} // verus!
