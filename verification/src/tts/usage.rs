//! Recording how many characters were spoken for a chat message.
use vstd::prelude::*;

use super::cache_metadata::TtsCacheReference;
use crate::text::{push_str, str_eq, trim, trimmed};

verus! {

/// Which message tables a reference points into.
#[derive(Debug, Clone, Copy, PartialEq, Eq, Structural)]
pub enum UsageTables {
    /// `messages` and `message_variants`.
    Session,
    /// `group_messages` and `group_message_variants`.
    GroupSession,
}

/// The update that records a spoken character count.
#[derive(Debug)]
pub struct UsageUpdate {
    pub tables: UsageTables,
    /// The count as stored (`i64::MAX` when it does not fit).
    pub value: i64,
    /// The variant whose count is recorded too: the trimmed variant id, when not blank.
    pub variant_id: Option<String>,
}

/// A reference's variant id, trimmed; none when absent or blank.
pub open spec fn usage_variant(variant_id: Option<String>) -> Option<Seq<char>> {
    match variant_id {
        Some(v) => if trim(v@).len() > 0 {
            Some(trim(v@))
        } else {
            None
        },
        None => None,
    }
}

/// Plans the update for a reference: session and group-session conversations are
/// recorded, any other kind is refused.
pub fn usage_update(reference: &TtsCacheReference, characters: u64) -> (r: Result<UsageUpdate, String>)
    ensures
        reference.conversation_kind@ == "session"@ || reference.conversation_kind@ == "group_session"@ <==> r is Ok,
        r matches Ok(u) ==> {
            &&& u.tables == if reference.conversation_kind@ == "session"@ {
                UsageTables::Session
            } else {
                UsageTables::GroupSession
            }
            &&& u.value == if characters > i64::MAX {
                i64::MAX as int
            } else {
                characters as int
            }
            &&& match u.variant_id {
                Some(v) => usage_variant(reference.variant_id) == Some(v@),
                None => usage_variant(reference.variant_id) is None,
            }
        },
        r matches Err(e) ==> e@ == "Unsupported TTS usage conversation kind: "@ + reference.conversation_kind@,
{
    let kind = reference.conversation_kind.as_str();
    let tables = if str_eq(kind, "session") {
        UsageTables::Session
    } else if str_eq(kind, "group_session") {
        UsageTables::GroupSession
    } else {
        let mut message = String::new();
        push_str(&mut message, "Unsupported TTS usage conversation kind: ");
        push_str(&mut message, kind);
        return Err(message);
    };
    let value: i64 = if characters > 9223372036854775807u64 {
        9223372036854775807
    } else {
        characters as i64
    };
    let variant_id = match &reference.variant_id {
        Some(v) => {
            let t = trimmed(v.as_str());
            if t.as_str().unicode_len() > 0 {
                Some(t)
            } else {
                None
            }
        },
        None => None,
    };
    Ok(UsageUpdate { tables, value, variant_id })
}

} // verus!
