//! Tools that the provider runs itself within one response (Volcengine Ark Web Search); they
//! never go through the local tool loop.
use vstd::prelude::*;

use super::openai_responses::{is_provider_id, is_responses_provider};
use super::provider_adapter::responses_compatibility::{config_of, dialect_for, dialect_of, ResponsesDialect};
use super::types::ProviderCredential;
use crate::json::{
    law_get_after_insert, lemma_insert_present, member_get, member_insert, views, Json, JsonNumber,
    JsonV,
};
use crate::text::str_eq;

verus! {

pub const DEFAULT_MAX_KEYWORD: u64 = 2;

pub const DEFAULT_LIMIT: u64 = 10;

pub const DEFAULT_MAX_TOOL_CALLS: u64 = 3;

#[derive(Debug, Clone, Copy, PartialEq, Eq, Structural)]
pub struct AppliedNativeTools {
    pub web_search: bool,
}

impl AppliedNativeTools {
    pub fn none() -> (r: Self)
        ensures
            !r.web_search,
    {
        AppliedNativeTools { web_search: false }
    }
}

pub open spec fn clamp_u64(v: u64, lo: u64, hi: u64) -> u64 {
    if v < lo {
        lo
    } else if v > hi {
        hi
    } else {
        v
    }
}

/// A numeric setting: its non-negative integer value, else the fallback, clamped to
/// `min..=max`.
pub open spec fn bounded(value: Option<JsonV>, fallback: u64, min: u64, max: u64) -> u64 {
    clamp_u64(
        match value {
            Some(v) => match v.as_u64() {
                Some(n) => n,
                None => fallback,
            },
            None => fallback,
        },
        min,
        max,
    )
}

pub fn bounded_u64(value: Option<&Json>, fallback: u64, min: u64, max: u64) -> (r: u64)
    requires
        min <= max,
    ensures
        r == bounded(crate::json::opt_view(value), fallback, min, max),
{
    let v = match value {
        Some(v) => match v.as_u64() {
            Some(n) => n,
            None => fallback,
        },
        None => fallback,
    };
    if v < min {
        min
    } else if v > max {
        max
    } else {
        v
    }
}

/// The Ark Web Search settings of a provider: its `webSearch` object when its mode is
/// `volcengine-ark`.
pub open spec fn ark_search_config(config: Option<JsonV>) -> Option<JsonV> {
    match config {
        Some(c) => match c.get("webSearch"@) {
            Some(search) => if search.is_object() && search.get_str("mode"@) == Some("volcengine-ark"@) {
                Some(search)
            } else {
                None
            },
            None => None,
        },
        None => None,
    }
}

fn web_search_config(credential: &ProviderCredential) -> (r: Option<&Json>)
    ensures
        crate::json::opt_view(r) == ark_search_config(config_of(credential)),
{
    let config = match &credential.config {
        Some(c) => c,
        None => return None,
    };
    let search = match config.get("webSearch") {
        Some(s) => s,
        None => return None,
    };
    let ark = search.is_object() && match search.get_str("mode") {
        Some(mode) => str_eq(mode.as_str(), "volcengine-ark"),
        None => false,
    };
    if ark {
        Some(search)
    } else {
        None
    }
}

pub open spec fn web_search_tool(max_keyword: u64, limit: u64) -> JsonV {
    JsonV::Object(
        seq![
            ("type"@, JsonV::Str("web_search"@)),
            ("max_keyword"@, JsonV::Number(JsonNumber::PosInt(max_keyword))),
            ("limit"@, JsonV::Number(JsonNumber::PosInt(limit))),
        ],
    )
}

pub open spec fn has_web_search(tools: Seq<JsonV>) -> bool {
    exists|i: int| 0 <= i < tools.len() && (#[trigger] tools[i]).get_str("type"@) == Some("web_search"@)
}

/// The request body with Ark Web Search added, and whether it was: only when web search is
/// enabled for the model, the provider configures Ark Web Search, speaks the Responses API in
/// the Ark dialect, and the body is an object whose `tools` (if any) is an array. The tool is
/// added once; `tool_choice` defaults to `auto`; `max_tool_calls` is set.
pub open spec fn native_tools_applied(
    body: JsonV,
    provider_id: Seq<char>,
    config: Option<JsonV>,
    web_search_enabled: bool,
) -> (JsonV, bool) {
    match ark_search_config(config) {
        Some(search) => if !web_search_enabled || !is_responses_provider(provider_id) || dialect_of(config)
            != ResponsesDialect::VolcengineArk || !body.is_object() {
            (body, false)
        } else {
            let max_keyword = bounded(search.get("maxKeyword"@), DEFAULT_MAX_KEYWORD, 1, 50);
            let limit = bounded(search.get("limit"@), DEFAULT_LIMIT, 1, 50);
            let max_tool_calls = bounded(search.get("maxToolCalls"@), DEFAULT_MAX_TOOL_CALLS, 1, 10);
            let current = match body.get("tools"@) {
                Some(JsonV::Array(items)) => Some(items),
                Some(_) => None,
                None => Some(Seq::empty()),
            };
            match current {
                None => (body, false),
                Some(items) => {
                    let tools = if has_web_search(items) {
                        items
                    } else {
                        items.push(web_search_tool(max_keyword, limit))
                    };
                    let b1 = body.insert("tools"@, JsonV::Array(tools));
                    let b2 = if b1.get("tool_choice"@) is Some {
                        b1
                    } else {
                        b1.insert("tool_choice"@, JsonV::Str("auto"@))
                    };
                    (b2.insert("max_tool_calls"@, JsonV::Number(JsonNumber::PosInt(max_tool_calls))), true)
                },
            }
        },
        None => (body, false),
    }
}

/// Adds provider-executed tools to an already-adapted request body.
/// Provider-executed web search needs both the provider's configuration and the model's
/// switch: without either the request body is left as it is and nothing is reported applied.
pub proof fn law_web_search_needs_both_switches(
    body: JsonV,
    provider_id: Seq<char>,
    config: Option<JsonV>,
    web_search_enabled: bool,
)
    ensures
        !web_search_enabled ==> native_tools_applied(body, provider_id, config, web_search_enabled)
            == (body, false),
        ark_search_config(config) is None ==> native_tools_applied(
            body,
            provider_id,
            config,
            web_search_enabled,
        ) == (body, false),
{
}

/// Adding provider-run tools is idempotent: applied again to its own result it changes
/// nothing and reports the same (the web search tool is not added twice, an existing
/// `tool_choice` is kept, `max_tool_calls` is set to the same value).
pub proof fn law_apply_twice_changes_nothing(
    body: JsonV,
    provider_id: Seq<char>,
    config: Option<JsonV>,
    web_search_enabled: bool,
)
    ensures
        native_tools_applied(
            native_tools_applied(body, provider_id, config, web_search_enabled).0,
            provider_id,
            config,
            web_search_enabled,
        ) == native_tools_applied(body, provider_id, config, web_search_enabled),
{
    let first = native_tools_applied(body, provider_id, config, web_search_enabled);
    if first.1 {
        let search = ark_search_config(config)->0;
        let max_keyword = bounded(search.get("maxKeyword"@), DEFAULT_MAX_KEYWORD, 1, 50);
        let limit = bounded(search.get("limit"@), DEFAULT_LIMIT, 1, 50);
        let max_tool_calls = bounded(search.get("maxToolCalls"@), DEFAULT_MAX_TOOL_CALLS, 1, 10);
        let items = match body.get("tools"@) {
            Some(JsonV::Array(items)) => items,
            _ => Seq::empty(),
        };
        let tool = web_search_tool(max_keyword, limit);
        let tools = if has_web_search(items) {
            items
        } else {
            items.push(tool)
        };
        let m0 = body->Object_0;
        let m1 = member_insert(m0, "tools"@, JsonV::Array(tools));
        let m2 = if member_get(m1, "tool_choice"@) is Some {
            m1
        } else {
            member_insert(m1, "tool_choice"@, JsonV::Str("auto"@))
        };
        let mtc = JsonV::Number(JsonNumber::PosInt(max_tool_calls));
        let m3 = member_insert(m2, "max_tool_calls"@, mtc);
        assert(first.0 == JsonV::Object(m3));
        reveal_strlit("tools");
        reveal_strlit("tool_choice");
        reveal_strlit("max_tool_calls");
        assert("tools"@ != "tool_choice"@ && "tools"@ != "max_tool_calls"@ && "tool_choice"@
            != "max_tool_calls"@) by {
            assert("tools"@[4] != "tool_choice"@[4]);
            assert("tools"@.len() != "max_tool_calls"@.len());
            assert("tool_choice"@[5] != "max_tool_calls"@[5]);
        }
        law_get_after_insert(m0, "tools"@, "tool_choice"@, JsonV::Array(tools));
        law_get_after_insert(m1, "tool_choice"@, "tools"@, JsonV::Str("auto"@));
        law_get_after_insert(m2, "max_tool_calls"@, "tools"@, mtc);
        law_get_after_insert(m2, "max_tool_calls"@, "tool_choice"@, mtc);
        assert(member_get(m3, "tools"@) == Some(JsonV::Array(tools)));
        assert(member_get(m3, "tool_choice"@) is Some);
        assert(has_web_search(tools)) by {
            if !has_web_search(items) {
                reveal_with_fuel(crate::json::key_index, 4);
                assert(tools[tools.len() - 1] == tool);
                assert(tool.get_str("type"@) == Some("web_search"@));
            }
        }
        lemma_insert_present(m3, "tools"@, JsonV::Array(tools));
        lemma_insert_present(m3, "max_tool_calls"@, mtc);
    }
}

pub fn apply(body: &mut Json, credential: &ProviderCredential, web_search_enabled: bool) -> (r:
    AppliedNativeTools)
    ensures
        (final(body)@, r.web_search) == native_tools_applied(
            old(body)@,
            credential.provider_id@,
            config_of(credential),
            web_search_enabled,
        ),
{
    if !web_search_enabled {
        proof {
            if ark_search_config(config_of(credential)) is Some {
            }
        }
        return AppliedNativeTools::none();
    }
    let config = match web_search_config(credential) {
        Some(c) => c,
        None => return AppliedNativeTools::none(),
    };
    if !is_provider_id(credential.provider_id.as_str()) {
        return AppliedNativeTools::none();
    }
    if dialect_for(credential) != ResponsesDialect::VolcengineArk {
        return AppliedNativeTools::none();
    }
    let max_keyword = bounded_u64(config.get("maxKeyword"), DEFAULT_MAX_KEYWORD, 1, 50);
    let limit = bounded_u64(config.get("limit"), DEFAULT_LIMIT, 1, 50);
    let max_tool_calls = bounded_u64(config.get("maxToolCalls"), DEFAULT_MAX_TOOL_CALLS, 1, 10);
    if !body.is_object() {
        return AppliedNativeTools::none();
    }
    let mut tools: Vec<Json> = match body.get("tools") {
        Some(existing) => match existing.as_array() {
            Some(items) => {
                let mut copy: Vec<Json> = Vec::new();
                let mut i: usize = 0;
                while i < items.len()
                    invariant
                        i <= items.len(),
                        copy.len() == i,
                        forall|j: int| 0 <= j < i ==> (#[trigger] copy@[j])@ == items@[j]@,
                    decreases items.len() - i,
                {
                    copy.push(items[i].copy());
                    i += 1;
                }
                assert(views(copy@) =~= views(items@));
                copy
            },
            None => {
                proof {
                    existing.lemma_array_view();
                }
                return AppliedNativeTools::none();
            },
        },
        None => Vec::new(),
    };
    let ghost items = views(tools@);
    proof {
        match body@.get("tools"@) {
            Some(t) => {
                assert(t is Array);
            },
            None => {
                assert(items =~= Seq::<JsonV>::empty());
            },
        }
    }
    let mut found = false;
    let mut i: usize = 0;
    while i < tools.len()
        invariant
            i <= tools.len(),
            items == views(tools@),
            found == exists|j: int| 0 <= j < i && (#[trigger] items[j]).get_str("type"@) == Some("web_search"@),
        decreases tools.len() - i,
    {
        let is_search = match tools[i].get_str("type") {
            Some(t) => str_eq(t.as_str(), "web_search"),
            None => false,
        };
        assert(items[i as int] == tools@[i as int]@);
        if is_search {
            found = true;
        }
        i += 1;
    }
    if !found {
        let mut members: Vec<(String, Json)> = Vec::new();
        members.push(("type".to_owned(), Json::from_str("web_search")));
        members.push(("max_keyword".to_owned(), Json::from_u64(max_keyword)));
        members.push(("limit".to_owned(), Json::from_u64(limit)));
        let tool = Json::object(members);
        assert(crate::json::member_views(members@) =~= match web_search_tool(max_keyword, limit) {
            JsonV::Object(m) => m,
            _ => Seq::empty(),
        });
        tools.push(tool);
        assert(views(tools@) =~= items.push(web_search_tool(max_keyword, limit)));
    }
    body.insert("tools", Json::array(tools));
    if body.get("tool_choice").is_none() {
        body.insert("tool_choice", Json::from_str("auto"));
    }
    body.insert("max_tool_calls", Json::from_u64(max_tool_calls));
    AppliedNativeTools { web_search: true }
}

} // verus!
