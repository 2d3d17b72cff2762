//! Moonshot (Kimi): its chat endpoint, headers, and the `thinking` switch of the models that
//! have one.
use vstd::prelude::*;

use super::{extend_headers, header_views, insert_header, set_header, set_headers};
use super::custom_openai_responses::optional_member;
use crate::chat::tooling::{chat_choice_value, chat_tools, openai_tool_choice, openai_tools, ToolConfig};
use crate::json::{law_get_after_insert, lemma_key_index_unique, member_views, views, Json, JsonNumber, JsonV};
use crate::text::{
    chars_of, contains, contains_exec, ends_with, ends_with_exec, lower_seq, push_str,
    to_ascii_lowercase, trim_end_char, trim_end_matches_char,
};

verus! {

pub struct MoonshotAdapter;

/// The `thinking` type a model is sent: always enabled for Kimi K2.7 Code; following the
/// reasoning switch for Kimi K2.6 and K2.5; none for other models.
pub open spec fn thinking_type(model: Seq<char>, reasoning_enabled: bool) -> Option<Seq<char>> {
    let name = lower_seq(model);
    if contains(name, "kimi-k2.7-code"@) {
        Some("enabled"@)
    } else if contains(name, "kimi-k2.6"@) || contains(name, "kimi-k2.5"@) {
        Some(
            if reasoning_enabled {
                "enabled"@
            } else {
                "disabled"@
            },
        )
    } else {
        None
    }
}

pub fn moonshot_thinking_type(model_name: &str, reasoning_enabled: bool) -> (r: Option<&'static str>)
    ensures
        match r {
            Some(t) => thinking_type(model_name@, reasoning_enabled) == Some(t@),
            None => thinking_type(model_name@, reasoning_enabled) is None,
        },
{
    let name = chars_of(to_ascii_lowercase(model_name).as_str());
    if contains_exec(&name, &chars_of("kimi-k2.7-code")) {
        return Some("enabled");
    }
    if contains_exec(&name, &chars_of("kimi-k2.6")) || contains_exec(&name, &chars_of("kimi-k2.5")) {
        return Some(
            if reasoning_enabled {
                "enabled"
            } else {
                "disabled"
            },
        );
    }
    None
}

/// Kimi K2.7 Code models are never sent a disabled thinking switch, whatever the reasoning
/// setting; models outside the Kimi K2.5–K2.7 families are sent none.
pub proof fn law_k27_code_thinking_always_enabled(model: Seq<char>, reasoning_enabled: bool)
    ensures
        contains(lower_seq(model), "kimi-k2.7-code"@) ==> thinking_type(model, reasoning_enabled)
            == Some("enabled"@),
        !contains(lower_seq(model), "kimi-k2.7-code"@) && !contains(lower_seq(model), "kimi-k2.6"@)
            && !contains(lower_seq(model), "kimi-k2.5"@) ==> thinking_type(model, reasoning_enabled) is None,
{
}

/// `/chat/completions` under the `/v1` of a base URL (added when it does not end with it).
pub open spec fn moonshot_endpoint(base_url: Seq<char>) -> Seq<char> {
    let trimmed = trim_end_char(base_url, '/');
    if ends_with(trimmed, "/v1"@) {
        trimmed + "/chat/completions"@
    } else {
        trimmed + "/v1/chat/completions"@
    }
}

/// The headers of a request: bearer authorization, JSON content, an event stream accepted, the
/// client's user agent, then the extra headers.
pub open spec fn moonshot_headers(api_key: Seq<char>, extra: Seq<(Seq<char>, Seq<char>)>) -> Seq<
    (Seq<char>, Seq<char>),
> {
    set_headers(
        seq![
            ("Authorization"@, "Bearer "@ + api_key),
            ("Content-Type"@, "application/json"@),
            ("Accept"@, "text/event-stream"@),
            ("User-Agent"@, "LettuceAI/0.1"@),
        ],
        extra,
    )
}

/// A Chat Completions request body without its floating-point sampling settings
/// (`temperature`, `top_p` and the penalties, which the caller adds): model, messages,
/// streaming and the token limit, then the context length, tools and tool choice when there
/// are any.
pub open spec fn chat_request(
    model: Seq<char>,
    messages: Seq<JsonV>,
    stream: bool,
    max_tokens: u32,
    context_length: Option<u32>,
    tools: Option<Seq<JsonV>>,
    choice: Option<JsonV>,
) -> JsonV {
    JsonV::Object(
        seq![
            ("model"@, JsonV::Str(model)),
            ("messages"@, JsonV::Array(messages)),
            ("stream"@, JsonV::Bool(stream)),
            ("max_tokens"@, JsonV::Number(JsonNumber::PosInt(max_tokens as u64))),
        ] + optional_member(
            "context_length"@,
            match context_length {
                Some(n) => Some(JsonV::Number(JsonNumber::PosInt(n as u64))),
                None => None,
            },
        ) + optional_member(
            "tools"@,
            match tools {
                Some(t) => Some(JsonV::Array(t)),
                None => None,
            },
        ) + optional_member("tool_choice"@, choice),
    )
}

/// A request body with the `thinking` switch of the given type set, when there is one.
pub open spec fn with_thinking(body: JsonV, kind: Option<Seq<char>>) -> JsonV {
    match kind {
        Some(t) => body.insert("thinking"@, JsonV::Object(seq![("type"@, JsonV::Str(t))])),
        None => body,
    }
}

/// The Moonshot request body: the output tokens and the reasoning budget together as the token
/// limit, the tools of the configuration (and its tool choice only when there are tools), and
/// the model's `thinking` switch.
pub open spec fn moonshot_body(
    model: Seq<char>,
    messages: Seq<JsonV>,
    max_tokens: u32,
    context_length: Option<u32>,
    stream: bool,
    tool_config: Option<&ToolConfig>,
    reasoning_enabled: bool,
    reasoning_budget: Option<u32>,
) -> JsonV {
    let total = max_tokens + match reasoning_budget {
        Some(b) => b as int,
        None => 0,
    };
    let (tools, choice) = match tool_config {
        Some(c) => if c.tools.len() > 0 {
            (Some(chat_tools(c.tools@)), chat_choice_value(c.choice))
        } else {
            (None, None)
        },
        None => (None, None),
    };
    with_thinking(
        chat_request(model, messages, stream, total as u32, context_length, tools, choice),
        thinking_type(model, reasoning_enabled),
    )
}

proof fn lemma_not_thinking()
    ensures
        "thinking"@ != "model"@,
        "thinking"@ != "messages"@,
        "thinking"@ != "stream"@,
        "thinking"@ != "max_tokens"@,
        "thinking"@ != "context_length"@,
        "thinking"@ != "tools"@,
        "thinking"@ != "tool_choice"@,
{
    reveal_strlit("thinking");
    reveal_strlit("model");
    reveal_strlit("messages");
    reveal_strlit("stream");
    reveal_strlit("max_tokens");
    reveal_strlit("context_length");
    reveal_strlit("tools");
    reveal_strlit("tool_choice");
    assert("thinking"@[0] != "messages"@[0]);
    assert("thinking"@[1] != "tools"@[1]);
    assert("thinking"@[1] != "tool_choice"@[1]);
}

/// A request body for a Kimi K2.7 Code model always carries `thinking` enabled, whatever the
/// reasoning setting; one for a model outside the Kimi K2.5–K2.7 families carries no
/// `thinking` member.
pub proof fn law_moonshot_body_thinking(
    model: Seq<char>,
    messages: Seq<JsonV>,
    max_tokens: u32,
    context_length: Option<u32>,
    stream: bool,
    tool_config: Option<&ToolConfig>,
    reasoning_enabled: bool,
    reasoning_budget: Option<u32>,
)
    ensures
        ({
            let body = moonshot_body(
                model,
                messages,
                max_tokens,
                context_length,
                stream,
                tool_config,
                reasoning_enabled,
                reasoning_budget,
            );
            &&& contains(lower_seq(model), "kimi-k2.7-code"@) ==> body.get("thinking"@) == Some(
                JsonV::Object(seq![("type"@, JsonV::Str("enabled"@))]),
            )
            &&& !contains(lower_seq(model), "kimi-k2.7-code"@) && !contains(lower_seq(model), "kimi-k2.6"@)
                && !contains(lower_seq(model), "kimi-k2.5"@) ==> body.get("thinking"@) is None
        }),
{
    let total = max_tokens + match reasoning_budget {
        Some(b) => b as int,
        None => 0,
    };
    let (tools, choice) = match tool_config {
        Some(c) => if c.tools.len() > 0 {
            (Some(chat_tools(c.tools@)), chat_choice_value(c.choice))
        } else {
            (None, None)
        },
        None => (None, None),
    };
    let request = chat_request(model, messages, stream, total as u32, context_length, tools, choice);
    let members = match request {
        JsonV::Object(m) => m,
        _ => Seq::empty(),
    };
    let thinking = JsonV::Object(seq![("type"@, JsonV::Str("enabled"@))]);
    law_get_after_insert(members, "thinking"@, "thinking"@, thinking);
    law_k27_code_thinking_always_enabled(model, reasoning_enabled);
    let a = seq![
        ("model"@, JsonV::Str(model)),
        ("messages"@, JsonV::Array(messages)),
        ("stream"@, JsonV::Bool(stream)),
        ("max_tokens"@, JsonV::Number(JsonNumber::PosInt((total as u32) as u64))),
    ];
    let b = optional_member(
        "context_length"@,
        match context_length {
            Some(n) => Some(JsonV::Number(JsonNumber::PosInt(n as u64))),
            None => None,
        },
    );
    let c = optional_member(
        "tools"@,
        match tools {
            Some(t) => Some(JsonV::Array(t)),
            None => None,
        },
    );
    let d = optional_member("tool_choice"@, choice);
    assert(members == a + b + c + d);
    assert forall|j: int| 0 <= j < members.len() implies (#[trigger] members[j]).0 != "thinking"@ by {
        lemma_not_thinking();
        if j < 4 {
            assert(members[j] == a[j]);
        } else if j < 4 + b.len() {
            assert(members[j] == b[j - 4]);
        } else if j < 4 + b.len() + c.len() {
            assert(members[j] == c[j - 4 - b.len()]);
        } else {
            assert(members[j] == d[j - 4 - b.len() - c.len()]);
        }
    }
    lemma_key_index_unique(members, "thinking"@, None);
}

impl MoonshotAdapter {
    pub fn endpoint(&self, base_url: &str) -> (r: String)
        ensures
            r@ == moonshot_endpoint(base_url@),
    {
        let mut r = trim_end_matches_char(base_url, '/');
        if ends_with_exec(&chars_of(r.as_str()), &chars_of("/v1")) {
            push_str(&mut r, "/chat/completions");
        } else {
            push_str(&mut r, "/v1/chat/completions");
        }
        r
    }

    pub fn system_role(&self) -> (r: &'static str)
        ensures
            r@ == "system"@,
    {
        "system"
    }

    /// The header template shown for this provider.
    pub fn default_headers_template(&self) -> (r: Vec<(String, String)>)
        ensures
            header_views(r@) == seq![
                ("Authorization"@, "Bearer <apiKey>"@),
                ("Content-Type"@, "application/json"@),
                ("Accept"@, "text/event-stream"@),
            ],
    {
        let mut out: Vec<(String, String)> = Vec::new();
        out.push(("Authorization".to_owned(), "Bearer <apiKey>".to_owned()));
        out.push(("Content-Type".to_owned(), "application/json".to_owned()));
        out.push(("Accept".to_owned(), "text/event-stream".to_owned()));
        assert(header_views(out@) =~= seq![
            ("Authorization"@, "Bearer <apiKey>"@),
            ("Content-Type"@, "application/json"@),
            ("Accept"@, "text/event-stream"@),
        ]);
        out
    }

    pub fn headers(&self, api_key: &str, extra: Option<&Vec<(String, String)>>) -> (r: Vec<
        (String, String),
    >)
        ensures
            header_views(r@) == moonshot_headers(
                api_key@,
                match extra {
                    Some(e) => header_views(e@),
                    None => Seq::empty(),
                },
            ),
    {
        let mut authorization = "Bearer ".to_owned();
        push_str(&mut authorization, api_key);
        let mut out: Vec<(String, String)> = Vec::new();
        out.push(("Authorization".to_owned(), authorization));
        out.push(("Content-Type".to_owned(), "application/json".to_owned()));
        out.push(("Accept".to_owned(), "text/event-stream".to_owned()));
        out.push(("User-Agent".to_owned(), "LettuceAI/0.1".to_owned()));
        assert(header_views(out@) =~= seq![
            ("Authorization"@, "Bearer "@ + api_key@),
            ("Content-Type"@, "application/json"@),
            ("Accept"@, "text/event-stream"@),
            ("User-Agent"@, "LettuceAI/0.1"@),
        ]);
        if let Some(extra) = extra {
            extend_headers(&mut out, extra);
        }
        out
    }

    /// The completion budget of a request: the output tokens plus any reasoning budget.
    pub fn total_tokens(max_tokens: u32, reasoning_budget: Option<u32>) -> (r: u32)
        requires
            max_tokens + match reasoning_budget {
                Some(b) => b as int,
                None => 0,
            } <= u32::MAX,
        ensures
            r == max_tokens + match reasoning_budget {
                Some(b) => b as int,
                None => 0,
            },
    {
        match reasoning_budget {
            Some(b) => max_tokens + b,
            None => max_tokens,
        }
    }

    /// Adds the `thinking` switch of the model to an object request body.
    pub fn apply_thinking(&self, body: &mut Json, model_name: &str, reasoning_enabled: bool)
        ensures
            final(body)@ == match thinking_type(model_name@, reasoning_enabled) {
                Some(t) => if old(body)@.is_object() {
                    old(body)@.insert("thinking"@, JsonV::Object(seq![("type"@, JsonV::Str(t))]))
                } else {
                    old(body)@
                },
                None => old(body)@,
            },
    {
        if let Some(kind) = moonshot_thinking_type(model_name, reasoning_enabled) {
            if body.is_object() {
                body.insert("thinking", Json::object1("type", Json::from_str(kind)));
            }
        }
    }

    /// The request body for the chat's messages, without the floating-point sampling
    /// settings.
    pub fn body(
        &self,
        model_name: &str,
        messages_for_api: Vec<Json>,
        max_tokens: u32,
        context_length: Option<u32>,
        should_stream: bool,
        tool_config: Option<&ToolConfig>,
        reasoning_enabled: bool,
        reasoning_budget: Option<u32>,
    ) -> (r: Json)
        requires
            max_tokens + match reasoning_budget {
                Some(b) => b as int,
                None => 0,
            } <= u32::MAX,
        ensures
            r@ == moonshot_body(
                model_name@,
                views(messages_for_api@),
                max_tokens,
                context_length,
                should_stream,
                tool_config,
                reasoning_enabled,
                reasoning_budget,
            ),
    {
        let (tools, tool_choice) = match tool_config {
            Some(cfg) => {
                let tools = openai_tools(cfg);
                let choice = if tools.is_some() {
                    openai_tool_choice(cfg.choice.as_ref())
                } else {
                    None
                };
                (tools, choice)
            },
            None => (None, None),
        };
        let ghost messages = views(messages_for_api@);
        let total = Self::total_tokens(max_tokens, reasoning_budget);
        let mut members: Vec<(String, Json)> = Vec::new();
        members.push(("model".to_owned(), Json::from_str(model_name)));
        members.push(("messages".to_owned(), Json::array(messages_for_api)));
        members.push(("stream".to_owned(), Json::Bool(should_stream)));
        members.push(("max_tokens".to_owned(), Json::from_u64(total as u64)));
        let ghost base = member_views(members@);
        match context_length {
            Some(n) => members.push(("context_length".to_owned(), Json::from_u64(n as u64))),
            None => {},
        }
        let ghost with_context = member_views(members@);
        assert(with_context =~= base + optional_member(
            "context_length"@,
            match context_length {
                Some(n) => Some(JsonV::Number(JsonNumber::PosInt(n as u64))),
                None => None,
            },
        ));
        let ghost tools_view = match &tools {
            Some(t) => Some(JsonV::Array(views(t@))),
            None => None,
        };
        match tools {
            Some(t) => members.push(("tools".to_owned(), Json::array(t))),
            None => {},
        }
        let ghost with_tools = member_views(members@);
        assert(with_tools =~= with_context + optional_member("tools"@, tools_view));
        let ghost choice_view = match &tool_choice {
            Some(c) => Some(c@),
            None => None,
        };
        match tool_choice {
            Some(c) => members.push(("tool_choice".to_owned(), c)),
            None => {},
        }
        assert(member_views(members@) =~= with_tools + optional_member("tool_choice"@, choice_view));
        proof {
            assert(base =~= seq![
                ("model"@, JsonV::Str(model_name@)),
                ("messages"@, JsonV::Array(messages)),
                ("stream"@, JsonV::Bool(should_stream)),
                ("max_tokens"@, JsonV::Number(JsonNumber::PosInt(total as u64))),
            ]);
        }
        let mut body = Json::object(members);
        self.apply_thinking(&mut body, model_name, reasoning_enabled);
        body
    }
}

} // verus!
