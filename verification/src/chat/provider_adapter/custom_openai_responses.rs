//! A user-configured Responses API provider: endpoints, authentication (bearer, header, query
//! parameter or none), streaming support, tool choice and reasoning effort come from the
//! provider's configuration.
use vstd::prelude::*;

use super::{extend_headers, header_views, insert_header, set_header, set_headers};
use crate::chat::openai_responses::{choice_value, tool_choice, tools};
use crate::chat::tooling::{ToolChoice, ToolConfig};
use crate::chat::types::ProviderCredential;
use crate::chat::openai_responses::function_tool;
use crate::json::{member_views, views, Json, JsonNumber, JsonV};
use crate::text::{
    chars_of, contains, contains_exec, lower_seq, push_str, starts_with, starts_with_exec, str_eq,
    to_ascii_lowercase, trim, trim_end_char, trim_end_matches_char, trimmed,
};

verus! {

pub struct CustomOpenAIResponsesAdapter {
    pub credential_config: Option<Json>,
}

pub open spec fn config_text(config: Option<JsonV>, key: Seq<char>) -> Option<Seq<char>> {
    match config {
        Some(c) => c.get_str(key),
        None => None,
    }
}

pub open spec fn or_default(o: Option<Seq<char>>, d: Seq<char>) -> Seq<char> {
    match o {
        Some(s) => s,
        None => d,
    }
}

/// An endpoint: the configured path (trimmed; the default when missing or blank); an absolute
/// URL as it is, else joined to the base URL without its trailing slashes.
pub open spec fn endpoint_url(base_url: Seq<char>, configured: Option<Seq<char>>, default_path: Seq<char>) -> Seq<
    char,
> {
    let path = match configured {
        Some(p) => if trim(p).len() > 0 {
            trim(p)
        } else {
            default_path
        },
        None => default_path,
    };
    if starts_with(path, "http://"@) || starts_with(path, "https://"@) {
        path
    } else if starts_with(path, "/"@) {
        trim_end_char(base_url, '/') + path
    } else {
        trim_end_char(base_url, '/') + "/"@ + path
    }
}

/// The URL with the API key as a query parameter, in query authentication with a non-blank key.
pub open spec fn with_query_auth(url: Seq<char>, auth_mode: Seq<char>, param: Seq<char>, api_key: Seq<char>) -> Seq<
    char,
> {
    if auth_mode != "query"@ || trim(api_key).len() == 0 {
        url
    } else {
        url + (if contains(url, "?"@) {
            "&"@
        } else {
            "?"@
        }) + param + "="@ + api_key
    }
}

/// The headers of a request: JSON content and an event stream accepted; the key as a bearer
/// token (by default), in the configured header (`header` mode) or not at all (`none` and
/// `query` modes, or a blank key); then the extra headers.
pub open spec fn responses_headers(
    auth_mode: Seq<char>,
    header_name: Seq<char>,
    api_key: Seq<char>,
    extra: Seq<(Seq<char>, Seq<char>)>,
) -> Seq<(Seq<char>, Seq<char>)> {
    let base = seq![("Content-Type"@, "application/json"@), ("Accept"@, "text/event-stream"@)];
    let with_auth = if auth_mode == "none"@ || auth_mode == "query"@ || trim(api_key).len() == 0 {
        base
    } else if auth_mode == "header"@ {
        set_header(base, header_name, api_key)
    } else {
        set_header(base, "Authorization"@, "Bearer "@ + api_key)
    };
    set_headers(with_auth, extra)
}

/// The reasoning requested: the effort when reasoning is on (none without one), `minimal`
/// when it is off.
pub open spec fn reasoning_request(enabled: bool, effort: Option<Seq<char>>) -> Option<JsonV> {
    if enabled {
        match effort {
            Some(e) => Some(JsonV::Object(seq![("effort"@, JsonV::Str(e))])),
            None => None,
        }
    } else {
        Some(JsonV::Object(seq![("effort"@, JsonV::Str("minimal"@))]))
    }
}

/// The tool choice sent with tools, by the configured mode: `auto` (the default and for
/// unknown modes), `none`, `required`, nothing (`omit`), or the chat's own choice
/// (`passthrough`).
pub open spec fn choice_for_mode(mode: Seq<char>, choice: Option<ToolChoice>) -> Option<JsonV> {
    if mode == "none"@ {
        Some(JsonV::Str("none"@))
    } else if mode == "required"@ {
        Some(JsonV::Str("required"@))
    } else if mode == "omit"@ {
        None
    } else if mode == "passthrough"@ {
        choice_value(choice)
    } else {
        Some(JsonV::Str("auto"@))
    }
}

/// The function tools offered for a configuration's tools.
pub open spec fn offered_tools(tools: Seq<crate::chat::tooling::ToolDefinition>) -> Seq<JsonV> {
    Seq::new(tools.len(), |i: int| function_tool(tools[i]))
}

/// A member present only when there is a value for it.
pub open spec fn optional_member(key: Seq<char>, value: Option<JsonV>) -> Seq<(Seq<char>, JsonV)> {
    match value {
        Some(v) => seq![(key, v)],
        None => Seq::empty(),
    }
}

/// A Responses request body without its sampling settings (`temperature` and `top_p`, which
/// are floating-point and added by the caller): model, input items, streaming, `store` off,
/// the instructions when given, the output token limit, and the reasoning, tools and tool
/// choice when there are any.
pub open spec fn responses_body(
    model: Seq<char>,
    input: Seq<JsonV>,
    stream: bool,
    instructions: Option<Seq<char>>,
    max_tokens: u32,
    reasoning: Option<JsonV>,
    tools: Option<Seq<JsonV>>,
    choice: Option<JsonV>,
) -> JsonV {
    JsonV::Object(
        seq![
            ("model"@, JsonV::Str(model)),
            ("input"@, JsonV::Array(input)),
            ("stream"@, JsonV::Bool(stream)),
            ("store"@, JsonV::Bool(false)),
        ] + optional_member(
            "instructions"@,
            match instructions {
                Some(t) => Some(JsonV::Str(t)),
                None => None,
            },
        ) + seq![("max_output_tokens"@, JsonV::Number(JsonNumber::PosInt(max_tokens as u64)))]
            + optional_member("reasoning"@, reasoning) + optional_member(
            "tools"@,
            match tools {
                Some(t) => Some(JsonV::Array(t)),
                None => None,
            },
        ) + optional_member("tool_choice"@, choice),
    )
}

impl CustomOpenAIResponsesAdapter {
    pub open spec fn config(&self) -> Option<JsonV> {
        match self.credential_config {
            Some(c) => Some(c@),
            None => None,
        }
    }

    pub fn new(credential: &ProviderCredential) -> (r: Self)
        ensures
            r.config() == match credential.config {
                Some(c) => Some(c@),
                None => None::<JsonV>,
            },
    {
        CustomOpenAIResponsesAdapter {
            credential_config: match &credential.config {
                Some(c) => Some(c.copy()),
                None => None,
            },
        }
    }

    fn config_value(&self, key: &str) -> (r: Option<String>)
        ensures
            match r {
                Some(s) => config_text(self.config(), key@) == Some(s@),
                None => config_text(self.config(), key@) is None,
            },
    {
        match &self.credential_config {
            Some(c) => match c.get_str(key) {
                Some(s) => Some(s.clone()),
                None => None,
            },
            None => None,
        }
    }

    fn config_or(&self, key: &str, default: &str) -> (r: String)
        ensures
            r@ == or_default(config_text(self.config(), key@), default@),
    {
        match self.config_value(key) {
            Some(s) => s,
            None => default.to_owned(),
        }
    }

    pub open spec fn auth_mode_of(&self) -> Seq<char> {
        lower_seq(or_default(config_text(self.config(), "authMode"@), "bearer"@))
    }

    /// `authMode`, lower-cased; `bearer` by default.
    pub fn auth_mode(&self) -> (r: String)
        ensures
            r@ == self.auth_mode_of(),
    {
        to_ascii_lowercase(self.config_or("authMode", "bearer").as_str())
    }

    pub fn auth_header_name(&self) -> (r: String)
        ensures
            r@ == or_default(config_text(self.config(), "authHeaderName"@), "x-api-key"@),
    {
        self.config_or("authHeaderName", "x-api-key")
    }

    pub fn auth_query_param_name(&self) -> (r: String)
        ensures
            r@ == or_default(config_text(self.config(), "authQueryParamName"@), "api_key"@),
    {
        self.config_or("authQueryParamName", "api_key")
    }

    pub open spec fn tool_choice_mode_of(&self) -> Seq<char> {
        lower_seq(or_default(config_text(self.config(), "toolChoiceMode"@), "auto"@))
    }

    pub fn tool_choice_mode(&self) -> (r: String)
        ensures
            r@ == self.tool_choice_mode_of(),
    {
        to_ascii_lowercase(self.config_or("toolChoiceMode", "auto").as_str())
    }

    pub fn resolve_endpoint(&self, base_url: &str, config_key: &str, default_path: &str) -> (r: String)
        ensures
            r@ == endpoint_url(base_url@, config_text(self.config(), config_key@), default_path@),
    {
        proof {
            reveal_strlit("/");
        }
        let path = match self.config_value(config_key) {
            Some(p) => {
                let t = trimmed(p.as_str());
                if t.as_str().is_empty() {
                    default_path.to_owned()
                } else {
                    t
                }
            },
            None => default_path.to_owned(),
        };
        let chars = chars_of(path.as_str());
        if starts_with_exec(&chars, &chars_of("http://")) || starts_with_exec(&chars, &chars_of("https://")) {
            path
        } else if starts_with_exec(&chars, &chars_of("/")) {
            let mut r = trim_end_matches_char(base_url, '/');
            push_str(&mut r, path.as_str());
            r
        } else {
            let mut r = trim_end_matches_char(base_url, '/');
            push_str(&mut r, "/");
            push_str(&mut r, path.as_str());
            r
        }
    }

    pub fn append_query_auth(&self, url: String, api_key: &str) -> (r: String)
        ensures
            r@ == with_query_auth(
                url@,
                self.auth_mode_of(),
                or_default(config_text(self.config(), "authQueryParamName"@), "api_key"@),
                api_key@,
            ),
    {
        let mode = self.auth_mode();
        if !str_eq(mode.as_str(), "query") || crate::text::is_blank(api_key) {
            return url;
        }
        let has_query = contains_exec(&chars_of(url.as_str()), &chars_of("?"));
        let mut r = url;
        if has_query {
            push_str(&mut r, "&");
        } else {
            push_str(&mut r, "?");
        }
        let param = self.auth_query_param_name();
        push_str(&mut r, param.as_str());
        push_str(&mut r, "=");
        push_str(&mut r, api_key);
        r
    }

    /// The chat endpoint: `chatEndpoint`, else `/v1/responses`.
    pub fn endpoint(&self, base_url: &str) -> (r: String)
        ensures
            r@ == endpoint_url(base_url@, config_text(self.config(), "chatEndpoint"@), "/v1/responses"@),
    {
        self.resolve_endpoint(base_url, "chatEndpoint", "/v1/responses")
    }

    /// The model list endpoint: `modelsEndpoint`, else `/v1/models`.
    pub fn list_models_endpoint(&self, base_url: &str) -> (r: String)
        ensures
            r@ == endpoint_url(base_url@, config_text(self.config(), "modelsEndpoint"@), "/v1/models"@),
    {
        self.resolve_endpoint(base_url, "modelsEndpoint", "/v1/models")
    }

    /// The request URL: the chat endpoint, with the key as a query parameter in query mode.
    pub fn build_url(&self, base_url: &str, api_key: &str) -> (r: String)
        ensures
            r@ == with_query_auth(
                endpoint_url(base_url@, config_text(self.config(), "chatEndpoint"@), "/v1/responses"@),
                self.auth_mode_of(),
                or_default(config_text(self.config(), "authQueryParamName"@), "api_key"@),
                api_key@,
            ),
    {
        self.append_query_auth(self.endpoint(base_url), api_key)
    }

    /// Whether responses may be streamed (`supportsStream`, true by default).
    pub fn supports_stream(&self) -> (r: bool)
        ensures
            r == match self.config() {
                Some(c) => match c.get_bool("supportsStream"@) {
                    Some(b) => b,
                    None => true,
                },
                None => true,
            },
    {
        match &self.credential_config {
            Some(c) => match c.get_bool("supportsStream") {
                Some(b) => b,
                None => true,
            },
            None => true,
        }
    }

    pub fn system_role(&self) -> (r: &'static str)
        ensures
            r@ == "system"@,
    {
        "system"
    }

    pub fn default_headers_template(&self) -> (r: Vec<(String, String)>)
        ensures
            header_views(r@) == seq![("Authorization"@, "Bearer $API_KEY"@)],
    {
        let mut out: Vec<(String, String)> = Vec::new();
        out.push(("Authorization".to_owned(), "Bearer $API_KEY".to_owned()));
        assert(header_views(out@) =~= seq![("Authorization"@, "Bearer $API_KEY"@)]);
        out
    }

    pub fn headers(&self, api_key: &str, extra: Option<&Vec<(String, String)>>) -> (r: Vec<
        (String, String),
    >)
        ensures
            header_views(r@) == responses_headers(
                self.auth_mode_of(),
                or_default(config_text(self.config(), "authHeaderName"@), "x-api-key"@),
                api_key@,
                match extra {
                    Some(e) => header_views(e@),
                    None => Seq::empty(),
                },
            ),
    {
        let mut out: Vec<(String, String)> = Vec::new();
        out.push(("Content-Type".to_owned(), "application/json".to_owned()));
        out.push(("Accept".to_owned(), "text/event-stream".to_owned()));
        assert(header_views(out@) =~= seq![
            ("Content-Type"@, "application/json"@),
            ("Accept"@, "text/event-stream"@),
        ]);
        let mode = self.auth_mode();
        let blank = crate::text::is_blank(api_key);
        if str_eq(mode.as_str(), "none") || str_eq(mode.as_str(), "query") || blank {
        } else if str_eq(mode.as_str(), "header") {
            insert_header(&mut out, self.auth_header_name().as_str(), api_key.to_owned());
        } else {
            let mut bearer = "Bearer ".to_owned();
            push_str(&mut bearer, api_key);
            insert_header(&mut out, "Authorization", bearer);
        }
        if let Some(extra) = extra {
            extend_headers(&mut out, extra);
        }
        out
    }

    /// The `reasoning` of a request.
    pub fn reasoning(&self, reasoning_enabled: bool, reasoning_effort: Option<&str>) -> (r: Option<Json>)
        ensures
            match r {
                Some(v) => reasoning_request(
                    reasoning_enabled,
                    match reasoning_effort {
                        Some(e) => Some(e@),
                        None => None,
                    },
                ) == Some(v@),
                None => reasoning_request(
                    reasoning_enabled,
                    match reasoning_effort {
                        Some(e) => Some(e@),
                        None => None,
                    },
                ) is None,
            },
    {
        if reasoning_enabled {
            match reasoning_effort {
                Some(effort) => Some(Json::object1("effort", Json::from_str(effort))),
                None => None,
            }
        } else {
            Some(Json::object1("effort", Json::from_str("minimal")))
        }
    }

    /// The `tools` and `tool_choice` of a request; no choice without tools.
    pub fn tools_and_choice(&self, tool_config: Option<&ToolConfig>) -> (r: (Option<Vec<Json>>, Option<Json>))
        ensures
            match tool_config {
                None => r.0 is None && r.1 is None,
                Some(config) => (r.0 is Some <==> config.tools.len() > 0) && (r.0 matches Some(v) ==> views(v@)
                    == offered_tools(config.tools@)) && match r.1 {
                    Some(c) => config.tools.len() > 0 && choice_for_mode(
                        self.tool_choice_mode_of(),
                        config.choice,
                    ) == Some(c@),
                    None => config.tools.len() == 0 || choice_for_mode(
                        self.tool_choice_mode_of(),
                        config.choice,
                    ) is None,
                },
            },
    {
        let config = match tool_config {
            Some(c) => c,
            None => return (None, None),
        };
        let offered = tools(config);
        if offered.is_none() {
            return (None, None);
        }
        let mode = self.tool_choice_mode();
        let choice = if str_eq(mode.as_str(), "none") {
            Some(Json::from_str("none"))
        } else if str_eq(mode.as_str(), "required") {
            Some(Json::from_str("required"))
        } else if str_eq(mode.as_str(), "omit") {
            None
        } else if str_eq(mode.as_str(), "passthrough") {
            tool_choice(config.choice.as_ref())
        } else {
            Some(Json::from_str("auto"))
        };
        (offered, choice)
    }

    /// The request body for the chat's input items (already written as Responses input),
    /// without the floating-point sampling settings.
    pub fn body(
        &self,
        model_name: &str,
        input: Vec<Json>,
        system_prompt: Option<String>,
        max_tokens: u32,
        should_stream: bool,
        tool_config: Option<&ToolConfig>,
        reasoning_enabled: bool,
        reasoning_effort: Option<&str>,
    ) -> (r: Json)
        ensures
            r@ == responses_body(
                model_name@,
                views(input@),
                should_stream,
                match system_prompt {
                    Some(t) => Some(t@),
                    None => None,
                },
                max_tokens,
                reasoning_request(
                    reasoning_enabled,
                    match reasoning_effort {
                        Some(e) => Some(e@),
                        None => None,
                    },
                ),
                match tool_config {
                    Some(c) => if c.tools.len() > 0 {
                        Some(offered_tools(c.tools@))
                    } else {
                        None
                    },
                    None => None,
                },
                match tool_config {
                    Some(c) => if c.tools.len() > 0 {
                        choice_for_mode(self.tool_choice_mode_of(), c.choice)
                    } else {
                        None
                    },
                    None => None,
                },
            ),
    {
        let ghost input_views = views(input@);
        let mut members: Vec<(String, Json)> = Vec::new();
        members.push(("model".to_owned(), Json::from_str(model_name)));
        members.push(("input".to_owned(), Json::array(input)));
        members.push(("stream".to_owned(), Json::Bool(should_stream)));
        members.push(("store".to_owned(), Json::Bool(false)));
        let ghost base = member_views(members@);
        match system_prompt {
            Some(t) => members.push(("instructions".to_owned(), Json::Str(t))),
            None => {},
        }
        let ghost with_instructions = member_views(members@);
        assert(with_instructions =~= base + optional_member(
            "instructions"@,
            match system_prompt {
                Some(t) => Some(JsonV::Str(t@)),
                None => None,
            },
        ));
        members.push(("max_output_tokens".to_owned(), Json::from_u64(max_tokens as u64)));
        let ghost with_limit = member_views(members@);
        assert(with_limit =~= with_instructions + seq![
            ("max_output_tokens"@, JsonV::Number(JsonNumber::PosInt(max_tokens as u64))),
        ]);
        let reasoning = self.reasoning(reasoning_enabled, reasoning_effort);
        match reasoning {
            Some(v) => members.push(("reasoning".to_owned(), v)),
            None => {},
        }
        let ghost with_reasoning = member_views(members@);
        assert(with_reasoning =~= with_limit + optional_member(
            "reasoning"@,
            reasoning_request(
                reasoning_enabled,
                match reasoning_effort {
                    Some(e) => Some(e@),
                    None => None,
                },
            ),
        ));
        let (offered, choice) = self.tools_and_choice(tool_config);
        match offered {
            Some(t) => members.push(("tools".to_owned(), Json::array(t))),
            None => {},
        }
        let ghost with_tools = member_views(members@);
        assert(with_tools =~= with_reasoning + optional_member(
            "tools"@,
            match tool_config {
                Some(c) => if c.tools.len() > 0 {
                    Some(JsonV::Array(offered_tools(c.tools@)))
                } else {
                    None
                },
                None => None,
            },
        ));
        match choice {
            Some(c) => members.push(("tool_choice".to_owned(), c)),
            None => {},
        }
        proof {
            assert(base =~= seq![
                ("model"@, JsonV::Str(model_name@)),
                ("input"@, JsonV::Array(input_views)),
                ("stream"@, JsonV::Bool(should_stream)),
                ("store"@, JsonV::Bool(false)),
            ]);
        }
        let r = Json::object(members);
        assert(member_views(members@) =~= with_tools + optional_member(
            "tool_choice"@,
            match tool_config {
                Some(c) => if c.tools.len() > 0 {
                    choice_for_mode(self.tool_choice_mode_of(), c.choice)
                } else {
                    None
                },
                None => None,
            },
        ));
        r
    }
}

} // verus!
