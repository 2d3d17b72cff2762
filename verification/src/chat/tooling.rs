//! Tools offered to a model: function definitions and how the model may choose among them.
use vstd::prelude::*;

use crate::json::{member_views, views, Json, JsonV};

verus! {

/// A function the model may call.
#[derive(Debug)]
pub struct ToolDefinition {
    pub name: String,
    pub description: Option<String>,
    /// JSON schema of the arguments.
    pub parameters: Json,
}

/// How the model may choose a tool.
#[derive(Debug)]
pub enum ToolChoice {
    Auto,
    /// No tool may be called (`"none"`).
    NoTools,
    Required,
    Any,
    Tool { name: String },
}

#[derive(Debug)]
pub struct ToolConfig {
    pub tools: Vec<ToolDefinition>,
    pub choice: Option<ToolChoice>,
}

/// The Chat Completions form of a function tool: its name, argument schema and, when it has
/// one, description, under `function`.
pub open spec fn chat_function_tool(t: ToolDefinition) -> JsonV {
    JsonV::Object(seq![("type"@, JsonV::Str("function"@)), ("function"@, JsonV::Object(function_members(t)))])
}

/// The members of a tool's `function` object.
pub open spec fn function_members(t: ToolDefinition) -> Seq<(Seq<char>, JsonV)> {
    seq![("name"@, JsonV::Str(t.name@)), ("parameters"@, t.parameters@)] + match t.description {
        Some(d) => seq![("description"@, JsonV::Str(d@))],
        None => Seq::empty(),
    }
}

/// The Chat Completions tools of a configuration, in order.
pub open spec fn chat_tools(tools: Seq<ToolDefinition>) -> Seq<JsonV> {
    Seq::new(tools.len(), |i: int| chat_function_tool(tools[i]))
}

/// The Chat Completions form of a tool choice.
pub open spec fn chat_choice_value(choice: Option<ToolChoice>) -> Option<JsonV> {
    match choice {
        None => None,
        Some(ToolChoice::Auto) => Some(JsonV::Str("auto"@)),
        Some(ToolChoice::NoTools) => Some(JsonV::Str("none"@)),
        Some(ToolChoice::Required) => Some(JsonV::Str("required"@)),
        Some(ToolChoice::Any) => Some(JsonV::Str("required"@)),
        Some(ToolChoice::Tool { name }) => Some(
            JsonV::Object(
                seq![
                    ("type"@, JsonV::Str("function"@)),
                    ("function"@, JsonV::Object(seq![("name"@, JsonV::Str(name@))])),
                ],
            ),
        ),
    }
}

/// The Chat Completions tools of a configuration; `None` when it has none.
pub fn openai_tools(config: &ToolConfig) -> (r: Option<Vec<Json>>)
    ensures
        match r {
            Some(v) => config.tools.len() > 0 && views(v@) == chat_tools(config.tools@),
            None => config.tools.len() == 0,
        },
{
    if config.tools.len() == 0 {
        return None;
    }
    let mut out: Vec<Json> = Vec::new();
    let mut i: usize = 0;
    while i < config.tools.len()
        invariant
            i <= config.tools.len(),
            out.len() == i,
            forall|j: int| 0 <= j < i ==> (#[trigger] out@[j])@ == chat_function_tool(config.tools@[j]),
        decreases config.tools.len() - i,
    {
        let tool = &config.tools[i];
        let mut function: Vec<(String, Json)> = Vec::new();
        function.push(("name".to_owned(), Json::Str(tool.name.clone())));
        function.push(("parameters".to_owned(), tool.parameters.copy()));
        if let Some(description) = &tool.description {
            function.push(("description".to_owned(), Json::Str(description.clone())));
        }
        let ghost inner = member_views(function@);
        let mut members: Vec<(String, Json)> = Vec::new();
        members.push(("type".to_owned(), Json::from_str("function")));
        members.push(("function".to_owned(), Json::object(function)));
        let item = Json::object(members);
        proof {
            assert(inner =~= function_members(*tool));
            assert(member_views(members@) =~= seq![
                ("type"@, JsonV::Str("function"@)),
                ("function"@, JsonV::Object(inner)),
            ]);
            assert(item@ == chat_function_tool(*tool));
        }
        out.push(item);
        i += 1;
    }
    assert(views(out@) =~= chat_tools(config.tools@));
    Some(out)
}

/// The Chat Completions form of a tool choice, when one is set.
pub fn openai_tool_choice(choice: Option<&ToolChoice>) -> (r: Option<Json>)
    ensures
        match r {
            Some(v) => chat_choice_value(
                match choice {
                    Some(c) => Some(*c),
                    None => None,
                },
            ) == Some(v@),
            None => choice is None,
        },
{
    match choice {
        None => None,
        Some(ToolChoice::Auto) => Some(Json::from_str("auto")),
        Some(ToolChoice::NoTools) => Some(Json::from_str("none")),
        Some(ToolChoice::Required) => Some(Json::from_str("required")),
        Some(ToolChoice::Any) => Some(Json::from_str("required")),
        Some(ToolChoice::Tool { name }) => {
            let function = Json::object1("name", Json::Str(name.clone()));
            let mut members: Vec<(String, Json)> = Vec::new();
            members.push(("type".to_owned(), Json::from_str("function")));
            members.push(("function".to_owned(), function));
            let r = Json::object(members);
            proof {
                assert(member_views(members@) =~= seq![
                    ("type"@, JsonV::Str("function"@)),
                    ("function"@, JsonV::Object(seq![("name"@, JsonV::Str(name@))])),
                ]);
            }
            Some(r)
        },
    }
}

} // verus!
