//! The OpenAI Responses API: chat messages as Responses input items, and the visible text,
//! reasoning summaries, tool calls and errors of responses and their stream events.
use vstd::prelude::*;

use super::tooling::{ToolChoice, ToolConfig, ToolDefinition};
use crate::json::{key_index, lemma_key_index_first, lemma_pair_members, lemma_single_member, opt_view, views, Json, JsonV};
use crate::text::{
    chars_of, contains, contains_exec, eq_ignore_ascii_case, lower_seq, push_str, starts_with,
    starts_with_exec, str_eq, trim, trimmed,
};

verus! {

pub const CUSTOM_PROVIDER_ID: &'static str = "custom-openai-responses";

pub open spec fn is_responses_provider(provider_id: Seq<char>) -> bool {
    lower_seq(provider_id) == lower_seq(CUSTOM_PROVIDER_ID@)
}

/// Whether a provider speaks the Responses API (its id, in any ASCII case).
pub fn is_provider_id(provider_id: &str) -> (r: bool)
    ensures
        r == is_responses_provider(provider_id@),
{
    eq_ignore_ascii_case(provider_id, CUSTOM_PROVIDER_ID)
}

pub open spec fn response_like(v: JsonV) -> bool {
    v.get_str("object"@) == Some("response"@) || match v.get_str("type"@) {
        Some(t) => starts_with(t, "response."@),
        None => false,
    }
}

/// Whether a document is a Responses response or stream event.
pub fn looks_like_response(value: &Json) -> (r: bool)
    ensures
        r == response_like(value@),
{
    let is_object = match value.get_str("object") {
        Some(o) => str_eq(o.as_str(), "response"),
        None => false,
    };
    is_object || match value.get_str("type") {
        Some(t) => starts_with_exec(&chars_of(t.as_str()), &chars_of("response.")),
        None => false,
    }
}

/// The `type` of a stream event.
pub fn event_type(value: &Json) -> (r: Option<&String>)
    ensures
        match r {
            Some(t) => value@.get_str("type"@) == Some(t@),
            None => value@.get_str("type"@) is None,
        },
{
    value.get_str("type")
}

fn is_type(value: &Json, expected: &str) -> (r: bool)
    ensures
        r == (value@.get_str("type"@) == Some(expected@)),
{
    match value.get_str("type") {
        Some(t) => str_eq(t.as_str(), expected),
        None => false,
    }
}

pub open spec fn opt_string_view(o: Option<String>) -> Option<Seq<char>> {
    match o {
        Some(s) => Some(s@),
        None => None,
    }
}

fn owned(value: Option<&String>) -> (r: Option<String>)
    ensures
        opt_string_view(r) == match value {
            Some(s) => Some(s@),
            None => None::<Seq<char>>,
        },
{
    match value {
        Some(s) => Some(s.clone()),
        None => None,
    }
}

/// The `delta` of a stream event of one of the given types.
pub open spec fn delta_of(v: JsonV, is_kind: bool) -> Option<Seq<char>> {
    if is_kind {
        v.get_str("delta"@)
    } else {
        None
    }
}

/// The visible text a stream event carries: the delta of an output-text or refusal delta.
pub open spec fn text_delta(v: JsonV) -> Option<Seq<char>> {
    delta_of(
        v,
        v.get_str("type"@) == Some("response.output_text.delta"@) || v.get_str("type"@) == Some(
            "response.refusal.delta"@,
        ),
    )
}

/// The reasoning text a stream event carries: the delta of a reasoning-summary or
/// reasoning-text delta.
pub open spec fn reasoning_delta(v: JsonV) -> Option<Seq<char>> {
    delta_of(
        v,
        v.get_str("type"@) == Some("response.reasoning_summary_text.delta"@) || v.get_str("type"@)
            == Some("response.reasoning_summary.delta"@) || v.get_str("type"@) == Some(
            "response.reasoning_text.delta"@,
        ),
    )
}

/// Visible text streamed by an output-text or refusal delta.
pub fn stream_text_delta(value: &Json) -> (r: Option<String>)
    ensures
        opt_string_view(r) == text_delta(value@),
{
    if is_type(value, "response.output_text.delta") || is_type(value, "response.refusal.delta") {
        owned(value.get_str("delta"))
    } else {
        None
    }
}

/// Reasoning text streamed by a reasoning-summary or reasoning-text delta.
pub fn stream_reasoning_delta(value: &Json) -> (r: Option<String>)
    ensures
        opt_string_view(r) == reasoning_delta(value@),
{
    if is_type(value, "response.reasoning_summary_text.delta") || is_type(
        value,
        "response.reasoning_summary.delta",
    ) || is_type(value, "response.reasoning_text.delta") {
        owned(value.get_str("delta"))
    } else {
        None
    }
}

/// A stream event of the given type carrying a delta.
pub open spec fn delta_event(kind: Seq<char>, delta: Seq<char>) -> JsonV {
    JsonV::Object(seq![("type"@, JsonV::Str(kind)), ("delta"@, JsonV::Str(delta))])
}

/// Output-text and refusal deltas stream visible text and nothing else does; the three
/// reasoning deltas stream reasoning text and nothing else does; either carries its `delta`
/// unchanged.
pub proof fn law_stream_deltas(kind: Seq<char>, delta: Seq<char>)
    ensures
        text_delta(delta_event(kind, delta)) == if kind == "response.output_text.delta"@ || kind
            == "response.refusal.delta"@ {
            Some(delta)
        } else {
            None
        },
        reasoning_delta(delta_event(kind, delta)) == if kind == "response.reasoning_summary_text.delta"@
            || kind == "response.reasoning_summary.delta"@ || kind == "response.reasoning_text.delta"@ {
            Some(delta)
        } else {
            None
        },
{
    reveal_strlit("type");
    reveal_strlit("delta");
    assert("type"@[0] != "delta"@[0]);
    lemma_pair_members("type"@, JsonV::Str(kind), "delta"@, JsonV::Str(delta), "type"@);
}

/// The message of an error: its `message`, or the error itself when it is a string.
pub open spec fn error_text(e: JsonV) -> Option<Seq<char>> {
    match e.get_str("message"@) {
        Some(m) => Some(m),
        None => e.as_str(),
    }
}

fn error_message(error: &Json) -> (r: Option<String>)
    ensures
        opt_string_view(r) == error_text(error@),
{
    match error.get_str("message") {
        Some(m) => Some(m.clone()),
        None => owned(error.as_str()),
    }
}

pub open spec fn stream_error(v: JsonV) -> Option<Seq<char>> {
    let t = v.get_str("type"@);
    if t == Some("response.failed"@) {
        match v.get("response"@) {
            Some(r) => match r.get("error"@) {
                Some(e) => error_text(e),
                None => None,
            },
            None => None,
        }
    } else if t == Some("error"@) {
        let from_error = match v.get("error"@) {
            Some(e) => error_text(e),
            None => None,
        };
        match from_error {
            Some(m) => Some(m),
            None => v.get_str("message"@),
        }
    } else {
        None
    }
}

/// The error message a failed or error stream event carries.
pub fn stream_error_message(value: &Json) -> (r: Option<String>)
    ensures
        opt_string_view(r) == stream_error(value@),
{
    if is_type(value, "response.failed") {
        match value.get("response") {
            Some(response) => match response.get("error") {
                Some(error) => error_message(error),
                None => None,
            },
            None => None,
        }
    } else if is_type(value, "error") {
        let from_error = match value.get("error") {
            Some(error) => error_message(error),
            None => None,
        };
        match from_error {
            Some(m) => Some(m),
            None => owned(value.get_str("message")),
        }
    } else {
        None
    }
}

/// The message a failed or error stream event reports: a failed response's error message; an
/// error event's error message, its error when that is a string, or else its own message;
/// events of any other type report none.
pub proof fn law_stream_error_messages(kind: Seq<char>, message: Seq<char>)
    ensures
        ({
            let error = JsonV::Object(seq![("message"@, JsonV::Str(message))]);
            let failed = JsonV::Object(
                seq![
                    ("type"@, JsonV::Str("response.failed"@)),
                    ("response"@, JsonV::Object(seq![("error"@, error)])),
                ],
            );
            &&& stream_error(failed) == Some(message)
            &&& stream_error(JsonV::Object(seq![("type"@, JsonV::Str("error"@)), ("error"@, error)]))
                == Some(message)
            &&& stream_error(
                JsonV::Object(seq![("type"@, JsonV::Str("error"@)), ("error"@, JsonV::Str(message))]),
            ) == Some(message)
            &&& stream_error(
                JsonV::Object(seq![("type"@, JsonV::Str("error"@)), ("message"@, JsonV::Str(message))]),
            ) == Some(message)
            &&& kind != "error"@ && kind != "response.failed"@ ==> stream_error(
                JsonV::Object(seq![("type"@, JsonV::Str(kind)), ("message"@, JsonV::Str(message))]),
            ) is None
        }),
{
    reveal_strlit("type");
    reveal_strlit("response");
    reveal_strlit("error");
    reveal_strlit("message");
    reveal_strlit("response.failed");
    assert("type"@.len() == 4 && "response"@.len() == 8 && "error"@.len() == 5 && "message"@.len() == 7);
    assert("response.failed"@.len() == 15);
    let error = JsonV::Object(seq![("message"@, JsonV::Str(message))]);
    lemma_single_member("message"@, JsonV::Str(message), "message"@);
    lemma_single_member("error"@, error, "error"@);
    lemma_pair_members(
        "type"@,
        JsonV::Str("response.failed"@),
        "response"@,
        JsonV::Object(seq![("error"@, error)]),
        "type"@,
    );
    lemma_pair_members("type"@, JsonV::Str("error"@), "error"@, error, "message"@);
    lemma_pair_members("type"@, JsonV::Str("error"@), "error"@, JsonV::Str(message), "message"@);
    lemma_single_member("message"@, JsonV::Str(message), "message"@);
    lemma_pair_members("type"@, JsonV::Str("error"@), "message"@, JsonV::Str(message), "error"@);
    lemma_pair_members("type"@, JsonV::Str(kind), "message"@, JsonV::Str(message), "error"@);
}

pub open spec fn terminal_event(v: JsonV) -> bool {
    let t = v.get_str("type"@);
    t == Some("response.completed"@) || t == Some("response.incomplete"@) || t == Some(
        "response.failed"@,
    )
}

/// A stream ends with a completed, incomplete or failed response, and with no other event.
pub proof fn law_terminal_events(kind: Seq<char>, rest: Seq<(Seq<char>, JsonV)>)
    ensures
        terminal_event(JsonV::Object(seq![("type"@, JsonV::Str(kind))] + rest)) <==> (kind
            == "response.completed"@ || kind == "response.incomplete"@ || kind == "response.failed"@),
{
    let m = seq![("type"@, JsonV::Str(kind))] + rest;
    assert(m[0] == ("type"@, JsonV::Str(kind)));
    lemma_key_index_first(m, "type"@);
}

/// Whether a stream event ends the response.
pub fn is_terminal_stream_event(value: &Json) -> (r: bool)
    ensures
        r == terminal_event(value@),
{
    is_type(value, "response.completed") || is_type(value, "response.incomplete") || is_type(
        value,
        "response.failed",
    )
}

// ---------------------------------------------------------------------------
// Response text
// ---------------------------------------------------------------------------

/// The response a document carries (`response` of an event), or the document itself.
pub open spec fn response_of(v: JsonV) -> JsonV {
    match v.get("response"@) {
        Some(r) => r,
        None => v,
    }
}

fn response_object(value: &Json) -> (r: &Json)
    ensures
        r@ == response_of(value@),
{
    match value.get("response") {
        Some(r) => r,
        None => value,
    }
}

pub open spec fn str_or_empty(o: Option<Seq<char>>) -> Seq<char> {
    match o {
        Some(s) => s,
        None => Seq::empty(),
    }
}

/// The visible text of a message content part: output text or a refusal.
pub open spec fn part_text(part: JsonV) -> Seq<char> {
    let t = part.get_str("type"@);
    if t == Some("output_text"@) {
        str_or_empty(part.get_str("text"@))
    } else if t == Some("refusal"@) {
        str_or_empty(part.get_str("refusal"@))
    } else {
        Seq::empty()
    }
}

pub open spec fn parts_text(parts: Seq<JsonV>) -> Seq<char>
    decreases parts.len(),
{
    if parts.len() == 0 {
        Seq::empty()
    } else {
        parts_text(parts.drop_last()) + part_text(parts.last())
    }
}

pub open spec fn message_text(items: Seq<JsonV>) -> Seq<char>
    decreases items.len(),
{
    if items.len() == 0 {
        Seq::empty()
    } else {
        let item = items.last();
        message_text(items.drop_last()) + if item.get_str("type"@) == Some("message"@) {
            match item.get_array("content"@) {
                Some(parts) => parts_text(parts),
                None => Seq::empty(),
            }
        } else {
            Seq::empty()
        }
    }
}

pub open spec fn non_empty(s: Seq<char>) -> Option<Seq<char>> {
    if s.len() > 0 {
        Some(s)
    } else {
        None
    }
}

pub open spec fn output_text(v: JsonV) -> Option<Seq<char>> {
    match response_of(v).get_array("output"@) {
        Some(items) => non_empty(message_text(items)),
        None => None,
    }
}

fn push_parts_text(text: &mut String, parts: &Vec<Json>)
    ensures
        final(text)@ == old(text)@ + parts_text(views(parts@)),
{
    let ghost ps = views(parts@);
    let mut k: usize = 0;
    while k < parts.len()
        invariant
            k <= parts.len(),
            ps == views(parts@),
            text@ == old(text)@ + parts_text(ps.take(k as int)),
        decreases parts.len() - k,
    {
        assert(ps.take(k + 1).drop_last() =~= ps.take(k as int));
        assert(ps.take(k + 1).last() == parts@[k as int]@);
        let part = &parts[k];
        let fragment = if is_type(part, "output_text") {
            part.get_str("text")
        } else if is_type(part, "refusal") {
            part.get_str("refusal")
        } else {
            None
        };
        if let Some(f) = fragment {
            push_str(text, f.as_str());
        }
        assert(text@ =~= old(text)@ + parts_text(ps.take(k + 1)));
        k += 1;
    }
    assert(ps.take(parts.len() as int) =~= ps);
}

/// The visible text of a response: the output text and refusals of its messages, in order;
/// `None` when there is none.
pub fn extract_output_text(value: &Json) -> (r: Option<String>)
    ensures
        opt_string_view(r) == output_text(value@),
{
    let response = response_object(value);
    let output = match response.get_array("output") {
        Some(output) => output,
        None => return None,
    };
    let ghost items = views(output@);
    let mut text = String::new();
    let mut i: usize = 0;
    while i < output.len()
        invariant
            i <= output.len(),
            items == views(output@),
            text@ == message_text(items.take(i as int)),
        decreases output.len() - i,
    {
        assert(items.take(i + 1).drop_last() =~= items.take(i as int));
        assert(items.take(i + 1).last() == output@[i as int]@);
        let item = &output[i];
        let ghost before = text@;
        if is_type(item, "message") {
            if let Some(parts) = item.get_array("content") {
                push_parts_text(&mut text, parts);
            }
        }
        assert(text@ =~= message_text(items.take(i + 1)));
        i += 1;
    }
    assert(items.take(output.len() as int) =~= items);
    if text.as_str().is_empty() {
        None
    } else {
        Some(text)
    }
}

pub open spec fn summary_text(parts: Seq<JsonV>) -> Seq<char>
    decreases parts.len(),
{
    if parts.len() == 0 {
        Seq::empty()
    } else {
        summary_text(parts.drop_last()) + str_or_empty(parts.last().get_str("text"@))
    }
}

pub open spec fn reasoning_text(items: Seq<JsonV>) -> Seq<char>
    decreases items.len(),
{
    if items.len() == 0 {
        Seq::empty()
    } else {
        let item = items.last();
        reasoning_text(items.drop_last()) + if item.get_str("type"@) == Some("reasoning"@) {
            match item.get_array("summary"@) {
                Some(parts) => summary_text(parts),
                None => Seq::empty(),
            }
        } else {
            Seq::empty()
        }
    }
}

pub open spec fn reasoning_summary(v: JsonV) -> Option<Seq<char>> {
    match response_of(v).get_array("output"@) {
        Some(items) => non_empty(reasoning_text(items)),
        None => None,
    }
}

/// A `summary_text` part of a reasoning summary.
pub open spec fn summary_part(text: Seq<char>) -> JsonV {
    JsonV::Object(seq![("type"@, JsonV::Str("summary_text"@)), ("text"@, JsonV::Str(text))])
}

/// A reasoning output item whose summary has the given parts.
pub open spec fn reasoning_item(parts: Seq<JsonV>) -> JsonV {
    JsonV::Object(seq![("type"@, JsonV::Str("reasoning"@)), ("summary"@, JsonV::Array(parts))])
}

proof fn lemma_summary_parts_joined(texts: Seq<Seq<char>>)
    ensures
        summary_text(texts.map_values(|t: Seq<char>| summary_part(t))) == texts.flatten_alt(),
    decreases texts.len(),
{
    reveal_strlit("type");
    reveal_strlit("text");
    let parts = texts.map_values(|t: Seq<char>| summary_part(t));
    if texts.len() > 0 {
        lemma_summary_parts_joined(texts.drop_last());
        assert(parts.drop_last() =~= texts.drop_last().map_values(|t: Seq<char>| summary_part(t)));
        let last = seq![("type"@, JsonV::Str("summary_text"@)), ("text"@, JsonV::Str(texts.last()))];
        assert("type"@[1] != "text"@[1]);
        assert(last.drop_last() =~= seq![("type"@, JsonV::Str("summary_text"@))]);
        assert(key_index(last.drop_last().drop_last(), "text"@) is None);
        assert(key_index(last.drop_last(), "text"@) is None);
        assert(key_index(last, "text"@) == Some(1int));
        assert(parts.last().get_str("text"@) == Some(texts.last()));
    }
}

/// The reasoning summary of a response is every summary part of its reasoning items, joined in
/// order: a reasoning item whose summary parts have the texts `t0, t1, ...` gives
/// `t0 + t1 + ...` (`None` when that is empty), for a response whether or not it is wrapped in
/// a `response` member.
pub proof fn law_reasoning_summary_joins_every_part(texts: Seq<Seq<char>>)
    ensures
        ({
            let item = reasoning_item(texts.map_values(|t: Seq<char>| summary_part(t)));
            let response = JsonV::Object(
                seq![("object"@, JsonV::Str("response"@)), ("output"@, JsonV::Array(seq![item]))],
            );
            &&& reasoning_summary(response) == non_empty(texts.flatten())
            &&& reasoning_summary(JsonV::Object(seq![("response"@, response)])) == non_empty(
                texts.flatten(),
            )
        }),
{
    reveal_strlit("object");
    reveal_strlit("output");
    reveal_strlit("response");
    reveal_strlit("type");
    reveal_strlit("summary");
    reveal_strlit("reasoning");
    texts.lemma_flatten_and_flatten_alt_are_equivalent();
    lemma_summary_parts_joined(texts);
    let parts = texts.map_values(|t: Seq<char>| summary_part(t));
    let item = reasoning_item(parts);
    let m = seq![("object"@, JsonV::Str("response"@)), ("output"@, JsonV::Array(seq![item]))];
    let response = JsonV::Object(m);
    assert("object"@[1] != "output"@[1]);
    assert("object"@ != "output"@);
    assert("type"@.len() == 4 && "summary"@.len() == 7);
    assert("type"@ != "summary"@);
    assert(m.drop_last() =~= seq![("object"@, JsonV::Str("response"@))]);
    assert(key_index(m.drop_last().drop_last(), "response"@) is None);
    assert(key_index(m.drop_last(), "response"@) is None);
    assert(key_index(m, "response"@) is None);
    assert(key_index(m.drop_last().drop_last(), "output"@) is None);
    assert(key_index(m.drop_last(), "output"@) is None);
    assert(key_index(m, "output"@) == Some(1int));
    assert(response_of(response) == response);
    let im = seq![("type"@, JsonV::Str("reasoning"@)), ("summary"@, JsonV::Array(parts))];
    assert(im.drop_last() =~= seq![("type"@, JsonV::Str("reasoning"@))]);
    assert(key_index(im.drop_last().drop_last(), "type"@) is None);
    assert(key_index(im.drop_last(), "type"@) == Some(0int));
    assert(key_index(im, "type"@) == Some(0int));
    assert(key_index(im.drop_last().drop_last(), "summary"@) is None);
    assert(key_index(im.drop_last(), "summary"@) is None);
    assert(key_index(im, "summary"@) == Some(1int));
    let items = seq![item];
    assert(items.drop_last() =~= Seq::<JsonV>::empty());
    assert(item.get_str("type"@) == Some("reasoning"@));
    assert(item.get_array("summary"@) == Some(parts));
    assert(reasoning_text(items.drop_last()) == Seq::<char>::empty());
    assert(reasoning_text(items) =~= summary_text(parts));
    let wrapped = seq![("response"@, response)];
    assert(wrapped.drop_last() =~= Seq::<(Seq<char>, JsonV)>::empty());
    assert(key_index(wrapped.drop_last(), "response"@) is None);
    assert(key_index(wrapped, "response"@) == Some(0int));
}

/// A message content part: a refusal when `refusal` is set, else output text.
pub open spec fn content_part(refusal: bool, text: Seq<char>) -> JsonV {
    if refusal {
        JsonV::Object(seq![("type"@, JsonV::Str("refusal"@)), ("refusal"@, JsonV::Str(text))])
    } else {
        JsonV::Object(seq![("type"@, JsonV::Str("output_text"@)), ("text"@, JsonV::Str(text))])
    }
}

proof fn lemma_content_literals()
    ensures
        "type"@ != "text"@,
        "type"@ != "refusal"@,
        "output_text"@ != "refusal"@,
        "object"@ != "output"@,
        "type"@ != "content"@,
        "type"@ != "summary"@,
        "object"@ != "response"@,
        "output"@ != "response"@,
{
    reveal_strlit("type");
    reveal_strlit("text");
    reveal_strlit("refusal");
    reveal_strlit("output_text");
    reveal_strlit("object");
    reveal_strlit("output");
    reveal_strlit("content");
    reveal_strlit("summary");
    reveal_strlit("response");
    assert("type"@[1] != "text"@[1]);
    assert("type"@.len() == 4 && "refusal"@.len() == 7 && "output_text"@.len() == 11);
    assert("object"@[1] != "output"@[1]);
    assert("content"@.len() == 7 && "summary"@.len() == 7 && "object"@.len() == 6 && "output"@.len()
        == 6 && "response"@.len() == 8);
}

proof fn lemma_content_parts_joined(parts: Seq<(bool, Seq<char>)>)
    ensures
        parts_text(parts.map_values(|p: (bool, Seq<char>)| content_part(p.0, p.1))) == parts.map_values(
            |p: (bool, Seq<char>)| p.1,
        ).flatten_alt(),
    decreases parts.len(),
{
    let js = parts.map_values(|p: (bool, Seq<char>)| content_part(p.0, p.1));
    let texts = parts.map_values(|p: (bool, Seq<char>)| p.1);
    if parts.len() > 0 {
        lemma_content_literals();
        lemma_content_parts_joined(parts.drop_last());
        assert(js.drop_last() =~= parts.drop_last().map_values(|p: (bool, Seq<char>)| content_part(p.0, p.1)));
        assert(texts.drop_last() =~= parts.drop_last().map_values(|p: (bool, Seq<char>)| p.1));
        let (refusal, t) = parts.last();
        if refusal {
            lemma_pair_members("type"@, JsonV::Str("refusal"@), "refusal"@, JsonV::Str(t), "text"@);
        } else {
            lemma_pair_members("type"@, JsonV::Str("output_text"@), "text"@, JsonV::Str(t), "refusal"@);
        }
        assert(part_text(js.last()) == t);
    }
}

/// The visible text of a response is the text of every content part of its messages, joined in
/// order, refusals included: a message whose parts carry `t0, t1, ...` (as output text or as
/// refusals) gives `t0 + t1 + ...` (`None` when that is empty).
pub proof fn law_output_text_joins_every_part(parts: Seq<(bool, Seq<char>)>)
    ensures
        ({
            let content = parts.map_values(|p: (bool, Seq<char>)| content_part(p.0, p.1));
            let message = JsonV::Object(
                seq![("type"@, JsonV::Str("message"@)), ("content"@, JsonV::Array(content))],
            );
            let response = JsonV::Object(
                seq![("object"@, JsonV::Str("response"@)), ("output"@, JsonV::Array(seq![message]))],
            );
            output_text(response) == non_empty(parts.map_values(|p: (bool, Seq<char>)| p.1).flatten())
        }),
{
    lemma_content_literals();
    let texts = parts.map_values(|p: (bool, Seq<char>)| p.1);
    texts.lemma_flatten_and_flatten_alt_are_equivalent();
    lemma_content_parts_joined(parts);
    let content = parts.map_values(|p: (bool, Seq<char>)| content_part(p.0, p.1));
    let message = JsonV::Object(seq![("type"@, JsonV::Str("message"@)), ("content"@, JsonV::Array(content))]);
    let items = seq![message];
    lemma_pair_members("type"@, JsonV::Str("message"@), "content"@, JsonV::Array(content), "type"@);
    lemma_pair_members("object"@, JsonV::Str("response"@), "output"@, JsonV::Array(items), "response"@);
    assert(items.drop_last() =~= Seq::<JsonV>::empty());
    assert(message.get_str("type"@) == Some("message"@));
    assert(message.get_array("content"@) == Some(content));
    assert(message_text(items.drop_last()) == Seq::<char>::empty());
    assert(message_text(items) =~= parts_text(content));
}

/// The reasoning summary of a response: the summary texts of its reasoning items, in order;
/// `None` when there is none.
pub fn extract_reasoning_summary(value: &Json) -> (r: Option<String>)
    ensures
        opt_string_view(r) == reasoning_summary(value@),
{
    let response = response_object(value);
    let output = match response.get_array("output") {
        Some(output) => output,
        None => return None,
    };
    let ghost items = views(output@);
    let mut summary = String::new();
    let mut i: usize = 0;
    while i < output.len()
        invariant
            i <= output.len(),
            items == views(output@),
            summary@ == reasoning_text(items.take(i as int)),
        decreases output.len() - i,
    {
        assert(items.take(i + 1).drop_last() =~= items.take(i as int));
        assert(items.take(i + 1).last() == output@[i as int]@);
        let item = &output[i];
        let ghost before = summary@;
        if is_type(item, "reasoning") {
            if let Some(parts) = item.get_array("summary") {
                let ghost ps = views(parts@);
                let mut k: usize = 0;
                while k < parts.len()
                    invariant
                        k <= parts.len(),
                        ps == views(parts@),
                        summary@ == before + summary_text(ps.take(k as int)),
                    decreases parts.len() - k,
                {
                    assert(ps.take(k + 1).drop_last() =~= ps.take(k as int));
                    assert(ps.take(k + 1).last() == parts@[k as int]@);
                    if let Some(fragment) = parts[k].get_str("text") {
                        push_str(&mut summary, fragment.as_str());
                    }
                    assert(summary@ =~= before + summary_text(ps.take(k + 1)));
                    k += 1;
                }
                assert(ps.take(parts.len() as int) =~= ps);
            }
        }
        assert(summary@ =~= reasoning_text(items.take(i + 1)));
        i += 1;
    }
    assert(items.take(output.len() as int) =~= items);
    if summary.as_str().is_empty() {
        None
    } else {
        Some(summary)
    }
}

// ---------------------------------------------------------------------------
// Input items
// ---------------------------------------------------------------------------

/// Message content worth sending: not null, not an empty string or array.
pub open spec fn has_content(c: JsonV) -> bool {
    match c {
        JsonV::Null => false,
        JsonV::Str(s) => s.len() > 0,
        JsonV::Array(a) => a.len() > 0,
        _ => true,
    }
}

pub fn has_message_content(content: &Json) -> (r: bool)
    ensures
        r == has_content(content@),
{
    proof {
        content.lemma_array_view();
    }
    match content {
        Json::Null => false,
        Json::Str(text) => !text.as_str().is_empty(),
        Json::Array(parts) => parts.len() > 0,
        _ => true,
    }
}

/// A chat image part as a Responses `input_image`: by file id, else by URL; its detail level
/// kept. `None` without a usable image.
pub open spec fn converted_image(part: JsonV) -> Option<JsonV> {
    match part.get("image_url"@) {
        None => None,
        Some(image) => {
            let detail = match part.get_str("detail"@) {
                Some(d) => Some(d),
                None => image.get_str("detail"@),
            };
            let source = match image.get_str("file_id"@) {
                Some(f) => Some(("file_id"@, f)),
                None => match (match image.as_str() {
                    Some(u) => Some(u),
                    None => image.get_str("url"@),
                }) {
                    Some(u) => Some(("image_url"@, u)),
                    None => None,
                },
            };
            match source {
                None => None,
                Some((key, value)) => Some(
                    JsonV::Object(
                        seq![("type"@, JsonV::Str("input_image"@)), (key, JsonV::Str(value))]
                            + match detail {
                            Some(d) => seq![("detail"@, JsonV::Str(d))],
                            None => Seq::empty(),
                        },
                    ),
                ),
            }
        },
    }
}

pub fn convert_image_part(part: &Json) -> (r: Option<Json>)
    ensures
        match r {
            Some(c) => converted_image(part@) == Some(c@),
            None => converted_image(part@) is None,
        },
{
    let image = match part.get("image_url") {
        Some(image) => image,
        None => return None,
    };
    let detail = match part.get_str("detail") {
        Some(d) => Some(d),
        None => image.get_str("detail"),
    };
    let mut members: Vec<(String, Json)> = Vec::new();
    members.push(("type".to_owned(), Json::from_str("input_image")));
    if let Some(file_id) = image.get_str("file_id") {
        members.push(("file_id".to_owned(), Json::Str(file_id.clone())));
    } else {
        let url = match image.as_str() {
            Some(u) => Some(u),
            None => image.get_str("url"),
        };
        match url {
            Some(u) => members.push(("image_url".to_owned(), Json::Str(u.clone()))),
            None => return None,
        }
    }
    if let Some(d) = detail {
        members.push(("detail".to_owned(), Json::Str(d.clone())));
    }
    let r = Json::object(members);
    proof {
        let expected = converted_image(part@);
        assert(crate::json::member_views(members@) =~= match expected {
            Some(JsonV::Object(m)) => m,
            _ => Seq::empty(),
        });
    }
    Some(r)
}

/// A chat content part as a Responses input part: text becomes `input_text`, images
/// `input_image`; anything else is kept.
pub open spec fn converted_part(part: JsonV) -> JsonV {
    if !part.is_object() {
        part
    } else {
        let t = part.get_str("type"@);
        if t == Some("text"@) {
            JsonV::Object(
                seq![
                    ("type"@, JsonV::Str("input_text"@)),
                    (
                        "text"@,
                        match part.get("text"@) {
                            Some(v) => v,
                            None => JsonV::Null,
                        },
                    ),
                ],
            )
        } else if t == Some("image_url"@) {
            match converted_image(part) {
                Some(c) => c,
                None => part,
            }
        } else {
            part
        }
    }
}

pub fn convert_content_part(part: &Json) -> (r: Json)
    ensures
        r@ == converted_part(part@),
{
    if !part.is_object() {
        return part.copy();
    }
    if is_type(part, "text") {
        let text = match part.get("text") {
            Some(v) => v.copy(),
            None => Json::Null,
        };
        let mut members: Vec<(String, Json)> = Vec::new();
        members.push(("type".to_owned(), Json::from_str("input_text")));
        members.push(("text".to_owned(), text));
        let r = Json::object(members);
        proof {
            assert(crate::json::member_views(members@) =~= match converted_part(part@) {
                JsonV::Object(m) => m,
                _ => Seq::empty(),
            });
        }
        r
    } else if is_type(part, "image_url") {
        match convert_image_part(part) {
            Some(c) => c,
            None => part.copy(),
        }
    } else {
        part.copy()
    }
}

pub open spec fn converted_content(c: JsonV) -> JsonV {
    match c {
        JsonV::Array(parts) => JsonV::Array(Seq::new(parts.len(), |i: int| converted_part(parts[i]))),
        other => other,
    }
}

pub fn convert_message_content(content: &Json) -> (r: Json)
    ensures
        r@ == converted_content(content@),
{
    proof {
        content.lemma_array_view();
    }
    match content {
        Json::Array(parts) => {
            let mut out: Vec<Json> = Vec::new();
            let mut i: usize = 0;
            while i < parts.len()
                invariant
                    i <= parts.len(),
                    out.len() == i,
                    forall|j: int| 0 <= j < i ==> (#[trigger] out@[j])@ == converted_part(parts@[j]@),
                decreases parts.len() - i,
            {
                out.push(convert_content_part(&parts[i]));
                i += 1;
            }
            let r = Json::array(out);
            assert(views(out@) =~= Seq::new(
                views(parts@).len(),
                |j: int| converted_part(views(parts@)[j]),
            ));
            r
        },
        _ => content.copy(),
    }
}

/// Text that a Responses item carries: a string as it is, or another document to be written as
/// JSON text.
pub enum JsonText {
    Text(String),
    Document(Json),
}

pub enum JsonTextV {
    Text(Seq<char>),
    Document(JsonV),
}

impl View for JsonText {
    type V = JsonTextV;

    open spec fn view(&self) -> JsonTextV {
        match self {
            JsonText::Text(s) => JsonTextV::Text(s@),
            JsonText::Document(d) => JsonTextV::Document(d@),
        }
    }
}

/// A tool's output: its text content, other content as JSON text, nothing as the empty text.
pub open spec fn output_of(content: Option<JsonV>) -> JsonTextV {
    match content {
        Some(JsonV::Str(s)) => JsonTextV::Text(s),
        Some(other) => JsonTextV::Document(other),
        None => JsonTextV::Text(Seq::empty()),
    }
}

/// Function call arguments: a string as it is, other arguments as JSON text, none as `{}`.
pub open spec fn arguments_of(arguments: Option<JsonV>) -> JsonTextV {
    match arguments {
        Some(JsonV::Str(s)) => JsonTextV::Text(s),
        Some(other) => JsonTextV::Document(other),
        None => JsonTextV::Text("{}"@),
    }
}

fn tool_output_text(content: Option<&Json>) -> (r: JsonText)
    ensures
        r@ == output_of(opt_view(content)),
{
    match content {
        Some(Json::Str(text)) => JsonText::Text(text.clone()),
        Some(other) => {
            proof {
                other.lemma_array_view();
            }
            JsonText::Document(other.copy())
        },
        None => JsonText::Text(String::new()),
    }
}

fn arguments_as_text(arguments: Option<&Json>) -> (r: JsonText)
    ensures
        r@ == arguments_of(opt_view(arguments)),
{
    match arguments {
        Some(Json::Str(raw)) => JsonText::Text(raw.clone()),
        Some(other) => {
            proof {
                other.lemma_array_view();
            }
            JsonText::Document(other.copy())
        },
        None => JsonText::Text("{}".to_owned()),
    }
}

/// One item of Responses input.
pub enum InputItem {
    /// A message that is not an object, passed through.
    Raw(Json),
    /// `{"type": "message", "role", "content"}`.
    Message { role: String, content: Json },
    /// `{"type": "function_call", "call_id", "name", "arguments"}`.
    FunctionCall { call_id: String, name: String, arguments: JsonText },
    /// `{"type": "function_call_output", "call_id", "output"}`.
    FunctionCallOutput { call_id: String, output: JsonText },
}

pub enum InputItemV {
    Raw(JsonV),
    Message { role: Seq<char>, content: JsonV },
    FunctionCall { call_id: Seq<char>, name: Seq<char>, arguments: JsonTextV },
    FunctionCallOutput { call_id: Seq<char>, output: JsonTextV },
}

impl View for InputItem {
    type V = InputItemV;

    open spec fn view(&self) -> InputItemV {
        match self {
            InputItem::Raw(j) => InputItemV::Raw(j@),
            InputItem::Message { role, content } => InputItemV::Message { role: role@, content: content@ },
            InputItem::FunctionCall { call_id, name, arguments } => InputItemV::FunctionCall {
                call_id: call_id@,
                name: name@,
                arguments: arguments@,
            },
            InputItem::FunctionCallOutput { call_id, output } => InputItemV::FunctionCallOutput {
                call_id: call_id@,
                output: output@,
            },
        }
    }
}

pub open spec fn item_views(v: Seq<InputItem>) -> Seq<InputItemV> {
    Seq::new(v.len(), |i: int| v[i]@)
}

/// A chat tool call as a `function_call` item: needs a function name and a string call id
/// (`id`, else `call_id`).
pub open spec fn function_call_item(call: JsonV) -> Option<InputItemV> {
    match call.get("function"@) {
        None => None,
        Some(function) => match function.get_str("name"@) {
            None => None,
            Some(name) => {
                let call_id = match call.get("id"@) {
                    Some(v) => v.as_str(),
                    None => call.get_str("call_id"@),
                };
                match call_id {
                    None => None,
                    Some(id) => Some(
                        InputItemV::FunctionCall {
                            call_id: id,
                            name,
                            arguments: arguments_of(function.get("arguments"@)),
                        },
                    ),
                }
            },
        },
    }
}

fn chat_tool_call_to_response_item(call: &Json) -> (r: Option<InputItem>)
    ensures
        match r {
            Some(item) => function_call_item(call@) == Some(item@),
            None => function_call_item(call@) is None,
        },
{
    let function = match call.get("function") {
        Some(f) => f,
        None => return None,
    };
    let name = match function.get_str("name") {
        Some(n) => n,
        None => return None,
    };
    let call_id = match call.get("id") {
        Some(v) => v.as_str(),
        None => call.get_str("call_id"),
    };
    match call_id {
        Some(id) => Some(
            InputItem::FunctionCall {
                call_id: id.clone(),
                name: name.clone(),
                arguments: arguments_as_text(function.get("arguments")),
            },
        ),
        None => None,
    }
}

/// The function call items of a list of tool calls, in order.
pub open spec fn function_call_items(calls: Seq<JsonV>) -> Seq<InputItemV>
    decreases calls.len(),
{
    if calls.len() == 0 {
        Seq::empty()
    } else {
        function_call_items(calls.drop_last()) + match function_call_item(calls.last()) {
            Some(item) => seq![item],
            None => Seq::empty(),
        }
    }
}

/// The input items of one chat message.
pub open spec fn message_items(m: JsonV) -> Seq<InputItemV> {
    if !m.is_object() {
        seq![InputItemV::Raw(m)]
    } else {
        let role = match m.get_str("role"@) {
            Some(r) => r,
            None => "user"@,
        };
        if role == "tool"@ {
            match m.get_str("tool_call_id"@) {
                Some(id) => seq![InputItemV::FunctionCallOutput { call_id: id, output: output_of(m.get("content"@)) }],
                None => Seq::empty(),
            }
        } else {
            let message = match m.get("content"@) {
                Some(content) => if has_content(converted_content(content)) {
                    seq![InputItemV::Message { role, content: converted_content(content) }]
                } else {
                    Seq::empty()
                },
                None => Seq::empty(),
            };
            let calls = if role == "assistant"@ {
                match m.get_array("tool_calls"@) {
                    Some(calls) => function_call_items(calls),
                    None => Seq::empty(),
                }
            } else {
                Seq::empty()
            };
            message + calls
        }
    }
}

pub open spec fn input_items(messages: Seq<JsonV>) -> Seq<InputItemV>
    decreases messages.len(),
{
    if messages.len() == 0 {
        Seq::empty()
    } else {
        input_items(messages.drop_last()) + message_items(messages.last())
    }
}

fn push_item(items: &mut Vec<InputItem>, item: InputItem)
    ensures
        item_views(final(items)@) == item_views(old(items)@).push(item@),
{
    items.push(item);
    assert(item_views(items@) =~= item_views(old(items)@).push(item@));
}

/// Chat messages as Responses input: tool results become `function_call_output` items,
/// messages with content become `message` items (with converted parts), and an assistant's
/// tool calls become `function_call` items after its message.
pub fn messages_to_input(messages: &[Json]) -> (r: Vec<InputItem>)
    ensures
        item_views(r@) == input_items(views(messages@)),
{
    let ghost ms = views(messages@);
    let mut input: Vec<InputItem> = Vec::new();
    let mut i: usize = 0;
    assert(item_views(input@) =~= input_items(ms.take(0)));
    while i < messages.len()
        invariant
            i <= messages.len(),
            ms == views(messages@),
            item_views(input@) == input_items(ms.take(i as int)),
        decreases messages.len() - i,
    {
        assert(ms.take(i + 1).drop_last() =~= ms.take(i as int));
        assert(ms.take(i + 1).last() == messages@[i as int]@);
        let ghost before = item_views(input@);
        let message = &messages[i];
        if !message.is_object() {
            push_item(&mut input, InputItem::Raw(message.copy()));
        } else {
            let role: &str = match message.get_str("role") {
                Some(r) => r.as_str(),
                None => "user",
            };
            if str_eq(role, "tool") {
                if let Some(call_id) = message.get_str("tool_call_id") {
                    push_item(
                        &mut input,
                        InputItem::FunctionCallOutput {
                            call_id: call_id.clone(),
                            output: tool_output_text(message.get("content")),
                        },
                    );
                }
            } else {
                if let Some(content) = message.get("content") {
                    let converted = convert_message_content(content);
                    if has_message_content(&converted) {
                        push_item(&mut input, InputItem::Message { role: role.to_owned(), content: converted });
                    }
                }
                let ghost middle = item_views(input@);
                if str_eq(role, "assistant") {
                    if let Some(calls) = message.get_array("tool_calls") {
                        let ghost cs = views(calls@);
                        let mut k: usize = 0;
                        while k < calls.len()
                            invariant
                                k <= calls.len(),
                                cs == views(calls@),
                                item_views(input@) == middle + function_call_items(cs.take(k as int)),
                            decreases calls.len() - k,
                        {
                            assert(cs.take(k + 1).drop_last() =~= cs.take(k as int));
                            assert(cs.take(k + 1).last() == calls@[k as int]@);
                            if let Some(item) = chat_tool_call_to_response_item(&calls[k]) {
                                push_item(&mut input, item);
                            }
                            assert(item_views(input@) =~= middle + function_call_items(cs.take(k + 1)));
                            k += 1;
                        }
                        assert(cs.take(calls.len() as int) =~= cs);
                    }
                }
            }
        }
        assert(item_views(input@) =~= before + message_items(ms[i as int]));
        i += 1;
    }
    assert(ms.take(messages.len() as int) =~= ms);
    input
}

// ---------------------------------------------------------------------------
// Tool calls
// ---------------------------------------------------------------------------

/// A function call of a response: its call id, function name and arguments.
pub struct ToolCallParts {
    pub id: String,
    pub name: String,
    pub raw_arguments: JsonText,
}

/// A `function_call` output item as a tool call: a string call id (`call_id`, else `id`) and a
/// name are needed.
pub open spec fn tool_call_of(item: JsonV) -> Option<(Seq<char>, Seq<char>, JsonTextV)> {
    if item.get_str("type"@) != Some("function_call"@) {
        None
    } else {
        let call_id = match item.get("call_id"@) {
            Some(v) => v.as_str(),
            None => item.get_str("id"@),
        };
        match call_id {
            None => None,
            Some(id) => match item.get_str("name"@) {
                None => None,
                Some(name) => Some((id, name, arguments_of(item.get("arguments"@)))),
            },
        }
    }
}

pub fn response_item_to_tool_call(item: &Json) -> (r: Option<ToolCallParts>)
    ensures
        match r {
            Some(c) => tool_call_of(item@) == Some((c.id@, c.name@, c.raw_arguments@)),
            None => tool_call_of(item@) is None,
        },
{
    if !is_type(item, "function_call") {
        return None;
    }
    let call_id = match item.get("call_id") {
        Some(v) => v.as_str(),
        None => item.get_str("id"),
    };
    let id = match call_id {
        Some(id) => id,
        None => return None,
    };
    let name = match item.get_str("name") {
        Some(name) => name,
        None => return None,
    };
    Some(
        ToolCallParts {
            id: id.clone(),
            name: name.clone(),
            raw_arguments: arguments_as_text(item.get("arguments")),
        },
    )
}

/// The tool call of a `response.output_item.done` stream event.
pub fn stream_tool_call(value: &Json) -> (r: Option<ToolCallParts>)
    ensures
        match r {
            Some(c) => value@.get_str("type"@) == Some("response.output_item.done"@) && match value@.get(
                "item"@,
            ) {
                Some(item) => tool_call_of(item) == Some((c.id@, c.name@, c.raw_arguments@)),
                None => false,
            },
            None => value@.get_str("type"@) != Some("response.output_item.done"@) || match value@.get(
                "item"@,
            ) {
                Some(item) => tool_call_of(item) is None,
                None => true,
            },
        },
{
    if !is_type(value, "response.output_item.done") {
        return None;
    }
    match value.get("item") {
        Some(item) => response_item_to_tool_call(item),
        None => None,
    }
}

/// The calls with the first occurrence of each id, in order.
pub open spec fn first_by_id(ids: Seq<Seq<char>>) -> Seq<int>
    decreases ids.len(),
{
    if ids.len() == 0 {
        Seq::empty()
    } else {
        let rest = first_by_id(ids.drop_last());
        if ids.drop_last().contains(ids.last()) {
            rest
        } else {
            rest.push(ids.len() - 1)
        }
    }
}

/// The calls kept are exactly the first call of each id, in the order they came: positions
/// ascend, no kept call repeats an earlier id, and every call whose id is new is kept.
pub proof fn law_first_call_of_each_id(ids: Seq<Seq<char>>)
    ensures
        ({
            let r = first_by_id(ids);
            &&& forall|k: int| 0 <= k < r.len() ==> 0 <= #[trigger] r[k] < ids.len()
            &&& forall|k1: int, k2: int| 0 <= k1 < k2 < r.len() ==> #[trigger] r[k1] < #[trigger] r[k2]
            &&& forall|k: int, j: int| 0 <= k < r.len() && 0 <= j < r[k] ==> #[trigger] ids[j] != ids[#[trigger] r[k]]
            &&& forall|i: int|
                #![trigger r.contains(i)]
                0 <= i < ids.len() && (forall|j: int| 0 <= j < i ==> ids[j] != #[trigger] ids[i]) ==> r.contains(i)
        }),
    decreases ids.len(),
{
    if ids.len() > 0 {
        let d = ids.drop_last();
        law_first_call_of_each_id(d);
        let rest = first_by_id(d);
        let r = first_by_id(ids);
        let n = ids.len() - 1;
        assert forall|j: int| 0 <= j < n implies #[trigger] d[j] == ids[j] by {}
        assert forall|k: int| 0 <= k < rest.len() implies #[trigger] r[k] == rest[k] by {}
        assert forall|k: int, j: int| 0 <= k < r.len() && 0 <= j < r[k] implies #[trigger] ids[j] != ids[
            #[trigger] r[k]] by {
            if k == rest.len() {
                assert(r[k] == n);
                if ids[j] == ids[n] {
                    assert(d[j] == ids.last());
                }
            } else {
                assert(r[k] == rest[k]);
                assert(d[j] == ids[j]);
                assert(d[rest[k]] == ids[rest[k]]);
            }
        }
        assert forall|i: int|
            #![trigger r.contains(i)]
            0 <= i < ids.len() && (forall|j: int| 0 <= j < i ==> ids[j] != #[trigger] ids[i]) implies r.contains(
            i,
        ) by {
            if i < n {
                assert forall|j: int| 0 <= j < i implies d[j] != #[trigger] d[i] by {
                    assert(ids[j] != ids[i]);
                }
                assert(rest.contains(i));
                let k = choose|k: int| 0 <= k < rest.len() && rest[k] == i;
                assert(r[k] == i);
            } else {
                if d.contains(ids.last()) {
                    let j = choose|j: int| 0 <= j < d.len() && d[j] == ids.last();
                    assert(ids[j] == ids[i]);
                }
                assert(r[r.len() - 1] == i);
            }
        }
    }
}

pub open spec fn call_ids(calls: Seq<ToolCallParts>) -> Seq<Seq<char>> {
    Seq::new(calls.len(), |i: int| calls[i].id@)
}

pub open spec fn index_views(v: Seq<usize>) -> Seq<int> {
    v.map_values(|i: usize| i as int)
}

/// Positions of the first call of each id, in order: the calls a response reports once.
pub fn first_call_positions(calls: &Vec<ToolCallParts>) -> (r: Vec<usize>)
    ensures
        index_views(r@) == first_by_id(call_ids(calls@)),
{
    let ghost ids = call_ids(calls@);
    let mut out: Vec<usize> = Vec::new();
    let mut i: usize = 0;
    while i < calls.len()
        invariant
            i <= calls.len(),
            ids == call_ids(calls@),
            index_views(out@) == first_by_id(ids.take(i as int)),
        decreases calls.len() - i,
    {
        assert(ids.take(i + 1).drop_last() =~= ids.take(i as int));
        assert(ids.take(i + 1).last() == calls@[i as int].id@);
        let mut found = false;
        let mut k: usize = 0;
        while k < i
            invariant
                k <= i < calls.len(),
                ids == call_ids(calls@),
                found == exists|j: int| 0 <= j < k && ids[j] == ids[i as int],
            decreases i - k,
        {
            assert(ids[k as int] == calls@[k as int].id@ && ids[i as int] == calls@[i as int].id@);
            if str_eq(calls[k].id.as_str(), calls[i].id.as_str()) {
                found = true;
            }
            k += 1;
        }
        let ghost prefix = ids.take(i as int);
        assert(found == prefix.contains(ids[i as int])) by {
            if found {
                let j = choose|j: int| 0 <= j < i && ids[j] == ids[i as int];
                assert(prefix[j] == ids[i as int]);
            }
            if prefix.contains(ids[i as int]) {
                let j = choose|j: int| 0 <= j < prefix.len() && prefix[j] == ids[i as int];
                assert(ids[j] == ids[i as int]);
            }
        }
        if !found {
            let ghost prev = index_views(out@);
            out.push(i);
            assert(index_views(out@) =~= prev.push(i as int));
        }
        i += 1;
    }
    assert(ids.take(calls.len() as int) =~= ids);
    out
}

/// The payload of a line of a server-sent event stream: the trimmed text after `data:`,
/// unless it is empty or `[DONE]`.
pub open spec fn line_payload(line: Seq<char>) -> Option<Seq<char>> {
    let t = trim(line);
    if starts_with(t, "data:"@) {
        let payload = trim(t.skip(5));
        if payload.len() == 0 || payload == "[DONE]"@ {
            None
        } else {
            Some(payload)
        }
    } else {
        None
    }
}

/// Whether a raw string may hold a stream of events (it contains `data:`).
pub fn holds_event_stream(raw: &str) -> (r: bool)
    ensures
        r == contains(raw@, "data:"@),
{
    contains_exec(&chars_of(raw), &chars_of("data:"))
}

/// The payload of one line of a server-sent event stream.
pub fn sse_line_payload(line: &str) -> (r: Option<String>)
    ensures
        opt_string_view(r) == line_payload(line@),
{
    proof {
        reveal_strlit("data:");
    }
    let t = trimmed(line);
    let chars = chars_of(t.as_str());
    if !starts_with_exec(&chars, &chars_of("data:")) {
        return None;
    }
    let rest = crate::text::string_from_range(&chars, 5, chars.len());
    assert(rest@ =~= trim(line@).skip(5));
    let payload = trimmed(rest.as_str());
    if payload.as_str().is_empty() || str_eq(payload.as_str(), "[DONE]") {
        None
    } else {
        Some(payload)
    }
}

// ---------------------------------------------------------------------------
// Tools
// ---------------------------------------------------------------------------

/// A function tool of the Responses API.
pub open spec fn function_tool(t: ToolDefinition) -> JsonV {
    JsonV::Object(
        seq![
            ("type"@, JsonV::Str("function"@)),
            ("name"@, JsonV::Str(t.name@)),
            ("parameters"@, t.parameters@),
        ] + match t.description {
            Some(d) => seq![("description"@, JsonV::Str(d@))],
            None => Seq::empty(),
        },
    )
}

/// The function tools of a configuration; `None` when it has none.
pub fn tools(config: &ToolConfig) -> (r: Option<Vec<Json>>)
    ensures
        match r {
            Some(v) => config.tools.len() > 0 && views(v@) == Seq::new(
                config.tools.len() as nat,
                |i: int| function_tool(config.tools@[i]),
            ),
            None => config.tools.len() == 0,
        },
{
    if config.tools.len() == 0 {
        return None;
    }
    let mut out: Vec<Json> = Vec::new();
    let mut i: usize = 0;
    while i < config.tools.len()
        invariant
            i <= config.tools.len(),
            out.len() == i,
            forall|j: int| 0 <= j < i ==> (#[trigger] out@[j])@ == function_tool(config.tools@[j]),
        decreases config.tools.len() - i,
    {
        let tool = &config.tools[i];
        let mut members: Vec<(String, Json)> = Vec::new();
        members.push(("type".to_owned(), Json::from_str("function")));
        members.push(("name".to_owned(), Json::Str(tool.name.clone())));
        members.push(("parameters".to_owned(), tool.parameters.copy()));
        if let Some(description) = &tool.description {
            members.push(("description".to_owned(), Json::Str(description.clone())));
        }
        let item = Json::object(members);
        proof {
            assert(crate::json::member_views(members@) =~= match function_tool(*tool) {
                JsonV::Object(m) => m,
                _ => Seq::empty(),
            });
        }
        out.push(item);
        i += 1;
    }
    assert(views(out@) =~= Seq::new(config.tools.len() as nat, |j: int| function_tool(config.tools@[j])));
    Some(out)
}

/// The Responses form of a tool choice.
pub open spec fn choice_value(choice: Option<ToolChoice>) -> Option<JsonV> {
    match choice {
        None => None,
        Some(ToolChoice::Auto) => Some(JsonV::Str("auto"@)),
        Some(ToolChoice::NoTools) => Some(JsonV::Str("none"@)),
        Some(ToolChoice::Required) => Some(JsonV::Str("required"@)),
        Some(ToolChoice::Any) => Some(JsonV::Str("required"@)),
        Some(ToolChoice::Tool { name }) => Some(
            JsonV::Object(seq![("type"@, JsonV::Str("function"@)), ("name"@, JsonV::Str(name@))]),
        ),
    }
}

pub fn tool_choice(choice: Option<&ToolChoice>) -> (r: Option<Json>)
    ensures
        match r {
            Some(v) => choice_value(match choice {
                Some(c) => Some(*c),
                None => None,
            }) == Some(v@),
            None => choice is None,
        },
{
    match choice {
        None => None,
        Some(ToolChoice::Auto) => Some(Json::from_str("auto")),
        Some(ToolChoice::NoTools) => Some(Json::from_str("none")),
        Some(ToolChoice::Required) => Some(Json::from_str("required")),
        Some(ToolChoice::Any) => Some(Json::from_str("required")),
        Some(ToolChoice::Tool { name }) => {
            let mut members: Vec<(String, Json)> = Vec::new();
            members.push(("type".to_owned(), Json::from_str("function")));
            members.push(("name".to_owned(), Json::Str(name.clone())));
            let r = Json::object(members);
            proof {
                assert(crate::json::member_views(members@) =~= seq![
                    ("type"@, JsonV::Str("function"@)),
                    ("name"@, JsonV::Str(name@)),
                ]);
            }
            Some(r)
        },
    }
}

} // verus!
