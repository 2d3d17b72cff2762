//! Finding the function calls of a Responses reply, whatever shape it came in: a response
//! object, its output items, single stream events, arrays of them, or the raw text of a
//! server-sent event stream whose `data:` lines each hold an event as JSON text.
//!
//! A scan lists, in reading order, the calls it meets and the event texts it meets; each event
//! text is read as JSON by the caller and scanned in turn, in its place. The first call of
//! each call id is the one kept.
use vstd::prelude::*;

use super::openai_responses::{
    event_type, holds_event_stream, line_payload, response_item_to_tool_call, sse_line_payload,
    tool_call_of, JsonTextV, ToolCallParts,
};
use crate::json::{key_index, lemma_key_index, member_views, views, Json, JsonV};
use crate::text::{
    chars_of, contains, contains_string, distinct_strings, insert_string, starts_with,
    starts_with_exec, str_eq, str_set, string_of,
};

verus! {

/// A call's id, function name and arguments.
pub type CallV = (Seq<char>, Seq<char>, JsonTextV);

/// What a scan meets: a function call, or the JSON text of one stream event.
pub enum ScanItem {
    Call(ToolCallParts),
    EventText(String),
}

pub enum ScanItemV {
    Call(CallV),
    EventText(Seq<char>),
}

impl View for ScanItem {
    type V = ScanItemV;

    open spec fn view(&self) -> ScanItemV {
        match self {
            ScanItem::Call(c) => ScanItemV::Call((c.id@, c.name@, c.raw_arguments@)),
            ScanItem::EventText(t) => ScanItemV::EventText(t@),
        }
    }
}

pub open spec fn scan_views(v: Seq<ScanItem>) -> Seq<ScanItemV> {
    Seq::new(v.len(), |i: int| v[i]@)
}

/// The lines of a text, split at each `\n` (the last one possibly empty).
pub open spec fn split_lines(s: Seq<char>) -> Seq<Seq<char>>
    decreases s.len(),
{
    if s.len() == 0 {
        seq![Seq::<char>::empty()]
    } else if s.last() == '\n' {
        split_lines(s.drop_last()).push(Seq::empty())
    } else {
        let l = split_lines(s.drop_last());
        l.update(l.len() - 1, l.last().push(s.last()))
    }
}

pub proof fn lemma_split_lines_nonempty(s: Seq<char>)
    ensures
        split_lines(s).len() >= 1,
    decreases s.len(),
{
    if s.len() > 0 {
        lemma_split_lines_nonempty(s.drop_last());
    }
}

/// The event texts of a stream's lines, in order.
pub open spec fn event_texts(lines: Seq<Seq<char>>) -> Seq<ScanItemV>
    decreases lines.len(),
{
    if lines.len() == 0 {
        Seq::empty()
    } else {
        event_texts(lines.drop_last()) + match line_payload(lines.last()) {
            Some(p) => seq![ScanItemV::EventText(p)],
            None => Seq::empty(),
        }
    }
}

/// What a scan of a document meets, in order: a string holding an event stream gives the
/// event texts of its lines; an array, what its items give; a function call item is itself
/// a call (and not looked into); a stream event gives what its `item` gives when it reports a
/// finished output item, what its `response` gives when it reports a completed response, and
/// nothing more when its type starts with `response.`; any other object gives what its `item`,
/// `output` and `response` members give, in that order.
pub open spec fn scan(v: JsonV) -> Seq<ScanItemV>
    decreases v, 1int,
{
    match v {
        JsonV::Str(raw) => if contains(raw, "data:"@) {
            event_texts(split_lines(raw))
        } else {
            Seq::empty()
        },
        JsonV::Array(a) => items_scan(a),
        JsonV::Object(m) => match tool_call_of(v) {
            Some(c) => seq![ScanItemV::Call(c)],
            None => {
                let children = child_scan(m, "item"@) + child_scan(m, "output"@) + child_scan(
                    m,
                    "response"@,
                );
                match v.get_str("type"@) {
                    Some(t) => {
                        let event = if t == "response.output_item.done"@ {
                            child_scan(m, "item"@)
                        } else if t == "response.completed"@ {
                            child_scan(m, "response"@)
                        } else {
                            Seq::empty()
                        };
                        if starts_with(t, "response."@) {
                            event
                        } else {
                            event + children
                        }
                    },
                    None => children,
                }
            },
        },
        _ => Seq::empty(),
    }
}

/// What the items of an array give, in order.
pub open spec fn items_scan(a: Seq<JsonV>) -> Seq<ScanItemV>
    decreases a, 0int,
{
    if a.len() == 0 {
        Seq::empty()
    } else {
        proof {
            assert(decreases_to!(a => a.subrange(0, a.len() - 1)));
            assert(decreases_to!(a => a[a.len() - 1]));
        }
        items_scan(a.drop_last()) + scan(a.last())
    }
}

/// What the member with a key gives (nothing when there is none).
pub open spec fn child_scan(m: Seq<(Seq<char>, JsonV)>, key: Seq<char>) -> Seq<ScanItemV>
    decreases m, 0int,
{
    match key_index(m, key) {
        Some(i) => {
            proof {
                lemma_key_index(m, key);
                assert(decreases_to!(m => m[i]));
                assert(decreases_to!(m[i] => m[i].1));
            }
            scan(m[i].1)
        },
        None => Seq::empty(),
    }
}

/// Appends the event texts of a raw event stream.
fn scan_event_stream(raw: &String, out: &mut Vec<ScanItem>)
    ensures
        scan_views(final(out)@) == scan_views(old(out)@) + event_texts(split_lines(raw@)),
{
    let ghost start = scan_views(out@);
    let chars = chars_of(raw.as_str());
    let mut line: Vec<char> = Vec::new();
    let mut i: usize = 0;
    proof {
        assert(chars@.take(0) =~= Seq::<char>::empty());
    }
    while i < chars.len()
        invariant
            i <= chars.len(),
            chars@ == raw@,
            split_lines(chars@.take(i as int)).len() >= 1,
            line@ == split_lines(chars@.take(i as int)).last(),
            scan_views(out@) == start + event_texts(split_lines(chars@.take(i as int)).drop_last()),
        decreases chars.len() - i,
    {
        let ghost before = split_lines(chars@.take(i as int));
        let ghost next = chars@.take(i + 1);
        assert(next.drop_last() =~= chars@.take(i as int));
        assert(next.last() == chars@[i as int]);
        if chars[i] == '\n' {
            assert(split_lines(next) == before.push(Seq::<char>::empty()));
            let text = string_of(&line);
            let payload = sse_line_payload(text.as_str());
            let ghost prev = scan_views(out@);
            match payload {
                Some(p) => {
                    out.push(ScanItem::EventText(p));
                    assert(scan_views(out@) =~= prev + seq![ScanItemV::EventText(line_payload(before.last())->0)]);
                },
                None => {
                    assert(scan_views(out@) =~= prev);
                },
            }
            assert(split_lines(next).drop_last() =~= before);
            assert(event_texts(before) == event_texts(before.drop_last()) + match line_payload(before.last()) {
                Some(p) => seq![ScanItemV::EventText(p)],
                None => Seq::empty(),
            });
            line = Vec::new();
            assert(line@ =~= split_lines(next).last());
        } else {
            proof {
                lemma_split_lines_nonempty(chars@.take(i as int));
            }
            assert(split_lines(next) == before.update(before.len() - 1, before.last().push(chars@[i as int])));
            assert(split_lines(next).drop_last() =~= before.drop_last());
            line.push(chars[i]);
        }
        i += 1;
        proof {
            lemma_split_lines_nonempty(chars@.take(i as int));
        }
    }
    assert(chars@.take(chars.len() as int) =~= raw@);
    let ghost lines = split_lines(raw@);
    let text = string_of(&line);
    let payload = sse_line_payload(text.as_str());
    let ghost prev = scan_views(out@);
    match payload {
        Some(p) => {
            out.push(ScanItem::EventText(p));
            assert(scan_views(out@) =~= prev + seq![ScanItemV::EventText(line_payload(lines.last())->0)]);
        },
        None => {
            assert(scan_views(out@) =~= prev);
        },
    }
    assert(lines.drop_last().push(lines.last()) =~= lines);
}

/// Appends what a scan of the document meets (see [`scan`]).
pub fn scan_into(value: &Json, out: &mut Vec<ScanItem>)
    ensures
        scan_views(final(out)@) == scan_views(old(out)@) + scan(value@),
    decreases value, 1int,
{
    proof {
        value.lemma_array_view();
    }
    match value {
        Json::Str(raw) => {
            if holds_event_stream(raw.as_str()) {
                scan_event_stream(raw, out);
            } else {
                assert(scan_views(out@) =~= scan_views(out@) + scan(value@));
            }
        },
        Json::Array(items) => {
            let ghost start = scan_views(out@);
            let ghost a = views(items@);
            let mut i: usize = 0;
            while i < items.len()
                invariant
                    i <= items.len(),
                    *value == Json::Array(*items),
                    value@ == JsonV::Array(a),
                    a == views(items@),
                    scan_views(out@) == start + items_scan(a.take(i as int)),
                decreases items.len() - i,
            {
                proof {
                    assert(decreases_to!(*value => value->Array_0));
                    assert(decreases_to!(value->Array_0 => value->Array_0@));
                    assert(decreases_to!(value->Array_0@ => items@[i as int]));
                }
                scan_into(&items[i], out);
                proof {
                    let t = a.take(i + 1);
                    assert(t.drop_last() =~= a.take(i as int));
                    assert(t.last() == items@[i as int]@);
                    assert(scan_views(out@) =~= start + items_scan(t));
                }
                i += 1;
            }
            assert(a.take(items.len() as int) =~= a);
        },
        Json::Object(m) => {
            let ghost mv = member_views(m@);
            match response_item_to_tool_call(value) {
                Some(c) => {
                    let ghost prev = scan_views(out@);
                    out.push(ScanItem::Call(c));
                    assert(scan_views(out@) =~= prev + scan(value@));
                    return;
                },
                None => {},
            }
            let ghost start = scan_views(out@);
            match event_type(value) {
                Some(t) => {
                    if str_eq(t.as_str(), "response.output_item.done") {
                        scan_member(value, m, "item", out);
                    } else if str_eq(t.as_str(), "response.completed") {
                        scan_member(value, m, "response", out);
                    }
                    if starts_with_exec(&chars_of(t.as_str()), &chars_of("response.")) {
                        assert(scan_views(out@) =~= start + scan(value@));
                        return;
                    }
                },
                None => {},
            }
            let ghost after_event = scan_views(out@);
            scan_member(value, m, "item", out);
            scan_member(value, m, "output", out);
            scan_member(value, m, "response", out);
            assert(scan_views(out@) =~= start + scan(value@));
        },
        _ => {
            assert(scan_views(out@) =~= scan_views(out@) + scan(value@));
        },
    }
}

/// Appends what the member of an object with a key gives.
fn scan_member(value: &Json, m: &Vec<(String, Json)>, key: &str, out: &mut Vec<ScanItem>)
    requires
        *value == Json::Object(*m),
    ensures
        scan_views(final(out)@) == scan_views(old(out)@) + child_scan(member_views(m@), key@),
    decreases value, 0int,
{
    match Json::key_position(m, key) {
        Some(i) => {
            proof {
                assert(decreases_to!(*value => value->Object_0));
                assert(decreases_to!(value->Object_0 => value->Object_0@));
                assert(decreases_to!(value->Object_0@ => m@[i as int]));
                assert(decreases_to!(m@[i as int] => m@[i as int].1));
                assert(member_views(m@)[i as int].1 == m@[i as int].1@);
            }
            scan_into(&m[i].1, out);
        },
        None => {
            assert(scan_views(out@) =~= scan_views(out@) + child_scan(member_views(m@), key@));
        },
    }
}

/// What a document gives when scanned.
pub fn scan_tool_calls(value: &Json) -> (r: Vec<ScanItem>)
    ensures
        scan_views(r@) == scan(value@),
{
    let mut out: Vec<ScanItem> = Vec::new();
    assert(scan_views(out@) =~= Seq::<ScanItemV>::empty());
    scan_into(value, &mut out);
    assert(scan_views(out@) =~= scan(value@));
    out
}

// ---------------------------------------------------------------------------
// One call per id
// ---------------------------------------------------------------------------

pub open spec fn call_views(v: Seq<ToolCallParts>) -> Seq<CallV> {
    Seq::new(v.len(), |i: int| (v[i].id@, v[i].name@, v[i].raw_arguments@))
}

/// The calls whose id is neither in `seen` nor taken by an earlier call, in order.
pub open spec fn first_of_each_id(seen: Set<Seq<char>>, calls: Seq<CallV>) -> Seq<CallV>
    decreases calls.len(),
{
    if calls.len() == 0 {
        Seq::empty()
    } else if seen.contains(calls[0].0) {
        first_of_each_id(seen, calls.skip(1))
    } else {
        seq![calls[0]] + first_of_each_id(seen.insert(calls[0].0), calls.skip(1))
    }
}

/// A reply reports each call once: the calls kept have pairwise different ids, none of them
/// already seen, and every id of the input that was not seen before is kept.
pub proof fn law_one_call_per_id(seen: Set<Seq<char>>, calls: Seq<CallV>)
    ensures
        forall|i: int, j: int|
            0 <= i < j < first_of_each_id(seen, calls).len() ==> (#[trigger] first_of_each_id(
                seen,
                calls,
            )[i]).0 != (#[trigger] first_of_each_id(seen, calls)[j]).0,
        forall|i: int|
            0 <= i < first_of_each_id(seen, calls).len() ==> !seen.contains(
                (#[trigger] first_of_each_id(seen, calls)[i]).0,
            ),
        forall|k: int|
            0 <= k < calls.len() && !seen.contains(#[trigger] calls[k].0) ==> exists|i: int|
                0 <= i < first_of_each_id(seen, calls).len() && first_of_each_id(seen, calls)[i].0
                    == calls[k].0,
    decreases calls.len(),
{
    if calls.len() > 0 {
        let rest = calls.skip(1);
        if seen.contains(calls[0].0) {
            law_one_call_per_id(seen, rest);
            assert forall|k: int| 0 <= k < calls.len() && !seen.contains(#[trigger] calls[k].0) implies exists|i: int|
                0 <= i < first_of_each_id(seen, calls).len() && first_of_each_id(seen, calls)[i].0
                    == calls[k].0 by {
                assert(k > 0);
                assert(rest[k - 1] == calls[k]);
                assert(!seen.contains(rest[k - 1].0));
                assert(first_of_each_id(seen, calls) == first_of_each_id(seen, rest));
                let i = choose|i: int|
                    0 <= i < first_of_each_id(seen, rest).len() && first_of_each_id(seen, rest)[i].0
                        == rest[k - 1].0;
                assert(first_of_each_id(seen, calls)[i].0 == calls[k].0);
            }
        } else {
            let s2 = seen.insert(calls[0].0);
            law_one_call_per_id(s2, rest);
            let out = first_of_each_id(seen, calls);
            let tail = first_of_each_id(s2, rest);
            assert(out == seq![calls[0]] + tail);
            assert forall|i: int, j: int| 0 <= i < j < out.len() implies (#[trigger] out[i]).0 != (#[trigger] out[j]).0 by {
                if i == 0 {
                    assert(out[j] == tail[j - 1]);
                    assert(!s2.contains(tail[j - 1].0));
                } else {
                    assert(out[i] == tail[i - 1] && out[j] == tail[j - 1]);
                }
            }
            assert forall|i: int| 0 <= i < out.len() implies !seen.contains((#[trigger] out[i]).0) by {
                if i > 0 {
                    assert(out[i] == tail[i - 1]);
                    assert(!s2.contains(tail[i - 1].0));
                }
            }
            assert forall|k: int| 0 <= k < calls.len() && !seen.contains(#[trigger] calls[k].0) implies exists|i: int|
                0 <= i < out.len() && out[i].0 == calls[k].0 by {
                if calls[k].0 == calls[0].0 {
                    assert(out[0].0 == calls[k].0);
                } else {
                    assert(k > 0);
                    assert(rest[k - 1] == calls[k]);
                    assert(!s2.contains(rest[k - 1].0));
                    let i = choose|i: int| 0 <= i < tail.len() && tail[i].0 == rest[k - 1].0;
                    assert(out[i + 1] == tail[i]);
                }
            }
        }
    }
}

/// Keeps the first call of each call id, in order.
pub fn first_calls(calls: Vec<ToolCallParts>) -> (r: Vec<ToolCallParts>)
    ensures
        call_views(r@) == first_of_each_id(Set::empty(), call_views(calls@)),
{
    let ghost all = call_views(calls@);
    let mut rest = calls;
    let mut seen: Vec<String> = Vec::new();
    let mut out: Vec<ToolCallParts> = Vec::new();
    proof {
        assert(str_set(seen@) =~= Set::<Seq<char>>::empty());
        assert(call_views(out@) =~= Seq::<CallV>::empty());
    }
    while rest.len() > 0
        invariant
            distinct_strings(seen@),
            call_views(out@) + first_of_each_id(str_set(seen@), call_views(rest@))
                == first_of_each_id(Set::empty(), all),
        decreases rest.len(),
    {
        let ghost before = call_views(rest@);
        let ghost s = str_set(seen@);
        let ghost prev = call_views(out@);
        let c = rest.remove(0);
        assert(call_views(rest@) =~= before.skip(1));
        assert(before[0] == (c.id@, c.name@, c.raw_arguments@));
        if contains_string(&seen, c.id.as_str()) {
        } else {
            insert_string(&mut seen, c.id.clone());
            out.push(c);
            assert(call_views(out@) =~= prev + seq![before[0]]);
        }
    }
    assert(call_views(rest@) =~= Seq::<CallV>::empty());
    out
}

} // verus!
