//! Provider-specific request shaping, and request headers.
use vstd::prelude::*;

use crate::text::str_eq;

pub mod custom_openai_responses;
pub mod moonshot;
pub mod responses_compatibility;

verus! {

pub open spec fn header_views(h: Seq<(String, String)>) -> Seq<(Seq<char>, Seq<char>)> {
    Seq::new(h.len(), |i: int| (h[i].0@, h[i].1@))
}

/// Index of the first header with the given name.
pub open spec fn header_position(h: Seq<(Seq<char>, Seq<char>)>, name: Seq<char>) -> Option<int>
    decreases h.len(),
{
    if h.len() == 0 {
        None
    } else {
        match header_position(h.drop_last(), name) {
            Some(i) => Some(i),
            None => if h.last().0 == name {
                Some(h.len() - 1)
            } else {
                None
            },
        }
    }
}

/// Setting a header (`HashMap::insert`): an existing header of that name takes the value,
/// else the header is added.
pub open spec fn set_header(h: Seq<(Seq<char>, Seq<char>)>, name: Seq<char>, value: Seq<char>) -> Seq<
    (Seq<char>, Seq<char>),
> {
    match header_position(h, name) {
        Some(i) => h.update(i, (name, value)),
        None => h.push((name, value)),
    }
}

/// Setting the headers of a list, in order (`HashMap::extend`).
pub open spec fn set_headers(h: Seq<(Seq<char>, Seq<char>)>, extra: Seq<(Seq<char>, Seq<char>)>) -> Seq<
    (Seq<char>, Seq<char>),
>
    decreases extra.len(),
{
    if extra.len() == 0 {
        h
    } else {
        let before = set_headers(h, extra.drop_last());
        set_header(before, extra.last().0, extra.last().1)
    }
}

proof fn lemma_header_position_prefix(h: Seq<(Seq<char>, Seq<char>)>, name: Seq<char>, n: int)
    requires
        0 <= n <= h.len(),
        header_position(h.take(n), name) is Some,
    ensures
        header_position(h, name) == header_position(h.take(n), name),
    decreases h.len() - n,
{
    if n < h.len() {
        assert(h.take(n + 1).drop_last() =~= h.take(n));
        lemma_header_position_prefix(h, name, n + 1);
    } else {
        assert(h.take(n) =~= h);
    }
}

/// Sets a header (`HashMap::insert`).
pub fn insert_header(headers: &mut Vec<(String, String)>, name: &str, value: String)
    ensures
        header_views(final(headers)@) == set_header(header_views(old(headers)@), name@, value@),
{
    let ghost h = header_views(headers@);
    let mut i: usize = 0;
    while i < headers.len()
        invariant
            i <= headers.len(),
            h == header_views(headers@),
            headers@ == old(headers)@,
            header_position(h.take(i as int), name@) is None,
        decreases headers.len() - i,
    {
        assert(h.take(i + 1).drop_last() =~= h.take(i as int));
        if str_eq(headers[i].0.as_str(), name) {
            proof {
                lemma_header_position_prefix(h, name@, i + 1);
            }
            let ghost v = value@;
            headers.set(i, (name.to_owned(), value));
            assert(header_views(headers@) =~= h.update(i as int, (name@, v)));
            return;
        }
        i += 1;
    }
    assert(h.take(headers.len() as int) =~= h);
    let ghost v = value@;
    headers.push((name.to_owned(), value));
    assert(header_views(headers@) =~= h.push((name@, v)));
}

/// Sets each header of a list, in order (`HashMap::extend`).
pub fn extend_headers(headers: &mut Vec<(String, String)>, extra: &Vec<(String, String)>)
    ensures
        header_views(final(headers)@) == set_headers(header_views(old(headers)@), header_views(extra@)),
{
    let ghost ex = header_views(extra@);
    let mut i: usize = 0;
    while i < extra.len()
        invariant
            i <= extra.len(),
            ex == header_views(extra@),
            header_views(headers@) == set_headers(header_views(old(headers)@), ex.take(i as int)),
        decreases extra.len() - i,
    {
        assert(ex.take(i + 1).drop_last() =~= ex.take(i as int));
        assert(ex.take(i + 1).last() == ex[i as int]);
        insert_header(headers, extra[i].0.as_str(), extra[i].1.clone());
        i += 1;
    }
    assert(ex.take(extra.len() as int) =~= ex);
}

} // verus!
