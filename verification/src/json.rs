//! JSON documents as the library reads and writes them: provider configuration, request
//! bodies, provider responses, stored memory events and exported chat entries.
//!
//! Objects are member lists whose keys are unique (as in a JSON map); numbers keep the three
//! shapes JSON numbers are read into (non-negative integers, negative integers, and
//! floating-point values carried by their IEEE-754 bit pattern, which the library never
//! interprets).
use vstd::prelude::*;

use crate::text::{chars_eq, chars_of, str_eq, string_views};

verus! {

#[derive(Debug, Clone, Copy, PartialEq, Eq, Structural)]
pub enum JsonNumber {
    PosInt(u64),
    NegInt(i64),
    /// IEEE-754 bit pattern of a floating-point number.
    Float(u64),
}

/// Mathematical model of a JSON document.
pub enum JsonV {
    Null,
    Bool(bool),
    Number(JsonNumber),
    Str(Seq<char>),
    Array(Seq<JsonV>),
    Object(Seq<(Seq<char>, JsonV)>),
}

#[derive(Debug)]
pub enum Json {
    Null,
    Bool(bool),
    Number(JsonNumber),
    Str(String),
    Array(Vec<Json>),
    Object(Vec<(String, Json)>),
}

impl Json {
    /// The mathematical model of a document.
    pub open spec fn model(self) -> JsonV
        decreases self,
    {
        match self {
            Json::Null => JsonV::Null,
            Json::Bool(b) => JsonV::Bool(b),
            Json::Number(n) => JsonV::Number(n),
            Json::Str(s) => JsonV::Str(s@),
            Json::Array(v) => JsonV::Array(
                Seq::new(
                    v@.len(),
                    |i: int|
                        if 0 <= i < v@.len() {
                            v@[i].model()
                        } else {
                            JsonV::Null
                        },
                ),
            ),
            Json::Object(m) => JsonV::Object(
                Seq::new(
                    m@.len(),
                    |i: int|
                        if 0 <= i < m@.len() {
                            (m@[i].0@, m@[i].1.model())
                        } else {
                            (Seq::empty(), JsonV::Null)
                        },
                ),
            ),
        }
    }
}

impl View for Json {
    type V = JsonV;

    open spec fn view(&self) -> JsonV {
        self.model()
    }
}

/// Views of a sequence of documents.
pub open spec fn views(v: Seq<Json>) -> Seq<JsonV> {
    Seq::new(v.len(), |i: int| v[i]@)
}

/// Views of a member list.
pub open spec fn member_views(m: Seq<(String, Json)>) -> Seq<(Seq<char>, JsonV)> {
    Seq::new(m.len(), |i: int| (m[i].0@, m[i].1@))
}

/// View of an optional borrowed document.
pub open spec fn opt_view(r: Option<&Json>) -> Option<JsonV> {
    match r {
        Some(x) => Some(x@),
        None => None,
    }
}

/// Index of the first member with the given key.
pub open spec fn key_index(m: Seq<(Seq<char>, JsonV)>, key: Seq<char>) -> Option<int>
    decreases m.len(),
{
    if m.len() == 0 {
        None
    } else if m.last().0 == key && key_index(m.drop_last(), key) is None {
        Some(m.len() - 1)
    } else {
        key_index(m.drop_last(), key)
    }
}

pub proof fn lemma_key_index(m: Seq<(Seq<char>, JsonV)>, key: Seq<char>)
    ensures
        match key_index(m, key) {
            Some(i) => 0 <= i < m.len() && m[i].0 == key && forall|j: int|
                0 <= j < i ==> (#[trigger] m[j]).0 != key,
            None => forall|j: int| 0 <= j < m.len() ==> (#[trigger] m[j]).0 != key,
        },
    decreases m.len(),
{
    if m.len() > 0 {
        lemma_key_index(m.drop_last(), key);
        assert forall|j: int| 0 <= j < m.len() - 1 implies #[trigger] m[j] == m.drop_last()[j] by {}
    }
}

/// Characterises `key_index` by the position of the first matching member.
pub proof fn lemma_key_index_unique(m: Seq<(Seq<char>, JsonV)>, key: Seq<char>, k: Option<int>)
    requires
        match k {
            Some(i) => 0 <= i < m.len() && m[i].0 == key && forall|j: int|
                0 <= j < i ==> (#[trigger] m[j]).0 != key,
            None => forall|j: int| 0 <= j < m.len() ==> (#[trigger] m[j]).0 != key,
        },
    ensures
        key_index(m, key) == k,
{
    lemma_key_index(m, key);
    match (key_index(m, key), k) {
        (Some(a), Some(b)) => {
            if a < b {
                assert(m[a].0 != key);
            } else if b < a {
                assert(m[b].0 != key);
            }
        },
        (Some(a), None) => {
            assert(m[a].0 != key);
        },
        (None, Some(b)) => {
            assert(m[b].0 != key);
        },
        (None, None) => {},
    }
}

/// The value of the member with the given key.
pub open spec fn member_get(m: Seq<(Seq<char>, JsonV)>, key: Seq<char>) -> Option<JsonV> {
    match key_index(m, key) {
        Some(i) => Some(m[i].1),
        None => None,
    }
}

/// Sets a member: replaces the value of an existing key, or appends a new member.
pub open spec fn member_insert(m: Seq<(Seq<char>, JsonV)>, key: Seq<char>, value: JsonV) -> Seq<
    (Seq<char>, JsonV),
> {
    match key_index(m, key) {
        Some(i) => m.update(i, (key, value)),
        None => m.push((key, value)),
    }
}

/// Removes the member with the given key.
pub open spec fn member_remove(m: Seq<(Seq<char>, JsonV)>, key: Seq<char>) -> Seq<
    (Seq<char>, JsonV),
> {
    match key_index(m, key) {
        Some(i) => m.remove(i),
        None => m,
    }
}

/// Setting a key to the value it already has changes nothing.
pub proof fn lemma_insert_present(m: Seq<(Seq<char>, JsonV)>, key: Seq<char>, value: JsonV)
    requires
        member_get(m, key) == Some(value),
    ensures
        member_insert(m, key, value) == m,
{
    lemma_key_index(m, key);
    let i = key_index(m, key)->0;
    assert(member_insert(m, key, value) =~= m);
}

/// The first member with a key is the one read, whatever follows.
pub proof fn lemma_key_index_first(m: Seq<(Seq<char>, JsonV)>, key: Seq<char>)
    requires
        m.len() > 0,
        m[0].0 == key,
    ensures
        key_index(m, key) == Some(0int),
{
    lemma_key_index_unique(m, key, Some(0int));
}

/// The member of a one-member object.
pub proof fn lemma_single_member(k: Seq<char>, v: JsonV, other: Seq<char>)
    ensures
        member_get(seq![(k, v)], k) == Some(v),
        other != k ==> member_get(seq![(k, v)], other) is None,
{
    let m = seq![(k, v)];
    assert(m.drop_last() =~= Seq::<(Seq<char>, JsonV)>::empty());
    assert(key_index(m.drop_last(), k) is None);
    assert(key_index(m.drop_last(), other) is None);
}

/// The members of a two-member object with distinct keys.
pub proof fn lemma_pair_members(k1: Seq<char>, v1: JsonV, k2: Seq<char>, v2: JsonV, other: Seq<char>)
    requires
        k1 != k2,
    ensures
        member_get(seq![(k1, v1), (k2, v2)], k1) == Some(v1),
        member_get(seq![(k1, v1), (k2, v2)], k2) == Some(v2),
        other != k1 && other != k2 ==> member_get(seq![(k1, v1), (k2, v2)], other) is None,
{
    let m = seq![(k1, v1), (k2, v2)];
    assert(m.drop_last() =~= seq![(k1, v1)]);
    assert(m.drop_last().drop_last() =~= Seq::<(Seq<char>, JsonV)>::empty());
    assert(key_index(m.drop_last().drop_last(), k1) is None);
    assert(key_index(m.drop_last().drop_last(), k2) is None);
    assert(key_index(m.drop_last().drop_last(), other) is None);
    assert(key_index(m.drop_last(), k1) == Some(0int));
    assert(key_index(m.drop_last(), k2) is None);
    if other != k1 && other != k2 {
        assert(key_index(m.drop_last(), other) is None);
        assert(key_index(m, other) is None);
    }
}

/// A read of a key gives back what was last set under it, and setting a key leaves the
/// other keys as they were.
pub proof fn law_get_after_insert(
    m: Seq<(Seq<char>, JsonV)>,
    key: Seq<char>,
    other: Seq<char>,
    value: JsonV,
)
    ensures
        member_get(member_insert(m, key, value), key) == Some(value),
        other != key ==> member_get(member_insert(m, key, value), other) == member_get(m, other),
{
    let n = member_insert(m, key, value);
    lemma_key_index(m, key);
    lemma_key_index(m, other);
    match key_index(m, key) {
        Some(i) => {
            assert forall|j: int| 0 <= j < i implies (#[trigger] n[j]).0 != key by {
                assert(n[j] == m[j]);
            }
            lemma_key_index_unique(n, key, Some(i));
            if other != key {
                match key_index(m, other) {
                    Some(o) => {
                        assert forall|j: int| 0 <= j < o implies (#[trigger] n[j]).0 != other by {
                            if j != i {
                                assert(n[j] == m[j]);
                            }
                        }
                        assert(n[o].0 == other) by {
                            if o != i {
                                assert(n[o] == m[o]);
                            }
                        }
                        lemma_key_index_unique(n, other, Some(o));
                        assert(n[o] == m[o]) by {
                            if o == i {
                                assert(m[i].0 == key);
                            }
                        }
                    },
                    None => {
                        assert forall|j: int| 0 <= j < n.len() implies (#[trigger] n[j]).0 != other by {
                            if j != i {
                                assert(n[j] == m[j]);
                            }
                        }
                        lemma_key_index_unique(n, other, None);
                    },
                }
            }
        },
        None => {
            assert forall|j: int| 0 <= j < m.len() implies (#[trigger] n[j]).0 != key by {
                assert(n[j] == m[j]);
            }
            lemma_key_index_unique(n, key, Some(m.len() as int));
            if other != key {
                match key_index(m, other) {
                    Some(o) => {
                        assert forall|j: int| 0 <= j < o implies (#[trigger] n[j]).0 != other by {
                            assert(n[j] == m[j]);
                        }
                        assert(n[o] == m[o]);
                        lemma_key_index_unique(n, other, Some(o));
                    },
                    None => {
                        assert forall|j: int| 0 <= j < n.len() implies (#[trigger] n[j]).0 != other by {
                            if j < m.len() {
                                assert(n[j] == m[j]);
                            }
                        }
                        lemma_key_index_unique(n, other, None);
                    },
                }
            }
        },
    }
}

/// In an object with unique keys, a removed key reads as absent.
pub proof fn law_get_after_remove(m: Seq<(Seq<char>, JsonV)>, key: Seq<char>)
    requires
        unique_keys(m),
    ensures
        member_get(member_remove(m, key), key) is None,
{
    lemma_key_index(m, key);
    let n = member_remove(m, key);
    match key_index(m, key) {
        Some(i) => {
            assert forall|j: int| 0 <= j < n.len() implies (#[trigger] n[j]).0 != key by {
                if j < i {
                    assert(n[j] == m[j]);
                } else {
                    assert(n[j] == m[j + 1]);
                    assert(m[i].0 != m[j + 1].0);
                }
            }
            lemma_key_index_unique(n, key, None);
        },
        None => {},
    }
}

/// Removing a key keeps other keys absent that were absent, and keeps keys unique.
pub proof fn lemma_remove_keeps(m: Seq<(Seq<char>, JsonV)>, key: Seq<char>, other: Seq<char>)
    ensures
        member_get(m, other) is None ==> member_get(member_remove(m, key), other) is None,
        unique_keys(m) ==> unique_keys(member_remove(m, key)),
{
    lemma_key_index(m, key);
    lemma_key_index(m, other);
    let n = member_remove(m, key);
    match key_index(m, key) {
        Some(i) => {
            if member_get(m, other) is None {
                assert forall|j: int| 0 <= j < n.len() implies (#[trigger] n[j]).0 != other by {
                    if j < i {
                        assert(n[j] == m[j]);
                    } else {
                        assert(n[j] == m[j + 1]);
                    }
                }
                lemma_key_index_unique(n, other, None);
            }
            if unique_keys(m) {
                assert forall|a: int, b: int| 0 <= a < b < n.len() implies (#[trigger] n[a]).0
                    != (#[trigger] n[b]).0 by {
                    let ma = if a < i { a } else { a + 1 };
                    let mb = if b < i { b } else { b + 1 };
                    assert(n[a] == m[ma] && n[b] == m[mb]);
                }
            }
        },
        None => {},
    }
}

/// Keys of an object occur at most once.
pub open spec fn unique_keys(m: Seq<(Seq<char>, JsonV)>) -> bool {
    forall|i: int, j: int| 0 <= i < j < m.len() ==> (#[trigger] m[i]).0 != (#[trigger] m[j]).0
}

/// The string items of an array, in order (`filter_map(Value::as_str)`).
pub open spec fn string_items(a: Seq<JsonV>) -> Seq<Seq<char>>
    decreases a.len(),
{
    if a.len() == 0 {
        Seq::empty()
    } else {
        let rest = string_items(a.drop_last());
        match a.last() {
            JsonV::Str(s) => rest.push(s),
            _ => rest,
        }
    }
}

/// A JSON array of strings.
pub open spec fn string_array(items: Seq<Seq<char>>) -> JsonV {
    JsonV::Array(Seq::new(items.len(), |i: int| JsonV::Str(items[i])))
}

/// The JSON number of a signed integer (`Value::from(i64)`).
pub open spec fn int_number(n: i64) -> JsonV {
    if n >= 0 {
        JsonV::Number(JsonNumber::PosInt(n as u64))
    } else {
        JsonV::Number(JsonNumber::NegInt(n))
    }
}

impl JsonV {
    /// `Value::get` with a key: the member of an object, `None` for anything else.
    pub open spec fn get(self, key: Seq<char>) -> Option<JsonV> {
        match self {
            JsonV::Object(m) => member_get(m, key),
            _ => None,
        }
    }

    pub open spec fn as_str(self) -> Option<Seq<char>> {
        match self {
            JsonV::Str(s) => Some(s),
            _ => None,
        }
    }

    pub open spec fn as_bool(self) -> Option<bool> {
        match self {
            JsonV::Bool(b) => Some(b),
            _ => None,
        }
    }

    /// `Value::as_u64`: non-negative integers only.
    pub open spec fn as_u64(self) -> Option<u64> {
        match self {
            JsonV::Number(JsonNumber::PosInt(n)) => Some(n),
            _ => None,
        }
    }

    /// `Value::as_i64`: integers that fit in `i64`.
    pub open spec fn as_i64(self) -> Option<i64> {
        match self {
            JsonV::Number(JsonNumber::PosInt(n)) => if n <= i64::MAX {
                Some(n as i64)
            } else {
                None
            },
            JsonV::Number(JsonNumber::NegInt(n)) => Some(n),
            _ => None,
        }
    }

    pub open spec fn as_array(self) -> Option<Seq<JsonV>> {
        match self {
            JsonV::Array(a) => Some(a),
            _ => None,
        }
    }

    pub open spec fn is_object(self) -> bool {
        self is Object
    }

    pub open spec fn is_null(self) -> bool {
        self is Null
    }

    /// `value.get(key).and_then(Value::as_str)`.
    pub open spec fn get_str(self, key: Seq<char>) -> Option<Seq<char>> {
        match self.get(key) {
            Some(v) => v.as_str(),
            None => None,
        }
    }

    /// `value.get(key).and_then(Value::as_array)`.
    pub open spec fn get_array(self, key: Seq<char>) -> Option<Seq<JsonV>> {
        match self.get(key) {
            Some(v) => v.as_array(),
            None => None,
        }
    }

    /// `value.get(key).and_then(Value::as_bool)`.
    pub open spec fn get_bool(self, key: Seq<char>) -> Option<bool> {
        match self.get(key) {
            Some(v) => v.as_bool(),
            None => None,
        }
    }

    /// `value.get(key).and_then(Value::as_u64)`.
    pub open spec fn get_u64(self, key: Seq<char>) -> Option<u64> {
        match self.get(key) {
            Some(v) => v.as_u64(),
            None => None,
        }
    }

    /// Sets a member of an object (objects only).
    pub open spec fn insert(self, key: Seq<char>, value: JsonV) -> JsonV {
        match self {
            JsonV::Object(m) => JsonV::Object(member_insert(m, key, value)),
            _ => self,
        }
    }

    /// Removes a member of an object (objects only).
    pub open spec fn remove(self, key: Seq<char>) -> JsonV {
        match self {
            JsonV::Object(m) => JsonV::Object(member_remove(m, key)),
            _ => self,
        }
    }

    /// Every object in the document has unique keys.
    pub open spec fn well_formed(self) -> bool
        decreases self,
    {
        match self {
            JsonV::Array(a) => forall|i: int| 0 <= i < a.len() ==> (#[trigger] a[i]).well_formed(),
            JsonV::Object(m) => unique_keys(m) && forall|i: int|
                0 <= i < m.len() ==> (#[trigger] m[i]).1.well_formed(),
            _ => true,
        }
    }
}

impl Json {
    pub proof fn lemma_array_view(&self)
        ensures
            self matches Json::Array(v) ==> self@ == JsonV::Array(views(v@)),
            self matches Json::Object(m) ==> self@ == JsonV::Object(member_views(m@)),
    {
        match self {
            Json::Array(v) => {
                assert(self.model()->Array_0 =~= views(v@));
            },
            Json::Object(m) => {
                assert(self.model()->Object_0 =~= member_views(m@));
            },
            _ => {},
        }
    }

    /// A copy of the document.
    pub fn copy(&self) -> (r: Json)
        ensures
            r@ == self@,
        decreases self,
    {
        match self {
            Json::Null => Json::Null,
            Json::Bool(b) => Json::Bool(*b),
            Json::Number(n) => Json::Number(*n),
            Json::Str(s) => Json::Str(s.clone()),
            Json::Array(v) => {
                let mut out: Vec<Json> = Vec::new();
                let mut i: usize = 0;
                while i < v.len()
                    invariant
                        i <= v.len(),
                        out.len() == i,
                        *self == Json::Array(*v),
                        forall|j: int| 0 <= j < i ==> (#[trigger] out@[j])@ == v@[j]@,
                    decreases v.len() - i,
                {
                    proof {
                        assert(decreases_to!(*self => self->Array_0));
                        assert(decreases_to!(self->Array_0 => self->Array_0@));
                        assert(decreases_to!(self->Array_0@ => v@[i as int]));
                    }
                    out.push(v[i].copy());
                    i += 1;
                }
                let r = Json::Array(out);
                proof {
                    self.lemma_array_view();
                    r.lemma_array_view();
                    assert(views(out@) =~= views(v@));
                }
                r
            },
            Json::Object(m) => {
                let mut out: Vec<(String, Json)> = Vec::new();
                let mut i: usize = 0;
                while i < m.len()
                    invariant
                        i <= m.len(),
                        out.len() == i,
                        *self == Json::Object(*m),
                        forall|j: int|
                            0 <= j < i ==> (#[trigger] out@[j]).0@ == m@[j].0@ && out@[j].1@
                                == m@[j].1@,
                    decreases m.len() - i,
                {
                    proof {
                        assert(decreases_to!(*self => self->Object_0));
                        assert(decreases_to!(self->Object_0 => self->Object_0@));
                        assert(decreases_to!(self->Object_0@ => m@[i as int]));
                        assert(decreases_to!(m@[i as int] => m@[i as int].1));
                    }
                    out.push((m[i].0.clone(), m[i].1.copy()));
                    i += 1;
                }
                let r = Json::Object(out);
                proof {
                    self.lemma_array_view();
                    r.lemma_array_view();
                    assert(member_views(out@) =~= member_views(m@));
                }
                r
            },
        }
    }

    /// A string document.
    pub fn from_str(s: &str) -> (r: Json)
        ensures
            r@ == JsonV::Str(s@),
    {
        Json::Str(s.to_owned())
    }

    /// A non-negative integer (`Value::from(u64)`).
    pub fn from_u64(n: u64) -> (r: Json)
        ensures
            r@ == JsonV::Number(JsonNumber::PosInt(n)),
    {
        Json::Number(JsonNumber::PosInt(n))
    }

    /// A signed integer (`Value::from(i64)`).
    pub fn from_i64(n: i64) -> (r: Json)
        ensures
            r@ == int_number(n),
    {
        if n >= 0 {
            Json::Number(JsonNumber::PosInt(n as u64))
        } else {
            Json::Number(JsonNumber::NegInt(n))
        }
    }

    /// An array of strings.
    pub fn from_strings(items: &Vec<String>) -> (r: Json)
        ensures
            r@ == string_array(string_views(items@)),
    {
        let mut out: Vec<Json> = Vec::new();
        let mut i: usize = 0;
        while i < items.len()
            invariant
                i <= items.len(),
                out.len() == i,
                forall|j: int| 0 <= j < i ==> (#[trigger] out@[j])@ == JsonV::Str(items@[j]@),
            decreases items.len() - i,
        {
            let item = Json::Str(items[i].clone());
            assert(item@ == JsonV::Str(items@[i as int]@));
            out.push(item);
            i += 1;
        }
        let r = Json::Array(out);
        proof {
            r.lemma_array_view();
            assert(views(out@) =~= Seq::new(
                string_views(items@).len(),
                |j: int| JsonV::Str(string_views(items@)[j]),
            ));
        }
        r
    }

    /// The string items of an array, in order.
    pub fn string_items_of(items: &Vec<Json>) -> (r: Vec<String>)
        ensures
            string_views(r@) == string_items(views(items@)),
    {
        let mut out: Vec<String> = Vec::new();
        let mut i: usize = 0;
        while i < items.len()
            invariant
                i <= items.len(),
                string_views(out@) == string_items(views(items@).take(i as int)),
            decreases items.len() - i,
        {
            let ghost prev = out@;
            assert(views(items@).take(i + 1).drop_last() =~= views(items@).take(i as int));
            match items[i].as_str() {
                Some(s) => {
                    out.push(s.clone());
                    assert(string_views(out@) =~= string_views(prev).push(s@));
                },
                None => {},
            }
            i += 1;
        }
        assert(views(items@).take(items.len() as int) =~= views(items@));
        out
    }

    /// An object with the given members, in order.
    pub fn object(members: Vec<(String, Json)>) -> (r: Json)
        ensures
            r@ == JsonV::Object(member_views(members@)),
    {
        let r = Json::Object(members);
        proof {
            r.lemma_array_view();
        }
        r
    }

    /// An array of the given documents, in order.
    pub fn array(items: Vec<Json>) -> (r: Json)
        ensures
            r@ == JsonV::Array(views(items@)),
    {
        let r = Json::Array(items);
        proof {
            r.lemma_array_view();
        }
        r
    }

    /// An empty object.
    pub fn empty_object() -> (r: Json)
        ensures
            r@ == JsonV::Object(Seq::empty()),
    {
        let r = Json::Object(Vec::new());
        proof {
            r.lemma_array_view();
            assert(member_views(Seq::<(String, Json)>::empty()) =~= Seq::empty());
        }
        r
    }

    /// An object with one member.
    pub fn object1(key: &str, value: Json) -> (r: Json)
        ensures
            r@ == JsonV::Object(seq![(key@, value@)]),
    {
        let mut m: Vec<(String, Json)> = Vec::new();
        m.push((key.to_owned(), value));
        let r = Json::Object(m);
        proof {
            r.lemma_array_view();
            assert(member_views(m@) =~= seq![(key@, value@)]);
        }
        r
    }

    /// Position of the member with the given key, for objects.
    pub fn key_position(m: &Vec<(String, Json)>, key: &str) -> (r: Option<usize>)
        ensures
            match r {
                Some(i) => key_index(member_views(m@), key@) == Some(i as int) && i < m.len(),
                None => key_index(member_views(m@), key@) is None,
            },
    {
        let ghost mv = member_views(m@);
        let mut i: usize = 0;
        while i < m.len()
            invariant
                i <= m.len(),
                mv == member_views(m@),
                forall|j: int| 0 <= j < i ==> (#[trigger] mv[j]).0 != key@,
            decreases m.len() - i,
        {
            if str_eq(m[i].0.as_str(), key) {
                proof {
                    lemma_key_index_unique(mv, key@, Some(i as int));
                }
                return Some(i);
            }
            i += 1;
        }
        proof {
            lemma_key_index_unique(mv, key@, None);
        }
        None
    }

    /// `Value::get` with a key.
    pub fn get(&self, key: &str) -> (r: Option<&Json>)
        ensures
            opt_view(r) == self@.get(key@),
    {
        match self {
            Json::Object(m) => {
                proof {
                    self.lemma_array_view();
                }
                match Self::key_position(m, key) {
                    Some(i) => Some(&m[i].1),
                    None => None,
                }
            },
            _ => None,
        }
    }

    pub fn as_str(&self) -> (r: Option<&String>)
        ensures
            match r {
                Some(s) => self@.as_str() == Some(s@),
                None => self@.as_str() is None,
            },
    {
        match self {
            Json::Str(s) => Some(s),
            _ => None,
        }
    }

    pub fn as_bool(&self) -> (r: Option<bool>)
        ensures
            r == self@.as_bool(),
    {
        match self {
            Json::Bool(b) => Some(*b),
            _ => None,
        }
    }

    pub fn as_u64(&self) -> (r: Option<u64>)
        ensures
            r == self@.as_u64(),
    {
        match self {
            Json::Number(JsonNumber::PosInt(n)) => Some(*n),
            _ => None,
        }
    }

    pub fn as_i64(&self) -> (r: Option<i64>)
        ensures
            r == self@.as_i64(),
    {
        match self {
            Json::Number(JsonNumber::PosInt(n)) => if *n <= 9223372036854775807u64 {
                Some(*n as i64)
            } else {
                None
            },
            Json::Number(JsonNumber::NegInt(n)) => Some(*n),
            _ => None,
        }
    }

    pub fn as_array(&self) -> (r: Option<&Vec<Json>>)
        ensures
            match r {
                Some(v) => self@.as_array() == Some(views(v@)),
                None => self@.as_array() is None,
            },
    {
        proof {
            self.lemma_array_view();
        }
        match self {
            Json::Array(v) => Some(v),
            _ => None,
        }
    }

    pub fn is_object(&self) -> (r: bool)
        ensures
            r == self@.is_object(),
    {
        match self {
            Json::Object(_) => true,
            _ => false,
        }
    }

    pub fn is_null(&self) -> (r: bool)
        ensures
            r == self@.is_null(),
    {
        match self {
            Json::Null => true,
            _ => false,
        }
    }

    /// `value.get(key).and_then(Value::as_str)`.
    pub fn get_str(&self, key: &str) -> (r: Option<&String>)
        ensures
            match r {
                Some(s) => self@.get_str(key@) == Some(s@),
                None => self@.get_str(key@) is None,
            },
    {
        match self.get(key) {
            Some(v) => v.as_str(),
            None => None,
        }
    }

    /// `value.get(key).and_then(Value::as_array)`.
    pub fn get_array(&self, key: &str) -> (r: Option<&Vec<Json>>)
        ensures
            match r {
                Some(v) => self@.get_array(key@) == Some(views(v@)),
                None => self@.get_array(key@) is None,
            },
    {
        match self.get(key) {
            Some(v) => v.as_array(),
            None => None,
        }
    }

    /// `value.get(key).and_then(Value::as_bool)`.
    pub fn get_bool(&self, key: &str) -> (r: Option<bool>)
        ensures
            r == self@.get_bool(key@),
    {
        match self.get(key) {
            Some(v) => v.as_bool(),
            None => None,
        }
    }

    /// `value.get(key).and_then(Value::as_u64)`.
    pub fn get_u64(&self, key: &str) -> (r: Option<u64>)
        ensures
            r == self@.get_u64(key@),
    {
        match self.get(key) {
            Some(v) => v.as_u64(),
            None => None,
        }
    }

    /// Sets a member of an object; other documents are left unchanged.
    pub fn insert(&mut self, key: &str, value: Json)
        ensures
            final(self)@ == old(self)@.insert(key@, value@),
    {
        proof {
            old(self).lemma_array_view();
        }
        if let Json::Object(m) = self {
            let ghost before = *m;
            match Self::key_position(m, key) {
                Some(i) => {
                    m.set(i, (key.to_owned(), value));
                    proof {
                        assert(member_views(m@) =~= member_insert(member_views(before@), key@, value@));
                    }
                },
                None => {
                    m.push((key.to_owned(), value));
                    proof {
                        assert(member_views(m@) =~= member_insert(member_views(before@), key@, value@));
                    }
                },
            }
            proof {
                Json::Object(*m).lemma_array_view();
            }
        }
    }

    /// Removes a member of an object; other documents are left unchanged.
    pub fn remove(&mut self, key: &str)
        ensures
            final(self)@ == old(self)@.remove(key@),
    {
        proof {
            old(self).lemma_array_view();
        }
        if let Json::Object(m) = self {
            let ghost before = *m;
            match Self::key_position(m, key) {
                Some(i) => {
                    m.remove(i);
                    proof {
                        assert(member_views(m@) =~= member_remove(member_views(before@), key@));
                    }
                },
                None => {},
            }
            proof {
                Json::Object(*m).lemma_array_view();
            }
        }
    }
}

} // verus!
