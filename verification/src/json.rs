//! A JSON document model: the values that requests, responses and tool calls are made of.
//!
//! Objects keep their members ordered by key, as `serde_json`'s default map does, and
//! hold each key at most once.
use vstd::prelude::*;
use crate::text::{chars_lt, lemma_chars_lt_total, lemma_chars_lt_transitive, owned, text_eq, text_lt};

verus! {

broadcast use vstd::std_specs::vec::group_vec_axioms;

/// A JSON number: an unsigned or negative integer, or a floating-point number held by
/// its decimal text (the library does no floating-point arithmetic).
#[derive(Debug, Clone)]
pub enum Number {
    PosInt(u64),
    NegInt(i64),
    Float(String),
}

/// A JSON value.
#[derive(Debug)]
pub enum Json {
    Null,
    Bool(bool),
    Number(Number),
    Str(String),
    Array(Vec<Json>),
    /// Members in key order, each key once.
    Object(Vec<(String, Json)>),
}

/// The mathematical form of a `Number`.
pub enum NumberV {
    PosInt(u64),
    NegInt(i64),
    Float(Seq<char>),
}

/// The mathematical form of a `Json` value.
pub enum JsonV {
    Null,
    Bool(bool),
    Number(NumberV),
    Str(Seq<char>),
    Array(Seq<JsonV>),
    Object(Seq<(Seq<char>, JsonV)>),
}

impl View for Number {
    type V = NumberV;

    open spec fn view(&self) -> NumberV {
        match self {
            Number::PosInt(n) => NumberV::PosInt(*n),
            Number::NegInt(n) => NumberV::NegInt(*n),
            Number::Float(t) => NumberV::Float(t@),
        }
    }
}

impl Json {
    pub open spec fn model(self) -> JsonV
        decreases self,
    {
        match self {
            Json::Null => JsonV::Null,
            Json::Bool(b) => JsonV::Bool(b),
            Json::Number(n) => JsonV::Number(n@),
            Json::Str(s) => JsonV::Str(s@),
            Json::Array(items) => JsonV::Array(
                Seq::new(
                    items.len() as nat,
                    |i: int|
                        if 0 <= i < items.len() {
                            items[i].model()
                        } else {
                            JsonV::Null
                        },
                ),
            ),
            Json::Object(m) => JsonV::Object(
                Seq::new(
                    m.len() as nat,
                    |i: int|
                        if 0 <= i < m.len() {
                            (m[i].0@, m[i].1.model())
                        } else {
                            (Seq::empty(), JsonV::Null)
                        },
                ),
            ),
        }
    }
}

impl View for Json {
    type V = JsonV;

    open spec fn view(&self) -> JsonV {
        self.model()
    }
}

/// The mathematical form of a list of values.
pub open spec fn items_view(items: Seq<Json>) -> Seq<JsonV> {
    items.map_values(|j: Json| j@)
}

/// The mathematical form of a list of object members.
pub open spec fn entries_view(m: Seq<(String, Json)>) -> Seq<(Seq<char>, JsonV)> {
    m.map_values(|e: (String, Json)| (e.0@, e.1@))
}

pub proof fn lemma_array_view(items: Vec<Json>)
    ensures
        Json::Array(items)@ == JsonV::Array(items_view(items@)),
{
    let s = Json::Array(items).model()->Array_0;
    assert(s =~= items_view(items@));
}

pub proof fn lemma_object_view(m: Vec<(String, Json)>)
    ensures
        Json::Object(m)@ == JsonV::Object(entries_view(m@)),
{
    let s = Json::Object(m).model()->Object_0;
    assert(s =~= entries_view(m@));
}

pub proof fn lemma_items_view_skip(s: Seq<Json>, n: int)
    requires
        0 <= n <= s.len(),
    ensures
        items_view(s.skip(n)) == items_view(s).skip(n),
{
    assert(items_view(s.skip(n)) =~= items_view(s).skip(n));
}

pub proof fn lemma_entries_view_skip(m: Seq<(String, Json)>, n: int)
    requires
        0 <= n <= m.len(),
    ensures
        entries_view(m.skip(n)) == entries_view(m).skip(n),
{
    assert(entries_view(m.skip(n)) =~= entries_view(m).skip(n));
}

/// The value that an object's members give to `key`: the first member with that key.
pub open spec fn obj_get(m: Seq<(Seq<char>, JsonV)>, key: Seq<char>) -> Option<JsonV>
    decreases m.len(),
{
    if m.len() == 0 {
        None
    } else if m[0].0 == key {
        Some(m[0].1)
    } else {
        obj_get(m.drop_first(), key)
    }
}

/// The index of the first member with `key` (the length when there is none).
pub open spec fn obj_find(m: Seq<(Seq<char>, JsonV)>, key: Seq<char>) -> nat
    decreases m.len(),
{
    if m.len() == 0 {
        0
    } else if m[0].0 == key {
        0
    } else {
        1 + obj_find(m.drop_first(), key)
    }
}

pub proof fn lemma_obj_find(m: Seq<(Seq<char>, JsonV)>, key: Seq<char>)
    ensures
        obj_find(m, key) <= m.len(),
        obj_find(m, key) < m.len() ==> m[obj_find(m, key) as int].0 == key,
        obj_get(m, key) == if obj_find(m, key) < m.len() {
            Some(m[obj_find(m, key) as int].1)
        } else {
            None::<JsonV>
        },
    decreases m.len(),
{
    if m.len() > 0 && m[0].0 != key {
        lemma_obj_find(m.drop_first(), key);
    }
}

/// The members after `key` is set to `value`: a member with that key is replaced in
/// place, otherwise the new member goes before the first larger key.
pub open spec fn obj_insert(m: Seq<(Seq<char>, JsonV)>, key: Seq<char>, value: JsonV) -> Seq<
    (Seq<char>, JsonV),
>
    decreases m.len(),
{
    if m.len() == 0 {
        seq![(key, value)]
    } else if m[0].0 == key {
        seq![(key, value)] + m.drop_first()
    } else if chars_lt(key, m[0].0) {
        seq![(key, value)] + m
    } else {
        seq![m[0]] + obj_insert(m.drop_first(), key, value)
    }
}

/// The members of an object built by setting each pair in turn, starting empty.
pub open spec fn obj_of(pairs: Seq<(Seq<char>, JsonV)>) -> Seq<(Seq<char>, JsonV)>
    decreases pairs.len(),
{
    if pairs.len() == 0 {
        Seq::empty()
    } else {
        obj_insert(obj_of(pairs.drop_last()), pairs.last().0, pairs.last().1)
    }
}

/// Keys strictly increasing: the shape every object of the library has.
pub open spec fn keys_sorted(m: Seq<(Seq<char>, JsonV)>) -> bool {
    forall|i: int, j: int| 0 <= i < j < m.len() ==> chars_lt(#[trigger] m[i].0, #[trigger] m[j].0)
}

impl JsonV {
    /// `Value::get` with a string key: the member of an object, `None` otherwise.
    pub open spec fn get(self, key: Seq<char>) -> Option<JsonV> {
        match self {
            JsonV::Object(m) => obj_get(m, key),
            _ => None,
        }
    }

    pub open spec fn as_str(self) -> Option<Seq<char>> {
        match self {
            JsonV::Str(s) => Some(s),
            _ => None,
        }
    }

    pub open spec fn as_bool(self) -> Option<bool> {
        match self {
            JsonV::Bool(b) => Some(b),
            _ => None,
        }
    }

    /// `Value::as_u64`: only non-negative integers.
    pub open spec fn as_u64(self) -> Option<u64> {
        match self {
            JsonV::Number(NumberV::PosInt(n)) => Some(n),
            _ => None,
        }
    }

    pub open spec fn as_array(self) -> Option<Seq<JsonV>> {
        match self {
            JsonV::Array(items) => Some(items),
            _ => None,
        }
    }

    pub open spec fn as_object(self) -> Option<Seq<(Seq<char>, JsonV)>> {
        match self {
            JsonV::Object(m) => Some(m),
            _ => None,
        }
    }

    /// `value.get(key).and_then(Value::as_str)`.
    pub open spec fn get_str(self, key: Seq<char>) -> Option<Seq<char>> {
        match self.get(key) {
            Some(v) => v.as_str(),
            None => None,
        }
    }

    /// `value.get(key).and_then(Value::as_bool)`.
    pub open spec fn get_bool(self, key: Seq<char>) -> Option<bool> {
        match self.get(key) {
            Some(v) => v.as_bool(),
            None => None,
        }
    }

    /// `value.get(key).and_then(Value::as_u64)`.
    pub open spec fn get_u64(self, key: Seq<char>) -> Option<u64> {
        match self.get(key) {
            Some(v) => v.as_u64(),
            None => None,
        }
    }

    /// `value.get(key).and_then(Value::as_array)`.
    pub open spec fn get_array(self, key: Seq<char>) -> Option<Seq<JsonV>> {
        match self.get(key) {
            Some(v) => v.as_array(),
            None => None,
        }
    }

    /// `value.get(key).and_then(Value::as_object)`.
    pub open spec fn get_object(self, key: Seq<char>) -> Option<Seq<(Seq<char>, JsonV)>> {
        match self.get(key) {
            Some(v) => v.as_object(),
            None => None,
        }
    }

    pub open spec fn is_object(self) -> bool {
        self is Object
    }

    pub open spec fn is_number(self) -> bool {
        self is Number
    }

    /// The object that setting `key` to `value` in this object gives.
    pub open spec fn with(self, key: Seq<char>, value: JsonV) -> JsonV {
        match self {
            JsonV::Object(m) => JsonV::Object(obj_insert(m, key, value)),
            _ => self,
        }
    }
}

/// A string value.
pub open spec fn jstr(s: Seq<char>) -> JsonV {
    JsonV::Str(s)
}

/// An object built from its members in order.
pub open spec fn jobj(pairs: Seq<(Seq<char>, JsonV)>) -> JsonV {
    JsonV::Object(obj_of(pairs))
}

/// The view of an optional borrowed value.
pub open spec fn opt_view(o: Option<&Json>) -> Option<JsonV> {
    match o {
        Some(j) => Some(j@),
        None => None,
    }
}

/// The view of an optional string slice.
pub open spec fn opt_str_view(o: Option<&str>) -> Option<Seq<char>> {
    match o {
        Some(s) => Some(s@),
        None => None,
    }
}

/// Sets `key` to `value` in a list of object members.
pub fn members_insert(m: &mut Vec<(String, Json)>, key: String, value: Json)
    ensures
        entries_view(final(m)@) == obj_insert(entries_view(old(m)@), key@, value@),
{
    let ghost old_v = entries_view(m@);
    let ghost k = key@;
    let ghost v = value@;
    let mut i: usize = 0;
    assert(old_v.skip(0) =~= old_v);
    assert(old_v.take(0) + obj_insert(old_v, k, v) =~= obj_insert(old_v, k, v));
    while i < m.len()
        invariant
            i <= m.len(),
            entries_view(m@) == old_v,
            old_v == entries_view(old(m)@),
            k == key@,
            v == value@,
            obj_insert(old_v, k, v) == old_v.take(i as int) + obj_insert(old_v.skip(i as int), k, v),
        decreases m.len() - i,
    {
        let ghost rest = old_v.skip(i as int);
        assert(rest[0] == old_v[i as int]);
        assert(rest.drop_first() =~= old_v.skip(i + 1));
        if text_eq(m[i].0.as_str(), key.as_str()) {
            assert(obj_insert(rest, k, v) == seq![(k, v)] + rest.drop_first());
            m.set(i, (key, value));
            assert(entries_view(m@) =~= old_v.take(i as int) + (seq![(k, v)] + rest.drop_first()));
            return;
        }
        if text_lt(key.as_str(), m[i].0.as_str()) {
            assert(obj_insert(rest, k, v) == seq![(k, v)] + rest);
            m.insert(i, (key, value));
            assert(entries_view(m@) =~= old_v.take(i as int) + (seq![(k, v)] + rest));
            return;
        }
        assert(old_v.take(i + 1) =~= old_v.take(i as int) + seq![old_v[i as int]]);
        i += 1;
    }
    assert(old_v.skip(i as int) =~= Seq::<(Seq<char>, JsonV)>::empty());
    m.push((key, value));
    assert(entries_view(m@) =~= old_v.take(i as int) + seq![(k, v)]);
}

/// Looks `key` up in a list of object members.
pub fn members_get<'a>(m: &'a Vec<(String, Json)>, key: &str) -> (r: Option<&'a Json>)
    ensures
        opt_view(r) == obj_get(entries_view(m@), key@),
{
    let ghost mv = entries_view(m@);
    let mut i: usize = 0;
    assert(mv.skip(0) =~= mv);
    while i < m.len()
        invariant
            i <= m.len(),
            mv == entries_view(m@),
            obj_get(mv, key@) == obj_get(mv.skip(i as int), key@),
        decreases m.len() - i,
    {
        assert(mv.skip(i as int).drop_first() =~= mv.skip(i + 1));
        if text_eq(m[i].0.as_str(), key) {
            return Some(&m[i].1);
        }
        i += 1;
    }
    None
}

/// Whether an optional string is present and equal to `t`.
pub fn opt_is(o: Option<&str>, t: &str) -> (r: bool)
    ensures
        r == (opt_str_view(o) == Some(t@)),
{
    match o {
        Some(x) => text_eq(x, t),
        None => false,
    }
}

/// Finds the index of the first member with `key`.
pub fn members_find(m: &Vec<(String, Json)>, key: &str) -> (r: Option<usize>)
    ensures
        match r {
            Some(i) => i < m.len() && i == obj_find(entries_view(m@), key@),
            None => obj_find(entries_view(m@), key@) == m.len(),
        },
{
    let ghost mv = entries_view(m@);
    let mut i: usize = 0;
    assert(mv.skip(0) =~= mv);
    while i < m.len()
        invariant
            i <= m.len(),
            mv == entries_view(m@),
            obj_find(mv, key@) == i + obj_find(mv.skip(i as int), key@),
        decreases m.len() - i,
    {
        assert(mv.skip(i as int).drop_first() =~= mv.skip(i + 1));
        if text_eq(m[i].0.as_str(), key) {
            return Some(i);
        }
        i += 1;
    }
    None
}

impl Json {
    /// A string value holding a copy of `s`.
    pub fn text(s: &str) -> (r: Json)
        ensures
            r@ == JsonV::Str(s@),
    {
        Json::Str(owned(s))
    }

    /// An object built by setting each pair in turn.
    pub fn object(pairs: Vec<(String, Json)>) -> (r: Json)
        ensures
            r@ == jobj(entries_view(pairs@)),
    {
        let ghost pv = entries_view(pairs@);
        let mut pairs = pairs;
        let mut m: Vec<(String, Json)> = Vec::new();
        let ghost mut k: int = 0;
        assert(pv.skip(0) =~= pv);
        assert(obj_of(pv.take(0)) =~= Seq::<(Seq<char>, JsonV)>::empty());
        while pairs.len() > 0
            invariant
                0 <= k <= pv.len(),
                entries_view(pairs@) == pv.skip(k),
                entries_view(m@) == obj_of(pv.take(k)),
            decreases pairs.len(),
        {
            assert(pv.skip(k).len() == pairs.len());
            let ghost old_pairs = pairs@;
            let p = pairs.remove(0);
            proof {
                assert(k < pv.len());
                assert(old_pairs[0] == p);
                assert(pairs@ =~= old_pairs.skip(1));
                lemma_entries_view_skip(old_pairs, 1);
                assert(pv.skip(k).skip(1) =~= pv.skip(k + 1));
                assert(pv.skip(k)[0] == (p.0@, p.1@));
                assert(pv.take(k + 1).drop_last() =~= pv.take(k));
                assert(entries_view(pairs@) =~= pv.skip(k + 1));
            }
            members_insert(&mut m, p.0, p.1);
            proof {
                k = k + 1;
            }
        }
        assert(pv.take(k) =~= pv);
        proof {
            lemma_object_view(m);
        }
        Json::Object(m)
    }
}

impl Json {
    /// `Value::get` with a string key.
    pub fn get(&self, key: &str) -> (r: Option<&Json>)
        ensures
            opt_view(r) == self@.get(key@),
    {
        match self {
            Json::Object(m) => {
                proof {
                    lemma_object_view(*m);
                }
                members_get(m, key)
            },
            _ => None,
        }
    }

    pub fn as_str(&self) -> (r: Option<&str>)
        ensures
            opt_str_view(r) == self@.as_str(),
    {
        match self {
            Json::Str(s) => Some(s.as_str()),
            _ => None,
        }
    }

    pub fn as_bool(&self) -> (r: Option<bool>)
        ensures
            r == self@.as_bool(),
    {
        match self {
            Json::Bool(b) => Some(*b),
            _ => None,
        }
    }

    pub fn as_u64(&self) -> (r: Option<u64>)
        ensures
            r == self@.as_u64(),
    {
        match self {
            Json::Number(Number::PosInt(n)) => Some(*n),
            _ => None,
        }
    }

    pub fn as_array(&self) -> (r: Option<&Vec<Json>>)
        ensures
            match r {
                Some(items) => self@.as_array() == Some(items_view(items@)),
                None => self@.as_array() is None,
            },
    {
        match self {
            Json::Array(items) => {
                proof {
                    lemma_array_view(*items);
                }
                Some(items)
            },
            _ => None,
        }
    }

    pub fn as_object(&self) -> (r: Option<&Vec<(String, Json)>>)
        ensures
            match r {
                Some(m) => self@.as_object() == Some(entries_view(m@)),
                None => self@.as_object() is None,
            },
    {
        match self {
            Json::Object(m) => {
                proof {
                    lemma_object_view(*m);
                }
                Some(m)
            },
            _ => None,
        }
    }

    pub fn is_object(&self) -> (r: bool)
        ensures
            r == self@.is_object(),
    {
        match self {
            Json::Object(_) => true,
            _ => false,
        }
    }

    pub fn is_number(&self) -> (r: bool)
        ensures
            r == self@.is_number(),
    {
        match self {
            Json::Number(_) => true,
            _ => false,
        }
    }

    /// `value.get(key).and_then(Value::as_str)`.
    pub fn get_str(&self, key: &str) -> (r: Option<&str>)
        ensures
            opt_str_view(r) == self@.get_str(key@),
    {
        match self.get(key) {
            Some(v) => v.as_str(),
            None => None,
        }
    }

    /// `value.get(key).and_then(Value::as_bool)`.
    pub fn get_bool(&self, key: &str) -> (r: Option<bool>)
        ensures
            r == self@.get_bool(key@),
    {
        match self.get(key) {
            Some(v) => v.as_bool(),
            None => None,
        }
    }

    /// `value.get(key).and_then(Value::as_u64)`.
    pub fn get_u64(&self, key: &str) -> (r: Option<u64>)
        ensures
            r == self@.get_u64(key@),
    {
        match self.get(key) {
            Some(v) => v.as_u64(),
            None => None,
        }
    }

    /// `value.get(key).and_then(Value::as_array)`.
    pub fn get_array(&self, key: &str) -> (r: Option<&Vec<Json>>)
        ensures
            match r {
                Some(items) => self@.get_array(key@) == Some(items_view(items@)),
                None => self@.get_array(key@) is None,
            },
    {
        match self.get(key) {
            Some(v) => v.as_array(),
            None => None,
        }
    }

    /// `value.get(key).and_then(Value::as_object)`.
    pub fn get_object(&self, key: &str) -> (r: Option<&Vec<(String, Json)>>)
        ensures
            match r {
                Some(m) => self@.get_object(key@) == Some(entries_view(m@)),
                None => self@.get_object(key@) is None,
            },
    {
        match self.get(key) {
            Some(v) => v.as_object(),
            None => None,
        }
    }

    /// Sets `key` to `value` in an object (`value[key] = ...` on a `Value::Object`).
    pub fn insert(&mut self, key: &str, value: Json)
        requires
            old(self)@ is Object,
        ensures
            final(self)@ == old(self)@.with(key@, value@),
    {
        match self {
            Json::Object(m) => {
                proof {
                    lemma_object_view(*m);
                }
                members_insert(m, owned(key), value);
                proof {
                    lemma_object_view(*m);
                }
            },
            _ => {},
        }
    }

    /// A copy of the value.
    #[verifier::loop_isolation(false)]
    pub fn deep_copy(&self) -> (r: Json)
        ensures
            r@ == self@,
        decreases self,
    {
        match self {
            Json::Null => Json::Null,
            Json::Bool(b) => Json::Bool(*b),
            Json::Number(Number::PosInt(n)) => Json::Number(Number::PosInt(*n)),
            Json::Number(Number::NegInt(n)) => Json::Number(Number::NegInt(*n)),
            Json::Number(Number::Float(t)) => Json::Number(Number::Float(t.clone())),
            Json::Str(s) => Json::Str(s.clone()),
            Json::Array(items) => {
                let mut out: Vec<Json> = Vec::new();
                let mut i: usize = 0;
                while i < items.len()
                    invariant
                        i <= items.len(),
                        items_view(out@) == items_view(items@).take(i as int),
                    decreases items.len() - i,
                {
                    let c = items[i].deep_copy();
                    out.push(c);
                    assert(items_view(out@) =~= items_view(items@).take(i + 1));
                    i += 1;
                }
                proof {
                    lemma_array_view(*items);
                    lemma_array_view(out);
                    assert(items_view(items@).take(items.len() as int) =~= items_view(items@));
                }
                Json::Array(out)
            },
            Json::Object(m) => {
                let mut out: Vec<(String, Json)> = Vec::new();
                let mut i: usize = 0;
                while i < m.len()
                    invariant
                        i <= m.len(),
                        entries_view(out@) == entries_view(m@).take(i as int),
                    decreases m.len() - i,
                {
                    let c = m[i].1.deep_copy();
                    out.push((m[i].0.clone(), c));
                    assert(entries_view(out@) =~= entries_view(m@).take(i + 1));
                    i += 1;
                }
                proof {
                    lemma_object_view(*m);
                    lemma_object_view(out);
                    assert(entries_view(m@).take(m.len() as int) =~= entries_view(m@));
                }
                Json::Object(out)
            },
        }
    }
}

/// The view of an optional owned value.
pub open spec fn opt_json_view(o: Option<Json>) -> Option<JsonV> {
    match o {
        Some(j) => Some(j@),
        None => None,
    }
}

/// A copy of a list of values.
pub fn copy_items(items: &Vec<Json>) -> (r: Vec<Json>)
    ensures
        items_view(r@) == items_view(items@),
{
    let mut out: Vec<Json> = Vec::new();
    let mut i: usize = 0;
    while i < items.len()
        invariant
            i <= items.len(),
            items_view(out@) == items_view(items@).take(i as int),
        decreases items.len() - i,
    {
        let c = items[i].deep_copy();
        let ghost before = out@;
        out.push(c);
        assert(items_view(out@) =~= items_view(before).push(c@));
        assert(items_view(items@).take(i + 1) =~= items_view(items@).take(i as int).push(items@[i as int]@));
        i += 1;
    }
    assert(items_view(items@).take(items.len() as int) =~= items_view(items@));
    out
}

/// Reading a key right after setting it gives the value set, and setting a key leaves
/// every other key's value as it was.
pub proof fn law_get_after_insert(m: Seq<(Seq<char>, JsonV)>, key: Seq<char>, value: JsonV, other: Seq<char>)
    ensures
        obj_get(obj_insert(m, key, value), key) == Some(value),
        other != key ==> obj_get(obj_insert(m, key, value), other) == obj_get(m, other),
    decreases m.len(),
{
    if m.len() > 0 && m[0].0 != key && !chars_lt(key, m[0].0) {
        law_get_after_insert(m.drop_first(), key, value, other);
        assert((seq![m[0]] + obj_insert(m.drop_first(), key, value)).drop_first() =~= obj_insert(m.drop_first(), key, value));
    } else if m.len() > 0 && m[0].0 == key {
        assert((seq![(key, value)] + m.drop_first()).drop_first() =~= m.drop_first());
    } else if m.len() > 0 {
        assert((seq![(key, value)] + m).drop_first() =~= m);
    } else {
        assert(seq![(key, value)].drop_first() =~= m);
    }
}

proof fn lemma_insert_keys(m: Seq<(Seq<char>, JsonV)>, key: Seq<char>, value: JsonV)
    ensures
        forall|i: int| 0 <= i < obj_insert(m, key, value).len() ==> #[trigger] obj_insert(m, key, value)[i].0 == key
            || exists|j: int| 0 <= j < m.len() && m[j].0 == obj_insert(m, key, value)[i].0,
    decreases m.len(),
{
    if m.len() > 0 && m[0].0 != key && !chars_lt(key, m[0].0) {
        let rest = m.drop_first();
        lemma_insert_keys(rest, key, value);
        let r = obj_insert(m, key, value);
        assert forall|i: int| 0 <= i < r.len() implies #[trigger] r[i].0 == key || exists|j: int|
            0 <= j < m.len() && m[j].0 == r[i].0 by {
            if i == 0 {
                assert(m[0].0 == r[0].0);
            } else {
                assert(r[i] == obj_insert(rest, key, value)[i - 1]);
                if r[i].0 != key {
                    let j = choose|j: int| 0 <= j < rest.len() && rest[j].0 == obj_insert(rest, key, value)[i - 1].0;
                    assert(m[j + 1] == rest[j]);
                }
            }
        }
    } else if m.len() > 0 && m[0].0 == key {
        let r = obj_insert(m, key, value);
        assert forall|i: int| 0 <= i < r.len() implies #[trigger] r[i].0 == key || exists|j: int|
            0 <= j < m.len() && m[j].0 == r[i].0 by {
            if i > 0 {
                assert(r[i] == m[i]);
            }
        }
    } else if m.len() > 0 {
        let r = obj_insert(m, key, value);
        assert forall|i: int| 0 <= i < r.len() implies #[trigger] r[i].0 == key || exists|j: int|
            0 <= j < m.len() && m[j].0 == r[i].0 by {
            if i > 0 {
                assert(r[i] == m[i - 1]);
            }
        }
    }
}

/// Setting a key in an object whose keys increase strictly keeps them increasing
/// strictly: objects never hold a key twice and stay in key order.
pub proof fn law_insert_keeps_keys_sorted(m: Seq<(Seq<char>, JsonV)>, key: Seq<char>, value: JsonV)
    requires
        keys_sorted(m),
    ensures
        keys_sorted(obj_insert(m, key, value)),
    decreases m.len(),
{
    let r = obj_insert(m, key, value);
    if m.len() == 0 {
    } else if m[0].0 == key {
        assert forall|i: int, j: int| 0 <= i < j < r.len() implies chars_lt(#[trigger] r[i].0, #[trigger] r[j].0) by {
            assert(r[j] == m[j]);
            if i > 0 {
                assert(r[i] == m[i]);
            }
        }
    } else if chars_lt(key, m[0].0) {
        assert forall|i: int, j: int| 0 <= i < j < r.len() implies chars_lt(#[trigger] r[i].0, #[trigger] r[j].0) by {
            assert(r[j] == m[j - 1]);
            if i > 0 {
                assert(r[i] == m[i - 1]);
            } else if j > 1 {
                lemma_chars_lt_transitive(key, m[0].0, m[j - 1].0);
            }
        }
    } else {
        let rest = m.drop_first();
        assert(keys_sorted(rest)) by {
            assert forall|i: int, j: int| 0 <= i < j < rest.len() implies chars_lt(#[trigger] rest[i].0, #[trigger] rest[j].0) by {
                assert(rest[i] == m[i + 1] && rest[j] == m[j + 1]);
            }
        }
        law_insert_keeps_keys_sorted(rest, key, value);
        lemma_insert_keys(rest, key, value);
        lemma_chars_lt_total(key, m[0].0);
        let ri = obj_insert(rest, key, value);
        assert forall|i: int, j: int| 0 <= i < j < r.len() implies chars_lt(#[trigger] r[i].0, #[trigger] r[j].0) by {
            assert(r[j] == ri[j - 1]);
            if i > 0 {
                assert(r[i] == ri[i - 1]);
            } else {
                assert(r[0] == m[0]);
                if ri[j - 1].0 != key {
                    let t = choose|t: int| 0 <= t < rest.len() && rest[t].0 == ri[j - 1].0;
                    assert(m[t + 1] == rest[t]);
                }
            }
        }
    }
}

/// The value the last pair with `key` gives it.
pub open spec fn pairs_get(pairs: Seq<(Seq<char>, JsonV)>, key: Seq<char>) -> Option<JsonV>
    decreases pairs.len(),
{
    if pairs.len() == 0 {
        None
    } else if pairs.last().0 == key {
        Some(pairs.last().1)
    } else {
        pairs_get(pairs.drop_last(), key)
    }
}

/// Reading a key of an object built from pairs gives the value of the last pair with it.
pub proof fn lemma_obj_of_get(pairs: Seq<(Seq<char>, JsonV)>, key: Seq<char>)
    ensures
        obj_get(obj_of(pairs), key) == pairs_get(pairs, key),
    decreases pairs.len(),
{
    if pairs.len() > 0 {
        lemma_obj_of_get(pairs.drop_last(), key);
        law_get_after_insert(obj_of(pairs.drop_last()), pairs.last().0, pairs.last().1, key);
    }
}

} // verus!
