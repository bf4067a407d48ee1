//! Structured values in the shape of JSON.
//!
//! Tool parameters, tool output and context variables carry such values. The
//! library reads their kind and their scalar content; lists and records are
//! carried through unchanged.

use vstd::prelude::*;
use crate::textmap::{first_at, lemma_has_first, lemma_position, position, TextMap};

verus! {

/// The six kinds of value.
#[derive(Clone, Copy, Debug, PartialEq, Eq, Hash, Structural)]
pub enum JsonKind {
    Null,
    Boolean,
    Number,
    Text,
    Array,
    Object,
}

/// A structured value. A floating-point number is held by the 64 bits of its
/// IEEE 754 double-precision encoding.
#[derive(Debug, PartialEq)]
pub enum JsonValue {
    Null,
    Bool(bool),
    Integer(i64),
    Unsigned(u64),
    Float { bits: u64 },
    Text(String),
    Array(Vec<JsonValue>),
    Object(Vec<(String, JsonValue)>),
}

/// The mathematical content of a [`JsonValue`].
pub ghost enum JsonData {
    Null,
    Bool(bool),
    Integer(i64),
    Unsigned(u64),
    Float { bits: u64 },
    Text(Seq<char>),
    Array(Seq<JsonData>),
    Object(Seq<(Seq<char>, JsonData)>),
}

impl JsonData {
    pub open spec fn kind(self) -> JsonKind {
        match self {
            JsonData::Null => JsonKind::Null,
            JsonData::Bool(_) => JsonKind::Boolean,
            JsonData::Integer(_) => JsonKind::Number,
            JsonData::Unsigned(_) => JsonKind::Number,
            JsonData::Float { .. } => JsonKind::Number,
            JsonData::Text(_) => JsonKind::Text,
            JsonData::Array(_) => JsonKind::Array,
            JsonData::Object(_) => JsonKind::Object,
        }
    }

    /// The text of a text value.
    pub open spec fn text(self) -> Option<Seq<char>> {
        match self {
            JsonData::Text(s) => Some(s),
            _ => None,
        }
    }

    /// The number as a signed 64-bit integer, where it is an integer in that
    /// range.
    pub open spec fn integer(self) -> Option<i64> {
        match self {
            JsonData::Integer(n) => Some(n),
            JsonData::Unsigned(n) => if n <= i64::MAX as u64 { Some(n as i64) } else { None },
            _ => None,
        }
    }

    /// The truth value of a boolean.
    pub open spec fn boolean(self) -> Option<bool> {
        match self {
            JsonData::Bool(b) => Some(b),
            _ => None,
        }
    }
}

impl View for JsonValue {
    type V = JsonData;

    open spec fn view(&self) -> JsonData
        decreases self,
    {
        match self {
            JsonValue::Null => JsonData::Null,
            JsonValue::Bool(b) => JsonData::Bool(*b),
            JsonValue::Integer(n) => JsonData::Integer(*n),
            JsonValue::Unsigned(n) => JsonData::Unsigned(*n),
            JsonValue::Float { bits } => JsonData::Float { bits: *bits },
            JsonValue::Text(s) => JsonData::Text(s@),
            JsonValue::Array(items) => JsonData::Array(
                Seq::new(
                    items@.len(),
                    |i: int|
                        if 0 <= i < items@.len() {
                            items@[i].view()
                        } else {
                            JsonData::Null
                        },
                ),
            ),
            JsonValue::Object(fields) => JsonData::Object(
                Seq::new(
                    fields@.len(),
                    |i: int|
                        if 0 <= i < fields@.len() {
                            (fields@[i].0@, fields@[i].1.view())
                        } else {
                            (Seq::empty(), JsonData::Null)
                        },
                ),
            ),
        }
    }
}

impl Clone for JsonValue {
    /// A deep copy.
    #[verifier::loop_isolation(false)]
    fn clone(&self) -> (copy: Self)
        ensures
            copy@ == self@,
        decreases self,
    {
        match self {
            JsonValue::Null => JsonValue::Null,
            JsonValue::Bool(b) => JsonValue::Bool(*b),
            JsonValue::Integer(n) => JsonValue::Integer(*n),
            JsonValue::Unsigned(n) => JsonValue::Unsigned(*n),
            JsonValue::Float { bits } => JsonValue::Float { bits: *bits },
            JsonValue::Text(s) => JsonValue::Text(s.clone()),
            JsonValue::Array(items) => {
                let mut out: Vec<JsonValue> = Vec::new();
                let mut i: usize = 0;
                while i < items.len()
                    invariant
                        i <= items.len(),
                        out@.len() == i,
                        forall|k: int| 0 <= k < i ==> out@[k]@ == items@[k]@,
                    decreases items.len() - i,
                {
                    proof {
                        vstd::std_specs::vec::axiom_vec_index_decreases(*items, i as int);
                    }
                    let item = items[i].clone();
                    out.push(item);
                    i += 1;
                }
                let copy = JsonValue::Array(out);
                assert(copy@->Array_0 =~= self@->Array_0);
                copy
            },
            JsonValue::Object(fields) => {
                let mut out: Vec<(String, JsonValue)> = Vec::new();
                let mut i: usize = 0;
                while i < fields.len()
                    invariant
                        i <= fields.len(),
                        out@.len() == i,
                        forall|k: int|
                            0 <= k < i ==> out@[k].0@ == fields@[k].0@ && out@[k].1@
                                == fields@[k].1@,
                    decreases fields.len() - i,
                {
                    proof {
                        vstd::std_specs::vec::axiom_vec_index_decreases(*fields, i as int);
                    }
                    let name = fields[i].0.clone();
                    let item = fields[i].1.clone();
                    out.push((name, item));
                    i += 1;
                }
                let copy = JsonValue::Object(out);
                assert(copy@->Object_0 =~= self@->Object_0);
                copy
            },
        }
    }
}

impl JsonValue {
    /// The kind of the value.
    pub fn kind(&self) -> (kind: JsonKind)
        ensures
            kind == self@.kind(),
    {
        match self {
            JsonValue::Null => JsonKind::Null,
            JsonValue::Bool(_) => JsonKind::Boolean,
            JsonValue::Integer(_) => JsonKind::Number,
            JsonValue::Unsigned(_) => JsonKind::Number,
            JsonValue::Float { .. } => JsonKind::Number,
            JsonValue::Text(_) => JsonKind::Text,
            JsonValue::Array(_) => JsonKind::Array,
            JsonValue::Object(_) => JsonKind::Object,
        }
    }

    /// The text of a text value, `None` for every other kind.
    pub fn as_str(&self) -> (text: Option<&str>)
        ensures
            text.is_some() == self@.text().is_some(),
            text matches Some(s) ==> self@.text() == Some(s@),
    {
        match self {
            JsonValue::Text(s) => Some(s.as_str()),
            _ => None,
        }
    }

    /// The number as a signed 64-bit integer, `None` for a float, for an
    /// integer above `i64::MAX` and for every other kind.
    pub fn as_i64(&self) -> (number: Option<i64>)
        ensures
            number == self@.integer(),
    {
        match self {
            JsonValue::Integer(n) => Some(*n),
            JsonValue::Unsigned(n) => if *n <= i64::MAX as u64 {
                Some(*n as i64)
            } else {
                None
            },
            _ => None,
        }
    }

    /// The truth value of a boolean, `None` for every other kind.
    pub fn as_bool(&self) -> (truth: Option<bool>)
        ensures
            truth == self@.boolean(),
    {
        match self {
            JsonValue::Bool(b) => Some(*b),
            _ => None,
        }
    }
}

/// The content of a map of structured values.
pub open spec fn json_map(map: TextMap<JsonValue>) -> Map<Seq<char>, JsonData> {
    Map::new(|key: Seq<char>| map.model().contains_key(key), |key: Seq<char>| map.model()[key]@)
}

/// Maps with the same names in the same places, and values of the same
/// content, have the same content.
pub proof fn lemma_same_entries(a: TextMap<JsonValue>, b: TextMap<JsonValue>)
    requires
        a.entries@.len() == b.entries@.len(),
        forall|i: int|
            0 <= i < a.entries@.len() ==> a.entries@[i].0@ == b.entries@[i].0@ && a.entries@[i].1@
                == b.entries@[i].1@,
    ensures
        json_map(a) == json_map(b),
{
    assert forall|key: Seq<char>| a.contains(key) == b.contains(key) by {
        if a.contains(key) {
            let i = choose|i: int| 0 <= i < a.entries@.len() && a.entries@[i].0@ == key;
            assert(b.entries@[i].0@ == key);
        }
        if b.contains(key) {
            let i = choose|i: int| 0 <= i < b.entries@.len() && b.entries@[i].0@ == key;
            assert(a.entries@[i].0@ == key);
        }
    }
    assert forall|key: Seq<char>| a.contains(key) implies a.value(key)@ == b.value(key)@ by {
        lemma_has_first(a.entries@, key);
        let p = position(a.entries@, key);
        assert forall|j: int| 0 <= j < p implies b.entries@[j].0@ != key by {
            assert(a.entries@[j].0@ != key);
        }
        assert(first_at(b.entries@, key, p));
        lemma_position(b.entries@, key, p);
    }
    assert(json_map(a) =~= json_map(b));
}

/// A deep copy of a map of structured values.
pub fn clone_values(map: &TextMap<JsonValue>) -> (copy: TextMap<JsonValue>)
    ensures
        json_map(copy) == json_map(*map),
        copy.entries@.len() == map.entries@.len(),
        forall|i: int|
            0 <= i < map.entries@.len() ==> copy.entries@[i].0@ == map.entries@[i].0@
                && copy.entries@[i].1@ == map.entries@[i].1@,
{
    let mut entries: Vec<(String, JsonValue)> = Vec::new();
    let mut i: usize = 0;
    while i < map.entries.len()
        invariant
            i <= map.entries@.len(),
            entries@.len() == i,
            forall|k: int|
                0 <= k < i ==> entries@[k].0@ == map.entries@[k].0@ && entries@[k].1@
                    == map.entries@[k].1@,
        decreases map.entries.len() - i,
    {
        let name = map.entries[i].0.clone();
        let value = map.entries[i].1.clone();
        entries.push((name, value));
        i += 1;
    }
    let copy = TextMap { entries };
    proof {
        lemma_same_entries(copy, *map);
    }
    copy
}

} // verus!
