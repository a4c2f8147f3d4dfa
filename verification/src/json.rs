//! A plain model of a JSON document, holding what the server reads of the
//! reporter's output and of editor settings, and the parsing of JSON text
//! through `serde_json`.

use vstd::prelude::*;
use crate::text::str_eq;

verus! {

/// A JSON number, as far as the server distinguishes numbers: a non-negative
/// integer, a negative integer, or any other number.
#[derive(Debug, Clone, Copy, PartialEq, Eq, Structural)]
pub enum JsonNumber {
    PosInt(u64),
    NegInt(i64),
    Float,
}

/// A JSON value. The entries of an object keep their order; a key occurs at
/// most once among them.
#[derive(Debug)]
pub enum JsonValue {
    Null,
    Bool(bool),
    Number(JsonNumber),
    String(String),
    Array(Vec<JsonValue>),
    Object(Vec<(String, JsonValue)>),
}

/// The position of the first entry of `entries` under `key`.
pub open spec fn entry_position(entries: Seq<(String, JsonValue)>, key: Seq<char>) -> Option<int> {
    if exists|i: int| 0 <= i < entries.len() && entries[i].0@ == key {
        Some(choose|i: int| 0 <= i < entries.len() && entries[i].0@ == key
            && forall|j: int| 0 <= j < i ==> entries[j].0@ != key)
    } else {
        None
    }
}

/// The value under `key` in an object; `None` for a missing key and for any
/// value that is not an object.
pub open spec fn field(v: JsonValue, key: Seq<char>) -> Option<JsonValue> {
    match v {
        JsonValue::Object(entries) => match entry_position(entries@, key) {
            Some(i) => Some(entries@[i].1),
            None => None,
        },
        _ => None,
    }
}

/// Indexing by a key: the value under `key`, or `Null` where there is none.
pub open spec fn at_key(v: JsonValue, key: Seq<char>) -> JsonValue {
    match field(v, key) {
        Some(x) => x,
        None => JsonValue::Null,
    }
}

/// Indexing by a position: the element at `i` of an array, or `Null` where
/// there is none.
pub open spec fn at_index(v: JsonValue, i: int) -> JsonValue {
    match v {
        JsonValue::Array(items) => if 0 <= i < items.len() { items@[i] } else { JsonValue::Null },
        _ => JsonValue::Null,
    }
}

/// The text of a string value.
pub open spec fn string_of(v: JsonValue) -> Option<Seq<char>> {
    match v {
        JsonValue::String(s) => Some(s@),
        _ => None,
    }
}

/// The value of a non-negative integer.
pub open spec fn u64_of(v: JsonValue) -> Option<u64> {
    match v {
        JsonValue::Number(JsonNumber::PosInt(n)) => Some(n),
        _ => None,
    }
}

/// The elements of an array.
pub open spec fn array_of(v: JsonValue) -> Option<Seq<JsonValue>> {
    match v {
        JsonValue::Array(items) => Some(items@),
        _ => None,
    }
}

#[verifier::external_type_specification]
#[verifier::external_body]
pub struct ExSerdeJsonValue(serde_json::Value);

/// What `serde_json` parses `text` into, as a plain JSON value; `None` where
/// `text` is no JSON document.
pub uninterp spec fn json_of(text: Seq<char>) -> Option<JsonValue>;

/// Calls `serde_json::from_str` for a `serde_json::Value`. Claimed: the result
/// is the named parse of `text`, converted to the plain model (`None` for an
/// error). What the parse gives is not restated here.
#[verifier::external_body]
pub(crate) fn parse_json(text: &str) -> (r: Option<JsonValue>)
    ensures
        r == json_of(text@),
{
    match serde_json::from_str::<serde_json::Value>(text) {
        Ok(v) => Some(json_model(&v)),
        Err(_) => None,
    }
}

/// Converts a `serde_json::Value` to the plain model, variant for variant.
#[verifier::external_body]
fn json_model(v: &serde_json::Value) -> JsonValue {
    match v {
        serde_json::Value::Null => JsonValue::Null,
        serde_json::Value::Bool(b) => JsonValue::Bool(*b),
        serde_json::Value::Number(n) => JsonValue::Number(match (n.as_u64(), n.as_i64()) {
            (Some(u), _) => JsonNumber::PosInt(u),
            (None, Some(i)) => JsonNumber::NegInt(i),
            (None, None) => JsonNumber::Float,
        }),
        serde_json::Value::String(s) => JsonValue::String(s.clone()),
        serde_json::Value::Array(a) => JsonValue::Array(a.iter().map(json_model).collect()),
        serde_json::Value::Object(o) => JsonValue::Object(o.iter().map(|(k, x)| (k.clone(), json_model(x))).collect()),
    }
}

proof fn lemma_first_entry(entries: Seq<(String, JsonValue)>, key: Seq<char>, i: int)
    requires
        0 <= i < entries.len(),
        entries[i].0@ == key,
        forall|j: int| 0 <= j < i ==> entries[j].0@ != key,
    ensures
        entry_position(entries, key) == Some(i),
{
    let k = choose|k: int| 0 <= k < entries.len() && entries[k].0@ == key
        && forall|j: int| 0 <= j < k ==> entries[j].0@ != key;
    assert(0 <= k < entries.len() && entries[k].0@ == key
        && forall|j: int| 0 <= j < k ==> entries[j].0@ != key);
    if k < i {
    } else if i < k {
    }
}

impl JsonValue {
    /// The value under `key` in an object.
    pub fn get(&self, key: &str) -> (r: Option<&JsonValue>)
        ensures
            match r {
                Some(x) => field(*self, key@) == Some(*x),
                None => field(*self, key@) is None,
            },
    {
        match self {
            JsonValue::Object(entries) => {
                let mut i: usize = 0;
                while i < entries.len()
                    invariant
                        *self == JsonValue::Object(*entries),
                        i <= entries@.len(),
                        forall|j: int| 0 <= j < i ==> entries@[j].0@ != key@,
                    decreases entries@.len() - i,
                {
                    if str_eq(entries[i].0.as_str(), key) {
                        proof {
                            lemma_first_entry(entries@, key@, i as int);
                        }
                        return Some(&entries[i].1);
                    }
                    i = i + 1;
                }
                None
            },
            _ => None,
        }
    }

    /// The value under `key` in an object, taken out of it.
    pub fn take(self, key: &str) -> (r: Option<JsonValue>)
        ensures
            r == field(self, key@),
    {
        let ghost whole = self;
        match self {
            JsonValue::Object(entries) => {
                let mut entries = entries;
                let ghost all = entries@;
                let mut i: usize = 0;
                while i < entries.len()
                    invariant
                        whole == self,
                        whole == JsonValue::Object(entries),
                        entries@ == all,
                        i <= entries@.len(),
                        forall|j: int| 0 <= j < i ==> entries@[j].0@ != key@,
                    decreases entries@.len() - i,
                {
                    if str_eq(entries[i].0.as_str(), key) {
                        proof {
                            lemma_first_entry(entries@, key@, i as int);
                        }
                        let (_, v) = entries.remove(i);
                        return Some(v);
                    }
                    i = i + 1;
                }
                None
            },
            _ => None,
        }
    }

    /// Indexing by a key, `Null` where there is no value.
    pub fn at_key(&self, key: &str) -> (r: &JsonValue)
        ensures
            *r == at_key(*self, key@),
    {
        match self.get(key) {
            Some(x) => x,
            None => &JsonValue::Null,
        }
    }

    /// Indexing by a position, `Null` where there is no element.
    pub fn at_index(&self, i: usize) -> (r: &JsonValue)
        ensures
            *r == at_index(*self, i as int),
    {
        match self {
            JsonValue::Array(items) => if i < items.len() { &items[i] } else { &JsonValue::Null },
            _ => &JsonValue::Null,
        }
    }

    /// The text of a string value.
    pub fn as_str(&self) -> (r: Option<&str>)
        ensures
            match r {
                Some(s) => string_of(*self) == Some(s@),
                None => string_of(*self) is None,
            },
    {
        match self {
            JsonValue::String(s) => Some(s.as_str()),
            _ => None,
        }
    }

    /// The value of a non-negative integer.
    pub fn as_u64(&self) -> (r: Option<u64>)
        ensures
            r == u64_of(*self),
    {
        match self {
            JsonValue::Number(JsonNumber::PosInt(n)) => Some(*n),
            _ => None,
        }
    }

    /// The elements of an array.
    pub fn as_array(&self) -> (r: Option<&Vec<JsonValue>>)
        ensures
            match r {
                Some(items) => array_of(*self) == Some(items@),
                None => array_of(*self) is None,
            },
    {
        match self {
            JsonValue::Array(items) => Some(items),
            _ => None,
        }
    }
}

} // verus!
