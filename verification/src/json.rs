//! JSON values as the reconciler sees them.

use vstd::prelude::*;
use crate::id_map::IdMap;

verus! {

/// A JSON value. A number is kept as the text that denotes it, and an object
/// as a mapping with distinct keys.
#[derive(Debug)]
pub enum JsonValue {
    Null,
    Bool(bool),
    Number(String),
    Text(String),
    Array(Vec<JsonValue>),
    Object(IdMap<JsonValue>),
}

impl JsonValue {
    /// The fields of an object; a value of another kind has none.
    pub open spec fn fields(self) -> Map<Seq<char>, JsonValue> {
        match self {
            JsonValue::Object(m) => m@,
            _ => Map::empty(),
        }
    }

    /// The field `key` of an object, if it has one.
    pub open spec fn field(self, key: Seq<char>) -> Option<JsonValue> {
        if self.fields().contains_key(key) {
            Some(self.fields()[key])
        } else {
            None
        }
    }

    /// The boolean that the value is, if it is one.
    pub open spec fn bool_value(self) -> Option<bool> {
        match self {
            JsonValue::Bool(b) => Some(b),
            _ => None,
        }
    }

    /// An object without fields.
    pub fn empty_object() -> (r: JsonValue)
        ensures
            r is Object,
            r.fields() == Map::<Seq<char>, JsonValue>::empty(),
    {
        JsonValue::Object(IdMap::new())
    }

    /// Whether the value is an object.
    pub fn is_object(&self) -> (r: bool)
        ensures
            r == (self is Object),
    {
        match self {
            JsonValue::Object(_) => true,
            _ => false,
        }
    }

    /// Whether the value is `null`.
    pub fn is_null(&self) -> (r: bool)
        ensures
            r == (self is Null),
    {
        match self {
            JsonValue::Null => true,
            _ => false,
        }
    }

    /// The boolean that the value is, if it is one.
    pub fn as_bool(&self) -> (r: Option<bool>)
        ensures
            r == self.bool_value(),
    {
        match self {
            JsonValue::Bool(b) => Some(*b),
            _ => None,
        }
    }

    /// The text of a string value.
    pub fn as_text(&self) -> (r: Option<&String>)
        ensures
            r == (match *self {
                JsonValue::Text(s) => Some(&s),
                _ => None,
            }),
    {
        match self {
            JsonValue::Text(s) => Some(s),
            _ => None,
        }
    }

    /// The mapping behind an object.
    pub fn as_object(&self) -> (r: Option<&IdMap<JsonValue>>)
        ensures
            r == (match *self {
                JsonValue::Object(m) => Some(&m),
                _ => None,
            }),
    {
        match self {
            JsonValue::Object(m) => Some(m),
            _ => None,
        }
    }

    /// The field `key` of an object; `None` for a missing field and for a
    /// value that is no object.
    pub fn get(&self, key: &String) -> (r: Option<&JsonValue>)
        ensures
            r == (match self.field(key@) {
                Some(v) => Some(&v),
                None => None,
            }),
    {
        match self {
            JsonValue::Object(m) => m.get(key),
            _ => None,
        }
    }
}

} // verus!
