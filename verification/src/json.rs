//! JSON values as the library reads them.
use vstd::prelude::*;
use crate::text::{chars_of, chars_equal};

verus! {

/// A JSON number as serde_json holds it.  A number with a fraction or an
/// exponent is kept as the IEEE-754 bit pattern of its `f64`.
#[derive(Clone, Copy, Debug, PartialEq, Eq, Structural)]
pub enum JsonNumber {
    /// A non-negative integer.
    PosInt(u64),
    /// A negative integer.
    NegInt(i64),
    /// Any other number, by the bits of its `f64`.
    Float(u64),
}

/// A JSON value.  Object entries keep their order; serde_json gives each key
/// at most once.
#[derive(Debug, PartialEq)]
pub enum JsonValue {
    Null,
    Bool(bool),
    Number(JsonNumber),
    String(String),
    Array(Vec<JsonValue>),
    Object(Vec<(String, JsonValue)>),
}

impl JsonNumber {
    /// The number as a `u64`, when it is a non-negative integer.
    pub open spec fn spec_as_u64(self) -> Option<u64> {
        match self {
            JsonNumber::PosInt(n) => Some(n),
            _ => None,
        }
    }

    /// The number as an `i64`, when it is an integer in range.
    pub open spec fn spec_as_i64(self) -> Option<i64> {
        match self {
            JsonNumber::PosInt(n) => if n <= i64::MAX { Some(n as i64) } else { None },
            JsonNumber::NegInt(n) => Some(n),
            JsonNumber::Float(_) => None,
        }
    }

    /// The number as a `u64`, when it is a non-negative integer.
    pub fn as_u64(&self) -> (r: Option<u64>)
        ensures
            r == self.spec_as_u64(),
    {
        match self {
            JsonNumber::PosInt(n) => Some(*n),
            _ => None,
        }
    }

    /// The number as an `i64`, when it is an integer in range.
    pub fn as_i64(&self) -> (r: Option<i64>)
        ensures
            r == self.spec_as_i64(),
    {
        match self {
            JsonNumber::PosInt(n) => if *n <= i64::MAX as u64 { Some(*n as i64) } else { None },
            JsonNumber::NegInt(n) => Some(*n),
            JsonNumber::Float(_) => None,
        }
    }
}

/// The value stored under `key` in object entries (the first such entry).
pub open spec fn entry_for(entries: Seq<(String, JsonValue)>, key: Seq<char>) -> Option<JsonValue>
    decreases entries.len(),
{
    if entries.len() == 0 {
        None
    } else if entries[0].0@ == key {
        Some(entries[0].1)
    } else {
        entry_for(entries.drop_first(), key)
    }
}

impl JsonValue {
    /// The number, when this is a number.  serde_json's `as_f64` succeeds on
    /// exactly these values.
    pub open spec fn spec_as_number(self) -> Option<JsonNumber> {
        match self {
            JsonValue::Number(n) => Some(n),
            _ => None,
        }
    }

    /// The number as a `u64`, when this is a non-negative integer.
    pub open spec fn spec_as_u64(self) -> Option<u64> {
        match self {
            JsonValue::Number(n) => n.spec_as_u64(),
            _ => None,
        }
    }

    /// The number as an `i64`, when this is an integer in range.
    pub open spec fn spec_as_i64(self) -> Option<i64> {
        match self {
            JsonValue::Number(n) => n.spec_as_i64(),
            _ => None,
        }
    }

    /// The boolean, when this is a boolean.
    pub open spec fn spec_as_bool(self) -> Option<bool> {
        match self {
            JsonValue::Bool(b) => Some(b),
            _ => None,
        }
    }

    /// The value under `key`, when this is an object holding it.
    pub open spec fn spec_get(self, key: Seq<char>) -> Option<JsonValue> {
        match self {
            JsonValue::Object(entries) => entry_for(entries@, key),
            _ => None,
        }
    }

    /// The number, when this is a number.
    pub fn as_number(&self) -> (r: Option<JsonNumber>)
        ensures
            r == self.spec_as_number(),
    {
        match self {
            JsonValue::Number(n) => Some(*n),
            _ => None,
        }
    }

    /// The number as a `u64`, when this is a non-negative integer.
    pub fn as_u64(&self) -> (r: Option<u64>)
        ensures
            r == self.spec_as_u64(),
    {
        match self {
            JsonValue::Number(n) => n.as_u64(),
            _ => None,
        }
    }

    /// The number as an `i64`, when this is an integer in range.
    pub fn as_i64(&self) -> (r: Option<i64>)
        ensures
            r == self.spec_as_i64(),
    {
        match self {
            JsonValue::Number(n) => n.as_i64(),
            _ => None,
        }
    }

    /// The boolean, when this is a boolean.
    pub fn as_bool(&self) -> (r: Option<bool>)
        ensures
            r == self.spec_as_bool(),
    {
        match self {
            JsonValue::Bool(b) => Some(*b),
            _ => None,
        }
    }

    /// The string, when this is a string.
    pub fn as_str(&self) -> (r: Option<&str>)
        ensures
            match self {
                JsonValue::String(s) => r matches Some(t) && t@ == s@,
                _ => r is None,
            },
    {
        match self {
            JsonValue::String(s) => Some(s.as_str()),
            _ => None,
        }
    }

    /// The elements, when this is an array.
    pub fn as_array(&self) -> (r: Option<&Vec<JsonValue>>)
        ensures
            match self {
                JsonValue::Array(v) => r == Some(v),
                _ => r is None,
            },
    {
        match self {
            JsonValue::Array(v) => Some(v),
            _ => None,
        }
    }

    /// The entries, when this is an object.
    pub fn as_object(&self) -> (r: Option<&Vec<(String, JsonValue)>>)
        ensures
            match self {
                JsonValue::Object(v) => r == Some(v),
                _ => r is None,
            },
    {
        match self {
            JsonValue::Object(v) => Some(v),
            _ => None,
        }
    }

    /// The value under `key`, when this is an object holding it.
    pub fn get(&self, key: &str) -> (r: Option<&JsonValue>)
        ensures
            match r {
                Some(v) => self.spec_get(key@) == Some(*v),
                None => self.spec_get(key@) is None,
            },
    {
        match self {
            JsonValue::Object(entries) => object_get(entries, key),
            _ => None,
        }
    }
}

/// The value stored under `key` in object entries.
pub fn object_get<'a>(entries: &'a Vec<(String, JsonValue)>, key: &str) -> (r: Option<&'a JsonValue>)
    ensures
        match r {
            Some(v) => entry_for(entries@, key@) == Some(*v),
            None => entry_for(entries@, key@) is None,
        },
{
    let k = chars_of(key);
    let mut i: usize = 0;
    assert(entries@.subrange(0, entries@.len() as int) =~= entries@);
    while i < entries.len()
        invariant
            i <= entries@.len(),
            k@ == key@,
            entry_for(entries@, key@) == entry_for(entries@.subrange(i as int, entries@.len() as int), key@),
        decreases entries@.len() - i,
    {
        let ghost rest = entries@.subrange(i as int, entries@.len() as int);
        assert(rest.drop_first() =~= entries@.subrange(i + 1, entries@.len() as int));
        let name = chars_of(entries[i].0.as_str());
        if chars_equal(name.as_slice(), k.as_slice()) {
            return Some(&entries[i].1);
        }
        i = i + 1;
    }
    None
}

} // verus!
