//! The loosely typed values that redraw events are made of.

use vstd::prelude::*;

verus! {

/// An integer of the wire format: either held as unsigned, or as signed.
#[derive(Clone, Copy, Debug, PartialEq, Eq, Structural)]
pub enum Integer {
    Unsigned(u64),
    Signed(i64),
}

impl Integer {
    /// The integer as a `u64`, if it is not negative.
    pub open spec fn spec_as_u64(self) -> Option<u64> {
        match self {
            Integer::Unsigned(n) => Some(n),
            Integer::Signed(n) => if n >= 0 {
                Some(n as u64)
            } else {
                None
            },
        }
    }

    /// The integer as a `u64`, if it is not negative.
    pub fn as_u64(&self) -> (value: Option<u64>)
        ensures
            value == self.spec_as_u64(),
    {
        match *self {
            Integer::Unsigned(n) => Some(n),
            Integer::Signed(n) => if n >= 0 {
                Some(n as u64)
            } else {
                None
            },
        }
    }
}

/// One value of a redraw event. Strings are valid UTF-8; whatever the
/// decoder never reads (floats, binary blobs, extension types, byte strings
/// that are not UTF-8) is `Opaque`.
#[derive(Debug)]
pub enum Value {
    Nil,
    Boolean(bool),
    Integer(Integer),
    Text(String),
    Array(Vec<Value>),
    Table(Vec<(Value, Value)>),
    Opaque,
}

impl Value {
    /// The value as a non-negative integer, if it is one.
    pub open spec fn spec_as_u64(self) -> Option<u64> {
        match self {
            Value::Integer(n) => n.spec_as_u64(),
            _ => None,
        }
    }

    /// The value as a non-negative integer, if it is one.
    pub fn as_u64(&self) -> (value: Option<u64>)
        ensures
            value == self.spec_as_u64(),
    {
        match self {
            Value::Integer(n) => n.as_u64(),
            _ => None,
        }
    }

    /// Builds a text value from a string slice.
    pub fn text(s: &str) -> (value: Value)
        ensures
            value matches Value::Text(t) && t@ == s@,
    {
        Value::Text(String::from_str(s))
    }

    /// Builds a non-negative integer value.
    pub fn uint(n: u64) -> (value: Value)
        ensures
            value == Value::Integer(Integer::Unsigned(n)),
    {
        Value::Integer(Integer::Unsigned(n))
    }
}

/// Whether `name` spells exactly `word`.
pub fn text_is(name: &str, word: &str) -> (same: bool)
    ensures
        same == (name@ == word@),
{
    let left = String::from_str(name);
    let right = String::from_str(word);
    left.eq(&right)
}

} // verus!
