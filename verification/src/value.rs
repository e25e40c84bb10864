//! Dynamically typed values and the rules by which one kind stands in for
//! another.

use vstd::prelude::*;
use vstd::string::StringExecFns;
use crate::number::Number;

verus! {

/// A primitive value.
#[derive(Debug)]
pub enum Value {
    /// A string value.
    String(String),
    /// A single-precision number.
    Number(Number),
    /// A boolean value.
    Boolean(bool),
}

/// What a `Value` stands for.
pub ghost enum ValueModel {
    String(Seq<char>),
    Number(Number),
    Boolean(bool),
}

impl View for Value {
    type V = ValueModel;

    open spec fn view(&self) -> ValueModel {
        match self {
            Value::String(s) => ValueModel::String(s@),
            Value::Number(n) => ValueModel::Number(*n),
            Value::Boolean(b) => ValueModel::Boolean(*b),
        }
    }
}

/// The text of a boolean.
pub open spec fn bool_text(b: bool) -> Seq<char> {
    if b {
        seq!['t', 'r', 'u', 'e']
    } else {
        seq!['f', 'a', 'l', 's', 'e']
    }
}

impl ValueModel {
    /// The value as text. A string is itself and a boolean is `true` or
    /// `false`. The text of a number is its decimal formatting, which only
    /// the host can produce: `decimal` is that text.
    pub open spec fn text(self, decimal: Seq<char>) -> Seq<char> {
        match self {
            ValueModel::String(s) => s,
            ValueModel::Number(_) => decimal,
            ValueModel::Boolean(b) => bool_text(b),
        }
    }

    /// The value as a boolean: a boolean is itself, a string is true unless
    /// empty, a number is true unless zero.
    pub open spec fn truthy(self) -> bool {
        match self {
            ValueModel::String(s) => s.len() != 0,
            ValueModel::Number(n) => !n.zero(),
            ValueModel::Boolean(b) => b,
        }
    }

    /// The value as a number: a number is itself, a boolean is one or zero,
    /// and every string is zero.
    pub open spec fn number(self) -> Number {
        match self {
            ValueModel::String(_) => Number { bits: 0 },
            ValueModel::Number(n) => n,
            ValueModel::Boolean(b) => Number::of_bool(b),
        }
    }

    /// The number whose decimal text a comparison or concatenation with
    /// `other` needs: `self` is that number and `other` is a string.
    pub open spec fn text_wanted(self, other: ValueModel) -> Option<Number> {
        match (self, other) {
            (ValueModel::Number(n), ValueModel::String(_)) => Some(n),
            _ => None,
        }
    }

    /// Equality across kinds. With a string on either side both sides are
    /// compared as text; otherwise with a number on either side both are
    /// compared as numbers; two booleans are compared as they are.
    /// `decimal` is the text of the number that stands beside a string, if
    /// there is one.
    pub open spec fn equals(self, other: ValueModel, decimal: Seq<char>) -> bool {
        match (self, other) {
            (ValueModel::String(s), v) => s == v.text(decimal),
            (v, ValueModel::String(s)) => s == v.text(decimal),
            (ValueModel::Number(n), v) => n.same(v.number()),
            (v, ValueModel::Number(n)) => n.same(v.number()),
            (ValueModel::Boolean(a), ValueModel::Boolean(b)) => a == b,
        }
    }

    /// Whether `+` on these two joins text rather than adding numbers.
    pub open spec fn joins(self, other: ValueModel) -> bool {
        self is String || other is String
    }

    /// The text of `self` followed by the text of `other`.
    pub open spec fn joined(self, other: ValueModel, decimal: Seq<char>) -> Seq<char> {
        self.text(decimal) + other.text(decimal)
    }
}

impl Clone for Value {
    fn clone(&self) -> (r: Value)
        ensures
            r@ == self@,
    {
        match self {
            Value::String(s) => Value::String(s.clone()),
            Value::Number(n) => Value::Number(*n),
            Value::Boolean(b) => Value::Boolean(*b),
        }
    }
}

/// `true` or `false`, as an owned string.
pub fn bool_string(b: bool) -> (s: String)
    ensures
        s@ == bool_text(b),
{
    proof {
        reveal_strlit("true");
        reveal_strlit("false");
    }
    if b {
        let s = String::from_str("true");
        assert(s@ =~= bool_text(true));
        s
    } else {
        let s = String::from_str("false");
        assert(s@ =~= bool_text(false));
        s
    }
}

impl Value {
    /// The contained value represented as a string. For a number the caller
    /// passes its decimal text as `decimal`; for the other kinds `decimal`
    /// is not read.
    pub fn as_string(&self, decimal: &str) -> (s: String)
        ensures
            s@ == self@.text(decimal@),
    {
        match self {
            Value::Boolean(b) => bool_string(*b),
            Value::String(s) => s.clone(),
            Value::Number(_) => String::from_str(decimal),
        }
    }

    /// The contained value represented as a boolean.
    pub fn as_bool(&self) -> (b: bool)
        ensures
            b == self@.truthy(),
    {
        match self {
            Value::Boolean(b) => *b,
            Value::String(s) => !s.as_str().is_empty(),
            Value::Number(n) => !n.is_zero(),
        }
    }

    /// The contained value represented as a number.
    pub fn as_num(&self) -> (n: Number)
        ensures
            n == self@.number(),
    {
        match self {
            Value::Boolean(b) => Number::from_bool(*b),
            Value::String(_) => Number::from_bits(0),
            Value::Number(n) => *n,
        }
    }

    /// The number whose decimal text `equals` and `join` need from the
    /// caller, if they need one.
    pub fn decimal_wanted(&self, other: &Value) -> (r: Option<Number>)
        ensures
            r == match self@.text_wanted(other@) {
                Some(n) => Some(n),
                None => other@.text_wanted(self@),
            },
    {
        match (self, other) {
            (Value::Number(n), Value::String(_)) => Some(*n),
            (Value::String(_), Value::Number(n)) => Some(*n),
            _ => None,
        }
    }

    /// Equality across kinds.
    pub fn equals(&self, other: &Value, decimal: &str) -> (r: bool)
        ensures
            r == self@.equals(other@, decimal@),
    {
        match (self, other) {
            (Value::String(s), v) => {
                let t = v.as_string(decimal);
                *s == t
            },
            (v, Value::String(s)) => {
                let t = v.as_string(decimal);
                *s == t
            },
            (Value::Number(n), v) => n.equals(v.as_num()),
            (v, Value::Number(n)) => n.equals(v.as_num()),
            (Value::Boolean(a), Value::Boolean(b)) => *a == *b,
        }
    }

    /// The text of `self` followed by the text of `other`, as a string
    /// value.
    pub fn join(&self, other: &Value, decimal: &str) -> (r: Value)
        ensures
            r@ == ValueModel::String(self@.joined(other@, decimal@)),
    {
        let left = self.as_string(decimal);
        let right = other.as_string(decimal);
        Value::String(left.concat(right.as_str()))
    }
}

} // verus!
