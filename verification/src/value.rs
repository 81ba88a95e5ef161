use vstd::prelude::*;
use crate::text::{i64_to_string, spec_int_chars};
use crate::tokenizing::Token;

verus! {

/// The core value type of the runtime: a tagged sum of every kind of datum a
/// script can hold and manipulate.
///
/// Reference-typed values (vectors, hash tables, data objects, byte buffers
/// and code blocks) do not hold their contents directly: they hold an index
/// into the owning interpreter's store, so that two values holding the same
/// index share one underlying object.  Deep cloning copies the object graph
/// into fresh store slots.
///
/// Floating point values stay outside this verified core; the runtime's
/// numbers are 64-bit signed integers and booleans.
pub enum Value {
    /// The value represents nothing.
    Nothing,

    /// An integer value.
    Int(i64),

    /// A boolean value.
    Bool(bool),

    /// A string value.
    String(String),

    /// A reference to a vector of values in the store.
    Vec(usize),

    /// A reference to a hash table of value pairs in the store.
    HashMap(usize),

    /// A reference to a structure instance in the store.
    DataObject(usize),

    /// A reference to a byte buffer in the store.
    ByteBuffer(usize),

    /// A source code token retained as data.
    Token(Token),

    /// A reference to a block of bytecode in the store.
    Code(usize),
}

impl Clone for Value {
    /// Clones keep the value; a clone of a reference value shares the same
    /// store object.
    fn clone(&self) -> (r: Self)
        ensures
            r == *self,
    {
        match self {
            Value::Nothing => Value::Nothing,
            Value::Int(value) => Value::Int(*value),
            Value::Bool(value) => Value::Bool(*value),
            Value::String(value) => Value::String(value.clone()),
            Value::Vec(index) => Value::Vec(*index),
            Value::HashMap(index) => Value::HashMap(*index),
            Value::DataObject(index) => Value::DataObject(*index),
            Value::ByteBuffer(index) => Value::ByteBuffer(*index),
            Value::Token(token) => Value::Token(token.clone()),
            Value::Code(index) => Value::Code(*index),
        }
    }
}

impl Default for Value {
    /// The default value represents nothing.
    fn default() -> (r: Value)
        ensures
            r is Nothing,
    {
        Value::Nothing
    }
}

/// A value is numeric if it can be read as a number: nothing, an integer, a
/// boolean, or a number token.
pub open spec fn spec_is_numeric(v: Value) -> bool {
    ||| v is Nothing
    ||| v is Int
    ||| v is Bool
    ||| v matches Value::Token(t) && t is Number
}

/// A value is stringable if it can be read as a string without real
/// conversion work: nothing, an integer, a string, or a textual token.
pub open spec fn spec_is_stringable(v: Value) -> bool {
    ||| v is Nothing
    ||| v is Int
    ||| v is String
    ||| v matches Value::Token(t) && (t is String || t is Word)
}

/// The string a stringable value reads as.
pub open spec fn spec_string_val(v: Value) -> Seq<char>
    recommends
        spec_is_stringable(v),
{
    match v {
        Value::Nothing => Seq::empty(),
        Value::Int(n) => spec_int_chars(n as int),
        Value::String(s) => s@,
        Value::Token(t) => match t {
            Token::String(_, s) => s@,
            Token::Word(_, w) => w@,
            Token::Number(_, _) => Seq::empty(),
        },
        _ => Seq::empty(),
    }
}

/// The integer a numeric value reads as.
pub open spec fn spec_int_val(v: Value) -> i64
    recommends
        spec_is_numeric(v),
{
    match v {
        Value::Nothing => 0,
        Value::Int(n) => n,
        Value::Bool(b) => if b {
            1
        } else {
            0
        },
        Value::Token(t) => match t {
            Token::Number(_, n) => n,
            _ => 0,
        },
        _ => 0,
    }
}

/// The boolean any value reads as: nothing and zero are false, an empty
/// string is false, and every reference value is true.
pub open spec fn spec_bool_val(v: Value) -> bool {
    match v {
        Value::Nothing => false,
        Value::Int(n) => n != 0,
        Value::Bool(b) => b,
        Value::String(s) => s@.len() != 0,
        _ => true,
    }
}

impl Value {
    /// Check if the value is the None variant.
    pub fn is_none(&self) -> (r: bool)
        ensures
            r == (self is Nothing),
    {
        matches!(self, Value::Nothing)
    }

    /// Check if either of the two values is the None variant.
    pub fn either_is_none(a: &Value, b: &Value) -> (r: bool)
        ensures
            r == (a is Nothing || b is Nothing),
    {
        a.is_none() || b.is_none()
    }

    /// Check if the value is an integer.
    pub fn is_int(&self) -> (r: bool)
        ensures
            r == (self is Int),
    {
        matches!(self, Value::Int(_))
    }

    /// Check if either of the two values is an integer.
    pub fn either_is_int(a: &Value, b: &Value) -> (r: bool)
        ensures
            r == (a is Int || b is Int),
    {
        a.is_int() || b.is_int()
    }

    /// Check if the value is a boolean.
    pub fn is_bool(&self) -> (r: bool)
        ensures
            r == (self is Bool),
    {
        matches!(self, Value::Bool(_))
    }

    /// Check if either of the two values is a boolean.
    pub fn either_is_bool(a: &Value, b: &Value) -> (r: bool)
        ensures
            r == (a is Bool || b is Bool),
    {
        a.is_bool() || b.is_bool()
    }

    /// Check if the value is a string.
    pub fn is_string(&self) -> (r: bool)
        ensures
            r == (self is String),
    {
        matches!(self, Value::String(_))
    }

    /// Check if either of the two values is a string.
    pub fn either_is_string(a: &Value, b: &Value) -> (r: bool)
        ensures
            r == (a is String || b is String),
    {
        a.is_string() || b.is_string()
    }

    /// Check if the value is a vector reference.
    pub fn is_vec(&self) -> (r: bool)
        ensures
            r == (self is Vec),
    {
        matches!(self, Value::Vec(_))
    }

    /// Check if the value is a hash table reference.
    pub fn is_hash_map(&self) -> (r: bool)
        ensures
            r == (self is HashMap),
    {
        matches!(self, Value::HashMap(_))
    }

    /// Check if the value is a structure instance reference.
    pub fn is_data_object(&self) -> (r: bool)
        ensures
            r == (self is DataObject),
    {
        matches!(self, Value::DataObject(_))
    }

    /// Check if the value is a byte buffer reference.
    pub fn is_byte_buffer(&self) -> (r: bool)
        ensures
            r == (self is ByteBuffer),
    {
        matches!(self, Value::ByteBuffer(_))
    }

    /// Check if the value is a token.
    pub fn is_token(&self) -> (r: bool)
        ensures
            r == (self is Token),
    {
        matches!(self, Value::Token(_))
    }

    /// Check if the value is a code block reference.
    pub fn is_code(&self) -> (r: bool)
        ensures
            r == (self is Code),
    {
        matches!(self, Value::Code(_))
    }

    /// Is the value any kind of numeric type?
    pub fn is_numeric(&self) -> (r: bool)
        ensures
            r == spec_is_numeric(*self),
    {
        match self {
            Value::Nothing => true,
            Value::Int(_) => true,
            Value::Bool(_) => true,
            Value::Token(t) => t.is_number(),
            _ => false,
        }
    }

    /// Are both values nothing?
    pub fn both_are_none(a: &Value, b: &Value) -> (r: bool)
        ensures
            r == (a is Nothing && b is Nothing),
    {
        a.is_none() && b.is_none()
    }

    /// Are both values numeric types?
    pub fn both_are_numeric(a: &Value, b: &Value) -> (r: bool)
        ensures
            r == (spec_is_numeric(*a) && spec_is_numeric(*b)),
    {
        a.is_numeric() && b.is_numeric()
    }

    /// Does the value represent a simply stringable type?
    pub fn is_stringable(&self) -> (r: bool)
        ensures
            r == spec_is_stringable(*self),
    {
        match self {
            Value::Nothing => true,
            Value::Int(_) => true,
            Value::String(_) => true,
            Value::Token(t) => t.is_string() || t.is_word(),
            _ => false,
        }
    }

    /// Get the string a stringable value reads as: an integer renders in
    /// decimal, nothing reads as the empty string.
    pub fn get_string_val(&self) -> (r: String)
        requires
            spec_is_stringable(*self),
        ensures
            r@ == spec_string_val(*self),
    {
        match self {
            Value::Nothing => String::new(),
            Value::Int(value) => i64_to_string(*value),
            Value::String(value) => value.clone(),
            Value::Token(token) => match token {
                Token::String(_, value) => value.clone(),
                Token::Word(_, word) => word.clone(),
                _ => String::new(),
            },
            _ => String::new(),
        }
    }

    /// Convert the value to a boolean, reading any value: nothing and zero
    /// are false, an empty string is false, every reference value is true.
    pub fn get_bool_val(&self) -> (r: bool)
        ensures
            r == spec_bool_val(*self),
    {
        match self {
            Value::Nothing => false,
            Value::Int(value) => *value != 0,
            Value::Bool(value) => *value,
            Value::String(value) => !value.as_str().is_empty(),
            _ => true,
        }
    }

    /// Convert a numeric value to an integer: nothing reads as zero, a
    /// boolean as one or zero, a number token as its value.
    pub fn get_int_val(&self) -> (r: i64)
        requires
            spec_is_numeric(*self),
        ensures
            r == spec_int_val(*self),
    {
        match self {
            Value::Nothing => 0,
            Value::Int(value) => *value,
            Value::Bool(value) => if *value {
                1
            } else {
                0
            },
            Value::Token(token) => match token {
                Token::Number(_, value) => *value,
                _ => 0,
            },
            _ => 0,
        }
    }
}

} // verus!
