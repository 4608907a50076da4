//! The JSON value model the gateway works on, and the write-direction
//! coercion: choosing the bound parameter for each JSON value supplied
//! in a create or update body.

use vstd::prelude::*;
use crate::strutil::{dec_digits, u64_to_string};

verus! {

/// A JSON value. Numbers are split by representation: `Int` for signed
/// integers, `Uint` for integers above `i64::MAX`, and `Real` for
/// numbers with a fractional part, carried as their IEEE-754 bit
/// pattern, opaque to the logic here.
#[derive(Debug, PartialEq)]
pub enum JsonValue {
    Null,
    Bool(bool),
    Int(i64),
    Uint(u64),
    Real(u64),
    Str(String),
    Arr(Vec<JsonValue>),
    Obj(Vec<(String, JsonValue)>),
}

/// A parameter bound to a SQL statement. `Real` carries IEEE-754 bits;
/// `TextJson` asks the binding layer to serialize the carried value to
/// its textual JSON representation and bind that as text (the store has
/// no native composite type).
#[derive(Debug, PartialEq)]
pub enum BindParam {
    Null,
    Bool(bool),
    Int(i64),
    Real(u64),
    Text(String),
    TextJson(JsonValue),
}

/// How a JSON value binds: null explicitly, booleans and integers
/// natively, fractional numbers as their bits, oversized integers in
/// decimal text, strings as text, and composites as serialized JSON.
pub open spec fn bind_rel(v: JsonValue, p: BindParam) -> bool {
    match v {
        JsonValue::Null => p == BindParam::Null,
        JsonValue::Bool(b) => p == BindParam::Bool(b),
        JsonValue::Int(i) => p == BindParam::Int(i),
        JsonValue::Uint(u) => p matches BindParam::Text(s) && s@ == dec_digits(u as int),
        JsonValue::Real(x) => p == BindParam::Real(x),
        JsonValue::Str(s) => p matches BindParam::Text(t) && t@ == s@,
        JsonValue::Arr(_) => p == BindParam::TextJson(v),
        JsonValue::Obj(_) => p == BindParam::TextJson(v),
    }
}

/// Chooses the bound parameter for one JSON value.
pub fn bind_param_of(v: JsonValue) -> (r: BindParam)
    ensures
        bind_rel(v, r),
{
    match v {
        JsonValue::Null => BindParam::Null,
        JsonValue::Bool(b) => BindParam::Bool(b),
        JsonValue::Int(i) => BindParam::Int(i),
        JsonValue::Uint(u) => BindParam::Text(u64_to_string(u)),
        JsonValue::Real(x) => BindParam::Real(x),
        JsonValue::Str(s) => BindParam::Text(s),
        JsonValue::Arr(a) => BindParam::TextJson(JsonValue::Arr(a)),
        JsonValue::Obj(o) => BindParam::TextJson(JsonValue::Obj(o)),
    }
}

} // verus!
