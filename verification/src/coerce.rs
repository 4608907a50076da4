//! Read-direction type coercion: the store's reported storage class of a
//! column decides how its value appears in JSON, with `null` and every
//! unrecognized class mapping to JSON `null` (a documented lossy
//! fallback, not an error).

use vstd::prelude::*;
use crate::json::JsonValue;
use crate::strutil::str_eq;

verus! {

/// The closed enumeration of storage classes the gateway recognizes.
#[derive(Clone, Copy, Debug, PartialEq, Eq, Structural)]
pub enum StorageClass {
    Integer,
    Real,
    Text,
    Boolean,
    Other,
}

/// A non-null value as the store hands it out, already decoded to a
/// plain representation: `Real` is an IEEE-754 bit pattern.
#[derive(Debug, PartialEq)]
pub enum StoredValue {
    Int(i64),
    Real(u64),
    Text(String),
    Bool(bool),
}

/// The storage class reported under each recognized type name; anything
/// else is `Other`.
pub open spec fn spec_storage_class_of(name: Seq<char>) -> StorageClass {
    if name == "INTEGER"@ {
        StorageClass::Integer
    } else if name == "REAL"@ {
        StorageClass::Real
    } else if name == "TEXT"@ {
        StorageClass::Text
    } else if name == "BOOLEAN"@ {
        StorageClass::Boolean
    } else {
        StorageClass::Other
    }
}

/// Maps a reported column type name to its storage class.
pub fn storage_class_of(name: &str) -> (r: StorageClass)
    ensures
        r == spec_storage_class_of(name@),
{
    if str_eq(name, "INTEGER") {
        StorageClass::Integer
    } else if str_eq(name, "REAL") {
        StorageClass::Real
    } else if str_eq(name, "TEXT") {
        StorageClass::Text
    } else if str_eq(name, "BOOLEAN") {
        StorageClass::Boolean
    } else {
        StorageClass::Other
    }
}

/// The read coercion table: an absent value is JSON `null` whatever the
/// class; an unrecognized class is JSON `null` whatever the value; a
/// value of the class's own shape keeps its content; a mismatched shape
/// degrades to `null` like the unrecognized class does.
pub open spec fn spec_coerce(class: StorageClass, v: Option<StoredValue>) -> JsonValue {
    match v {
        None => JsonValue::Null,
        Some(sv) => match (class, sv) {
            (StorageClass::Integer, StoredValue::Int(i)) => JsonValue::Int(i),
            (StorageClass::Real, StoredValue::Real(x)) => JsonValue::Real(x),
            (StorageClass::Text, StoredValue::Text(s)) => JsonValue::Str(s),
            (StorageClass::Boolean, StoredValue::Bool(b)) => JsonValue::Bool(b),
            _ => JsonValue::Null,
        },
    }
}

/// Null coercion: a stored null is returned as JSON `null` regardless of
/// the column's declared storage class.
pub proof fn lemma_null_coercion(class: StorageClass)
    ensures
        spec_coerce(class, None) == JsonValue::Null,
{
}

/// Coerces one column value to JSON.
pub fn coerce_read(class: StorageClass, v: &Option<StoredValue>) -> (r: JsonValue)
    ensures
        r == spec_coerce(class, *v),
{
    match v {
        Option::None => JsonValue::Null,
        Option::Some(sv) => match (class, sv) {
            (StorageClass::Integer, StoredValue::Int(i)) => JsonValue::Int(*i),
            (StorageClass::Real, StoredValue::Real(x)) => JsonValue::Real(*x),
            (StorageClass::Text, StoredValue::Text(s)) => JsonValue::Str(s.clone()),
            (StorageClass::Boolean, StoredValue::Bool(b)) => JsonValue::Bool(*b),
            _ => JsonValue::Null,
        },
    }
}

/// Shapes one result row as a JSON record: an ordered mapping from the
/// row's column names to the coerced values, in column order.
pub fn row_record(cols: &Vec<(String, StorageClass, Option<StoredValue>)>) -> (r: JsonValue)
    ensures
        r matches JsonValue::Obj(ps) && ps@.len() == cols@.len() && (forall|i: int|
            0 <= i < cols@.len() ==> (#[trigger] ps@[i]).0@ == cols@[i].0@ && ps@[i].1
                == spec_coerce(cols@[i].1, cols@[i].2)),
{
    let mut pairs: Vec<(String, JsonValue)> = Vec::new();
    let n = cols.len();
    let mut i: usize = 0;
    while i < n
        invariant
            0 <= i <= n,
            n == cols@.len(),
            pairs@.len() == i,
            forall|j: int|
                0 <= j < i ==> (#[trigger] pairs@[j]).0@ == cols@[j].0@ && pairs@[j].1
                    == spec_coerce(cols@[j].1, cols@[j].2),
        decreases n - i,
    {
        let c = &cols[i];
        let val = coerce_read(c.1, &c.2);
        pairs.push((c.0.clone(), val));
        i = i + 1;
    }
    JsonValue::Obj(pairs)
}

} // verus!
