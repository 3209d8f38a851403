use vstd::prelude::*;

verus! {

/// A JSON number as the converter reads it.
pub enum JsonNumber {
    /// A number without fractional part that fits in 64 signed bits.
    Integer(i64),
    /// Any other finite number, held as its round-trippable decimal text.
    Float(String),
    /// A number with neither form (it is skipped).
    Unrepresentable,
}

/// One parsed JSON value; object members keep the order of the document.
pub enum JsonValue {
    Null,
    Bool(bool),
    Number(JsonNumber),
    String(String),
    Array(Vec<JsonValue>),
    Object(Vec<(String, JsonValue)>),
}

/// How many members (object) or elements (array) a value holds directly.
pub open spec fn width(v: JsonValue) -> nat {
    match v {
        JsonValue::Array(xs) => xs@.len(),
        JsonValue::Object(es) => es@.len(),
        _ => 0,
    }
}

} // verus!
