use vstd::prelude::*;
use vstd::string::*;
use crate::json::{JsonNumber, JsonValue};

verus! {

/// The datatype tag of a literal.
#[derive(PartialEq, Eq, Structural, Clone, Copy)]
pub enum Datatype {
    Boolean,
    Integer,
    Double,
    Str,
}

/// A typed literal made from a JSON scalar.
pub struct LiteralValue {
    pub lexical: String,
    pub datatype: Datatype,
}

/// The XML Schema IRI of each datatype tag.
pub open spec fn datatype_iri_spec(d: Datatype) -> Seq<char> {
    match d {
        Datatype::Boolean => "http://www.w3.org/2001/XMLSchema#boolean"@,
        Datatype::Integer => "http://www.w3.org/2001/XMLSchema#integer"@,
        Datatype::Double => "http://www.w3.org/2001/XMLSchema#double"@,
        Datatype::Str => "http://www.w3.org/2001/XMLSchema#string"@,
    }
}

/// The decimal digit for `d < 10`.
pub open spec fn digit_char(d: nat) -> char {
    seq!['0', '1', '2', '3', '4', '5', '6', '7', '8', '9'][d as int]
}

/// The decimal digits of a natural number, without leading zeros.
pub open spec fn nat_digits(n: nat) -> Seq<char>
    decreases n,
{
    if n < 10 {
        seq![digit_char(n)]
    } else {
        nat_digits(n / 10) + seq![digit_char(n % 10)]
    }
}

/// The decimal text of an integer, with a leading `-` when negative.
pub open spec fn decimal(i: int) -> Seq<char> {
    if i < 0 {
        seq!['-'] + nat_digits((-i) as nat)
    } else {
        nat_digits(i as nat)
    }
}

/// The literal (lexical form, datatype) of a JSON value, if it has one.
pub open spec fn literal_of(v: JsonValue) -> Option<(Seq<char>, Datatype)> {
    match v {
        JsonValue::Bool(b) => Some(
            (if b { "true"@ } else { "false"@ }, Datatype::Boolean),
        ),
        JsonValue::Number(JsonNumber::Integer(i)) => Some((decimal(i as int), Datatype::Integer)),
        JsonValue::Number(JsonNumber::Float(s)) => Some((s@, Datatype::Double)),
        JsonValue::String(s) => Some((s@, Datatype::Str)),
        _ => None,
    }
}

/// Relies on the `Display` of `i64` in std: decimal digits, `-` when negative.
#[verifier::external_body]
fn int_text(i: i64) -> (r: String)
    ensures
        r@ == decimal(i as int),
{
    i.to_string()
}

/// The XML Schema IRI of a datatype tag.
pub fn datatype_iri(d: Datatype) -> (r: &'static str)
    ensures
        r@ == datatype_iri_spec(d),
{
    match d {
        Datatype::Boolean => "http://www.w3.org/2001/XMLSchema#boolean",
        Datatype::Integer => "http://www.w3.org/2001/XMLSchema#integer",
        Datatype::Double => "http://www.w3.org/2001/XMLSchema#double",
        Datatype::Str => "http://www.w3.org/2001/XMLSchema#string",
    }
}

/// Maps a JSON scalar to its typed literal: `Null`, arrays, objects and
/// unrepresentable numbers have none.
pub fn map_literal(v: &JsonValue) -> (r: Option<LiteralValue>)
    ensures
        match literal_of(*v) {
            Some((lex, d)) => r.is_some() && r.unwrap().lexical@ == lex && r.unwrap().datatype == d,
            None => r.is_none(),
        },
{
    match v {
        JsonValue::Bool(b) => {
            let lexical = if *b {
                String::from_str("true")
            } else {
                String::from_str("false")
            };
            Some(LiteralValue { lexical, datatype: Datatype::Boolean })
        },
        JsonValue::Number(JsonNumber::Integer(i)) => Some(
            LiteralValue { lexical: int_text(*i), datatype: Datatype::Integer },
        ),
        JsonValue::Number(JsonNumber::Float(s)) => Some(
            LiteralValue { lexical: s.clone(), datatype: Datatype::Double },
        ),
        JsonValue::String(s) => Some(LiteralValue { lexical: s.clone(), datatype: Datatype::Str }),
        _ => None,
    }
}

} // verus!
