//! A JSON document model owned by this crate.
//!
//! Lock files arrive as JSON text. The text is parsed by `serde_json` behind
//! a trusted boundary; everything the policy logic reads is carried in
//! [`JsonValue`], a plain data type that verified code can inspect. Numbers
//! are kept only when they fit in `i64`: the lock-file schema uses integer
//! fields exclusively, and any other number is irrelevant to the checks.

use vstd::prelude::*;

verus! {

/// A parsed JSON document.
///
/// Object members are kept as a sequence of key/value pairs, in the order
/// the parser's map yields them; the loader defines its own lookup
/// semantics over that sequence.
#[derive(Debug)]
pub enum JsonValue {
    Null,
    Bool(bool),
    Int(i64),
    Text(String),
    Arr(Vec<JsonValue>),
    Obj(Vec<(String, JsonValue)>),
    /// A number that does not fit in `i64`. The lock-file schema has no such
    /// field, so the loader treats it as a shape mismatch wherever an integer
    /// or string is required.
    BigNum,
}

/// Declares `serde_json::Value` so that the trusted conversion below may
/// name it in a signature; verified code never looks inside one.
#[verifier::external_type_specification]
#[verifier::external_body]
pub struct ExSerdeValue(serde_json::Value);

/// The result of parsing a text as JSON: `None` when the text is not
/// well-formed JSON (or holds a number where `serde_json` itself fails),
/// `Some` of its parsed form otherwise. The result depends on the text
/// alone, so two parses of the same text yield equal values.
pub uninterp spec fn json_of(s: Seq<char>) -> Option<JsonValue>;

/// Relies on the `serde_json::Value` enum: each of its variants is carried
/// over one for one (`Null`, `Bool`, `String`, `Array`, `Object`), a number
/// in the `i64` range becomes `Int` via `Number::as_i64`, and any other
/// number becomes `BigNum`.
#[verifier::external_body]
fn from_serde(v: serde_json::Value) -> JsonValue {
    match v {
        serde_json::Value::Null => JsonValue::Null,
        serde_json::Value::Bool(b) => JsonValue::Bool(b),
        serde_json::Value::Number(n) => match n.as_i64() {
            Some(i) => JsonValue::Int(i),
            None => JsonValue::BigNum,
        },
        serde_json::Value::String(s) => JsonValue::Text(s),
        serde_json::Value::Array(a) => JsonValue::Arr(a.into_iter().map(from_serde).collect()),
        serde_json::Value::Object(o) => {
            JsonValue::Obj(o.into_iter().map(|(k, x)| (k, from_serde(x))).collect())
        },
    }
}

/// Relies on `serde_json::from_str::<serde_json::Value>`: whether a text is
/// well-formed JSON, and the value it denotes, depend on the text alone. On
/// failure the error's own rendering is handed back. Note that the parser
/// collapses a member name repeated within one object to its last
/// occurrence, and yields members in its map's own (sorted) order, before
/// this crate sees the document.
#[verifier::external_body]
pub fn parse_json(text: &str) -> (r: Result<JsonValue, String>)
    ensures
        match r {
            Ok(v) => json_of(text@) == Some(v),
            Err(_) => json_of(text@) is None,
        },
{
    match serde_json::from_str::<serde_json::Value>(text) {
        Ok(v) => Ok(from_serde(v)),
        Err(e) => Err(e.to_string()),
    }
}

} // verus!
