//! Parsing response bodies, through serde_json.
//!
//! The text of a JSON document determines what it parses to, so the parse
//! result carries a name, [`parsed_json`], that the rest of the library's
//! contracts can speak of exactly. The decode logic itself — telling the
//! error shape from the result shape, reading the typed fields — is
//! verified code over [`Json`] and starts where [`parse_body`] ends.

use vstd::prelude::*;
use serde_json::Value;
use crate::json::{Json, JVal};

verus! {

#[verifier::external_type_specification]
#[verifier::external_body]
pub struct ExValue(Value);

/// The model of what a `serde_json::Value` holds, within the protocol's
/// subset: `None` where the value uses a float.
pub uninterp spec fn value_model(v: Value) -> Option<JVal>;

/// What a body text parses to: the model of the JSON document it holds,
/// `None` where the text is not JSON or falls outside the subset.
pub uninterp spec fn parsed_json(s: Seq<char>) -> Option<JVal>;

/// Relies on `serde_json::from_str::<Value>`: what a text parses to is a
/// function of the text alone, and the model of the parsed value is the
/// model of the text.
#[verifier::external_body]
fn value_of_text(s: &str) -> (r: Option<Value>)
    ensures
        match r {
            Some(v) => value_model(v) == parsed_json(s@),
            None => parsed_json(s@) is None,
        },
{
    serde_json::from_str::<Value>(s).ok()
}

/// Relies on `serde_json::Value`'s variants and on `Number::as_i64` /
/// `Number::as_u64`: a value's contents determine its model. Null,
/// booleans, integer numbers, strings, arrays and objects carry over; a
/// float puts the value outside the subset.
#[verifier::external_body]
fn json_of_value(v: &Value) -> (r: Option<Json>)
    ensures
        match r {
            Some(j) => value_model(*v) == Some(j@),
            None => value_model(*v) is None,
        },
{
    match v {
        Value::Null => Some(Json::Null),
        Value::Bool(b) => Some(Json::Bool(*b)),
        Value::Number(n) => n.as_i64().map(Json::Int).or_else(
            || n.as_u64().map(Json::UInt),
        ),
        Value::String(s) => Some(Json::Str(s.clone())),
        Value::Array(a) => a.iter().map(json_of_value).collect::<Option<
            Vec<Json>,
        >>().map(Json::Arr),
        Value::Object(m) => m.iter().map(
            |(k, x)| Some((k.clone(), json_of_value(x)?)),
        ).collect::<Option<Vec<(String, Json)>>>().map(Json::Obj),
    }
}

/// Parses a response body to a value of the subset: `None` where the text
/// is not JSON or uses a shape the protocol does not speak.
pub fn parse_body(s: &str) -> (r: Option<Json>)
    ensures
        match r {
            Some(j) => parsed_json(s@) == Some(j@),
            None => parsed_json(s@) is None,
        },
{
    match value_of_text(s) {
        None => None,
        Some(v) => json_of_value(&v),
    }
}

} // verus!
