//! JSON documents as plain values, read with `serde_json`.

use vstd::prelude::*;
use crate::text::{chars_of, eq_exec};

verus! {

/// A JSON value, as plain values. Objects keep their entries in the order
/// the parser gives them.
#[derive(Debug)]
pub enum Json {
    Null,
    Bool(bool),
    Number(String),
    Str(String),
    Array(Vec<Json>),
    Object(Vec<(String, Json)>),
}

/// A `serde_json::Value`, declared so that verified code can hold one.
#[verifier::external_type_specification]
#[verifier::external_body]
pub struct ExJsonValue(serde_json::Value);

/// What `serde_json::from_slice::<serde_json::Value>` reads from the bytes
/// (`None` when they are not JSON), as plain values.
pub uninterp spec fn json_of(bytes: Seq<u8>) -> Option<Json>;

/// Converts a `serde_json::Value` into `Json`, variant by variant; numbers
/// become their `Display` text, objects keep the map's order.
#[verifier::external_body]
fn json_from_value(v: serde_json::Value) -> Json {
    match v {
        serde_json::Value::Null => Json::Null,
        serde_json::Value::Bool(b) => Json::Bool(b),
        serde_json::Value::Number(n) => Json::Number(n.to_string()),
        serde_json::Value::String(s) => Json::Str(s),
        serde_json::Value::Array(a) => Json::Array(a.into_iter().map(json_from_value).collect()),
        serde_json::Value::Object(m) => Json::Object(
            m.into_iter().map(|(k, x)| (k, json_from_value(x))).collect(),
        ),
    }
}

/// Parses JSON text with `serde_json::from_slice` into a `serde_json::Value`;
/// the result is named `json_of` of the bytes, and depends on nothing else.
#[verifier::external_body]
pub(crate) fn parse_json(bytes: &[u8]) -> (r: Option<Json>)
    ensures
        r == json_of(bytes@),
{
    serde_json::from_slice::<serde_json::Value>(bytes).ok().map(json_from_value)
}


/// The value of the first entry named `key` among `fields`, from index `i`
/// on.
pub open spec fn field_of(fields: Seq<(String, Json)>, key: Seq<char>, i: int) -> Option<Json>
    decreases fields.len() - i,
{
    if i < 0 || i >= fields.len() {
        None
    } else if fields[i].0@ == key {
        Some(fields[i].1)
    } else {
        field_of(fields, key, i + 1)
    }
}

/// The index of the first entry named `key` among the fields of an object.
pub fn find_field(fields: &Vec<(String, Json)>, key: &str) -> (r: Option<usize>)
    ensures
        match r {
            Some(k) => k < fields@.len() && fields@[k as int].0@ == key@ && field_of(fields@, key@, 0)
                == Some(fields@[k as int].1),
            None => field_of(fields@, key@, 0) is None,
        },
{
    let kc = chars_of(key);
    let n = fields.len();
    let mut i: usize = 0;
    while i < n
        invariant
            n == fields@.len(),
            i <= n,
            kc@ == key@,
            field_of(fields@, key@, 0) == field_of(fields@, key@, i as int),
        decreases n - i,
    {
        let k = chars_of(fields[i].0.as_str());
        if eq_exec(k.as_slice(), kc.as_slice()) {
            return Some(i);
        }
        i = i + 1;
    }
    None
}

} // verus!
