use vstd::prelude::*;

verus! {

/// A JSON document, reduced to the shapes the manifest schema can use.
///
/// Numbers carry no payload: no manifest field is numeric, so a number can
/// only ever be rejected as having the wrong type.  Object fields keep their
/// textual keys; lookups walk the field list in order.
pub enum JsonValue {
    Null,
    Bool(bool),
    Number,
    Text(String),
    Arr(Vec<JsonValue>),
    Obj(Vec<(String, JsonValue)>),
}

#[verifier::external_type_specification]
#[verifier::external_body]
pub struct ExSerdeValue(serde_json::Value);

/// What parsing a given text yields: `None` when the text is not valid JSON.
/// The result depends on the characters of the text alone.
pub uninterp spec fn parsed_json(s: Seq<char>) -> Option<JsonValue>;

/// Relies on serde_json::Value: turns each variant into the library's form,
/// one arm per variant, keeping strings, array elements and object fields.
#[verifier::external_body]
fn convert_value(v: serde_json::Value) -> JsonValue {
    match v {
        serde_json::Value::Null => JsonValue::Null,
        serde_json::Value::Bool(b) => JsonValue::Bool(b),
        serde_json::Value::Number(_) => JsonValue::Number,
        serde_json::Value::String(s) => JsonValue::Text(s),
        serde_json::Value::Array(a) => JsonValue::Arr(a.into_iter().map(convert_value).collect()),
        serde_json::Value::Object(m) => JsonValue::Obj(
            m.into_iter().map(|(k, w)| (k, convert_value(w))).collect(),
        ),
    }
}

/// Relies on serde_json::from_str: deterministically parses the text as one
/// JSON document, or fails; the outcome is a function of the text alone.
/// A key repeated letter-for-letter inside one object collapses during this
/// reading to its last occurrence, so no later stage can see the repeat;
/// the manifest parser therefore screens the raw text for repeats of the
/// schema's known keys before reading the document.
#[verifier::external_body]
pub(crate) fn parse_json(s: &str) -> (r: Option<JsonValue>)
    ensures
        r == parsed_json(s@),
{
    match serde_json::from_str::<serde_json::Value>(s) {
        Ok(v) => Some(convert_value(v)),
        Err(_) => None,
    }
}

} // verus!
