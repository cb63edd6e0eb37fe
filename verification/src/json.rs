use vstd::prelude::*;

verus! {

/// A decoded JSON document, holding exactly the pieces this library reads.
///
/// Numbers collapse into the bare `Num` variant: no function of this library
/// ever reads a numeric value, only the shape of the document around it.
/// Object fields are kept as a list of key/value pairs, in the order the
/// decoder hands them out; the decoder never hands out two equal keys.
pub enum JsonVal {
    Null,
    Bool(bool),
    Num,
    Str(String),
    Arr(Vec<JsonVal>),
    Obj(Vec<(String, JsonVal)>),
}

#[verifier::external_type_specification]
#[verifier::external_body]
pub struct ExValue(serde_json::Value);

/// The document that a JSON text denotes, `None` for text that is not
/// well-formed JSON. What counts as well-formed JSON takes pages to state,
/// so the decoder's result carries this name and nothing more.
pub uninterp spec fn json_of(s: Seq<char>) -> Option<JsonVal>;

/// Relies on serde_json::from_str::<serde_json::Value>: decodes a JSON text,
/// failing exactly on text that is not well-formed JSON, with a result that
/// depends on the characters alone. `convert_value` then rebuilds the
/// document in `JsonVal` form, one variant at a time.
#[verifier::external_body]
pub(crate) fn decode_json(s: &str) -> (r: Option<JsonVal>)
    ensures
        r == json_of(s@),
{
    serde_json::from_str::<serde_json::Value>(s).ok().map(|v| convert_value(&v))
}

/// Relies on the shape of serde_json::Value: each variant is carried over to
/// the matching `JsonVal` variant, a number losing its value on the way.
#[verifier::external_body]
fn convert_value(v: &serde_json::Value) -> JsonVal {
    match v {
        serde_json::Value::Null => JsonVal::Null,
        serde_json::Value::Bool(b) => JsonVal::Bool(*b),
        serde_json::Value::Number(_) => JsonVal::Num,
        serde_json::Value::String(s) => JsonVal::Str(s.clone()),
        serde_json::Value::Array(a) => JsonVal::Arr(a.iter().map(convert_value).collect()),
        serde_json::Value::Object(m) => JsonVal::Obj(
            m.iter().map(|(k, x)| (k.clone(), convert_value(x))).collect(),
        ),
    }
}

} // verus!
