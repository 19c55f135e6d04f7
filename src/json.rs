use vstd::prelude::*;
use serde_json::Value;
use crate::decode::RawField;

verus! {

#[verifier::external_type_specification]
#[verifier::external_body]
pub struct ExValue(serde_json::Value);

/// Whether a text is one JSON document, as serde_json reads it.
pub uninterp spec fn is_json_document(s: Seq<char>) -> bool;

/// Relies on serde_json::from_str: reads a JSON document, `None` where the
/// text is not one; which depends on the text alone.
#[verifier::external_body]
pub(crate) fn parse_payload(body: &str) -> (r: Option<Value>)
    ensures
        r is Some <==> is_json_document(body@),
{
    serde_json::from_str::<Value>(body).ok()
}

/// Relies on serde_json::Value::get with a string key: the member of that
/// name of an object; `None` for a missing member or a non-object.
#[verifier::external_body]
pub(crate) fn member<'a>(v: &'a Value, key: &str) -> (r: Option<&'a Value>) {
    v.get(key)
}

/// Relies on serde_json::Value::get with an index: the element at that
/// position of an array; `None` past its end or for a non-array.
#[verifier::external_body]
pub(crate) fn element<'a>(v: &'a Value, i: usize) -> (r: Option<&'a Value>) {
    v.get(i)
}

/// Relies on serde_json::Value::as_array: the number of elements of an
/// array, `None` for any other value.
#[verifier::external_body]
pub(crate) fn array_len(v: &Value) -> (r: Option<usize>) {
    v.as_array().map(Vec::len)
}

/// Relies on serde_json::Value::as_object and Map::len: the number of
/// members of an object, `None` for any other value.
#[verifier::external_body]
pub(crate) fn object_len(v: &Value) -> (r: Option<usize>) {
    v.as_object().map(serde_json::Map::len)
}

/// Relies on serde_json::Value::as_object and Map::iter: the name and value
/// of the member at a position of an object, `None` past its end or for a
/// non-object.
#[verifier::external_body]
pub(crate) fn object_entry<'a>(v: &'a Value, i: usize) -> (r: Option<(String, &'a Value)>) {
    match v.as_object()?.iter().nth(i) {
        Some((k, x)) => Some((k.clone(), x)),
        None => None,
    }
}

/// Relies on serde_json's `Display` for `Number`: a string is kept as its
/// text, a number as serde_json prints it (an integer in decimal, a float in
/// its shortest form, with an exponent when very large or very small);
/// anything else counts as absent.
#[verifier::external_body]
pub(crate) fn scalar(v: &Value) -> (r: RawField) {
    match v {
        Value::String(s) => RawField::Text(s.clone()),
        Value::Number(n) => RawField::Number(n.to_string()),
        _ => RawField::Absent,
    }
}

} // verus!
