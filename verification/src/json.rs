//! The JSON values that some records carry along without reading them.

use vstd::prelude::*;

verus! {

/// serde_json's `Value`, held opaquely.
#[verifier::external_type_specification]
#[verifier::external_body]
pub struct ExJsonValue(serde_json::Value);

/// serde_json's `Clone` for `Value` (derived on a plain data enum): the copy is the same
/// value as the original.
pub assume_specification[<serde_json::Value as Clone>::clone](v: &serde_json::Value) -> (r: serde_json::Value)
    ensures
        r == *v,
;

/// serde_json's `Value::Null`. Values are opaque here, so nothing is claimed of it.
#[verifier::external_body]
pub(crate) fn json_null() -> (r: serde_json::Value) {
    serde_json::Value::Null
}

/// The JSON value a text holds, as serde_json's `from_str` reads it; none when the text
/// is not JSON.
pub uninterp spec fn json_value_of(text: Seq<char>) -> Option<serde_json::Value>;

/// serde_json's `from_str` into a `Value`: the JSON value the text holds, or nothing
/// when the text is not JSON. The result is named `json_value_of` of the text.
#[verifier::external_body]
pub(crate) fn parse_json(text: &str) -> (r: Option<serde_json::Value>)
    ensures
        r == json_value_of(text@),
{
    serde_json::from_str::<serde_json::Value>(text).ok()
}

/// `Value`'s `Display` (`to_string`): the value written as compact JSON. Values are opaque
/// here, so nothing is claimed of the text.
#[verifier::external_body]
pub(crate) fn json_text(v: &serde_json::Value) -> (r: String) {
    v.to_string()
}

} // verus!
