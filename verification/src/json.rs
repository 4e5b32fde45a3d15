//! JSON values carried through Prism untouched.

use vstd::prelude::*;

verus! {

/// `serde_json::Value`: extension values are opaque to Prism's rules.
#[verifier::external_type_specification]
#[verifier::external_body]
pub struct ExJsonValue(serde_json::Value);

/// Copies a JSON value with its derived `Clone`, which copies the value
/// exactly. Trusted: the copy equals the original.
#[verifier::external_body]
pub(crate) fn clone_json(v: &serde_json::Value) -> (r: serde_json::Value)
    ensures
        r == *v,
{
    v.clone()
}

/// The JSON string `serde_json::Value::String(s)` for the characters `s`.
pub uninterp spec fn json_string(s: Seq<char>) -> serde_json::Value;

/// The JSON boolean `serde_json::Value::Bool(b)`.
pub uninterp spec fn json_bool(b: bool) -> serde_json::Value;

/// Builds `serde_json::Value::String`. Trusted: the value is the one named
/// `json_string` of the text.
#[verifier::external_body]
pub(crate) fn json_string_value(s: String) -> (r: serde_json::Value)
    ensures
        r == json_string(s@),
{
    serde_json::Value::String(s)
}

/// Builds `serde_json::Value::Bool`. Trusted: the value is the one named
/// `json_bool` of the flag.
#[verifier::external_body]
pub(crate) fn json_bool_value(b: bool) -> (r: serde_json::Value)
    ensures
        r == json_bool(b),
{
    serde_json::Value::Bool(b)
}

} // verus!
