//! JSON marshaling at the script boundary, through serde_json.
//!
//! A structured handler return value travels as a `serde_json::Value`; the
//! bridge renders it to text for the wire, and parses request bodies the
//! other way. The value type is opaque here: the contracts speak of the
//! canonical text a value renders to.

use vstd::prelude::*;

verus! {

#[verifier::external_type_specification]
#[verifier::external_body]
pub struct ExJsonValue(serde_json::Value);

/// The canonical JSON text of a value: what serde_json renders for it. The
/// rendering depends on the value alone.
pub uninterp spec fn json_text_of(v: serde_json::Value) -> Seq<char>;

/// The value a text parses to as JSON, where the text is well-formed JSON;
/// parsing depends on the text alone.
pub uninterp spec fn json_value_of(s: Seq<char>) -> Option<serde_json::Value>;

/// Relies on serde_json::to_string: a successful serialization returns the
/// canonical JSON text of the value.
#[verifier::external_body]
pub fn json_encode(v: &serde_json::Value) -> (r: Result<String, String>)
    ensures
        r matches Ok(s) ==> s@ == json_text_of(*v),
{
    match serde_json::to_string(v) {
        Ok(s) => Ok(s),
        Err(e) => Err(format!("{e}")),
    }
}

/// Relies on serde_json::from_str::<Value>: it succeeds exactly on
/// well-formed JSON texts, and returns the value that text denotes.
#[verifier::external_body]
pub fn json_decode(s: &str) -> (r: Result<serde_json::Value, String>)
    ensures
        r is Ok <==> json_value_of(s@) is Some,
        r matches Ok(v) ==> json_value_of(s@) == Some(v),
{
    match serde_json::from_str::<serde_json::Value>(s) {
        Ok(v) => Ok(v),
        Err(e) => Err(format!("{e}")),
    }
}

} // verus!
