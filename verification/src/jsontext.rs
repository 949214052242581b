//! Serialized tool-call payloads.
//!
//! A tool call arrives with its arguments and result as JSON values;
//! the history keeps them as serialized text. Rendering a JSON value to
//! text is a pure function of the value and is delegated to serde_json
//! under the name `json_text_of`.

use vstd::prelude::*;

verus! {

#[verifier::external_type_specification]
#[verifier::external_body]
pub struct ExValue(serde_json::Value);

/// The JSON text serde_json renders for `v` (with `{}` standing in on a
/// render failure). A function of the value alone: serde_json's maps
/// are ordered, so equal values render equally.
pub uninterp spec fn json_text_of(v: serde_json::Value) -> Seq<char>;

/// Relies on `serde_json::to_string` applied to a `serde_json::Value`:
/// deterministic in the value (object keys render in the value's own
/// order), falling back to the empty object on a render failure, as the
/// history treats payloads best-effort.
#[verifier::external_body]
pub(crate) fn value_to_json_string(v: &serde_json::Value) -> (r: String)
    ensures
        r@ == json_text_of(*v),
{
    serde_json::to_string(v).unwrap_or_else(|_| "{}".to_string())
}

} // verus!
