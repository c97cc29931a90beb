//! JSON documents carried through the library unread.
use vstd::prelude::*;

verus! {

/// A JSON value (serde_json's `Value`): payloads and metrics that the
/// library passes along without looking inside.
#[verifier::external_type_specification]
#[verifier::external_body]
pub struct ExJsonValue(serde_json::Value);

} // verus!
