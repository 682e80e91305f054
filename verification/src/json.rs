//! Opaque JSON values that activities carry through the library.

use vstd::prelude::*;

verus! {

/// `serde_json::Value`, carried through unread.
#[verifier::external_type_specification]
#[verifier::external_body]
pub struct ExJsonValue(serde_json::Value);

/// Calls `Clone::clone` of `serde_json::Value`. Claimed: the copy is the same
/// value (the derived clone copies every node).
#[verifier::external_body]
pub(crate) fn clone_json(v: &serde_json::Value) -> (r: serde_json::Value)
    ensures
        r == *v,
{
    v.clone()
}

/// Builds `serde_json::Value::Null`, the JSON `null`. Nothing is claimed of
/// the value beyond its type.
#[verifier::external_body]
pub(crate) fn null_json() -> (r: serde_json::Value) {
    serde_json::Value::Null
}

} // verus!
