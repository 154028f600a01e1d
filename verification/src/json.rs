//! The JSON document type that schemas and records are made of.

use vstd::prelude::*;

verus! {

/// Declaration of `serde_json::Value`, the structurally-typed JSON document
/// type. The engine treats documents as opaque: it stores them, hands them to
/// the schema validator and gives them back to the caller, and never looks
/// inside one.
#[verifier::external_type_specification]
#[verifier::external_body]
pub struct ExValue(serde_json::Value);

/// Relies on the derived `Clone` of `serde_json::Value`: the clone is the
/// same JSON document as the original.
pub assume_specification[ <serde_json::Value as Clone>::clone ](
    v: &serde_json::Value,
) -> (r: serde_json::Value)
    ensures
        r == *v,
;

} // verus!
