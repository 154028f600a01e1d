//! Generation of record identifiers.

use vstd::prelude::*;

verus! {

/// Relies on `uuid::Uuid::new_v4` and its `Display` form: a freshly drawn
/// random 128-bit identifier, rendered as the canonical 36-character
/// hyphenated text. The draw is random, so nothing beyond the length relates
/// one call's result to another's.
#[verifier::external_body]
pub(crate) fn fresh_id() -> (r: String)
    ensures
        r@.len() == 36,
{
    format!("{}", uuid::Uuid::new_v4())
}

} // verus!
