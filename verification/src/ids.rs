//! Fresh identifiers.
use vstd::prelude::*;

verus! {

/// `uuid::Uuid::new_v4()` in its hyphenated text form. The value is random,
/// so the contract states only what holds of every outcome: the hyphenated
/// form has 36 characters.
#[verifier::external_body]
pub(crate) fn new_uuid_v4() -> (r: String)
    ensures
        r@.len() == 36,
{
    uuid::Uuid::new_v4().to_string()
}

} // verus!
