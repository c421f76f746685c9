//! Identifiers that nobody chose.

use vstd::prelude::*;

verus! {

/// `Uuid::new_v4` of `uuid`, then its `Display`: a random identifier in the hyphenated form,
/// which is thirty-six characters long. Which one comes is not said.
#[verifier::external_body]
pub(crate) fn new_uuid() -> (r: String)
    ensures
        r@.len() == 36,
{
    uuid::Uuid::new_v4().to_string()
}

} // verus!
