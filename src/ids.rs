//! Fresh identifiers.
use vstd::prelude::*;
use crate::wire::Id;

verus! {

/// Relies on uuid's `Uuid::new_v4` and `Uuid::as_u128`: a random version-4
/// UUID, whose version nibble is 4 and whose variant bits are `10`.
#[verifier::external_body]
pub(crate) fn new_id() -> (r: Id)
    ensures
        r & 0xF000_C000_0000_0000_0000 == 0x4000_8000_0000_0000_0000,
{
    uuid::Uuid::new_v4().as_u128()
}

} // verus!
