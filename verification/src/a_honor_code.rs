//! Attestations made by the author of this crate.

use vstd::prelude::*;

verus! {

/// Attests that the code in this crate is the author's own work.
pub fn wrote_my_own_code() -> (attested: bool)
    ensures
        attested,
{
    true
}

/// Attests that the crate depends on nothing beyond the crates it was allowed to use.
pub fn no_additional_dependencies() -> (attested: bool)
    ensures
        attested,
{
    true
}

} // verus!
