//! The runtime: a byte store, typed storage on top of it, a currency ledger, a staking
//! module that reserves funds through the ledger, and the outer call that binds them.

use vstd::prelude::*;

pub mod codec;
pub mod currency_module;
pub mod invariants;
pub mod io_storage;
pub mod runtime;
pub mod shared;
pub mod staking_module;

verus! {

/// How hard this part was to write, from 0 (extremely easy) to 255 (extremely hard).
pub fn how_hard_was_this_section() -> (rating: u8)
    ensures
        rating == 90,
{
    90
}

/// How many hours this part took to write.
pub fn how_many_hours_did_you_spend_on_this_section() -> (hours: u8)
    ensures
        hours == 15,
{
    15
}

} // verus!
