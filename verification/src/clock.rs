//! The ledger's clock.

use vstd::prelude::*;

verus! {

/// Reads the ledger's clock through `Clock::get` and hands back its
/// `unix_timestamp`, or `None` where the runtime refuses the reading. The contract
/// states nothing of the value: it is whatever time the ledger keeps.
#[verifier::external_body]
pub(crate) fn unix_timestamp() -> (now: Option<i64>) {
    match <anchor_lang::prelude::Clock as anchor_lang::prelude::SolanaSysvar>::get() {
        Ok(clock) => Some(clock.unix_timestamp),
        Err(_) => None,
    }
}

} // verus!
