//! What a caller can put up: a request is filled as far as the balance goes.

use vstd::prelude::*;

verus! {

/// The part of `requested` that a holding of `balance` covers.
pub open spec fn capped(requested: u64, balance: u64) -> u64 {
    if requested > balance {
        balance
    } else {
        requested
    }
}

/// Caps a requested amount at the balance it is to come from. A request
/// beyond the balance is not refused: it is filled in part.
pub fn cap_to_balance(requested: u64, balance: u64) -> (amount: u64)
    ensures
        amount == capped(requested, balance),
{
    if requested > balance {
        balance
    } else {
        requested
    }
}

} // verus!
