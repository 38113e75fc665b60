//! Constants of the pool rules.

use vstd::prelude::*;

verus! {

/// Liquidity shares withheld from the first deposit into a pool, for good.
pub const MINIMUM_LIQUIDITY: u64 = 100;

/// The number of basis points in a whole: a fee of this size would be 100%.
pub const FEE_DENOMINATOR: u64 = 10000;

} // verus!
