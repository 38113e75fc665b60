//! Accounting core of a constant-product automated market maker.
//!
//! The crate computes what a ledger has to move: the amounts of a deposit,
//! the liquidity shares it mints, the payout of a withdrawal and the output
//! of a swap. It holds no balances and performs no transfer itself.

pub mod arithmetic;
pub mod balance;
pub mod constants;
pub mod errors;
pub mod fixed_point;
pub mod liquidity;
pub mod market;
pub mod swap;
