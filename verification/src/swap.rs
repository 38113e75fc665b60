//! Swaps of one asset of a pool for the other, on the constant-product
//! curve.
//!
//! The fee is taken from the input before the curve is applied and stays in
//! the pool, so the product of the two reserves never falls across a swap.
//! That is proved here of every quote, and checked once more by
//! [`confirm_swap`] on the balances that the ledger reports after it has
//! moved the two legs.

use vstd::prelude::*;
use crate::arithmetic::{lemma_div_bounds, lemma_div_fraction_monotone};
use crate::balance::{cap_to_balance, capped};
use crate::constants::FEE_DENOMINATOR;
use crate::errors::TutorialError;
use crate::fixed_point::{lemma_whole_product, lemma_whole_quotient, representable, scale, Fixed};
use crate::market::Amm;

verus! {

/// What a swap of a given input comes to.
#[derive(Clone, Copy, Debug, PartialEq, Eq)]
pub struct SwapQuote {
    /// The input less the fee: what the curve is applied to.
    pub taxed_input: u64,
    /// The amount of the other asset that the pool pays out.
    pub output: u64,
}

/// A swap that was accepted: what to move, and what to hold the pool to
/// afterwards.
#[derive(Clone, Copy, Debug, PartialEq, Eq)]
pub struct SwapPlan {
    /// The amount to move from the trader into the pool, fee included.
    pub input: u64,
    /// The input less the fee.
    pub taxed_input: u64,
    /// The amount to move from the pool to the trader.
    pub output: u64,
    /// The product of the two reserves before anything was moved.
    pub invariant_before: u128,
}

/// The market and the balances that a swap reads.
#[derive(Clone, Copy, Debug, PartialEq, Eq)]
pub struct SwapExactTokensForTokens {
    /// The market of the pool, for its fee.
    pub amm: Amm,
    /// The pool's reserve of asset A.
    pub pool_account_a: u64,
    /// The pool's reserve of asset B.
    pub pool_account_b: u64,
    /// The trader's balance of asset A.
    pub trader_account_a: u64,
    /// The trader's balance of asset B.
    pub trader_account_b: u64,
}

impl SwapExactTokensForTokens {
    /// The reserve of the asset that the trader gives.
    pub open spec fn reserve_in(self, swap_a: bool) -> u64 {
        if swap_a {
            self.pool_account_a
        } else {
            self.pool_account_b
        }
    }

    /// The reserve of the asset that the trader gets.
    pub open spec fn reserve_out(self, swap_a: bool) -> u64 {
        if swap_a {
            self.pool_account_b
        } else {
            self.pool_account_a
        }
    }

    /// The trader's balance of the asset that the trader gives.
    pub open spec fn trader_balance(self, swap_a: bool) -> u64 {
        if swap_a {
            self.trader_account_a
        } else {
            self.trader_account_b
        }
    }
}

/// The fee on an input, in units of the input: its share of `fee_bps` basis
/// points, rounded down.
pub open spec fn fee_on(input: u64, fee_bps: u16) -> int {
    input * fee_bps / (FEE_DENOMINATOR as int)
}

/// The input that is left once the fee is taken.
pub open spec fn taxed_input(input: u64, fee_bps: u16) -> int {
    input - fee_on(input, fee_bps)
}

/// The constant-product curve, solved for the output: what a pool with the
/// given reserves pays for `taxed` units of input, rounded down.
pub open spec fn swap_output(reserve_in: int, reserve_out: int, taxed: int) -> int {
    taxed * reserve_out / (reserve_in + taxed)
}

/// What a swap of `requested_input` comes to. `ArithmeticOverflow` where
/// the taxed input, a reserve, the reserve of the input asset after the
/// swap or the product of taxed input and output reserve needs more than
/// 63 bits; `DivisionByZero` where none does and the pool has none of the
/// input asset and gets none.
pub open spec fn quote_outcome(
    reserve_in: u64,
    reserve_out: u64,
    fee_bps: u16,
    requested_input: u64,
) -> Result<SwapQuote, TutorialError> {
    let taxed = taxed_input(requested_input, fee_bps);
    if !representable(taxed) || !representable(reserve_out as int) || !representable(
        taxed * reserve_out,
    ) || !representable(reserve_in as int) || !representable(reserve_in + taxed) {
        Err(TutorialError::ArithmeticOverflow)
    } else if reserve_in + taxed == 0 {
        Err(TutorialError::DivisionByZero)
    } else {
        Ok(
            SwapQuote {
                taxed_input: taxed as u64,
                output: swap_output(reserve_in as int, reserve_out as int, taxed) as u64,
            },
        )
    }
}

/// What a swap with a floor under its output comes to: the quote, refused
/// with `OutputTooSmall` where it pays less than `min_output_amount`, and
/// else taken down together with the product of the reserves.
pub open spec fn execute_outcome(
    reserve_in: u64,
    reserve_out: u64,
    fee_bps: u16,
    requested_input: u64,
    min_output_amount: u64,
) -> Result<SwapPlan, TutorialError> {
    match quote_outcome(reserve_in, reserve_out, fee_bps, requested_input) {
        Err(e) => Err(e),
        Ok(quote) => if quote.output < min_output_amount {
            Err(TutorialError::OutputTooSmall)
        } else {
            Ok(
                SwapPlan {
                    input: requested_input,
                    taxed_input: quote.taxed_input,
                    output: quote.output,
                    invariant_before: (reserve_in * reserve_out) as u128,
                },
            )
        },
    }
}

/// Whether reserves of `reserve_in_after` and `reserve_out_after` keep the
/// product that was taken down before the swap.
pub open spec fn confirm_outcome(
    invariant_before: u128,
    reserve_in_after: u64,
    reserve_out_after: u64,
) -> Result<(), TutorialError> {
    if invariant_before > reserve_in_after * reserve_out_after {
        Err(TutorialError::InvariantViolated)
    } else {
        Ok(())
    }
}

/// The fee is never more than the input it is taken from.
pub proof fn lemma_fee_bounds(input: u64, fee_bps: u16)
    requires
        fee_bps < FEE_DENOMINATOR,
    ensures
        0 <= fee_on(input, fee_bps) <= input,
        0 <= taxed_input(input, fee_bps) <= input,
        input * fee_bps <= u128::MAX,
{
    let d = FEE_DENOMINATOR as int;
    assert(0 <= input * fee_bps <= input * d) by (nonlinear_arith)
        requires
            0 <= input,
            0 <= fee_bps < d,
    ;
    lemma_div_bounds(input * fee_bps, d);
}

/// A larger input leaves a larger taxed input, or the same.
pub proof fn lemma_taxed_input_monotone(smaller: u64, larger: u64, fee_bps: u16)
    requires
        fee_bps < FEE_DENOMINATOR,
        smaller <= larger,
    ensures
        taxed_input(smaller, fee_bps) <= taxed_input(larger, fee_bps),
{
    let d = FEE_DENOMINATOR as int;
    lemma_div_bounds(smaller * fee_bps, d);
    lemma_div_bounds(larger * fee_bps, d);
    assert(larger * fee_bps <= smaller * fee_bps + d * (larger - smaller)) by (nonlinear_arith)
        requires
            0 <= fee_bps < d,
            smaller <= larger,
    ;
}

/// The curve pays more, or the same, for a larger taxed input.
pub proof fn lemma_swap_output_monotone(reserve_in: int, reserve_out: int, t1: int, t2: int)
    requires
        0 <= reserve_in,
        0 <= reserve_out,
        0 <= t1 <= t2,
        0 < reserve_in + t1,
    ensures
        swap_output(reserve_in, reserve_out, t1) <= swap_output(reserve_in, reserve_out, t2),
{
    assert(0 <= t1 * reserve_out && 0 <= t2 * reserve_out && (t1 * reserve_out) * (reserve_in + t2)
        <= (t2 * reserve_out) * (reserve_in + t1)) by (nonlinear_arith)
        requires
            0 <= reserve_in,
            0 <= reserve_out,
            0 <= t1 <= t2,
    ;
    lemma_div_fraction_monotone(
        t1 * reserve_out,
        reserve_in + t1,
        t2 * reserve_out,
        reserve_in + t2,
    );
}

/// The curve never pays more than the pool holds, and what it pays leaves
/// the product of the reserves no smaller, even before the fee is added
/// back.
pub proof fn lemma_swap_output_bounds(reserve_in: int, reserve_out: int, taxed: int)
    requires
        0 <= reserve_in,
        0 <= reserve_out,
        0 <= taxed,
        0 < reserve_in + taxed,
    ensures
        0 <= swap_output(reserve_in, reserve_out, taxed) <= reserve_out,
        (reserve_in + taxed) * (reserve_out - swap_output(reserve_in, reserve_out, taxed))
            >= reserve_in * reserve_out,
        0 < reserve_in && 0 < reserve_out ==> swap_output(reserve_in, reserve_out, taxed)
            < reserve_out,
{
    let d = reserve_in + taxed;
    let o = swap_output(reserve_in, reserve_out, taxed);
    assert(0 <= taxed * reserve_out) by (nonlinear_arith)
        requires
            0 <= taxed,
            0 <= reserve_out,
    ;
    lemma_div_bounds(taxed * reserve_out, d);
    assert(o <= reserve_out) by (nonlinear_arith)
        requires
            d * o <= taxed * reserve_out,
            0 <= reserve_in,
            0 <= reserve_out,
            0 <= taxed,
            d == reserve_in + taxed,
            0 < d,
            0 <= o,
    ;
    assert(d * (reserve_out - o) >= reserve_in * reserve_out) by (nonlinear_arith)
        requires
            d * o <= taxed * reserve_out,
            d == reserve_in + taxed,
    ;
    if 0 < reserve_in && 0 < reserve_out {
        assert(o < reserve_out) by (nonlinear_arith)
            requires
                d * o <= taxed * reserve_out,
                0 < reserve_in,
                0 < reserve_out,
                0 <= taxed,
                d == reserve_in + taxed,
                0 <= o,
        ;
    }
}

/// With the reserves and the fee fixed, a larger input is never quoted a
/// smaller output.
pub proof fn lemma_quote_monotone(
    reserve_in: u64,
    reserve_out: u64,
    fee_bps: u16,
    smaller: u64,
    larger: u64,
)
    requires
        fee_bps < FEE_DENOMINATOR,
        smaller <= larger,
        quote_outcome(reserve_in, reserve_out, fee_bps, smaller) is Ok,
        quote_outcome(reserve_in, reserve_out, fee_bps, larger) is Ok,
    ensures
        quote_outcome(reserve_in, reserve_out, fee_bps, smaller)->Ok_0.output <= quote_outcome(
            reserve_in,
            reserve_out,
            fee_bps,
            larger,
        )->Ok_0.output,
{
    let t1 = taxed_input(smaller, fee_bps);
    let t2 = taxed_input(larger, fee_bps);
    lemma_taxed_input_monotone(smaller, larger, fee_bps);
    lemma_swap_output_monotone(reserve_in as int, reserve_out as int, t1, t2);
    lemma_swap_output_bounds(reserve_in as int, reserve_out as int, t1);
    lemma_swap_output_bounds(reserve_in as int, reserve_out as int, t2);
}

/// The curve is asymptotic: a pool that holds both assets is never quoted
/// empty, whatever the input.
pub proof fn lemma_quote_below_reserve(
    reserve_in: u64,
    reserve_out: u64,
    fee_bps: u16,
    requested_input: u64,
)
    requires
        fee_bps < FEE_DENOMINATOR,
        0 < reserve_in,
        0 < reserve_out,
        quote_outcome(reserve_in, reserve_out, fee_bps, requested_input) is Ok,
    ensures
        quote_outcome(reserve_in, reserve_out, fee_bps, requested_input)->Ok_0.output
            < reserve_out,
{
    lemma_swap_output_bounds(
        reserve_in as int,
        reserve_out as int,
        taxed_input(requested_input, fee_bps),
    );
}

/// Once the whole input has gone into a pool and the quoted output has left
/// it, the product of its reserves is what it was or more.
pub proof fn lemma_quote_keeps_invariant(
    reserve_in: u64,
    reserve_out: u64,
    fee_bps: u16,
    requested_input: u64,
)
    requires
        fee_bps < FEE_DENOMINATOR,
        quote_outcome(reserve_in, reserve_out, fee_bps, requested_input) is Ok,
    ensures
        ({
            let quote = quote_outcome(reserve_in, reserve_out, fee_bps, requested_input)->Ok_0;
            &&& quote.taxed_input <= requested_input
            &&& quote.output <= reserve_out
            &&& (reserve_in + requested_input) * (reserve_out - quote.output) >= reserve_in
                * reserve_out
        }),
{
    let taxed = taxed_input(requested_input, fee_bps);
    let output = swap_output(reserve_in as int, reserve_out as int, taxed);
    lemma_fee_bounds(requested_input, fee_bps);
    lemma_swap_output_bounds(reserve_in as int, reserve_out as int, taxed);
    assert((reserve_in + requested_input) * (reserve_out - output) >= (reserve_in + taxed) * (
    reserve_out - output)) by (nonlinear_arith)
        requires
            taxed <= requested_input,
            0 <= reserve_out - output,
    ;
}

/// The input that is left of `requested_input` once the fee is taken.
pub fn apply_fee(requested_input: u64, fee_bps: u16) -> (taxed: u64)
    requires
        fee_bps < FEE_DENOMINATOR,
    ensures
        taxed == taxed_input(requested_input, fee_bps),
{
    proof {
        lemma_fee_bounds(requested_input, fee_bps);
    }
    let fee: u128 = (requested_input as u128) * (fee_bps as u128) / (FEE_DENOMINATOR as u128);
    requested_input - (fee as u64)
}

/// Quotes a swap of `requested_input` into a pool: the input after the fee
/// and the output that the curve gives for it. The fee is a market's, and
/// so less than a whole.
pub fn quote_swap(reserve_in: u64, reserve_out: u64, fee_bps: u16, requested_input: u64) -> (r:
    Result<SwapQuote, TutorialError>)
    requires
        fee_bps < FEE_DENOMINATOR,
    ensures
        r == quote_outcome(reserve_in, reserve_out, fee_bps, requested_input),
        r matches Ok(quote) ==> quote.taxed_input <= requested_input && quote.output
            <= reserve_out && (reserve_in + requested_input) * (reserve_out - quote.output)
            >= reserve_in * reserve_out,
{
    let taxed = apply_fee(requested_input, fee_bps);
    let whole_taxed = Fixed::from_num(taxed)?;
    let whole_out = Fixed::from_num(reserve_out)?;
    proof {
        lemma_whole_product(taxed as int, reserve_out as int);
    }
    let numerator = whole_taxed.checked_mul(whole_out)?;
    let whole_in = Fixed::from_num(reserve_in)?;
    let denominator = whole_in.checked_add(whole_taxed)?;
    assert(denominator@ == (reserve_in + taxed) * scale());
    proof {
        if reserve_in + taxed != 0 {
            lemma_whole_quotient(taxed * reserve_out, reserve_in + taxed);
        }
    }
    let output = numerator.checked_div(denominator)?.to_num();
    proof {
        lemma_quote_keeps_invariant(reserve_in, reserve_out, fee_bps, requested_input);
    }
    Ok(SwapQuote { taxed_input: taxed, output })
}

/// Accepts or refuses a swap before anything is moved. A swap whose quote
/// pays less than `min_output_amount` is refused with `OutputTooSmall`;
/// one that is accepted carries the product of the reserves, which
/// [`confirm_swap`] holds the pool to afterwards.
pub fn execute_swap(
    reserve_in: u64,
    reserve_out: u64,
    fee_bps: u16,
    requested_input: u64,
    min_output_amount: u64,
) -> (r: Result<SwapPlan, TutorialError>)
    requires
        fee_bps < FEE_DENOMINATOR,
    ensures
        r == execute_outcome(reserve_in, reserve_out, fee_bps, requested_input, min_output_amount),
{
    let quote = quote_swap(reserve_in, reserve_out, fee_bps, requested_input)?;
    if quote.output < min_output_amount {
        return Err(TutorialError::OutputTooSmall);
    }
    assert(reserve_in * reserve_out <= u128::MAX) by (nonlinear_arith)
        requires
            reserve_in <= u64::MAX,
            reserve_out <= u64::MAX,
    ;
    let invariant_before: u128 = (reserve_in as u128) * (reserve_out as u128);
    Ok(
        SwapPlan {
            input: requested_input,
            taxed_input: quote.taxed_input,
            output: quote.output,
            invariant_before,
        },
    )
}

/// Holds a pool to the product of its reserves after a swap was applied:
/// the reserves that the ledger then reports must multiply to `invariant_before`
/// or more, or the swap fails with `InvariantViolated`.
pub fn confirm_swap(invariant_before: u128, reserve_in_after: u64, reserve_out_after: u64) -> (r: Result<
    (),
    TutorialError,
>)
    ensures
        r == confirm_outcome(invariant_before, reserve_in_after, reserve_out_after),
{
    assert(reserve_in_after * reserve_out_after <= u128::MAX) by (nonlinear_arith)
        requires
            reserve_in_after <= u64::MAX,
            reserve_out_after <= u64::MAX,
    ;
    if invariant_before > (reserve_in_after as u128) * (reserve_out_after as u128) {
        Err(TutorialError::InvariantViolated)
    } else {
        Ok(())
    }
}

/// The swap instruction: gives asset A for asset B where `swap_a` is set
/// and B for A where it is not. The input is capped at the trader's
/// balance of the asset given, and the capped input is then quoted at the
/// market's fee and held to `min_output_amount`.
pub fn swap_exact_tokens_for_tokens(
    ctx: &SwapExactTokensForTokens,
    swap_a: bool,
    input_amount: u64,
    min_output_amount: u64,
) -> (r: Result<SwapPlan, TutorialError>)
    ensures
        r == execute_outcome(
            ctx.reserve_in(swap_a),
            ctx.reserve_out(swap_a),
            ctx.amm.fee(),
            capped(input_amount, ctx.trader_balance(swap_a)),
            min_output_amount,
        ),
{
    let fee_bps = ctx.amm.fee();
    if swap_a {
        let input = cap_to_balance(input_amount, ctx.trader_account_a);
        execute_swap(ctx.pool_account_a, ctx.pool_account_b, fee_bps, input, min_output_amount)
    } else {
        let input = cap_to_balance(input_amount, ctx.trader_account_b);
        execute_swap(ctx.pool_account_b, ctx.pool_account_a, fee_bps, input, min_output_amount)
    }
}

} // verus!
