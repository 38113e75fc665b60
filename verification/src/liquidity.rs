//! Deposits and withdrawals of liquidity.
//!
//! A deposit into a pool that holds reserves is brought to the ratio of
//! those reserves; the first deposit into an empty pool sets the ratio. Every
//! deposit mints the geometric mean of the two amounts in liquidity shares,
//! and the first one leaves [`MINIMUM_LIQUIDITY`] of them locked for good. A
//! withdrawal pays out the burned share of both reserves.

use vstd::prelude::*;
use vstd::arithmetic::div_mod::{lemma_div_by_multiple, lemma_multiply_divide_lt};
use crate::arithmetic::{floor_sqrt, lemma_div_bounds, lemma_floor_sqrt_exists};
use crate::balance::{cap_to_balance, capped};
use crate::constants::MINIMUM_LIQUIDITY;
use crate::errors::TutorialError;
use crate::fixed_point::{
    lemma_fits_whole_part, lemma_whole_over, lemma_whole_product, lemma_whole_quotient,
    lemma_whole_sqrt, lemma_whole_times, representable, scale, Fixed,
};

verus! {

/// What a deposit moves and mints.
#[derive(Clone, Copy, Debug, PartialEq, Eq)]
pub struct DepositPlan {
    /// The amount of asset A to move into the pool.
    pub applied_a: u64,
    /// The amount of asset B to move into the pool.
    pub applied_b: u64,
    /// The liquidity shares to mint to the depositor.
    pub minted_liquidity: u64,
}

/// What a withdrawal pays out.
#[derive(Clone, Copy, Debug, PartialEq, Eq)]
pub struct WithdrawPlan {
    /// The amount of asset A to move out of the pool.
    pub payout_a: u64,
    /// The amount of asset B to move out of the pool.
    pub payout_b: u64,
}

/// The balances that a deposit reads.
#[derive(Clone, Copy, Debug, PartialEq, Eq)]
pub struct DepositLiquidity {
    /// The pool's reserve of asset A.
    pub pool_account_a: u64,
    /// The pool's reserve of asset B.
    pub pool_account_b: u64,
    /// The liquidity shares in circulation.
    pub mint_liquidity: u64,
    /// The depositor's balance of asset A.
    pub depositor_account_a: u64,
    /// The depositor's balance of asset B.
    pub depositor_account_b: u64,
}

/// The balances that a withdrawal reads.
#[derive(Clone, Copy, Debug, PartialEq, Eq)]
pub struct WithdrawLiquidity {
    /// The pool's reserve of asset A.
    pub pool_account_a: u64,
    /// The pool's reserve of asset B.
    pub pool_account_b: u64,
    /// The liquidity shares in circulation.
    pub mint_liquidity: u64,
}

/// A pool is empty, and its next deposit the first, when both reserves are
/// zero. The shares in circulation do not count: a reserve that is already
/// there binds every later deposit to its ratio.
pub open spec fn is_pool_creation(reserve_a: u64, reserve_b: u64) -> bool {
    reserve_a == 0 && reserve_b == 0
}

/// The ratio of the reserves, A to B, as fixed-point bits.
pub open spec fn reserve_ratio(reserve_a: u64, reserve_b: u64) -> int {
    reserve_a * scale() / (reserve_b as int)
}

/// The amounts of a deposit after they were brought to the pool's ratio.
///
/// Into an empty pool the request goes unchanged. Else, where the pool
/// holds more of A than of B, the B leg stands and the A leg is the B leg
/// times the ratio; where it does not, the A leg stands and the B leg is
/// the A leg over the ratio. Both are rounded down. `ArithmeticOverflow`
/// comes where a reserve, the leg that stands or the leg computed from it
/// needs more than 63 bits, and `DivisionByZero` where one reserve is zero
/// and the other is not (a zero B reserve, or a zero ratio to divide by).
pub open spec fn applied_amounts(
    reserve_a: u64,
    reserve_b: u64,
    requested_a: u64,
    requested_b: u64,
) -> Result<(u64, u64), TutorialError> {
    let ratio = reserve_ratio(reserve_a, reserve_b);
    if is_pool_creation(reserve_a, reserve_b) {
        Ok((requested_a, requested_b))
    } else if !representable(reserve_a as int) || !representable(reserve_b as int) {
        Err(TutorialError::ArithmeticOverflow)
    } else if reserve_b == 0 {
        Err(TutorialError::DivisionByZero)
    } else if reserve_a > reserve_b {
        if !representable(requested_b as int) || !representable(requested_b * ratio / scale()) {
            Err(TutorialError::ArithmeticOverflow)
        } else {
            Ok(((requested_b * ratio / scale()) as u64, requested_b))
        }
    } else if !representable(requested_a as int) {
        Err(TutorialError::ArithmeticOverflow)
    } else if reserve_a == 0 {
        Err(TutorialError::DivisionByZero)
    } else if !representable(requested_a * scale() / ratio) {
        Err(TutorialError::ArithmeticOverflow)
    } else {
        Ok((requested_a, (requested_a * scale() / ratio) as u64))
    }
}

/// The liquidity that two amounts are worth: their geometric mean, rounded
/// down. `ArithmeticOverflow` where an amount or the product of the two
/// needs more than 63 bits.
pub open spec fn liquidity_value(amount_a: u64, amount_b: u64) -> Result<u64, TutorialError> {
    if !representable(amount_a as int) || !representable(amount_b as int) || !representable(
        amount_a * amount_b,
    ) {
        Err(TutorialError::ArithmeticOverflow)
    } else {
        Ok(floor_sqrt(amount_a * amount_b) as u64)
    }
}

/// What a deposit comes to: the applied amounts, and the liquidity they are
/// worth, less the locked minimum where the deposit is the first.
/// `DepositTooSmall` where a first deposit is worth less than that minimum.
pub open spec fn deposit_outcome(
    reserve_a: u64,
    reserve_b: u64,
    requested_a: u64,
    requested_b: u64,
) -> Result<DepositPlan, TutorialError> {
    match applied_amounts(reserve_a, reserve_b, requested_a, requested_b) {
        Err(e) => Err(e),
        Ok((applied_a, applied_b)) => match liquidity_value(applied_a, applied_b) {
            Err(e) => Err(e),
            Ok(liquidity) => if !is_pool_creation(reserve_a, reserve_b) {
                Ok(DepositPlan { applied_a, applied_b, minted_liquidity: liquidity })
            } else if liquidity < MINIMUM_LIQUIDITY {
                Err(TutorialError::DepositTooSmall)
            } else {
                Ok(
                    DepositPlan {
                        applied_a,
                        applied_b,
                        minted_liquidity: (liquidity - MINIMUM_LIQUIDITY) as u64,
                    },
                )
            },
        },
    }
}

/// The share of one reserve that burning `burn_amount` out of
/// `liquidity_supply` shares pays out, rounded down. `ArithmeticOverflow`
/// where the burned amount, the reserve, their product or the supply needs
/// more than 63 bits; `DivisionByZero` where none does and the supply is
/// zero.
pub open spec fn payout_share(reserve: u64, liquidity_supply: u64, burn_amount: u64) -> Result<
    u64,
    TutorialError,
> {
    if !representable(burn_amount as int) || !representable(reserve as int) || !representable(
        burn_amount * reserve,
    ) || !representable(liquidity_supply as int) {
        Err(TutorialError::ArithmeticOverflow)
    } else if liquidity_supply == 0 {
        Err(TutorialError::DivisionByZero)
    } else {
        Ok((burn_amount * reserve / (liquidity_supply as int)) as u64)
    }
}

/// What a withdrawal comes to: the share of each reserve, A first.
pub open spec fn withdraw_outcome(
    reserve_a: u64,
    reserve_b: u64,
    liquidity_supply: u64,
    burn_amount: u64,
) -> Result<WithdrawPlan, TutorialError> {
    match payout_share(reserve_a, liquidity_supply, burn_amount) {
        Err(e) => Err(e),
        Ok(payout_a) => match payout_share(reserve_b, liquidity_supply, burn_amount) {
            Err(e) => Err(e),
            Ok(payout_b) => Ok(WithdrawPlan { payout_a, payout_b }),
        },
    }
}

/// A burn of no more shares than there are never pays out more than the
/// reserve holds. It pays out all of it where every share is burned, and
/// less than all of a reserve that is not empty where some share is left.
pub proof fn lemma_payout_bounded(reserve: u64, liquidity_supply: u64, burn_amount: u64)
    requires
        burn_amount <= liquidity_supply,
        payout_share(reserve, liquidity_supply, burn_amount) is Ok,
    ensures
        payout_share(reserve, liquidity_supply, burn_amount)->Ok_0 <= reserve,
        burn_amount == liquidity_supply ==> payout_share(reserve, liquidity_supply, burn_amount)
            ->Ok_0 == reserve,
        burn_amount < liquidity_supply && 0 < reserve ==> payout_share(
            reserve,
            liquidity_supply,
            burn_amount,
        )->Ok_0 < reserve,
{
    let supply = liquidity_supply as int;
    let share = burn_amount * reserve / supply;
    assert(0 <= burn_amount * reserve <= supply * reserve) by (nonlinear_arith)
        requires
            0 <= burn_amount <= supply,
            0 <= reserve,
    ;
    lemma_div_bounds(burn_amount * reserve, supply);
    assert(share <= reserve) by (nonlinear_arith)
        requires
            supply * share <= supply * reserve,
            0 < supply,
    ;
    if burn_amount == liquidity_supply {
        assert(burn_amount * reserve == reserve * supply) by (nonlinear_arith)
            requires
                burn_amount == supply,
        ;
        lemma_div_by_multiple(reserve as int, supply);
    }
    if burn_amount < liquidity_supply && 0 < reserve {
        assert(burn_amount * reserve < supply * reserve) by (nonlinear_arith)
            requires
                0 <= burn_amount < supply,
                0 < reserve,
        ;
        lemma_multiply_divide_lt(burn_amount * reserve, supply, reserve as int);
    }
}

/// Whoever makes the first deposit into a pool and at once burns every
/// share that was minted for it gets back no more than went in, whatever
/// the supply that the shares are burned out of. All of it comes back where
/// the minted shares are the whole supply; where the supply also counts
/// shares that nobody can burn, such as the locked minimum, less than the
/// deposit comes back of either asset.
pub proof fn lemma_deposit_withdraw_round_trip(
    requested_a: u64,
    requested_b: u64,
    liquidity_supply: u64,
)
    requires
        deposit_outcome(0, 0, requested_a, requested_b) is Ok,
        deposit_outcome(0, 0, requested_a, requested_b)->Ok_0.minted_liquidity
            <= liquidity_supply,
    ensures
        ({
            let plan = deposit_outcome(0, 0, requested_a, requested_b)->Ok_0;
            let back = withdraw_outcome(
                plan.applied_a,
                plan.applied_b,
                liquidity_supply,
                plan.minted_liquidity,
            );
            &&& plan.applied_a == requested_a && plan.applied_b == requested_b
            &&& back matches Ok(payout) ==> {
                &&& payout.payout_a <= requested_a
                &&& payout.payout_b <= requested_b
                &&& liquidity_supply == plan.minted_liquidity ==> payout.payout_a == requested_a
                    && payout.payout_b == requested_b
                &&& liquidity_supply > plan.minted_liquidity ==> payout.payout_a < requested_a
                    && payout.payout_b < requested_b
            }
        }),
{
    let plan = deposit_outcome(0, 0, requested_a, requested_b)->Ok_0;
    let back = withdraw_outcome(requested_a, requested_b, liquidity_supply, plan.minted_liquidity);
    if back is Ok {
        lemma_payout_bounded(requested_a, liquidity_supply, plan.minted_liquidity);
        lemma_payout_bounded(requested_b, liquidity_supply, plan.minted_liquidity);
        // a first deposit that mints at all is worth the locked minimum, so
        // neither amount is zero
        let product = requested_a * requested_b;
        assert(0 <= product) by (nonlinear_arith)
            requires
                product == requested_a * requested_b,
                0 <= requested_a,
                0 <= requested_b,
        ;
        lemma_floor_sqrt_exists(product);
        let root = floor_sqrt(product);
        assert(product > 0) by (nonlinear_arith)
            requires
                root >= 100,
                root * root <= product,
        ;
        assert(requested_a > 0 && requested_b > 0) by (nonlinear_arith)
            requires
                product == requested_a * requested_b,
                product > 0,
                0 <= requested_a,
                0 <= requested_b,
        ;
    }
}

/// Brings the requested amounts of a deposit to the ratio of the reserves.
pub fn proportional_amounts(
    reserve_a: u64,
    reserve_b: u64,
    requested_a: u64,
    requested_b: u64,
) -> (r: Result<(u64, u64), TutorialError>)
    ensures
        r == applied_amounts(reserve_a, reserve_b, requested_a, requested_b),
{
    if reserve_a == 0 && reserve_b == 0 {
        return Ok((requested_a, requested_b));
    }
    let whole_a = Fixed::from_num(reserve_a)?;
    let whole_b = Fixed::from_num(reserve_b)?;
    proof {
        if reserve_b != 0 {
            lemma_whole_quotient(reserve_a as int, reserve_b as int);
        }
    }
    let ratio = whole_a.checked_div(whole_b)?;
    assert(ratio@ == reserve_ratio(reserve_a, reserve_b));
    if reserve_a > reserve_b {
        let leg_b = Fixed::from_num(requested_b)?;
        proof {
            lemma_whole_times(requested_b as int, ratio@);
            lemma_fits_whole_part(requested_b * ratio@);
        }
        let leg_a = leg_b.checked_mul(ratio)?;
        Ok((leg_a.to_num(), requested_b))
    } else {
        let leg_a = Fixed::from_num(requested_a)?;
        proof {
            if reserve_a != 0 {
                // a ratio of at least 2^64 / 2^63 is not zero
                lemma_div_bounds(reserve_a * scale(), reserve_b as int);
                assert(ratio@ > 0) by (nonlinear_arith)
                    requires
                        1 <= reserve_a,
                        1 <= reserve_b <= i64::MAX,
                        reserve_a * scale() < reserve_b * ratio@ + reserve_b,
                        scale() == 0x1_0000_0000_0000_0000,
                ;
                lemma_whole_over(requested_a as int, ratio@);
                lemma_fits_whole_part(requested_a * scale() * scale() / ratio@);
            } else {
                assert(ratio@ == 0);
            }
        }
        let leg_b = leg_a.checked_div(ratio)?;
        Ok((requested_a, leg_b.to_num()))
    }
}

/// The liquidity that two amounts are worth: their geometric mean.
pub fn liquidity_for(amount_a: u64, amount_b: u64) -> (r: Result<u64, TutorialError>)
    ensures
        r == liquidity_value(amount_a, amount_b),
{
    let whole_a = Fixed::from_num(amount_a)?;
    let whole_b = Fixed::from_num(amount_b)?;
    proof {
        lemma_whole_product(amount_a as int, amount_b as int);
        lemma_whole_sqrt(amount_a * amount_b);
        lemma_floor_sqrt_exists(amount_a * amount_b);
    }
    let product = whole_a.checked_mul(whole_b)?;
    Ok(product.sqrt().to_num())
}

/// Plans a deposit of up to `requested_a` and `requested_b` into a pool
/// with the given reserves: the amounts to move in and the liquidity shares
/// to mint. Nothing is moved here. Whether the deposit is the first is
/// read off the reserves, so `liquidity_supply` does not bear on the plan.
#[allow(unused_variables)]
pub fn plan_deposit(
    reserve_a: u64,
    reserve_b: u64,
    liquidity_supply: u64,
    requested_a: u64,
    requested_b: u64,
) -> (r: Result<DepositPlan, TutorialError>)
    ensures
        r == deposit_outcome(reserve_a, reserve_b, requested_a, requested_b),
{
    let pool_creation = reserve_a == 0 && reserve_b == 0;
    let (applied_a, applied_b) = proportional_amounts(
        reserve_a,
        reserve_b,
        requested_a,
        requested_b,
    )?;
    let liquidity = liquidity_for(applied_a, applied_b)?;
    if !pool_creation {
        Ok(DepositPlan { applied_a, applied_b, minted_liquidity: liquidity })
    } else if liquidity < MINIMUM_LIQUIDITY {
        Err(TutorialError::DepositTooSmall)
    } else {
        Ok(DepositPlan { applied_a, applied_b, minted_liquidity: liquidity - MINIMUM_LIQUIDITY })
    }
}

/// The share of one reserve that a burn pays out.
pub fn pro_rata_share(reserve: u64, liquidity_supply: u64, burn_amount: u64) -> (r: Result<
    u64,
    TutorialError,
>)
    ensures
        r == payout_share(reserve, liquidity_supply, burn_amount),
{
    let burned = Fixed::from_num(burn_amount)?;
    let held = Fixed::from_num(reserve)?;
    proof {
        lemma_whole_product(burn_amount as int, reserve as int);
    }
    let numerator = burned.checked_mul(held)?;
    let supply = Fixed::from_num(liquidity_supply)?;
    proof {
        if liquidity_supply != 0 {
            lemma_whole_quotient(burn_amount * reserve, liquidity_supply as int);
        }
    }
    let share = numerator.checked_div(supply)?;
    Ok(share.to_num())
}

/// Plans a withdrawal that burns `burn_amount` of the `liquidity_supply`
/// shares: the amounts of both assets to pay out. No fee is taken.
pub fn plan_withdraw(reserve_a: u64, reserve_b: u64, liquidity_supply: u64, burn_amount: u64) -> (r:
    Result<WithdrawPlan, TutorialError>)
    ensures
        r == withdraw_outcome(reserve_a, reserve_b, liquidity_supply, burn_amount),
{
    let payout_a = pro_rata_share(reserve_a, liquidity_supply, burn_amount)?;
    let payout_b = pro_rata_share(reserve_b, liquidity_supply, burn_amount)?;
    Ok(WithdrawPlan { payout_a, payout_b })
}

/// The deposit instruction: caps the two amounts at the depositor's
/// balances and plans the deposit of what is left.
pub fn deposit_liquidity(ctx: &DepositLiquidity, amount_a: u64, amount_b: u64) -> (r: Result<
    DepositPlan,
    TutorialError,
>)
    ensures
        r == deposit_outcome(
            ctx.pool_account_a,
            ctx.pool_account_b,
            capped(amount_a, ctx.depositor_account_a),
            capped(amount_b, ctx.depositor_account_b),
        ),
{
    let amount_a = cap_to_balance(amount_a, ctx.depositor_account_a);
    let amount_b = cap_to_balance(amount_b, ctx.depositor_account_b);
    plan_deposit(ctx.pool_account_a, ctx.pool_account_b, ctx.mint_liquidity, amount_a, amount_b)
}

/// The withdrawal instruction: plans the payout for burning `amount`
/// liquidity shares.
pub fn withdraw_liquidity(ctx: &WithdrawLiquidity, amount: u64) -> (r: Result<
    WithdrawPlan,
    TutorialError,
>)
    ensures
        r == withdraw_outcome(ctx.pool_account_a, ctx.pool_account_b, ctx.mint_liquidity, amount),
{
    plan_withdraw(ctx.pool_account_a, ctx.pool_account_b, ctx.mint_liquidity, amount)
}

} // verus!
