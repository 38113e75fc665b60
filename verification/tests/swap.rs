use amm_core::constants::FEE_DENOMINATOR;
use amm_core::errors::TutorialError;
use amm_core::market::{create_amm, Address, Amm, CreateAmm};
use amm_core::swap::{
    apply_fee, confirm_swap, execute_swap, quote_swap, swap_exact_tokens_for_tokens,
    SwapExactTokensForTokens, SwapPlan, SwapQuote,
};

fn quote(taxed_input: u64, output: u64) -> SwapQuote {
    SwapQuote { taxed_input, output }
}

fn market(fee: u16) -> Amm {
    let ctx = CreateAmm { admin: Address::new([1; 32]) };
    create_amm(&ctx, Address::new([2; 32]), fee).unwrap()
}

#[test]
fn fee_denominator_is_ten_thousand() {
    assert_eq!(FEE_DENOMINATOR, 10000);
}

#[test]
fn fee_is_taken_from_the_input_rounded_down() {
    assert_eq!(apply_fee(10000, 30), 9970);
    assert_eq!(apply_fee(100, 30), 100);
    assert_eq!(apply_fee(334, 30), 333);
    assert_eq!(apply_fee(333, 30), 333);
    assert_eq!(apply_fee(10000, 0), 10000);
    assert_eq!(apply_fee(10000, 9999), 1);
    assert_eq!(apply_fee(0, 9999), 0);
    assert_eq!(apply_fee(u64::MAX, 9999), 1844674407370956);
    assert_eq!(apply_fee(u64::MAX, 0), u64::MAX);
}

#[test]
fn quote_without_fee_follows_the_curve() {
    assert_eq!(quote_swap(1000, 1000, 0, 100), Ok(quote(100, 90)));
    assert_eq!(quote_swap(1000, 1000, 0, 1000), Ok(quote(1000, 500)));
    assert_eq!(quote_swap(1000, 1000, 0, 0), Ok(quote(0, 0)));
}

#[test]
fn quote_with_fee_applies_the_curve_to_the_taxed_input() {
    assert_eq!(quote_swap(1000, 1000, 30, 10000), Ok(quote(9970, 908)));
    assert_eq!(quote_swap(1000000, 2000000, 25, 12345), Ok(quote(12315, 24330)));
    assert_eq!(quote_swap(1000, 1000, 9999, 10000), Ok(quote(1, 0)));
}

#[test]
fn quote_into_a_pool_without_the_input_asset() {
    // the whole output reserve goes for any input
    assert_eq!(quote_swap(0, 5, 0, 3), Ok(quote(3, 5)));
    // and nothing can be said of no input at all
    assert_eq!(quote_swap(0, 5, 0, 0), Err(TutorialError::DivisionByZero));
    assert_eq!(quote_swap(0, 0, 0, 0), Err(TutorialError::DivisionByZero));
    // the fee is rounded down, so it never eats an input whole
    assert_eq!(quote_swap(0, 5, 9999, 1), Ok(quote(1, 5)));
    assert_eq!(quote_swap(0, 5, 5000, 2), Ok(quote(1, 5)));
}

#[test]
fn quote_from_a_pool_without_the_output_asset_pays_nothing() {
    assert_eq!(quote_swap(5, 0, 0, 3), Ok(quote(3, 0)));
}

#[test]
fn quote_reports_overflow() {
    let overflow = Err(TutorialError::ArithmeticOverflow);
    assert_eq!(quote_swap(1 << 63, 1, 0, 1), overflow);
    assert_eq!(quote_swap(1, 1 << 63, 0, 1), overflow);
    assert_eq!(quote_swap(1, 1, 0, 1 << 63), overflow);
    // the input reserve after the swap needs 64 bits
    assert_eq!(quote_swap(1, 1, 0, (1 << 63) - 1), overflow);
    // the taxed input times the output reserve needs 64 bits
    assert_eq!(quote_swap(7, 1 << 62, 0, 2), overflow);
    // an overflow is met before the division by zero is
    assert_eq!(quote_swap(0, 1 << 63, 0, 0), overflow);
}

#[test]
fn the_largest_quotes_that_fit() {
    assert_eq!(quote_swap(1, 1, 0, (1 << 63) - 2), Ok(quote((1 << 63) - 2, 0)));
    assert_eq!(quote_swap(7, (1 << 63) - 1, 0, 1), Ok(quote(1, 1152921504606846975)));
    assert_eq!(quote_swap(1, 1, 9999, u64::MAX), Ok(quote(1844674407370956, 0)));
}

#[test]
fn slippage_bound_is_held() {
    assert_eq!(
        execute_swap(1000, 1000, 0, 100, 90),
        Ok(SwapPlan { input: 100, taxed_input: 100, output: 90, invariant_before: 1_000_000 })
    );
    assert_eq!(execute_swap(1000, 1000, 0, 100, 91), Err(TutorialError::OutputTooSmall));
    assert_eq!(execute_swap(1000, 1000, 0, 100, u64::MAX), Err(TutorialError::OutputTooSmall));
    assert!(execute_swap(1000, 1000, 0, 100, 0).is_ok());
}

#[test]
fn accepted_swap_carries_the_whole_input_and_the_product() {
    assert_eq!(
        execute_swap(1000, 1000, 30, 10000, 900),
        Ok(SwapPlan { input: 10000, taxed_input: 9970, output: 908, invariant_before: 1_000_000 })
    );
    // a product that needs more than 64 bits
    assert_eq!(
        execute_swap(1 << 40, 1 << 20, 0, 1 << 40, 0),
        Ok(SwapPlan {
            input: 1 << 40,
            taxed_input: 1 << 40,
            output: 1 << 19,
            invariant_before: 1 << 60,
        })
    );
    assert_eq!(
        execute_swap((1 << 63) - 2, 1 << 62, 0, 1, 0).map(|plan| plan.invariant_before),
        Ok(((1u128 << 63) - 2) << 62)
    );
}

#[test]
fn execute_passes_the_failures_of_the_quote_on() {
    assert_eq!(execute_swap(0, 5, 0, 0, 0), Err(TutorialError::DivisionByZero));
    assert_eq!(execute_swap(1 << 63, 5, 0, 1, 0), Err(TutorialError::ArithmeticOverflow));
    // a quote that fails is not held to the slippage bound
    assert_eq!(execute_swap(0, 5, 0, 0, 100), Err(TutorialError::DivisionByZero));
}

#[test]
fn confirm_holds_the_pool_to_the_product() {
    assert_eq!(confirm_swap(1_000_000, 1100, 910), Ok(()));
    assert_eq!(confirm_swap(1_000_000, 1000, 1000), Ok(()));
    assert_eq!(confirm_swap(1_000_000, 1100, 909), Err(TutorialError::InvariantViolated));
    assert_eq!(confirm_swap(1, 0, u64::MAX), Err(TutorialError::InvariantViolated));
    assert_eq!(confirm_swap(0, 0, 0), Ok(()));
    assert_eq!(confirm_swap(u128::MAX, u64::MAX, u64::MAX), Err(TutorialError::InvariantViolated));
    let largest = (u64::MAX as u128) * (u64::MAX as u128);
    assert_eq!(confirm_swap(largest, u64::MAX, u64::MAX), Ok(()));
    assert_eq!(confirm_swap(largest + 1, u64::MAX, u64::MAX), Err(TutorialError::InvariantViolated));
}

#[test]
fn output_grows_with_the_input_and_stays_below_the_reserve() {
    for (reserve_in, reserve_out) in [(1000u64, 1000u64), (1, 1_000_000), (1_000_000, 1), (37, 91)] {
        for fee in [0u16, 1, 30, 5000, 9999] {
            let mut last = 0;
            for input in (0..5000u64).chain([1 << 20, 1 << 30, 1 << 40]) {
                let out = quote_swap(reserve_in, reserve_out, fee, input).unwrap().output;
                assert!(out >= last);
                assert!(out < reserve_out);
                last = out;
            }
        }
    }
}

#[test]
fn applied_quote_never_lowers_the_product() {
    for (reserve_in, reserve_out) in [(1000u64, 1000u64), (1, 1_000_000), (1_000_000, 1), (37, 91)] {
        for fee in [0u16, 1, 30, 5000, 9999] {
            for input in (0..3000u64).chain([1 << 20, 1 << 30]) {
                let plan = execute_swap(reserve_in, reserve_out, fee, input, 0).unwrap();
                assert!(plan.taxed_input <= plan.input);
                assert!(plan.output <= reserve_out);
                let after_in = reserve_in + plan.input;
                let after_out = reserve_out - plan.output;
                assert_eq!(confirm_swap(plan.invariant_before, after_in, after_out), Ok(()));
                // taking one unit more out than was quoted is caught, unless the
                // fee that stayed in the pool makes up for it
                if after_out > 0
                    && (after_in as u128) * ((after_out - 1) as u128) < plan.invariant_before
                {
                    assert_eq!(
                        confirm_swap(plan.invariant_before, after_in, after_out - 1),
                        Err(TutorialError::InvariantViolated)
                    );
                }
            }
        }
    }
}

fn accounts(fee: u16) -> SwapExactTokensForTokens {
    SwapExactTokensForTokens {
        amm: market(fee),
        pool_account_a: 1000,
        pool_account_b: 4000,
        trader_account_a: 100,
        trader_account_b: 200,
    }
}

#[test]
fn instruction_swaps_a_for_b() {
    assert_eq!(
        swap_exact_tokens_for_tokens(&accounts(0), true, 100, 0),
        Ok(SwapPlan { input: 100, taxed_input: 100, output: 363, invariant_before: 4_000_000 })
    );
}

#[test]
fn instruction_swaps_b_for_a() {
    assert_eq!(
        swap_exact_tokens_for_tokens(&accounts(0), false, 100, 0),
        Ok(SwapPlan { input: 100, taxed_input: 100, output: 24, invariant_before: 4_000_000 })
    );
}

#[test]
fn instruction_caps_the_input_at_the_balance_of_the_asset_given() {
    assert_eq!(
        swap_exact_tokens_for_tokens(&accounts(0), true, 150, 0),
        Ok(SwapPlan { input: 100, taxed_input: 100, output: 363, invariant_before: 4_000_000 })
    );
    assert_eq!(
        swap_exact_tokens_for_tokens(&accounts(0), false, 150, 0),
        Ok(SwapPlan { input: 150, taxed_input: 150, output: 36, invariant_before: 4_000_000 })
    );
    assert_eq!(
        swap_exact_tokens_for_tokens(&accounts(0), false, 1000, 0),
        Ok(SwapPlan { input: 200, taxed_input: 200, output: 47, invariant_before: 4_000_000 })
    );
}

#[test]
fn instruction_takes_the_fee_of_the_market() {
    assert_eq!(
        swap_exact_tokens_for_tokens(&accounts(500), true, 100, 0),
        Ok(SwapPlan { input: 100, taxed_input: 95, output: 347, invariant_before: 4_000_000 })
    );
}

#[test]
fn instruction_holds_the_capped_swap_to_the_minimum_output() {
    assert_eq!(
        swap_exact_tokens_for_tokens(&accounts(0), true, 150, 364),
        Err(TutorialError::OutputTooSmall)
    );
    assert!(swap_exact_tokens_for_tokens(&accounts(0), true, 150, 363).is_ok());
}
