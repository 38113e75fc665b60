use amm_core::errors::TutorialError;
use amm_core::fixed_point::Fixed;

const ONE: i128 = 1 << 64;

fn whole(n: u64) -> Fixed {
    Fixed::from_num(n).unwrap()
}

fn bits(b: i128) -> Fixed {
    Fixed::from_bits(b).unwrap()
}

#[test]
fn from_num_scales_by_two_to_the_64() {
    assert_eq!(whole(0).to_bits(), 0);
    assert_eq!(whole(1).to_bits(), ONE);
    assert_eq!(whole(3).to_bits(), 3 * ONE);
    assert_eq!(whole(i64::MAX as u64).to_bits(), (i64::MAX as i128) << 64);
}

#[test]
fn from_num_refuses_what_needs_64_bits() {
    assert_eq!(Fixed::from_num(1 << 63), Err(TutorialError::ArithmeticOverflow));
    assert_eq!(Fixed::from_num(u64::MAX), Err(TutorialError::ArithmeticOverflow));
    assert!(Fixed::from_num((1 << 63) - 1).is_ok());
}

#[test]
fn from_bits_takes_non_negative_bits_only() {
    assert_eq!(Fixed::from_bits(-1), None);
    assert_eq!(Fixed::from_bits(i128::MIN), None);
    assert_eq!(bits(0).to_bits(), 0);
    assert_eq!(bits(i128::MAX).to_bits(), i128::MAX);
    assert_eq!(bits(5 * ONE), whole(5));
}

#[test]
fn to_num_drops_the_fraction() {
    assert_eq!(whole(42).to_num(), 42);
    assert_eq!(bits(ONE - 1).to_num(), 0);
    assert_eq!(bits(ONE + ONE / 2).to_num(), 1);
    assert_eq!(bits(3 * ONE - 1).to_num(), 2);
    assert_eq!(bits(i128::MAX).to_num(), i64::MAX as u64);
}

#[test]
fn checked_add_adds_the_bits() {
    assert_eq!(whole(2).checked_add(whole(3)), Ok(whole(5)));
    assert_eq!(bits(1).checked_add(bits(ONE / 2)).unwrap().to_bits(), ONE / 2 + 1);
    assert_eq!(bits(i128::MAX - 1).checked_add(bits(1)).unwrap().to_bits(), i128::MAX);
}

#[test]
fn checked_add_reports_overflow() {
    assert_eq!(
        whole(i64::MAX as u64).checked_add(whole(1)),
        Err(TutorialError::ArithmeticOverflow)
    );
    assert_eq!(bits(i128::MAX).checked_add(bits(1)), Err(TutorialError::ArithmeticOverflow));
}

#[test]
fn checked_mul_multiplies_whole_numbers_exactly() {
    assert_eq!(whole(6).checked_mul(whole(7)), Ok(whole(42)));
    assert_eq!(whole(0).checked_mul(whole(7)), Ok(whole(0)));
    assert_eq!(whole(1 << 31).checked_mul(whole(1 << 31)), Ok(whole(1 << 62)));
}

#[test]
fn checked_mul_rounds_down() {
    // half of the smallest fraction is nothing
    assert_eq!(bits(1).checked_mul(bits(ONE / 2)).unwrap().to_bits(), 0);
    // 1.5 * 1.5 = 2.25
    let one_and_a_half = bits(ONE + ONE / 2);
    assert_eq!(one_and_a_half.checked_mul(one_and_a_half).unwrap().to_bits(), 2 * ONE + ONE / 4);
    // (3 * 2^-64) * 0.5 = 1.5 * 2^-64, which rounds down to 2^-64
    assert_eq!(bits(3).checked_mul(bits(ONE / 2)).unwrap().to_bits(), 1);
}

#[test]
fn checked_mul_reports_overflow() {
    assert_eq!(
        whole(1 << 32).checked_mul(whole(1 << 31)),
        Err(TutorialError::ArithmeticOverflow)
    );
    assert_eq!(
        whole(i64::MAX as u64).checked_mul(whole(2)),
        Err(TutorialError::ArithmeticOverflow)
    );
    assert_eq!(whole(i64::MAX as u64).checked_mul(whole(1)), Ok(whole(i64::MAX as u64)));
}

#[test]
fn checked_div_divides_and_rounds_down() {
    assert_eq!(whole(42).checked_div(whole(7)), Ok(whole(6)));
    assert_eq!(whole(1).checked_div(whole(2)).unwrap().to_bits(), ONE / 2);
    // a third is 0x5555...5 and a bit that is rounded away
    assert_eq!(whole(1).checked_div(whole(3)).unwrap().to_bits(), 6148914691236517205);
    assert_eq!(whole(7).checked_div(whole(3)).unwrap().to_bits(), 43042402838655620437);
    assert_eq!(whole(0).checked_div(whole(3)), Ok(whole(0)));
}

#[test]
fn checked_div_reports_a_zero_divisor() {
    assert_eq!(whole(1).checked_div(whole(0)), Err(TutorialError::DivisionByZero));
    assert_eq!(whole(0).checked_div(whole(0)), Err(TutorialError::DivisionByZero));
}

#[test]
fn checked_div_reports_overflow() {
    // 2^62 / 2^-64 = 2^126, which needs 127 integer bits
    assert_eq!(whole(1 << 62).checked_div(bits(1)), Err(TutorialError::ArithmeticOverflow));
    // 1 / 2^-63 = 2^63, one bit too many
    assert_eq!(whole(1).checked_div(bits(2)), Err(TutorialError::ArithmeticOverflow));
    // 1 / 2^-62 = 2^62 fits
    assert_eq!(whole(1).checked_div(bits(4)), Ok(whole(1 << 62)));
}

#[test]
fn sqrt_of_squares_is_exact() {
    assert_eq!(whole(0).sqrt(), whole(0));
    assert_eq!(whole(1).sqrt(), whole(1));
    assert_eq!(whole(4).sqrt(), whole(2));
    assert_eq!(whole(1 << 62).sqrt(), whole(1 << 31));
    assert_eq!(bits(ONE / 4).sqrt().to_bits(), ONE / 2);
}

#[test]
fn sqrt_rounds_down() {
    // the square root of two, to 64 binary places
    assert_eq!(whole(2).sqrt().to_bits(), 26087635650665564424);
    assert_eq!(whole(25).sqrt().to_num(), 5);
    assert_eq!(whole(26).sqrt().to_num(), 5);
    assert_eq!(whole(35).sqrt().to_num(), 5);
    assert_eq!(whole(36).sqrt().to_num(), 6);
}

#[test]
fn sqrt_result_brackets_the_argument() {
    for n in [2u64, 3, 5, 10, 99, 1000, 123456789, (1 << 63) - 1] {
        let root = whole(n).sqrt().to_bits() as u128;
        // root^2 <= n * 2^128 < (root + 1)^2, compared by their high and low halves
        let (hi, lo) = square(root);
        assert!(hi < n as u128 || (hi == n as u128 && lo == 0));
        let (hi, lo) = square(root + 1);
        assert!(hi > n as u128 || (hi == n as u128 && lo > 0));
    }
}

// the square of a number below 2^96, as a multiple of 2^128 and a rest
fn square(x: u128) -> (u128, u128) {
    let (x1, x0) = (x >> 64, x & (u64::MAX as u128));
    let low = x0 * x0;
    let mid = 2 * x1 * x0;
    let high = x1 * x1;
    let (lo, carry) = low.overflowing_add(mid << 64);
    (high + (mid >> 64) + carry as u128, lo)
}
