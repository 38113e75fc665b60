//! Overflow-checked fixed-point arithmetic on non-negative numbers.
//!
//! A [`Fixed`] is a number with 63 integer and 64 fractional bits, held as
//! the `i128` whose value is the number times 2^64. The arithmetic itself is
//! done by the `fixed` crate's `I64F64`; what this module proves is that
//! every operation either yields the value stated here or reports why not.

use vstd::prelude::*;
use fixed::types::I64F64;
use vstd::arithmetic::div_mod::lemma_div_by_multiple;
use crate::arithmetic::{
    floor_sqrt, is_floor_sqrt, lemma_div_bounds, lemma_div_cancel, lemma_div_scaled,
    lemma_floor_sqrt_is, lemma_floor_sqrt_scaled,
};
use crate::errors::TutorialError;

verus! {

/// One, in the bits of a fixed-point number: 2^64.
pub open spec fn scale() -> int {
    0x1_0000_0000_0000_0000
}

/// Whether `bits` are the bits of a number that a [`Fixed`] can hold.
pub open spec fn fits(bits: int) -> bool {
    0 <= bits <= i128::MAX
}

/// Whether the whole number `n` can be held: it needs `n < 2^63`.
pub open spec fn representable(n: int) -> bool {
    0 <= n <= i64::MAX
}

/// The bits of the whole number `n`.
pub open spec fn from_num_bits(n: int) -> int {
    n * scale()
}

/// The bits of a product, rounded down to a multiple of 2^-64.
pub open spec fn mul_bits(a: int, b: int) -> int {
    a * b / scale()
}

/// The bits of a quotient, rounded down to a multiple of 2^-64.
pub open spec fn div_bits(a: int, b: int) -> int {
    a * scale() / b
}

/// The bits of a square root, rounded down to a multiple of 2^-64.
pub open spec fn sqrt_bits(a: int) -> int {
    floor_sqrt(a * scale())
}

/// The whole part of the number with bits `a`.
pub open spec fn whole_part(a: int) -> int {
    a / scale()
}

/// The bits fit exactly when the whole part fits the 63 integer bits.
pub proof fn lemma_fits_whole_part(bits: int)
    requires
        0 <= bits,
    ensures
        fits(bits) <==> representable(whole_part(bits)),
{
}

/// The product of two whole numbers is the whole number `a * b`, and fits
/// exactly when that is representable.
pub proof fn lemma_whole_product(a: int, b: int)
    requires
        0 <= a,
        0 <= b,
    ensures
        0 <= a * b,
        mul_bits(from_num_bits(a), from_num_bits(b)) == from_num_bits(a * b),
        fits(from_num_bits(a * b)) <==> representable(a * b),
{
    let s = scale();
    assert(0 <= a * b && (a * s) * (b * s) == (a * b * s) * s && 0 <= a * b * s)
        by (nonlinear_arith)
        requires
            0 <= a,
            0 <= b,
            0 < s,
    ;
    lemma_div_by_multiple(a * b * s, s);
}

/// A whole number times any fixed-point number: the bits are multiplied by
/// the whole number, with no rounding.
pub proof fn lemma_whole_times(n: int, bits: int)
    requires
        0 <= n,
        0 <= bits,
    ensures
        0 <= n * bits,
        mul_bits(from_num_bits(n), bits) == n * bits,
{
    let s = scale();
    assert(0 <= n * bits && (n * s) * bits == (n * bits) * s) by (nonlinear_arith)
        requires
            0 <= n,
            0 <= bits,
    ;
    lemma_div_by_multiple(n * bits, s);
}

/// The quotient of the whole numbers `x` and `d`: its bits are
/// `x * 2^64 / d`, they fit whenever `x` is representable, and their whole
/// part is `x / d`.
pub proof fn lemma_whole_quotient(x: int, d: int)
    requires
        0 <= x,
        0 < d,
    ensures
        div_bits(from_num_bits(x), from_num_bits(d)) == x * scale() / d,
        0 <= x * scale() / d <= x * scale(),
        whole_part(x * scale() / d) == x / d,
        0 <= x / d <= x,
{
    let s = scale();
    lemma_div_cancel(x * s, d, s);
    lemma_div_scaled(x, d, s);
    lemma_div_bounds(x * s, d);
    lemma_div_bounds(x, d);
    assert(x * s / d <= x * s) by (nonlinear_arith)
        requires
            1 <= d,
            0 <= x * s / d,
            d * (x * s / d) <= x * s,
    ;
    assert(x / d <= x) by (nonlinear_arith)
        requires
            1 <= d,
            0 <= x / d,
            d * (x / d) <= x,
    ;
}

/// A whole number divided by a fixed-point number with bits `d`: the whole
/// part of the quotient is `n * 2^64 / d`.
pub proof fn lemma_whole_over(n: int, d: int)
    requires
        0 <= n,
        0 < d,
    ensures
        0 <= div_bits(from_num_bits(n), d),
        whole_part(div_bits(from_num_bits(n), d)) == n * scale() / d,
        0 <= n * scale() / d,
{
    let s = scale();
    lemma_div_scaled(n * s, d, s);
    lemma_div_bounds(n * s * s, d);
    lemma_div_bounds(n * s, d);
    assert(0 <= n * s * s) by (nonlinear_arith)
        requires
            0 <= n,
            0 < s,
    ;
}

/// The square root of a whole number: its whole part is the rounded-down
/// square root of that number.
pub proof fn lemma_whole_sqrt(n: int)
    requires
        0 <= n,
    ensures
        whole_part(sqrt_bits(from_num_bits(n))) == floor_sqrt(n),
{
    let s = scale();
    assert(n * s * s == (n * s) * s) by (nonlinear_arith);
    lemma_floor_sqrt_scaled(n, s);
}

/// `I64F64::checked_from_num` on a `u64`, by bits. The conversion is exact
/// and succeeds if and only if the number fits the 63 integer bits.
#[verifier::external_body]
fn raw_from_num(n: u64) -> (bits: Option<i128>)
    ensures
        match bits {
            Some(b) => representable(n as int) && b == from_num_bits(n as int),
            None => !representable(n as int),
        },
{
    match I64F64::checked_from_num(n) {
        Some(f) => Some(f.to_bits()),
        None => None,
    }
}

/// `I64F64::to_num::<u64>`, by bits. Stated for non-negative numbers, whose
/// whole part always fits a `u64`: the fractional bits are discarded.
#[verifier::external_body]
fn raw_to_num(a: i128) -> (n: u64)
    requires
        0 <= a,
    ensures
        n == whole_part(a as int),
{
    I64F64::from_bits(a).to_num::<u64>()
}

/// `I64F64::checked_add`, by bits: the sum of the bits, or `None` where it
/// does not fit an `i128`.
#[verifier::external_body]
fn raw_checked_add(a: i128, b: i128) -> (sum: Option<i128>)
    requires
        0 <= a,
        0 <= b,
    ensures
        match sum {
            Some(s) => s == a + b,
            None => a + b > i128::MAX,
        },
{
    match I64F64::from_bits(a).checked_add(I64F64::from_bits(b)) {
        Some(f) => Some(f.to_bits()),
        None => None,
    }
}

/// `I64F64::checked_mul`, by bits. Stated for non-negative operands: the
/// exact product is shifted right by the 64 fractional bits, and the result
/// is `None` where that does not fit.
#[verifier::external_body]
fn raw_checked_mul(a: i128, b: i128) -> (product: Option<i128>)
    requires
        0 <= a,
        0 <= b,
    ensures
        match product {
            Some(p) => p == mul_bits(a as int, b as int),
            None => mul_bits(a as int, b as int) > i128::MAX,
        },
{
    match I64F64::from_bits(a).checked_mul(I64F64::from_bits(b)) {
        Some(f) => Some(f.to_bits()),
        None => None,
    }
}

/// `I64F64::checked_div`, by bits. Stated for non-negative operands: `None`
/// for a zero divisor; else the dividend is shifted left by the 64
/// fractional bits and divided with the quotient rounded down, and the
/// result is `None` where that does not fit.
#[verifier::external_body]
fn raw_checked_div(a: i128, b: i128) -> (quotient: Option<i128>)
    requires
        0 <= a,
        0 <= b,
    ensures
        match quotient {
            Some(q) => b != 0 && q == div_bits(a as int, b as int),
            None => b == 0 || div_bits(a as int, b as int) > i128::MAX,
        },
{
    match I64F64::from_bits(a).checked_div(I64F64::from_bits(b)) {
        Some(f) => Some(f.to_bits()),
        None => None,
    }
}

/// `I64F64::sqrt`, by bits. It panics on a negative number, which is left
/// out; on the others its result is rounded down, with an error below
/// 2^-64.
#[verifier::external_body]
fn raw_sqrt(a: i128) -> (root: i128)
    requires
        0 <= a,
    ensures
        is_floor_sqrt(root as int, a * scale()),
{
    I64F64::from_bits(a).sqrt().to_bits()
}

/// A non-negative fixed-point number with 64 fractional bits.
#[derive(Clone, Copy, Debug, PartialEq, Eq)]
pub struct Fixed {
    bits: i128,
}

impl View for Fixed {
    type V = int;

    /// The bits of the number: its value times 2^64.
    closed spec fn view(&self) -> int {
        self.bits as int
    }
}

impl Fixed {
    #[verifier::type_invariant]
    spec fn non_negative(self) -> bool {
        0 <= self.bits
    }

    /// The number with the given bits, if they are those of a non-negative
    /// number.
    pub fn from_bits(bits: i128) -> (r: Option<Fixed>)
        ensures
            match r {
                Some(f) => 0 <= bits && f@ == bits,
                None => bits < 0,
            },
    {
        if bits >= 0 {
            Some(Fixed { bits })
        } else {
            None
        }
    }

    /// The bits of the number.
    pub fn to_bits(self) -> (bits: i128)
        ensures
            bits == self@,
            fits(self@),
    {
        proof {
            use_type_invariant(&self);
        }
        self.bits
    }

    /// The whole number `n` as a fixed-point number. Fails with
    /// `ArithmeticOverflow` if and only if `n` needs more than 63 bits.
    pub fn from_num(n: u64) -> (r: Result<Fixed, TutorialError>)
        ensures
            match r {
                Ok(f) => representable(n as int) && f@ == from_num_bits(n as int),
                Err(e) => e == TutorialError::ArithmeticOverflow && !representable(n as int),
            },
    {
        match raw_from_num(n) {
            Some(bits) => Ok(Fixed { bits }),
            None => Err(TutorialError::ArithmeticOverflow),
        }
    }

    /// The whole part of the number: the fractional bits are dropped.
    pub fn to_num(self) -> (n: u64)
        ensures
            n == whole_part(self@),
    {
        proof {
            use_type_invariant(&self);
        }
        raw_to_num(self.bits)
    }

    /// The sum. Fails with `ArithmeticOverflow` if and only if it does not
    /// fit.
    pub fn checked_add(self, rhs: Fixed) -> (r: Result<Fixed, TutorialError>)
        ensures
            match r {
                Ok(f) => f@ == self@ + rhs@ && fits(f@),
                Err(e) => e == TutorialError::ArithmeticOverflow && !fits(self@ + rhs@),
            },
    {
        proof {
            use_type_invariant(&self);
            use_type_invariant(&rhs);
        }
        match raw_checked_add(self.bits, rhs.bits) {
            Some(bits) => Ok(Fixed { bits }),
            None => Err(TutorialError::ArithmeticOverflow),
        }
    }

    /// The product, rounded down. Fails with `ArithmeticOverflow` if and
    /// only if it does not fit.
    pub fn checked_mul(self, rhs: Fixed) -> (r: Result<Fixed, TutorialError>)
        ensures
            match r {
                Ok(f) => f@ == mul_bits(self@, rhs@) && fits(f@),
                Err(e) => e == TutorialError::ArithmeticOverflow && !fits(mul_bits(self@, rhs@)),
            },
    {
        proof {
            use_type_invariant(&self);
            use_type_invariant(&rhs);
            assert(0 <= self.bits * rhs.bits) by (nonlinear_arith)
                requires
                    0 <= self.bits,
                    0 <= rhs.bits,
            ;
            lemma_div_bounds(self.bits * rhs.bits, scale());
        }
        match raw_checked_mul(self.bits, rhs.bits) {
            Some(bits) => Ok(Fixed { bits }),
            None => Err(TutorialError::ArithmeticOverflow),
        }
    }

    /// The quotient, rounded down. Fails with `DivisionByZero` if and only
    /// if the divisor is zero, and with `ArithmeticOverflow` if and only if
    /// it is not and the quotient does not fit.
    pub fn checked_div(self, rhs: Fixed) -> (r: Result<Fixed, TutorialError>)
        ensures
            match r {
                Ok(f) => rhs@ != 0 && f@ == div_bits(self@, rhs@) && fits(f@),
                Err(e) => if rhs@ == 0 {
                    e == TutorialError::DivisionByZero
                } else {
                    e == TutorialError::ArithmeticOverflow && !fits(div_bits(self@, rhs@))
                },
            },
    {
        proof {
            use_type_invariant(&self);
            use_type_invariant(&rhs);
        }
        if rhs.bits == 0 {
            return Err(TutorialError::DivisionByZero);
        }
        proof {
            lemma_div_bounds(self.bits * scale(), rhs.bits as int);
        }
        match raw_checked_div(self.bits, rhs.bits) {
            Some(bits) => Ok(Fixed { bits }),
            None => Err(TutorialError::ArithmeticOverflow),
        }
    }

    /// The square root, rounded down. It always fits.
    pub fn sqrt(self) -> (root: Fixed)
        ensures
            root@ == sqrt_bits(self@),
            is_floor_sqrt(root@, self@ * scale()),
    {
        proof {
            use_type_invariant(&self);
        }
        let bits = raw_sqrt(self.bits);
        proof {
            lemma_floor_sqrt_is(bits as int, self.bits * scale());
        }
        Fixed { bits }
    }
}

} // verus!
