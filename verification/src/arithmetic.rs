//! Integer facts behind the fixed-point computations: floor division of
//! scaled values and the integer square root.

use vstd::prelude::*;
use vstd::arithmetic::div_mod::{
    lemma_div_denominator, lemma_fundamental_div_mod, lemma_fundamental_div_mod_converse,
    lemma_mod_bound, lemma_mod_pos_bound,
};

verus! {

/// `root` is the square root of `n`, rounded down.
pub open spec fn is_floor_sqrt(root: int, n: int) -> bool {
    0 <= root && root * root <= n < (root + 1) * (root + 1)
}

/// The square root of `n`, rounded down. Meaningful for `n >= 0`.
pub open spec fn floor_sqrt(n: int) -> int {
    choose|root: int| is_floor_sqrt(root, n)
}

/// Squaring keeps the order of non-negative numbers.
pub proof fn lemma_square_monotone(x: int, y: int)
    requires
        0 <= x <= y,
    ensures
        x * x <= y * y,
{
    assert(x * x <= y * y) by (nonlinear_arith)
        requires
            0 <= x <= y,
    ;
}

/// A number has at most one rounded-down square root.
pub proof fn lemma_floor_sqrt_unique(r1: int, r2: int, n: int)
    requires
        is_floor_sqrt(r1, n),
        is_floor_sqrt(r2, n),
    ensures
        r1 == r2,
{
    if r1 < r2 {
        lemma_square_monotone(r1 + 1, r2);
    }
    if r2 < r1 {
        lemma_square_monotone(r2 + 1, r1);
    }
}

/// Every non-negative number has a rounded-down square root, and
/// `floor_sqrt` is it.
pub proof fn lemma_floor_sqrt_exists(n: int)
    requires
        0 <= n,
    ensures
        is_floor_sqrt(floor_sqrt(n), n),
    decreases n,
{
    if n == 0 {
        assert(is_floor_sqrt(0, 0));
    } else {
        lemma_floor_sqrt_exists(n - 1);
        let r = floor_sqrt(n - 1);
        if (r + 1) * (r + 1) <= n {
            assert((r + 1) * (r + 1) < (r + 2) * (r + 2)) by (nonlinear_arith)
                requires
                    0 <= r,
            ;
            assert(is_floor_sqrt(r + 1, n));
        } else {
            assert(is_floor_sqrt(r, n));
        }
    }
}

/// Whatever meets the definition is the value of `floor_sqrt`.
pub proof fn lemma_floor_sqrt_is(root: int, n: int)
    requires
        is_floor_sqrt(root, n),
    ensures
        floor_sqrt(n) == root,
{
    lemma_floor_sqrt_unique(root, floor_sqrt(n), n);
}

/// A common positive factor of dividend and divisor cancels.
pub proof fn lemma_div_cancel(x: int, y: int, k: int)
    requires
        0 <= x,
        0 < y,
        0 < k,
    ensures
        (x * k) / (y * k) == x / y,
{
    let q = x / y;
    let r = x % y;
    lemma_fundamental_div_mod(x, y);
    lemma_mod_pos_bound(x, y);
    assert(x * k == q * (y * k) + r * k && 0 <= r * k < y * k) by (nonlinear_arith)
        requires
            x == y * q + r,
            0 <= r < y,
            0 < k,
    ;
    lemma_fundamental_div_mod_converse(x * k, y * k, q, r * k);
}

/// Scaling up before a floor division and down after it changes nothing:
/// `((x * k) / y) / k == x / y`.
pub proof fn lemma_div_scaled(x: int, y: int, k: int)
    requires
        0 <= x,
        0 < y,
        0 < k,
    ensures
        ((x * k) / y) / k == x / y,
{
    assert(0 <= x * k) by (nonlinear_arith)
        requires
            0 <= x,
            0 < k,
    ;
    lemma_div_denominator(x * k, y, k);
    lemma_div_cancel(x, y, k);
}

/// A floor division by a positive divisor of a non-negative number is
/// non-negative and brings the dividend back within one divisor.
pub proof fn lemma_div_bounds(x: int, d: int)
    requires
        0 < d,
    ensures
        d * (x / d) <= x < d * (x / d) + d,
        0 <= x ==> 0 <= x / d,
{
    lemma_fundamental_div_mod(x, d);
    lemma_mod_bound(x, d);
    if 0 <= x && x / d < 0 {
        assert(d * (x / d) <= -d) by (nonlinear_arith)
            requires
                0 < d,
                x / d <= -1,
        ;
    }
}

/// Floor division keeps the order of fractions: if `a / b <= c / d` as
/// rationals, the same holds of the rounded-down quotients.
pub proof fn lemma_div_fraction_monotone(a: int, b: int, c: int, d: int)
    requires
        0 <= a,
        0 <= c,
        0 < b,
        0 < d,
        a * d <= c * b,
    ensures
        a / b <= c / d,
{
    let q = a / b;
    let p = c / d;
    lemma_div_bounds(a, b);
    lemma_div_bounds(c, d);
    if p < q {
        // c < d * (p + 1) <= d * q, and b * q <= a
        assert(false) by (nonlinear_arith)
            requires
                0 < b,
                0 < d,
                0 <= q,
                p + 1 <= q,
                b * q <= a,
                c < d * p + d,
                a * d <= c * b,
        ;
    }
}

/// The square root of `n * k * k`, rounded down and then divided by `k`,
/// is the rounded-down square root of `n`.
pub proof fn lemma_floor_sqrt_scaled(n: int, k: int)
    requires
        0 <= n,
        0 < k,
    ensures
        floor_sqrt(n * k * k) / k == floor_sqrt(n),
{
    assert(0 <= n * k * k) by (nonlinear_arith)
        requires
            0 <= n,
            0 < k,
    ;
    lemma_floor_sqrt_exists(n);
    lemma_floor_sqrt_exists(n * k * k);
    let r = floor_sqrt(n);
    let big = floor_sqrt(n * k * k);
    // r * k <= big: otherwise (big + 1)^2 <= (r * k)^2 <= n * k * k
    if big < r * k {
        lemma_square_monotone(big + 1, r * k);
        assert((r * k) * (r * k) <= n * k * k) by (nonlinear_arith)
            requires
                r * r <= n,
                0 < k,
        ;
    }
    // big < (r + 1) * k: otherwise ((r + 1) * k)^2 <= big^2 <= n * k * k
    if big >= (r + 1) * k {
        assert(0 <= (r + 1) * k) by (nonlinear_arith)
            requires
                0 <= r,
                0 < k,
        ;
        lemma_square_monotone((r + 1) * k, big);
        assert(n * k * k < ((r + 1) * k) * ((r + 1) * k)) by (nonlinear_arith)
            requires
                n < (r + 1) * (r + 1),
                0 < k,
        ;
    }
    assert(r * k == k * r) by (nonlinear_arith);
    assert((r + 1) * k == k * r + k) by (nonlinear_arith);
    lemma_fundamental_div_mod_converse(big, k, r, big - k * r);
}

} // verus!
