//! Fixed-point arithmetic helpers shared by the reward engine.
//!
//! All reward formulas are of the shape `x * y / d` over the mathematical
//! integers with floor rounding. The raw product can exceed the machine word,
//! so the executable computation splits the quotient through the identity
//! `(x * y) / d == (x / d) * y + ((x % d) * y) / d`.

use vstd::prelude::*;
use vstd::arithmetic::div_mod::{
    lemma_div_nonincreasing, lemma_div_pos_is_pos, lemma_fundamental_div_mod,
    lemma_hoist_over_denominator, lemma_mod_division_less_than_divisor, lemma_multiply_divide_le,
};
use vstd::arithmetic::mul::lemma_mul_upper_bound;

verus! {

/// Floor of `x * y / d` over the unbounded integers.
pub open spec fn mul_div_spec(x: int, y: int, d: int) -> int {
    (x * y) / d
}

/// The quotient of a product splits along the quotient and remainder of one
/// factor: `(x * y) / d == (x / d) * y + ((x % d) * y) / d`.
pub proof fn lemma_mul_div_split(x: int, y: int, d: int)
    requires
        0 <= x,
        0 <= y,
        1 <= d,
    ensures
        mul_div_spec(x, y, d) == (x / d) * y + ((x % d) * y) / d,
        (x / d) * y <= mul_div_spec(x, y, d),
{
    let q = x / d;
    let r = x % d;
    lemma_fundamental_div_mod(x, d);
    assert(x * y == r * y + (q * y) * d) by (nonlinear_arith)
        requires
            x == d * q + r,
    ;
    lemma_hoist_over_denominator(r * y, q * y, d as nat);
    assert(0 <= r) by {
        lemma_mod_division_less_than_divisor(x, d);
    }
    assert(0 <= r * y) by {
        lemma_mul_upper_bound(0, r, 0, y);
        assert(r * y >= 0) by (nonlinear_arith)
            requires
                0 <= r,
                0 <= y,
        ;
    }
    assert(0 <= (r * y) / d) by {
        lemma_div_pos_is_pos(r * y, d);
    }
}

/// If `y <= c` then `x * y / c <= x`: a proportional share never exceeds the
/// whole it is taken from.
pub proof fn lemma_share_le_whole(x: int, y: int, c: int)
    requires
        0 <= x,
        0 <= y <= c,
        1 <= c,
    ensures
        mul_div_spec(x, y, c) <= x,
{
    assert(x * y <= c * x) by (nonlinear_arith)
        requires
            0 <= x,
            0 <= y <= c,
    ;
    lemma_multiply_divide_le(x * y, c, x);
}

/// Floor division by a positive divisor never increases a nonnegative value.
pub proof fn lemma_quotient_le_numerator(x: int, d: int)
    requires
        0 <= x,
        1 <= d,
    ensures
        0 <= x / d <= x,
{
    lemma_div_nonincreasing(x, d);
    lemma_div_pos_is_pos(x, d);
}

/// Computes `x * y / d` exactly, with floor rounding, even where the product
/// `x * y` does not fit in a machine word.
pub fn mul_div(x: u128, y: u64, d: u64) -> (r: u128)
    requires
        1 <= d,
        mul_div_spec(x as int, y as int, d as int) <= u128::MAX,
    ensures
        r == mul_div_spec(x as int, y as int, d as int),
{
    proof {
        lemma_mul_div_split(x as int, y as int, d as int);
    }
    let q: u128 = x / (d as u128);
    let rem: u128 = x % (d as u128);
    proof {
        lemma_mod_division_less_than_divisor(x as int, d as int);
        lemma_mul_upper_bound(rem as int, d as int - 1, y as int, u64::MAX as int);
    }
    let hi: u128 = q * (y as u128);
    let lo: u128 = rem * (y as u128);
    proof {
        lemma_quotient_le_numerator(lo as int, d as int);
    }
    hi + lo / (d as u128)
}

} // verus!
