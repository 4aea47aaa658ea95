use vstd::prelude::*;
use vstd::arithmetic::div_mod::{
    lemma_div_is_ordered, lemma_div_is_ordered_by_denominator, lemma_div_multiples_vanish,
    lemma_div_nonincreasing, lemma_div_pos_is_pos, lemma_fundamental_div_mod,
};
use vstd::arithmetic::mul::{lemma_mul_inequality, lemma_mul_nonnegative, lemma_mul_upper_bound};

verus! {

/// Quotient of non-negative fixed-point values.  Computed through `u128`
/// so the executable division is the same floor division the model uses.
pub fn div_nn(a: i128, b: i128) -> (q: i128)
    requires
        0 <= a,
        1 <= b,
    ensures
        q == a as int / b as int,
        0 <= q <= a,
{
    proof {
        lemma_div_pos_is_pos(a as int, b as int);
        lemma_div_nonincreasing(a as int, b as int);
    }
    (a as u128 / b as u128) as i128
}

/// `a * b / d` over non-negative values, with the product bound supplied
/// by the caller so the multiplication is visibly free of overflow.
pub fn muldiv(a: i128, b: i128, d: i128) -> (r: i128)
    requires
        0 <= a,
        0 <= b,
        a * b <= i128::MAX,
        1 <= d,
    ensures
        r == (a * b) / (d as int),
        0 <= r <= a * b,
{
    proof {
        lemma_mul_nonnegative(a as int, b as int);
    }
    let p = a * b;
    div_nn(p, d)
}

/// Floor division is superadditive over a non-negative split:
/// `a/d + b/d <= (a + b)/d`.
pub proof fn lemma_div_superadd(a: int, b: int, d: int)
    requires
        0 <= a,
        0 <= b,
        1 <= d,
    ensures
        a / d + b / d <= (a + b) / d,
{
    lemma_fundamental_div_mod(a, d);
    lemma_fundamental_div_mod(b, d);
    let q = a / d + b / d;
    assert(d * q <= a + b) by (nonlinear_arith)
        requires
            a == d * (a / d) + a % d,
            b == d * (b / d) + b % d,
            q == a / d + b / d,
            a % d >= 0,
            b % d >= 0,
    ;
    lemma_div_multiples_vanish(q, d);
    lemma_div_is_ordered(d * q, a + b, d);
}

/// Scaling a non-negative quantity by the ratio `num/den <= 1` keeps it at
/// or below both the quantity and the numerator's own share bound:
/// `0 <= a * num / den <= min(a, num)` whenever `a <= den` and `num <= den`.
pub proof fn lemma_ratio_le(a: int, num: int, den: int)
    requires
        0 <= a <= den,
        0 <= num <= den,
        1 <= den,
    ensures
        0 <= a * num / den,
        a * num / den <= num,
        a * num / den <= a,
{
    lemma_mul_nonnegative(a, num);
    lemma_div_pos_is_pos(a * num, den);
    lemma_mul_inequality(a, den, num);
    assert(den * num == num * den) by (nonlinear_arith);
    lemma_div_is_ordered(a * num, den * num, den);
    lemma_div_multiples_vanish(num, den);
    lemma_mul_upper_bound(a, a, num, den);
    assert(a * den == den * a) by (nonlinear_arith);
    lemma_div_is_ordered(a * num, den * a, den);
    lemma_div_multiples_vanish(a, den);
}

/// Upper bound for a floor-divided product: from `0 <= a <= ab` and
/// `0 <= b <= bb` and `1 <= d0 <= d`, conclude `a * b / d <= ab * bb / d0`.
pub proof fn lemma_muldiv_bound(a: int, ab: int, b: int, bb: int, d: int, d0: int)
    requires
        0 <= a <= ab,
        0 <= b <= bb,
        1 <= d0 <= d,
    ensures
        0 <= a * b / d <= ab * bb / d0,
{
    lemma_mul_nonnegative(a, b);
    lemma_div_pos_is_pos(a * b, d);
    lemma_mul_upper_bound(a, ab, b, bb);
    lemma_div_is_ordered(a * b, ab * bb, d);
    lemma_div_is_ordered_by_denominator(ab * bb, d0, d);
}

} // verus!
