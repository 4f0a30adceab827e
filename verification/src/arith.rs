use vstd::prelude::*;

verus! {

/// A product is bounded by the product of the bounds.
pub proof fn lemma_mul_bound(a: int, b: int, bound_a: int, bound_b: int)
    requires
        -bound_a <= a <= bound_a,
        -bound_b <= b <= bound_b,
        0 <= bound_a,
        0 <= bound_b,
    ensures
        -(bound_a * bound_b) <= a * b <= bound_a * bound_b,
{
    assert(-(bound_a * bound_b) <= a * b <= bound_a * bound_b) by (nonlinear_arith)
        requires
            -bound_a <= a <= bound_a,
            -bound_b <= b <= bound_b,
            0 <= bound_a,
            0 <= bound_b,
    ;
}

/// Multiplying both sides of a strict inequality by a positive factor keeps it.
pub proof fn lemma_mul_lt_mono(m: int, a: int, b: int)
    requires
        m > 0,
        a < b,
    ensures
        a * m < b * m,
{
    assert(a * m < b * m) by (nonlinear_arith)
        requires
            m > 0,
            a < b,
    ;
}

/// Multiplying both sides of an inequality by a nonnegative factor keeps it.
pub proof fn lemma_mul_le_mono(m: int, a: int, b: int)
    requires
        m >= 0,
        a <= b,
    ensures
        a * m <= b * m,
{
    assert(a * m <= b * m) by (nonlinear_arith)
        requires
            m >= 0,
            a <= b,
    ;
}

/// A strict inequality between products with a shared positive factor cancels.
pub proof fn lemma_mul_lt_cancel(m: int, a: int, b: int)
    requires
        m > 0,
        a * m < b * m,
    ensures
        a < b,
{
    assert(a < b) by (nonlinear_arith)
        requires
            m > 0,
            a * m < b * m,
    ;
}

/// `a/b <= c/d` and `c/d < e/f` give `a/b < e/f`, for positive denominators,
/// stated over cross-multiplied integers.
pub proof fn lemma_rat_le_lt_trans(an: int, ad: int, bn: int, bd: int, cn: int, cd: int)
    requires
        ad > 0,
        bd > 0,
        cd > 0,
        an * bd <= bn * ad,
        bn * cd < cn * bd,
    ensures
        an * cd < cn * ad,
{
    assert(an * cd < cn * ad) by (nonlinear_arith)
        requires
            ad > 0,
            bd > 0,
            cd > 0,
            an * bd <= bn * ad,
            bn * cd < cn * bd,
    ;
}

/// `a/b < c/d` and `c/d <= e/f` give `a/b < e/f`, for positive denominators.
pub proof fn lemma_rat_lt_le_trans(an: int, ad: int, bn: int, bd: int, cn: int, cd: int)
    requires
        ad > 0,
        bd > 0,
        cd > 0,
        an * bd < bn * ad,
        bn * cd <= cn * bd,
    ensures
        an * cd < cn * ad,
{
    assert(an * cd < cn * ad) by (nonlinear_arith)
        requires
            ad > 0,
            bd > 0,
            cd > 0,
            an * bd < bn * ad,
            bn * cd <= cn * bd,
    ;
}

/// Strict transitivity for rationals with positive denominators.
pub proof fn lemma_rat_lt_trans(an: int, ad: int, bn: int, bd: int, cn: int, cd: int)
    requires
        ad > 0,
        bd > 0,
        cd > 0,
        an * bd < bn * ad,
        bn * cd < cn * bd,
    ensures
        an * cd < cn * ad,
{
    assert(an * cd < cn * ad) by (nonlinear_arith)
        requires
            ad > 0,
            bd > 0,
            cd > 0,
            an * bd < bn * ad,
            bn * cd < cn * bd,
    ;
}

/// The quotient of a bounded value by a positive divisor stays bounded.
pub proof fn lemma_div_bound(a: int, b: int, bound: int)
    requires
        b >= 1,
        0 <= bound,
        -bound <= a <= bound,
    ensures
        -bound <= a / b <= bound,
{
    vstd::arithmetic::div_mod::lemma_fundamental_div_mod(a, b);
    vstd::arithmetic::div_mod::lemma_mod_bound(a, b);
    let q = a / b;
    let r = a % b;
    assert(-bound <= q <= bound) by (nonlinear_arith)
        requires
            a == b * q + r,
            0 <= r < b,
            b >= 1,
            -bound <= a <= bound,
    ;
}

/// Dividing a value bounded by `b * d` by `d` gives a value bounded by `b`.
pub proof fn lemma_div_range(a: int, d: int, b: int)
    requires
        d >= 1,
        0 <= b,
        -(b * d) <= a <= b * d,
    ensures
        -b <= a / d <= b,
{
    vstd::arithmetic::div_mod::lemma_div_is_ordered(a, b * d, d);
    vstd::arithmetic::div_mod::lemma_div_is_ordered(-(b * d), a, d);
    assert(-(b * d) == (-b) * d) by (nonlinear_arith);
    vstd::arithmetic::div_mod::lemma_fundamental_div_mod_converse(b * d, d, b, 0);
    vstd::arithmetic::div_mod::lemma_fundamental_div_mod_converse(-(b * d), d, -b, 0);
}

/// A vector dotted with itself is nonnegative, and positive unless the
/// vector is zero.
pub proof fn lemma_dot_self(x: int, y: int, z: int)
    ensures
        x * x + y * y + z * z >= 0,
        !(x == 0 && y == 0 && z == 0) ==> x * x + y * y + z * z >= 1,
{
    assert(x * x + y * y + z * z >= 0 && (!(x == 0 && y == 0 && z == 0) ==> x * x + y * y + z * z
        >= 1)) by (nonlinear_arith);
}

} // verus!
