//! Phasors: complex numbers in fixed point, kept inside the unit square.

use vstd::prelude::*;
use num_complex::Complex;
use crate::fixed::{ONE, trunc_div, div_toward_zero};

verus! {

#[verifier::external_type_specification]
#[verifier::reject_recursive_types(T)]
pub struct ExComplex<T>(Complex<T>);

/// `x` limited to `[-1.0, 1.0]`.
pub open spec fn clamp_unit(x: int) -> int {
    if x < -ONE {
        -ONE as int
    } else if x > ONE {
        ONE as int
    } else {
        x
    }
}

/// Both parts of `c` lie in `[-1.0, 1.0]`.
pub open spec fn in_unit_square(c: Complex<i64>) -> bool {
    -ONE <= c.re <= ONE && -ONE <= c.im <= ONE
}

/// A phasor as a pair of mathematical integers.
pub open spec fn pair_of(c: Complex<i64>) -> (int, int) {
    (c.re as int, c.im as int)
}

/// One step of an oscillator: `v` rotated by `m` and scaled by the level `e`,
/// each product rounded toward zero, each part then limited to `[-1.0, 1.0]`.
pub open spec fn advance_spec(v: (int, int), m: (int, int), e: int) -> (int, int) {
    let re = trunc_div(v.0 * m.0 - v.1 * m.1, ONE as int);
    let im = trunc_div(v.0 * m.1 + v.1 * m.0, ONE as int);
    (clamp_unit(trunc_div(re * e, ONE as int)), clamp_unit(trunc_div(im * e, ONE as int)))
}

/// `x` limited to `[-1.0, 1.0]`.
pub fn clamp_unit_exec(x: i128) -> (r: i64)
    ensures
        r == clamp_unit(x as int),
{
    if x < -(ONE as i128) {
        -ONE
    } else if x > ONE as i128 {
        ONE
    } else {
        x as i64
    }
}

proof fn lemma_small_product(a: int, b: int)
    requires
        -2 * ONE <= a <= 2 * ONE,
        -ONE <= b <= ONE,
    ensures
        -2 * ONE * ONE <= a * b <= 2 * ONE * ONE,
{
    assert(-2 * ONE * ONE <= a * b <= 2 * ONE * ONE) by (nonlinear_arith)
        requires
            -2 * ONE <= a <= 2 * ONE,
            -ONE <= b <= ONE,
            ONE > 0,
    ;
}

proof fn lemma_unit_product(a: int, b: int)
    requires
        -ONE <= a <= ONE,
        -ONE <= b <= ONE,
    ensures
        -ONE * ONE <= a * b <= ONE * ONE,
{
    assert(-ONE * ONE <= a * b <= ONE * ONE) by (nonlinear_arith)
        requires
            -ONE <= a <= ONE,
            -ONE <= b <= ONE,
            ONE > 0,
    ;
}

proof fn lemma_trunc_div_bound(a: int, k: int)
    requires
        -k * ONE <= a <= k * ONE,
        k >= 0,
    ensures
        -k <= trunc_div(a, ONE as int) <= k,
{
    assert(k * ONE == ONE * k);
    if a >= 0 {
        assert(a / (ONE as int) <= k) by (nonlinear_arith)
            requires
                0 <= a <= k * ONE,
                ONE > 0,
        ;
    } else {
        assert((-a) / (ONE as int) <= k) by (nonlinear_arith)
            requires
                0 <= -a <= k * ONE,
                ONE > 0,
        ;
    }
}

/// Rotates `v` by `m` and scales it by the level `e`.
pub fn advance(v: Complex<i64>, m: Complex<i64>, e: i64) -> (r: Complex<i64>)
    requires
        in_unit_square(v),
        in_unit_square(m),
        -ONE <= e <= ONE,
    ensures
        pair_of(r) == advance_spec(pair_of(v), pair_of(m), e as int),
        in_unit_square(r),
{
    proof {
        lemma_unit_product(v.re as int, m.re as int);
        lemma_unit_product(v.im as int, m.im as int);
        lemma_unit_product(v.re as int, m.im as int);
        lemma_unit_product(v.im as int, m.re as int);
    }
    let re = div_toward_zero(
        (v.re as i128) * (m.re as i128) - (v.im as i128) * (m.im as i128),
        ONE as i128,
    );
    let im = div_toward_zero(
        (v.re as i128) * (m.im as i128) + (v.im as i128) * (m.re as i128),
        ONE as i128,
    );
    proof {
        lemma_trunc_div_bound(
            v.re as int * m.re as int - v.im as int * m.im as int,
            2 * ONE,
        );
        lemma_trunc_div_bound(
            v.re as int * m.im as int + v.im as int * m.re as int,
            2 * ONE,
        );
        lemma_small_product(re as int, e as int);
        lemma_small_product(im as int, e as int);
    }
    let re2 = div_toward_zero(re * (e as i128), ONE as i128);
    let im2 = div_toward_zero(im * (e as i128), ONE as i128);
    Complex { re: clamp_unit_exec(re2), im: clamp_unit_exec(im2) }
}

} // verus!
