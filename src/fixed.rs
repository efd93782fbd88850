//! Fixed-point numbers with thirty fractional bits.

use vstd::prelude::*;

verus! {

/// Number of fractional bits of every fixed-point value of the library.
pub const FRAC_BITS: u32 = 30;

/// The fixed-point value 1.0.
pub const ONE: i64 = 1073741824;

/// Smallest value of an `i64`, as a mathematical integer.
pub open spec fn i64_lo() -> int {
    i64::MIN as int
}

/// Largest value of an `i64`, as a mathematical integer.
pub open spec fn i64_hi() -> int {
    i64::MAX as int
}

/// Integer division rounding toward zero (as Rust's `/` does), for `b > 0`.
pub open spec fn trunc_div(a: int, b: int) -> int {
    if a >= 0 {
        a / b
    } else {
        -((-a) / b)
    }
}

/// The fixed-point product of two fixed-point values, rounded toward zero.
pub open spec fn fx_product(a: int, b: int) -> int {
    trunc_div(a * b, ONE as int)
}

/// `v` limited to the range of an `i64`.
pub open spec fn saturate(v: int) -> int {
    if v < i64_lo() {
        i64_lo()
    } else if v > i64_hi() {
        i64_hi()
    } else {
        v
    }
}

/// Divides `a` by a positive `b`, rounding toward zero.
pub fn div_toward_zero(a: i128, b: i128) -> (r: i128)
    requires
        b > 0,
        a > i128::MIN,
    ensures
        r == trunc_div(a as int, b as int),
{
    if a >= 0 {
        a / b
    } else {
        -((-a) / b)
    }
}

/// Divides `a` by a positive `b`, rounding down.
pub fn div_floor(a: i128, b: i128) -> (r: i128)
    requires
        b > 0,
        a > i128::MIN,
    ensures
        r == a as int / b as int,
{
    if a >= 0 {
        a / b
    } else {
        let m = (-(a + 1)) / b;
        proof {
            let c = -(a as int + 1);
            let rem = c % (b as int);
            vstd::arithmetic::div_mod::lemma_fundamental_div_mod(c, b as int);
            assert(a as int == (-m - 1) * b + (b - 1 - rem)) by (nonlinear_arith)
                requires
                    c == b * m + rem,
                    c == -(a as int + 1),
            ;
            vstd::arithmetic::div_mod::lemma_fundamental_div_mod_converse(
                a as int,
                b as int,
                -m - 1,
                b - 1 - rem,
            );
        }
        -m - 1
    }
}

/// The fixed-point product `a * b`, limited to the range of an `i64`.
pub fn fx_mul(a: i64, b: i64) -> (r: i64)
    ensures
        r == saturate(fx_product(a as int, b as int)),
{
    proof {
        assert(-0x4000_0000_0000_0000_0000_0000_0000_0000 <= a as int * b as int
            <= 0x4000_0000_0000_0000_0000_0000_0000_0000)
            by (nonlinear_arith)
            requires
                -0x8000_0000_0000_0000 <= a <= 0x7fff_ffff_ffff_ffff,
                -0x8000_0000_0000_0000 <= b <= 0x7fff_ffff_ffff_ffff,
        ;
    }
    let p = div_toward_zero((a as i128) * (b as i128), ONE as i128);
    to_i64_saturating(p)
}

/// The fractional part of a phase of `p` turns: `p` modulo one turn, in `[0, ONE)`.
pub fn wrap_turn(p: i128) -> (r: i64)
    ensures
        r == p as int % (ONE as int),
        0 <= r < ONE,
{
    if p >= 0 {
        (p % (ONE as i128)) as i64
    } else {
        let m = ((-(p + 1)) % (ONE as i128)) as i64;
        proof {
            let a = -(p as int + 1);
            assert(a == (a / (ONE as int)) * (ONE as int) + m);
            let q = -(a / (ONE as int)) - 1;
            assert(p as int == q * (ONE as int) + (ONE - 1 - m));
            vstd::arithmetic::div_mod::lemma_fundamental_div_mod_converse(
                p as int,
                ONE as int,
                q,
                ONE - 1 - m,
            );
        }
        ONE - 1 - m
    }
}

/// `v` limited to the range of an `i64`.
pub fn to_i64_saturating(v: i128) -> (r: i64)
    ensures
        r == saturate(v as int),
{
    if v < i64::MIN as i128 {
        i64::MIN
    } else if v > i64::MAX as i128 {
        i64::MAX
    } else {
        v as i64
    }
}

} // verus!
