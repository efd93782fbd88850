//! Sine and cosine of a phase given in fixed-point turns.
//!
//! The phase is folded into the first quarter turn, converted to radians with
//! sixty fractional bits, and the sine is summed from its Taylor series up to
//! the fifteenth power in nested (Horner) form. Every intermediate value is
//! non-negative, so each rounding is a plain floor.

use vstd::prelude::*;
use crate::fixed::{ONE, wrap_turn};

verus! {

/// A quarter turn in fixed point.
pub const QUARTER: i64 = 268435456;

/// 1.0 with sixty fractional bits.
pub const ONE60: i128 = 1152921504606846976;

/// 2π with sixty fractional bits.
pub const TWO_PI60: i128 = 7244019458077122842;

/// An upper bound of a quarter turn in radians with sixty fractional bits.
pub open spec fn x_bound() -> int {
    1811004864519280711
}

/// Factors `j..=7` of the nested sine series at `x2 = x²`:
/// `1 - x²/((2j)(2j+1)) · (1 - x²/((2j+2)(2j+3)) · (...))`, each product
/// rounded down to sixty fractional bits.
pub open spec fn series(x2: int, j: int) -> int
    decreases 8 - j,
{
    if j > 7 || j < 1 {
        ONE60 as int
    } else {
        ONE60 - (x2 * series(x2, j + 1) / (ONE60 as int)) / ((2 * j) * (2 * j + 1))
    }
}

/// A quarter-turn phase `f` (in `[0, QUARTER]`) in radians, sixty fractional bits.
pub open spec fn radians60(f: int) -> int {
    f * TWO_PI60 / (ONE as int)
}

/// The sine of `f` turns for `f` in `[0, QUARTER]`, in fixed point, at most 1.0.
pub open spec fn quarter_sine(f: int) -> int {
    let x = radians60(f);
    let x2 = x * x / (ONE60 as int);
    let s = x * series(x2, 1) / (ONE60 as int) / (ONE as int);
    if s > ONE {
        ONE as int
    } else {
        s
    }
}

/// The sine of `p` turns in fixed point.
pub open spec fn sin_turns_spec(p: int) -> int {
    let r = p % (ONE as int);
    let q = r / (QUARTER as int);
    let f = r % (QUARTER as int);
    let m = if q % 2 == 0 {
        quarter_sine(f)
    } else {
        quarter_sine(QUARTER - f)
    };
    if q < 2 {
        m
    } else {
        -m
    }
}

/// The cosine of `p` turns in fixed point: the sine a quarter turn later.
pub open spec fn cos_turns_spec(p: int) -> int {
    sin_turns_spec(p % (ONE as int) + QUARTER)
}

proof fn lemma_series_bounds(x2: int, j: int)
    requires
        0 <= x2 <= 3 * ONE60,
    ensures
        0 <= series(x2, j) <= ONE60,
    decreases 8 - j,
{
    if j > 7 || j < 1 {
    } else {
        lemma_series_bounds(x2, j + 1);
        let s = series(x2, j + 1);
        let one = ONE60 as int;
        assert(0 <= x2 * s <= 3 * one * one) by (nonlinear_arith)
            requires
                0 <= x2 <= 3 * one,
                0 <= s <= one,
        ;
        let t = x2 * s / one;
        assert(0 <= t <= 3 * one) by (nonlinear_arith)
            requires
                0 <= x2 * s <= 3 * one * one,
                t == x2 * s / one,
                one > 0,
        ;
        let d = (2 * j) * (2 * j + 1);
        assert(d >= 6) by (nonlinear_arith)
            requires
                j >= 1,
                d == (2 * j) * (2 * j + 1),
        ;
        assert(0 <= t / d <= one) by (nonlinear_arith)
            requires
                0 <= t <= 3 * one,
                d >= 6,
                one > 0,
        ;
    }
}

/// Sine of a phase in `[0, QUARTER]` turns.
fn quarter_sine_exec(f: i64) -> (r: i64)
    requires
        0 <= f <= QUARTER,
    ensures
        r == quarter_sine(f as int),
        0 <= r <= ONE,
{
    let ghost one = ONE60 as int;
    proof {
        assert(0 <= f as int * TWO_PI60 <= QUARTER as int * TWO_PI60) by (nonlinear_arith)
            requires
                0 <= f <= QUARTER,
        ;
    }
    let x: i128 = (f as i128) * TWO_PI60 / (ONE as i128);
    proof {
        assert(0 <= x <= x_bound()) by (nonlinear_arith)
            requires
                0 <= f as int * TWO_PI60 <= QUARTER as int * TWO_PI60,
                x == f as int * TWO_PI60 / (ONE as int),
        ;
        assert(0 <= x * x <= x_bound() * x_bound()) by (nonlinear_arith)
            requires
                0 <= x <= x_bound(),
        ;
    }
    let x2: i128 = x * x / ONE60;
    proof {
        assert(0 <= x2 <= 3 * one) by (nonlinear_arith)
            requires
                0 <= x * x <= x_bound() * x_bound(),
                x2 == x * x / one,
                one == 1152921504606846976,
        ;
    }
    let mut acc: i128 = ONE60;
    let mut j: u32 = 7;
    while j >= 1
        invariant
            0 <= j <= 7,
            0 <= x2 <= 3 * one,
            one == ONE60,
            acc == series(x2 as int, j as int + 1),
            0 <= acc <= ONE60,
        decreases j,
    {
        proof {
            lemma_series_bounds(x2 as int, j as int + 1);
            lemma_series_bounds(x2 as int, j as int);
            assert(0 <= x2 * acc <= 3 * one * one) by (nonlinear_arith)
                requires
                    0 <= x2 <= 3 * one,
                    0 <= acc <= one,
            ;
        }
        proof {
            assert(6 <= (2 * j as int) * (2 * j as int + 1) <= 210) by (nonlinear_arith)
                requires
                    1 <= j <= 7,
            ;
        }
        let d: i128 = (2 * j as i128) * (2 * j as i128 + 1);
        acc = ONE60 - (x2 * acc / ONE60) / d;
        j = j - 1;
    }
    proof {
        assert(0 <= x * acc <= x_bound() * one) by (nonlinear_arith)
            requires
                0 <= x <= x_bound(),
                0 <= acc <= one,
        ;
    }
    let s: i128 = x * acc / ONE60 / (ONE as i128);
    proof {
        assert(0 <= s) by (nonlinear_arith)
            requires
                0 <= x * acc,
                s == x * acc / one / (ONE as int),
                one > 0,
        ;
    }
    if s > ONE as i128 {
        ONE
    } else {
        s as i64
    }
}

/// The sine of a phase of `p` turns (any value; whole turns are dropped).
pub fn sin_turns(p: i64) -> (r: i64)
    ensures
        r == sin_turns_spec(p as int),
        -ONE <= r <= ONE,
{
    let r = wrap_turn(p as i128);
    let q = r / QUARTER;
    let f = r % QUARTER;
    let m = if q % 2 == 0 {
        quarter_sine_exec(f)
    } else {
        quarter_sine_exec(QUARTER - f)
    };
    if q < 2 {
        m
    } else {
        -m
    }
}

/// The cosine of a phase of `p` turns (any value; whole turns are dropped).
pub fn cos_turns(p: i64) -> (r: i64)
    ensures
        r == cos_turns_spec(p as int),
        -ONE <= r <= ONE,
{
    sin_turns(wrap_turn(p as i128) + QUARTER)
}

/// The sine is 0 at phase 0.
pub proof fn lemma_sin_at_zero()
    ensures
        sin_turns_spec(0) == 0,
{
    assert(radians60(0) == 0);
    assert(quarter_sine(0) == 0);
}

/// The sine is 0 at half a turn.
pub proof fn lemma_sin_at_half_turn()
    ensures
        sin_turns_spec(ONE / 2) == 0,
{
    assert(radians60(0) == 0);
    assert(quarter_sine(0) == 0);
}

proof fn lemma_series_unfold(x2: int, j: int, next: int, d: int)
    requires
        1 <= j <= 7,
        series(x2, j + 1) == next,
        d == (2 * j) * (2 * j + 1),
    ensures
        series(x2, j) == ONE60 - (x2 * next / (ONE60 as int)) / d,
{
}

/// The sine at a quarter turn is 1.0 less one unit of the last place.
pub proof fn lemma_sin_at_quarter_turn()
    ensures
        sin_turns_spec(QUARTER as int) == ONE - 1,
{
    reveal_with_fuel(series, 8);
    let x = radians60(QUARTER as int);
    assert(x == 1811004864519280710);
    let x2 = x * x / (ONE60 as int);
    assert(x2 == 2844719788994575538);
    assert(ONE60 == 1152921504606846976);
    assert(series(2844719788994575538, 8) == 1152921504606846976);
    lemma_series_unfold(2844719788994575538, 7, 1152921504606846976, 210);
    assert(1152921504606846976 - (2844719788994575538 * 1152921504606846976 / 1152921504606846976) / 210 == 1139375219897348998);
    lemma_series_unfold(2844719788994575538, 6, 1139375219897348998, 156);
    assert(1152921504606846976 - (2844719788994575538 * 1139375219897348998 / 1152921504606846976) / 156 == 1134900378509425452);
    lemma_series_unfold(2844719788994575538, 5, 1134900378509425452, 110);
    assert(1152921504606846976 - (2844719788994575538 * 1134900378509425452 / 1152921504606846976) / 110 == 1127464646037450148);
    lemma_series_unfold(2844719788994575538, 4, 1127464646037450148, 72);
    assert(1152921504606846976 - (2844719788994575538 * 1127464646037450148 / 1152921504606846976) / 72 == 1114283900326972414);
    lemma_series_unfold(2844719788994575538, 3, 1114283900326972414, 42);
    assert(1152921504606846976 - (2844719788994575538 * 1114283900326972414 / 1152921504606846976) / 42 == 1087459949328691601);
    lemma_series_unfold(2844719788994575538, 2, 1087459949328691601, 20);
    assert(1152921504606846976 - (2844719788994575538 * 1087459949328691601 / 1152921504606846976) / 20 == 1018761510833061157);
    lemma_series_unfold(2844719788994575538, 1, 1018761510833061157, 6);
    assert(1152921504606846976 - (2844719788994575538 * 1018761510833061157 / 1152921504606846976) / 6 == 733972625816079281);
    assert(quarter_sine(QUARTER as int) == ONE - 1);
}

/// Whole turns do not change the sine.
pub proof fn lemma_sin_periodic(p: int)
    ensures
        sin_turns_spec(p + ONE) == sin_turns_spec(p),
{
    vstd::arithmetic::div_mod::lemma_mod_multiples_vanish(1, p, ONE as int);
}

/// The sine is odd: the sine of `-p` is minus the sine of `p`.
pub proof fn lemma_sin_odd(p: int)
    ensures
        sin_turns_spec(-p) == -sin_turns_spec(p),
{
    let one = ONE as int;
    let quarter = QUARTER as int;
    let r = p % one;
    let q = r / quarter;
    let f = r % quarter;
    vstd::arithmetic::div_mod::lemma_fundamental_div_mod(p, one);
    vstd::arithmetic::div_mod::lemma_fundamental_div_mod(r, quarter);
    assert(0 <= q < 4) by (nonlinear_arith)
        requires
            r == quarter * q + f,
            0 <= f < quarter,
            0 <= r < one,
            one == 4 * quarter,
            quarter > 0,
    ;
    assert(radians60(0) == 0);
    assert(quarter_sine(0) == 0);
    if r == 0 {
        vstd::arithmetic::div_mod::lemma_fundamental_div_mod_converse(-p, one, -(p / one), 0);
    } else {
        vstd::arithmetic::div_mod::lemma_fundamental_div_mod_converse(
            -p,
            one,
            -(p / one) - 1,
            one - r,
        );
        let r2 = one - r;
        if f == 0 {
            vstd::arithmetic::div_mod::lemma_fundamental_div_mod_converse(r2, quarter, 4 - q, 0);
        } else {
            vstd::arithmetic::div_mod::lemma_fundamental_div_mod_converse(
                r2,
                quarter,
                3 - q,
                quarter - f,
            );
        }
    }
}

} // verus!
