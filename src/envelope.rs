//! Envelopes: finite control curves over time, shaped into `[-1.0, 1.0]`.
//!
//! A curve holds one level per sample, for times `t = i / sample_rate`. Every
//! curve is shaped the same way: when its largest magnitude exceeds 1.0 each
//! level is divided by that magnitude, and the whole curve is negated when the
//! envelope flips.

use vstd::prelude::*;
use crate::error::SynthError;
use crate::fixed::{ONE, trunc_div, div_toward_zero};

verus! {

/// `|x|`.
pub open spec fn abs(x: int) -> int {
    if x < 0 {
        -x
    } else {
        x
    }
}

/// The largest magnitude in `s`, 0 for an empty curve.
pub open spec fn max_abs(s: Seq<int>) -> int
    decreases s.len(),
{
    if s.len() == 0 {
        0
    } else {
        let m = max_abs(s.drop_last());
        if abs(s.last()) > m {
            abs(s.last())
        } else {
            m
        }
    }
}

/// A level `x` of a curve whose largest magnitude is `m`: divided by `m`
/// (rounded toward zero) when `m` exceeds 1.0, else unchanged.
pub open spec fn scaled(x: int, m: int) -> int {
    if m > ONE {
        trunc_div(x * ONE, m)
    } else {
        x
    }
}

/// -1 for a flipped envelope, else 1.
pub open spec fn sign_of(flip: bool) -> int {
    if flip {
        -1
    } else {
        1
    }
}

/// The curve `s` normalized and, when `flip` holds, negated.
pub open spec fn shaped(s: Seq<int>, flip: bool) -> Seq<int> {
    Seq::new(s.len(), |i: int| sign_of(flip) * scaled(s[i], max_abs(s)))
}

/// A level of the linear curve: `slope × i / sr`, rounded toward zero.
pub open spec fn linear_level(slope: int, i: int, sr: int) -> int {
    trunc_div(slope * i, sr)
}

/// The levels of a vector as mathematical integers.
pub open spec fn levels(v: Seq<i64>) -> Seq<int> {
    v.map_values(|x: i64| x as int)
}

/// The raw levels of a vector as mathematical integers.
pub open spec fn raw_levels(v: Seq<i128>) -> Seq<int> {
    v.map_values(|x: i128| x as int)
}

/// Each level is at least the one before it.
pub open spec fn non_decreasing(s: Seq<int>) -> bool {
    forall|i: int, j: int| 0 <= i <= j < s.len() ==> s[i] <= s[j]
}

/// Each level is at most the one before it.
pub open spec fn non_increasing(s: Seq<int>) -> bool {
    forall|i: int, j: int| 0 <= i <= j < s.len() ==> s[i] >= s[j]
}

proof fn lemma_max_abs(s: Seq<int>)
    ensures
        max_abs(s) >= 0,
        forall|i: int| 0 <= i < s.len() ==> abs(#[trigger] s[i]) <= max_abs(s),
    decreases s.len(),
{
    if s.len() > 0 {
        lemma_max_abs(s.drop_last());
        assert forall|i: int| 0 <= i < s.len() implies abs(#[trigger] s[i]) <= max_abs(s) by {
            if i < s.len() - 1 {
                assert(s.drop_last()[i] == s[i]);
            }
        }
    }
}

proof fn lemma_scaled_bounds(x: int, m: int)
    requires
        abs(x) <= m,
    ensures
        -ONE <= scaled(x, m) <= ONE,
{
    if m > ONE {
        let one = ONE as int;
        if x >= 0 {
            assert(x * one / m <= one) by (nonlinear_arith)
                requires
                    0 <= x <= m,
                    m > 0,
                    one > 0,
            ;
            assert(x * one / m >= 0) by (nonlinear_arith)
                requires
                    0 <= x,
                    m > 0,
                    one > 0,
            ;
        } else {
            assert((-(x * one)) / m <= one) by (nonlinear_arith)
                requires
                    0 <= -x <= m,
                    m > 0,
                    one > 0,
            ;
            assert((-(x * one)) / m >= 0) by (nonlinear_arith)
                requires
                    0 < -x,
                    m > 0,
                    one > 0,
            ;
        }
    }
}

proof fn lemma_trunc_div_monotone(a: int, b: int, m: int)
    requires
        a <= b,
        m > 0,
    ensures
        trunc_div(a, m) <= trunc_div(b, m),
{
    if a >= 0 {
        vstd::arithmetic::div_mod::lemma_div_is_ordered(a, b, m);
    } else if b >= 0 {
        vstd::arithmetic::div_mod::lemma_div_pos_is_pos(-a, m);
        vstd::arithmetic::div_mod::lemma_div_pos_is_pos(b, m);
    } else {
        vstd::arithmetic::div_mod::lemma_div_is_ordered(-b, -a, m);
    }
}

proof fn lemma_scaled_monotone(x: int, y: int, m: int)
    requires
        x <= y,
    ensures
        scaled(x, m) <= scaled(y, m),
{
    if m > ONE {
        assert(x * ONE <= y * ONE) by (nonlinear_arith)
            requires
                x <= y,
                ONE > 0,
        ;
        lemma_trunc_div_monotone(x * ONE, y * ONE, m);
    }
}

/// Shaping a curve leaves every level in `[-1.0, 1.0]`; it keeps the
/// direction of a monotone curve, and flipping reverses that direction.
pub proof fn lemma_shaped_bounded_and_monotone(s: Seq<int>, flip: bool)
    ensures
        shaped(s, flip).len() == s.len(),
        forall|i: int| 0 <= i < s.len() ==> -ONE <= #[trigger] shaped(s, flip)[i] <= ONE,
        non_decreasing(s) ==> if flip {
            non_increasing(shaped(s, flip))
        } else {
            non_decreasing(shaped(s, flip))
        },
        non_increasing(s) ==> if flip {
            non_decreasing(shaped(s, flip))
        } else {
            non_increasing(shaped(s, flip))
        },
{
    let m = max_abs(s);
    let r = shaped(s, flip);
    lemma_max_abs(s);
    assert forall|i: int| 0 <= i < s.len() implies -ONE <= #[trigger] r[i] <= ONE by {
        lemma_scaled_bounds(s[i], m);
    }
    if non_decreasing(s) {
        assert forall|i: int, j: int| 0 <= i <= j < s.len() implies if flip {
            r[i] >= r[j]
        } else {
            r[i] <= r[j]
        } by {
            lemma_scaled_monotone(s[i], s[j], m);
        }
    }
    if non_increasing(s) {
        assert forall|i: int, j: int| 0 <= i <= j < s.len() implies if flip {
            r[i] <= r[j]
        } else {
            r[i] >= r[j]
        } by {
            lemma_scaled_monotone(s[j], s[i], m);
        }
    }
}

/// `|x|` as an unsigned number.
fn magnitude(x: i128) -> (r: u128)
    ensures
        r == abs(x as int),
{
    if x >= 0 {
        x as u128
    } else {
        ((-(x + 1)) as u128) + 1
    }
}

/// `a × ONE / m`, rounded down, for `a <= m`, by binary long division (so
/// that no intermediate value exceeds `2m`).
fn unit_ratio(a: u128, m: u128) -> (r: i64)
    requires
        0 < m,
        a <= m,
    ensures
        r == (a as int * ONE) / (m as int),
        0 <= r <= ONE,
{
    if a == m {
        proof {
            vstd::arithmetic::div_mod::lemma_fundamental_div_mod_converse(
                a as int * ONE,
                m as int,
                ONE as int,
                0,
            );
        }
        return ONE;
    }
    let mut q: u64 = 0;
    let mut r: u128 = a;
    let mut k: u32 = 0;
    let ghost mut p: int = 1;
    proof {
        vstd::arithmetic::power2::lemma2_to64();
    }
    while k < 30
        invariant
            0 <= k <= 30,
            p == vstd::arithmetic::power2::pow2(k as nat),
            0 <= r < m,
            q as int * m + r == a as int * p,
            q < p,
            p <= 0x4000_0000,
        decreases 30 - k,
    {
        proof {
            vstd::arithmetic::power2::lemma_pow2_unfold((k + 1) as nat);
            vstd::arithmetic::power2::lemma2_to64();
            if k < 29 {
                vstd::arithmetic::power2::lemma_pow2_strictly_increases((k + 1) as nat, 30);
            }
        }
        let ghost q0 = q as int;
        let ghost r0 = r as int;
        let ghost p0 = p;
        if r >= m - r {
            r = r - (m - r);
            q = 2 * q + 1;
        } else {
            r = 2 * r;
            q = 2 * q;
        }
        proof {
            p = 2 * p;
            assert(q as int * m + r == a as int * p) by (nonlinear_arith)
                requires
                    q == 2 * q0 + 1 && r == 2 * r0 - m || q == 2 * q0 && r == 2 * r0,
                    q0 * m + r0 == a as int * p0,
                    p == 2 * p0,
            ;
        }
        k = k + 1;
    }
    proof {
        vstd::arithmetic::power2::lemma2_to64();
        vstd::arithmetic::div_mod::lemma_fundamental_div_mod_converse(
            a as int * ONE,
            m as int,
            q as int,
            r as int,
        );
    }
    q as i64
}

/// The state of an envelope generator, as mathematical values.
pub ghost struct EnvelopeView {
    /// Number of levels in every curve.
    pub n: nat,
    pub sample_rate: nat,
    pub flip: bool,
    /// Tempo in cycles per second, fixed point.
    pub cps: int,
}

/// Makes control curves of a fixed length at a fixed sample rate.
pub struct Envelope {
    n: usize,
    sample_rate: u32,
    flip: bool,
    cps: i64,
}

impl View for Envelope {
    type V = EnvelopeView;

    closed spec fn view(&self) -> EnvelopeView {
        EnvelopeView {
            n: self.n as nat,
            sample_rate: self.sample_rate as nat,
            flip: self.flip,
            cps: self.cps as int,
        }
    }
}

impl Envelope {
    /// A generator of curves of `n` levels at `sample_rate` samples per
    /// second. A zero sample rate or a tempo that is not positive is refused.
    pub fn new(n: usize, sample_rate: u32, cps: i64, flip: bool) -> (r: Result<Envelope, SynthError>)
        ensures
            (sample_rate == 0 || cps <= 0) <==> r is Err,
            r is Err ==> r == Err::<Envelope, SynthError>(SynthError::InvalidParameter),
            r matches Ok(e) ==> e@ == (EnvelopeView {
                n: n as nat,
                sample_rate: sample_rate as nat,
                flip,
                cps: cps as int,
            }),
    {
        if sample_rate == 0 || cps <= 0 {
            return Err(SynthError::InvalidParameter);
        }
        Ok(Envelope { n, sample_rate, flip, cps })
    }

    /// Normalizes a raw curve into `[-1.0, 1.0]` (only when its largest
    /// magnitude exceeds 1.0) and negates it when the envelope flips.
    pub fn normalize_and_flip(&self, samples: Vec<i128>) -> (r: Vec<i64>)
        ensures
            levels(r@) == shaped(raw_levels(samples@), self@.flip),
    {
        let ghost s = raw_levels(samples@);
        let mut m: u128 = 0;
        let mut i: usize = 0;
        while i < samples.len()
            invariant
                i <= samples.len(),
                s == raw_levels(samples@),
                m == max_abs(s.subrange(0, i as int)),
            decreases samples.len() - i,
        {
            let a = magnitude(samples[i]);
            proof {
                assert(s.subrange(0, i as int + 1).drop_last() =~= s.subrange(0, i as int));
            }
            if a > m {
                m = a;
            }
            i = i + 1;
        }
        proof {
            assert(s.subrange(0, s.len() as int) =~= s);
            lemma_max_abs(s);
        }
        let mut out: Vec<i64> = Vec::new();
        let mut j: usize = 0;
        while j < samples.len()
            invariant
                j <= samples.len(),
                s == raw_levels(samples@),
                m == max_abs(s),
                forall|k: int| 0 <= k < s.len() ==> abs(#[trigger] s[k]) <= max_abs(s),
                out@.len() == j,
                forall|k: int| 0 <= k < j ==> out@[k] as int == #[trigger] shaped(s, self.flip)[k],
            decreases samples.len() - j,
        {
            let x = samples[j];
            proof {
                assert(abs(s[j as int]) <= max_abs(s));
                lemma_scaled_bounds(s[j as int], m as int);
            }
            let v: i64 = if m > ONE as u128 {
                let q = unit_ratio(magnitude(x), m);
                if x >= 0 {
                    q
                } else {
                    -q
                }
            } else {
                x as i64
            };
            let w: i64 = if self.flip {
                -v
            } else {
                v
            };
            out.push(w);
            j = j + 1;
        }
        proof {
            assert(levels(out@) =~= shaped(s, self.flip));
        }
        out
    }

    /// The curve whose every level is `x`. A level outside `[-1.0, 1.0]` is
    /// refused.
    pub fn constant(&self, x: i64) -> (r: Result<Vec<i64>, SynthError>)
        ensures
            (x > ONE || x < -ONE) <==> r is Err,
            r is Err ==> r == Err::<Vec<i64>, SynthError>(SynthError::InvalidParameter),
            r matches Ok(v) ==> levels(v@) == shaped(Seq::new(self@.n, |i: int| x as int), self@.flip),
    {
        if x > ONE || x < -ONE {
            return Err(SynthError::InvalidParameter);
        }
        let mut raw: Vec<i128> = Vec::new();
        let mut i: usize = 0;
        while i < self.n
            invariant
                i <= self.n,
                raw@.len() == i,
                forall|k: int| 0 <= k < i ==> #[trigger] raw@[k] == x as i128,
            decreases self.n - i,
        {
            raw.push(x as i128);
            i = i + 1;
        }
        proof {
            assert(raw_levels(raw@) =~= Seq::new(self@.n, |i: int| x as int));
        }
        Ok(self.normalize_and_flip(raw))
    }

    /// The curve `slope × t`, with `slope` in units per second. A zero slope
    /// is refused (a flat curve is made with `constant`).
    pub fn linear(&self, slope: i64) -> (r: Result<Vec<i64>, SynthError>)
        requires
            self@.sample_rate > 0,
        ensures
            slope == 0 <==> r is Err,
            r is Err ==> r == Err::<Vec<i64>, SynthError>(SynthError::InvalidParameter),
            r matches Ok(v) ==> levels(v@) == shaped(
                Seq::new(self@.n, |i: int| linear_level(slope as int, i, self@.sample_rate as int)),
                self@.flip,
            ),
    {
        if slope == 0 {
            return Err(SynthError::InvalidParameter);
        }
        let ghost sr = self.sample_rate as int;
        let mut raw: Vec<i128> = Vec::new();
        let mut i: usize = 0;
        while i < self.n
            invariant
                i <= self.n,
                sr == self.sample_rate,
                sr > 0,
                raw@.len() == i,
                forall|k: int| 0 <= k < i ==> #[trigger] raw@[k] as int == linear_level(slope as int, k, sr),
            decreases self.n - i,
        {
            proof {
                assert(-0x8000_0000_0000_0000 * 0x1_0000_0000_0000_0000 < (slope as int) * (i as int)
                    < 0x8000_0000_0000_0000 * 0x1_0000_0000_0000_0000) by (nonlinear_arith)
                    requires
                        -0x8000_0000_0000_0000 <= slope <= 0x7fff_ffff_ffff_ffff,
                        0 <= i <= 0xffff_ffff_ffff_ffff,
                ;
            }
            let v = div_toward_zero((slope as i128) * (i as i128), self.sample_rate as i128);
            raw.push(v);
            i = i + 1;
        }
        proof {
            assert(raw_levels(raw@) =~= Seq::new(
                self@.n,
                |k: int| linear_level(slope as int, k, sr),
            ));
        }
        Ok(self.normalize_and_flip(raw))
    }

    /// Number of levels in every curve.
    pub fn len(&self) -> (r: usize)
        ensures
            r == self@.n,
    {
        self.n
    }

    /// Samples per second.
    pub fn sample_rate(&self) -> (r: u32)
        ensures
            r == self@.sample_rate,
    {
        self.sample_rate
    }

    /// Whether curves are negated.
    pub fn flip(&self) -> (r: bool)
        ensures
            r == self@.flip,
    {
        self.flip
    }
}

} // verus!
