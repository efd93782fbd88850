//! Band-limited waveforms from truncated Fourier series.
//!
//! A sample is the sum of sine terms over the harmonics of the (tuned)
//! frequency up to the Nyquist limit; harmonics above it are left out so that
//! nothing aliases. For the square, sawtooth and triangle, a frequency that
//! is not positive, or at or above the Nyquist limit, leaves no harmonic and
//! the sum is 0. The sine is a single term at every frequency.

use vstd::prelude::*;
use crate::config::SynthConfig;
use crate::fixed::{
    ONE,
    trunc_div,
    saturate,
    fx_product,
    div_floor,
    div_toward_zero,
    wrap_turn,
    to_i64_saturating,
    fx_mul,
};
use crate::trig::{sin_turns_spec, sin_turns, ONE60, TWO_PI60};

verus! {

/// The shapes of periodic waveform the library draws.
#[derive(Debug, Clone, Copy, PartialEq, Eq, Structural)]
pub enum Waveform {
    Sine,
    Square,
    Sawtooth,
    Triangle,
}

/// The bias used when none is given: half a turn.
pub const DEFAULT_BIAS: i64 = 536870912;

/// The bias that applies to a call: the one given, or half a turn.
pub open spec fn bias_or_default(bias: Option<i64>) -> int {
    match bias {
        Some(b) => b as int,
        None => DEFAULT_BIAS as int,
    }
}

/// Whether frequency `f` (Hz, fixed point) is at or above the Nyquist limit
/// of `sr` samples per second, where nothing can be band-limited.
pub open spec fn at_or_above_nyquist(sr: int, f: int) -> bool {
    2 * f >= sr * ONE
}

/// The highest harmonic order of frequency `f` (Hz, fixed point) below the
/// Nyquist limit of `sr` samples per second: `floor((sr / 2) / f)`, and 0
/// when `f` is not positive or is at or above the limit.
pub open spec fn highest_harmonic(sr: int, f: int) -> int {
    if f <= 0 || at_or_above_nyquist(sr, f) {
        0
    } else {
        (sr * ONE) / (2 * f)
    }
}

/// The number of harmonic orders a waveform sums over: the sine is a single
/// term at every frequency; the other shapes sum `highest_harmonic` orders,
/// none at or above the Nyquist limit.
pub open spec fn term_count(kind: Waveform, sr: int, f: int) -> int {
    match kind {
        Waveform::Sine => 1,
        _ => highest_harmonic(sr, f),
    }
}

/// Whether harmonic order `n` takes part in the waveform.
pub open spec fn includes(kind: Waveform, n: int) -> bool {
    match kind {
        Waveform::Sine => n == 1,
        Waveform::Sawtooth => true,
        _ => n % 2 == 1,
    }
}

/// The divisor of the term of order `n`: `n²` for the triangle, else `n`.
pub open spec fn divisor(kind: Waveform, n: int) -> int {
    match kind {
        Waveform::Triangle => n * n,
        _ => n,
    }
}

/// The bias term of order `n`: `(n × bias) mod 1`, in radians.
pub open spec fn harmonic_bias(n: int, bias: int) -> int {
    (n * bias) % (ONE as int)
}

/// The bias term of order `n` converted from radians to turns (divided by
/// 2π, rounded down).
pub open spec fn bias_turns(n: int, bias: int) -> int {
    harmonic_bias(n, bias) * ONE60 / (TWO_PI60 as int)
}

/// The phase, in turns, added to the term of order `n`: the configured
/// offset, and for the sawtooth and the triangle the harmonic bias too
/// (added to the angle in radians); none for the square.
pub open spec fn offset_of(kind: Waveform, c: SynthConfig, n: int, bias: int) -> int {
    match kind {
        Waveform::Sine => c.phase_offset as int,
        Waveform::Square => 0,
        _ => c.phase_offset + bias_turns(n, bias),
    }
}

/// The phase, in turns modulo one turn, of the term of order `n` at sample
/// `t`: `f·n·t / sample_rate + offset`.
pub open spec fn harmonic_phase(
    kind: Waveform,
    c: SynthConfig,
    f: int,
    t: int,
    n: int,
    bias: int,
) -> int {
    ((f * n * t) / (c.sample_rate as int) + offset_of(kind, c, n, bias)) % (ONE as int)
}

/// The term of order `n`: the sine of its phase over its divisor, or 0 for an
/// order the waveform leaves out.
pub open spec fn term(kind: Waveform, c: SynthConfig, f: int, t: int, n: int, bias: int) -> int {
    if includes(kind, n) {
        trunc_div(sin_turns_spec(harmonic_phase(kind, c, f, t, n, bias)), divisor(kind, n))
    } else {
        0
    }
}

/// The sum of the terms of orders `1..=k`.
pub open spec fn partial_sum(
    kind: Waveform,
    c: SynthConfig,
    f: int,
    t: int,
    bias: int,
    k: int,
) -> int
    decreases k,
{
    if k <= 0 {
        0
    } else {
        partial_sum(kind, c, f, t, bias, k - 1) + term(kind, c, f, t, k, bias)
    }
}

/// The sample of `kind` at sample index `t` for frequency `freq`: the tuned
/// frequency's series, scaled by the configured amplitude (each step limited
/// to the range of an `i64`).
pub open spec fn evaluate_spec(
    kind: Waveform,
    c: SynthConfig,
    t: int,
    freq: int,
    bias: Option<i64>,
) -> int {
    let f = freq + c.tuning_offset_hz;
    let s = partial_sum(kind, c, f, t, bias_or_default(bias), term_count(kind, c.sample_rate as int, f));
    saturate(fx_product(saturate(s), c.amplitude_scaling as int))
}

proof fn lemma_congruent_add(a: int, x: int, y: int, m: int)
    requires
        m > 0,
        x % m == y % m,
    ensures
        (a + x) % m == (a + y) % m,
{
    vstd::arithmetic::div_mod::lemma_add_mod_noop_right(a, x, m);
    vstd::arithmetic::div_mod::lemma_add_mod_noop_right(a, y, m);
}

/// Whole periods of `sr × ONE` samples in `k` leave the phase unchanged.
proof fn lemma_phase_reduction(f: int, k: int, sr: int)
    requires
        sr > 0,
        k >= 0,
    ensures
        ((f * (k % (sr * ONE))) / sr) % (ONE as int) == ((f * k) / sr) % (ONE as int),
{
    let m = sr * ONE;
    assert(m > 0) by (nonlinear_arith)
        requires
            sr > 0,
            m == sr * ONE,
            ONE > 0,
    ;
    let q = k / m;
    let r = k % m;
    vstd::arithmetic::div_mod::lemma_fundamental_div_mod(k, m);
    assert(f * k == f * r + (f * q * ONE) * sr) by (nonlinear_arith)
        requires
            k == m * q + r,
            m == sr * ONE,
    ;
    vstd::arithmetic::div_mod::lemma_hoist_over_denominator(f * r, f * q * ONE, sr as nat);
    vstd::arithmetic::div_mod::lemma_mod_multiples_vanish(f * q, (f * r) / sr, ONE as int);
    assert(ONE * (f * q) == f * q * ONE) by (nonlinear_arith);
}

/// The phase of the term of order `n`, as `harmonic_phase` states it.
fn harmonic_phase_exec(
    kind: Waveform,
    c: &SynthConfig,
    f: i128,
    t: u32,
    n: u64,
    bias: i64,
) -> (r: i64)
    requires
        c.wf(),
        -0x1_0000_0000_0000_0000 <= f <= 0x1_0000_0000_0000_0000,
        1 <= n <= 0x4000_0000_0000_0000,
    ensures
        r == harmonic_phase(kind, *c, f as int, t as int, n as int, bias as int),
        0 <= r < ONE,
{
    let sr = c.sample_rate as i128;
    let period = sr * (ONE as i128);
    proof {
        assert(0 < period <= 0xffff_ffff * ONE) by (nonlinear_arith)
            requires
                period == sr * ONE,
                0 < sr <= 0xffff_ffff,
        ;
        assert(0 <= (n as int) * (t as int) <= 0x4000_0000_0000_0000 * 0xffff_ffff) by (nonlinear_arith)
            requires
                1 <= n <= 0x4000_0000_0000_0000,
                0 <= t <= 0xffff_ffff,
        ;
    }
    let k = (n as i128) * (t as i128);
    let kr = k % period;
    proof {
        assert(-0x1_0000_0000_0000_0000 * 0xffff_ffff * ONE <= f * kr <= 0x1_0000_0000_0000_0000
            * 0xffff_ffff * ONE) by (nonlinear_arith)
            requires
                -0x1_0000_0000_0000_0000 <= f <= 0x1_0000_0000_0000_0000,
                0 <= kr < 0xffff_ffff * ONE,
        ;
    }
    let main = wrap_turn(div_floor(f * kr, sr));
    let off: i64 = match kind {
        Waveform::Sine => wrap_turn(c.phase_offset as i128),
        Waveform::Square => 0,
        _ => {
            proof {
                assert(-0x4000_0000_0000_0000 * 0x8000_0000_0000_0000 <= (n as int) * (bias as int)
                    <= 0x4000_0000_0000_0000 * 0x8000_0000_0000_0000) by (nonlinear_arith)
                    requires
                        1 <= n <= 0x4000_0000_0000_0000,
                        -0x8000_0000_0000_0000 <= bias <= 0x7fff_ffff_ffff_ffff,
                ;
            }
            let rad = wrap_turn((n as i128) * (bias as i128));
            proof {
                assert(0 <= (rad as int) * ONE60 / (TWO_PI60 as int) < ONE) by (nonlinear_arith)
                    requires
                        0 <= rad < ONE,
                        ONE60 == 1152921504606846976,
                        TWO_PI60 == 7244019458077122842,
                        ONE == 1073741824,
                ;
            }
            let b = ((rad as i128) * ONE60 / TWO_PI60) as i64;
            let po = wrap_turn(c.phase_offset as i128);
            po + b
        },
    };
    let r = wrap_turn(main as i128 + off as i128);
    proof {
        let one = ONE as int;
        let srr = c.sample_rate as int;
        let a = (f as int * n as int * t as int) / srr;
        assert(f as int * n as int * t as int == f * k) by (nonlinear_arith)
            requires
                k == (n as int) * (t as int),
        ;
        lemma_phase_reduction(f as int, k as int, srr);
        // main == a % one
        vstd::arithmetic::div_mod::lemma_small_mod(main as nat, one as nat);
        lemma_congruent_add(off as int, main as int, a, one);
        let o = offset_of(kind, *c, n as int, bias as int);
        match kind {
            Waveform::Sine => {
                vstd::arithmetic::div_mod::lemma_small_mod(off as nat, one as nat);
            },
            Waveform::Square => {},
            _ => {
                let b = bias_turns(n as int, bias as int);
                let po = c.phase_offset as int;
                lemma_congruent_add(b, po % one, po, one);
                vstd::arithmetic::div_mod::lemma_mod_twice(po, one);
                assert((po % one + b) % one == (po + b) % one);
            },
        }
        lemma_congruent_add(a, off as int, o, one);
        assert(off as int + main as int == main as int + off as int);
    }
    r
}

/// The highest harmonic order, as `highest_harmonic` states it.
fn highest_harmonic_exec(sr: u32, f: i128) -> (r: u64)
    requires
        sr > 0,
        f <= 0x1_0000_0000_0000_0000,
    ensures
        r == highest_harmonic(sr as int, f as int),
        r <= 0x4000_0000_0000_0000,
{
    proof {
        assert(0 < sr as int * ONE <= 0xffff_ffff * ONE) by (nonlinear_arith)
            requires
                0 < sr <= 0xffff_ffff,
                ONE > 0,
        ;
    }
    if f <= 0 || 2 * f >= (sr as i128) * (ONE as i128) {
        0
    } else {
        proof {
            assert(0 < sr as int * ONE <= 0xffff_ffff * ONE) by (nonlinear_arith)
                requires
                    0 < sr <= 0xffff_ffff,
                    ONE > 0,
            ;
        }
        let num = (sr as i128) * (ONE as i128);
        proof {
            assert((num as int) / (2 * (f as int)) <= num) by (nonlinear_arith)
                requires
                    num > 0,
                    f >= 1,
            ;
            assert(num <= 0x4000_0000_0000_0000);
        }
        (num / (2 * f)) as u64
    }
}

/// The number of harmonic orders, as `term_count` states it.
pub(crate) fn term_count_exec(kind: Waveform, sr: u32, f: i128) -> (r: u64)
    requires
        sr > 0,
        -0x1_0000_0000_0000_0000 <= f <= 0x1_0000_0000_0000_0000,
    ensures
        r == term_count(kind, sr as int, f as int),
        r <= 0x4000_0000_0000_0000,
{
    match kind {
        Waveform::Sine => 1,
        _ => highest_harmonic_exec(sr, f),
    }
}

/// One sample of `kind` at sample index `t` for frequency `freq` (Hz, fixed
/// point), with the harmonic bias `bias` (half a turn when absent).
pub fn evaluate(config: &SynthConfig, kind: Waveform, t: u32, freq: i64, bias: Option<i64>) -> (r:
    i64)
    requires
        config.wf(),
    ensures
        r == evaluate_spec(kind, *config, t as int, freq as int, bias),
{
    let f: i128 = freq as i128 + config.tuning_offset_hz as i128;
    let b: i64 = match bias {
        Some(x) => x,
        None => DEFAULT_BIAS,
    };
    let count: u64 = term_count_exec(kind, config.sample_rate, f);
    let ghost c = *config;
    let mut sum: i128 = 0;
    let mut n: u64 = 1;
    while n <= count
        invariant
            c == *config,
            config.wf(),
            count <= 0x4000_0000_0000_0000,
            count == term_count(kind, c.sample_rate as int, f as int),
            -0x1_0000_0000_0000_0000 <= f <= 0x1_0000_0000_0000_0000,
            b == bias_or_default(bias),
            1 <= n <= count + 1,
            sum == partial_sum(kind, c, f as int, t as int, b as int, n - 1),
            -(n - 1) * ONE <= sum <= (n - 1) * ONE,
        decreases count + 1 - n,
    {
        let included = match kind {
            Waveform::Sine => n == 1,
            Waveform::Sawtooth => true,
            _ => n % 2 == 1,
        };
        if included {
            let p = harmonic_phase_exec(kind, config, f, t, n, b);
            let s = sin_turns(p);
            proof {
                assert(1 <= (n as int) * (n as int) <= 0x4000_0000_0000_0000 * 0x4000_0000_0000_0000)
                    by (nonlinear_arith)
                    requires
                        1 <= n <= 0x4000_0000_0000_0000,
                ;
            }
            let d: i128 = match kind {
                Waveform::Triangle => (n as i128) * (n as i128),
                _ => n as i128,
            };
            proof {
                assert(d >= 1) by (nonlinear_arith)
                    requires
                        n >= 1,
                        d == n * n || d == n,
                ;
                if s >= 0 {
                    assert(s as int / d as int <= s) by (nonlinear_arith)
                        requires
                            s >= 0,
                            d >= 1,
                    ;
                } else {
                    assert((-s) as int / d as int <= -s) by (nonlinear_arith)
                        requires
                            s < 0,
                            d >= 1,
                    ;
                }
            }
            let part = div_toward_zero(s as i128, d);
            sum = sum + part;
        }
        n = n + 1;
    }
    let s64 = to_i64_saturating(sum);
    fx_mul(s64, config.amplitude_scaling)
}

/// A band-limited sine sample.
pub fn sine(config: &SynthConfig, t: u32, freq: i64, bias: Option<i64>) -> (r: i64)
    requires
        config.wf(),
    ensures
        r == evaluate_spec(Waveform::Sine, *config, t as int, freq as int, bias),
{
    evaluate(config, Waveform::Sine, t, freq, bias)
}

/// A band-limited square sample: odd harmonics over their order.
pub fn square(config: &SynthConfig, t: u32, freq: i64, bias: Option<i64>) -> (r: i64)
    requires
        config.wf(),
    ensures
        r == evaluate_spec(Waveform::Square, *config, t as int, freq as int, bias),
{
    evaluate(config, Waveform::Square, t, freq, bias)
}

/// A band-limited sawtooth sample: every harmonic over its order.
pub fn sawtooth(config: &SynthConfig, t: u32, freq: i64, bias: Option<i64>) -> (r: i64)
    requires
        config.wf(),
    ensures
        r == evaluate_spec(Waveform::Sawtooth, *config, t as int, freq as int, bias),
{
    evaluate(config, Waveform::Sawtooth, t, freq, bias)
}

/// A band-limited triangle sample: odd harmonics over their order squared.
pub fn triangle(config: &SynthConfig, t: u32, freq: i64, bias: Option<i64>) -> (r: i64)
    requires
        config.wf(),
    ensures
        r == evaluate_spec(Waveform::Triangle, *config, t as int, freq as int, bias),
{
    evaluate(config, Waveform::Triangle, t, freq, bias)
}

/// The smallest level of a non-empty curve.
pub open spec fn seq_min(s: Seq<int>) -> int
    decreases s.len(),
{
    if s.len() <= 1 {
        s[0]
    } else {
        let m = seq_min(s.drop_last());
        if s.last() < m {
            s.last()
        } else {
            m
        }
    }
}

/// The largest level of a non-empty curve.
pub open spec fn seq_max(s: Seq<int>) -> int
    decreases s.len(),
{
    if s.len() <= 1 {
        s[0]
    } else {
        let m = seq_max(s.drop_last());
        if s.last() > m {
            s.last()
        } else {
            m
        }
    }
}

/// `x` mapped affinely from `[lo, hi]` onto `[-1.0, 1.0]` (rounded down);
/// 0 when the range is a single value.
pub open spec fn rescaled(x: int, lo: int, hi: int) -> int {
    if hi == lo {
        0
    } else {
        (x - lo) * (2 * ONE) / (hi - lo) - ONE
    }
}

/// The curve `s` mapped affinely so that its least level becomes -1.0 and
/// its greatest 1.0.
pub open spec fn normalized(s: Seq<int>) -> Seq<int> {
    Seq::new(s.len(), |i: int| rescaled(s[i], seq_min(s), seq_max(s)))
}

/// The levels of a vector as mathematical integers.
pub open spec fn sample_levels(v: Seq<i64>) -> Seq<int> {
    v.map_values(|x: i64| x as int)
}

proof fn lemma_min_max(s: Seq<int>)
    requires
        s.len() > 0,
    ensures
        forall|i: int| 0 <= i < s.len() ==> seq_min(s) <= #[trigger] s[i] <= seq_max(s),
    decreases s.len(),
{
    if s.len() > 1 {
        lemma_min_max(s.drop_last());
        assert forall|i: int| 0 <= i < s.len() implies seq_min(s) <= #[trigger] s[i] <= seq_max(s) by {
            if i < s.len() - 1 {
                assert(s.drop_last()[i] == s[i]);
            }
        }
    }
}

/// Maps the samples affinely onto `[-1.0, 1.0]`: the least becomes -1.0 and
/// the greatest 1.0. This changes absolute levels; it suits comparisons of
/// shape, not level-accurate synthesis.
pub fn normalize_waveform(samples: &mut Vec<i64>)
    ensures
        sample_levels(final(samples)@) == normalized(sample_levels(old(samples)@)),
        forall|i: int| 0 <= i < final(samples)@.len() ==> -ONE <= #[trigger] final(samples)@[i] <= ONE,
{
    let ghost s = sample_levels(samples@);
    let n = samples.len();
    if n == 0 {
        proof {
            assert(sample_levels(samples@) =~= normalized(s));
        }
        return;
    }
    let mut lo: i64 = samples[0];
    let mut hi: i64 = samples[0];
    let mut i: usize = 1;
    while i < n
        invariant
            n == samples.len(),
            1 <= i <= n,
            s == sample_levels(samples@),
            lo == seq_min(s.subrange(0, i as int)),
            hi == seq_max(s.subrange(0, i as int)),
        decreases n - i,
    {
        proof {
            assert(s.subrange(0, i as int + 1).drop_last() =~= s.subrange(0, i as int));
        }
        let x = samples[i];
        if x < lo {
            lo = x;
        }
        if x > hi {
            hi = x;
        }
        i = i + 1;
    }
    proof {
        assert(s.subrange(0, n as int) =~= s);
        lemma_min_max(s);
        assert(lo <= s[0] <= hi);
    }
    let mut j: usize = 0;
    while j < n
        invariant
            n == samples.len(),
            j <= n,
            n > 0,
            s.len() == n,
            lo == seq_min(s),
            hi == seq_max(s),
            lo <= hi,
            forall|k: int| 0 <= k < n ==> lo <= #[trigger] s[k] <= hi,
            forall|k: int| j <= k < n ==> samples@[k] as int == #[trigger] s[k],
            forall|k: int| 0 <= k < j ==> samples@[k] as int == #[trigger] normalized(s)[k],
            forall|k: int| 0 <= k < j ==> -ONE <= #[trigger] samples@[k] <= ONE,
        decreases n - j,
    {
        let x = samples[j];
        let v: i64 = if hi == lo {
            0
        } else {
            let den = (hi as i128) - (lo as i128);
            proof {
                assert(samples@[j as int] as int == s[j as int]);
                assert(lo <= s[j as int] <= hi);
                let d = x as int - lo as int;
                assert(0 <= d <= den);
                assert(0 <= d * (2 * ONE) <= den * (2 * ONE)) by (nonlinear_arith)
                    requires
                        0 <= d <= den,
                        ONE > 0,
                ;
                let dd = den as int;
                assert(dd * (2 * ONE) <= 0x2_0000_0000_0000_0000 * (2 * ONE)) by (nonlinear_arith)
                    requires
                        0 < dd <= 0x2_0000_0000_0000_0000,
                        ONE > 0,
                ;
                assert(0 <= (d * (2 * ONE)) / dd <= 2 * ONE) by (nonlinear_arith)
                    requires
                        0 <= d * (2 * ONE) <= dd * (2 * ONE),
                        dd > 0,
                ;
            }
            let num = ((x as i128) - (lo as i128)) * (2 * ONE as i128);
            ((num / den) - (ONE as i128)) as i64
        };
        samples.set(j, v);
        j = j + 1;
    }
    proof {
        assert(sample_levels(samples@) =~= normalized(s));
    }
}

/// The frequency `render` draws at: 400 Hz.
pub const RENDER_FREQUENCY: i64 = 429496729600;

/// The samples of `kind` at 400 Hz, with a bias of half a turn, at each
/// sample index of `ts`, mapped affinely onto `[-1.0, 1.0]`.
pub fn render(config: &SynthConfig, ts: Vec<u32>, sr: u32, kind: Waveform) -> (r: Vec<i64>)
    requires
        config.wf(),
    ensures
        sample_levels(r@) == normalized(
            Seq::new(
                ts@.len(),
                |i: int|
                    evaluate_spec(kind, *config, ts@[i] as int, RENDER_FREQUENCY as int, Some(DEFAULT_BIAS)),
            ),
        ),
{
    let ghost raw = Seq::new(
        ts@.len(),
        |i: int| evaluate_spec(kind, *config, ts@[i] as int, RENDER_FREQUENCY as int, Some(DEFAULT_BIAS)),
    );
    let mut samples: Vec<i64> = Vec::new();
    let mut i: usize = 0;
    while i < ts.len()
        invariant
            config.wf(),
            i <= ts.len(),
            samples@.len() == i,
            raw == Seq::new(
                ts@.len(),
                |i: int| evaluate_spec(kind, *config, ts@[i] as int, RENDER_FREQUENCY as int, Some(DEFAULT_BIAS)),
            ),
            forall|k: int| 0 <= k < i ==> samples@[k] as int == #[trigger] raw[k],
        decreases ts.len() - i,
    {
        let v = evaluate(config, kind, ts[i], RENDER_FREQUENCY, Some(DEFAULT_BIAS));
        samples.push(v);
        i = i + 1;
    }
    proof {
        assert(sample_levels(samples@) =~= raw);
    }
    normalize_waveform(&mut samples);
    samples
}

/// A sine with no configured phase offset starts at zero: its sample at index
/// 0 is 0 for every frequency, bias and amplitude scaling.
pub proof fn lemma_sine_starts_at_zero(c: SynthConfig, freq: int, bias: Option<i64>)
    requires
        c.wf(),
        c.phase_offset == 0,
    ensures
        evaluate_spec(Waveform::Sine, c, 0, freq, bias) == 0,
{
    let f = freq + c.tuning_offset_hz;
    let b = bias_or_default(bias);
    assert(f * 1 * 0 == 0);
    assert(harmonic_phase(Waveform::Sine, c, f, 0, 1, b) == 0);
    assert(crate::trig::radians60(0) == 0);
    assert(crate::trig::quarter_sine(0) == 0);
    assert(sin_turns_spec(0) == 0);
    assert(partial_sum(Waveform::Sine, c, f, 0, b, 0) == 0);
    assert(term(Waveform::Sine, c, f, 0, 1, b) == 0);
    assert(partial_sum(Waveform::Sine, c, f, 0, b, 1) == 0);
    assert(fx_product(0, c.amplitude_scaling as int) == 0);
}

} // verus!
