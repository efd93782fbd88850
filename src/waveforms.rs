//! Waveforms computed directly from the position in the cycle, one modulo
//! operation per sample, and noise sources.

use vstd::prelude::*;
use rand::Rng;
use crate::config::SynthConfig;
use crate::fixed::{ONE, saturate, fx_product, fx_mul, div_floor, wrap_turn, to_i64_saturating};
use crate::freq_forms::{Waveform, evaluate, evaluate_spec, bias_or_default, DEFAULT_BIAS};
use crate::trig::{sin_turns_spec, sin_turns};

verus! {

/// The position in the cycle, in turns in `[0, 1)`, of frequency `f` (Hz,
/// fixed point) at sample `t`: `(f·t / sample_rate) mod 1`.
pub open spec fn cycle_position(c: SynthConfig, f: int, t: int) -> int {
    ((f * t) / (c.sample_rate as int)) % (ONE as int)
}

/// `level × amplitude_scaling`, with `level` first limited to an `i64`.
pub open spec fn scaled_output(c: SynthConfig, level: int) -> int {
    saturate(fx_product(saturate(level), c.amplitude_scaling as int))
}

/// The sawtooth level at position `pos`: `2 × (pos − bias)`.
pub open spec fn sawtooth_level(pos: int, bias: int) -> int {
    2 * (pos - bias)
}

/// The pulse level at position `pos`: `1 − bias` before `width`, else `bias − 1`.
pub open spec fn pulse_level(pos: int, width: int, bias: int) -> int {
    if pos < width {
        ONE - bias
    } else {
        bias - ONE
    }
}

/// The square level at position `pos`: 1.0 in the first half cycle, else -1.0.
pub open spec fn square_level(pos: int) -> int {
    if pos < ONE / 2 {
        ONE as int
    } else {
        -ONE
    }
}

/// The number of cycles, in turns and not wrapped, of frequency `f` (Hz,
/// fixed point) at sample `t`: `f·t / sample_rate`, rounded down.
pub open spec fn cycle_phase(c: SynthConfig, f: int, t: int) -> int {
    (f * t) / (c.sample_rate as int)
}

/// The triangle level at phase `phase`: `2 × (|phase| mod 2) − 1`, a ramp
/// from -1.0 up to (not reaching) 3.0 over every two cycles.
pub open spec fn triangle_level(phase: int) -> int {
    2 * ((if phase < 0 {
        -phase
    } else {
        phase
    }) % (2 * ONE)) - ONE
}

/// The position in the cycle, as `cycle_position` states it.
fn cycle_position_exec(c: &SynthConfig, freq: i64, t: u32) -> (r: i64)
    requires
        c.wf(),
    ensures
        r == cycle_position(*c, freq + c.tuning_offset_hz, t as int),
        0 <= r < ONE,
{
    let f: i128 = freq as i128 + c.tuning_offset_hz as i128;
    proof {
        assert(-0x1_0000_0000_0000_0000 * 0x1_0000_0000 <= f * t <= 0x1_0000_0000_0000_0000
            * 0x1_0000_0000) by (nonlinear_arith)
            requires
                -0x1_0000_0000_0000_0000 <= f <= 0x1_0000_0000_0000_0000,
                0 <= t <= 0xffff_ffff,
        ;
    }
    wrap_turn(div_floor(f * (t as i128), c.sample_rate as i128))
}

/// A sine sample; the bias is not used.
pub fn sine(config: &SynthConfig, t: u32, freq: i64, bias: Option<i64>) -> (r: i64)
    requires
        config.wf(),
    ensures
        r == evaluate_spec(Waveform::Sine, *config, t as int, freq as int, bias),
{
    evaluate(config, Waveform::Sine, t, freq, bias)
}

/// A sawtooth sample: rises from `-2 × bias` to `2 × (1 − bias)` over each cycle.
pub fn sawtooth(config: &SynthConfig, t: u32, freq: i64, bias: Option<i64>) -> (r: i64)
    requires
        config.wf(),
    ensures
        r == scaled_output(
            *config,
            sawtooth_level(
                cycle_position(*config, freq + config.tuning_offset_hz, t as int),
                bias_or_default(bias),
            ),
        ),
{
    let pos = cycle_position_exec(config, freq, t);
    let b: i64 = match bias {
        Some(x) => x,
        None => DEFAULT_BIAS,
    };
    let level = 2 * ((pos as i128) - (b as i128));
    fx_mul(to_i64_saturating(level), config.amplitude_scaling)
}

/// A pulse sample: high for the first `width` of each cycle, low after.
pub fn pulsewidth(config: &SynthConfig, t: u32, freq: i64, width: i64, bias: Option<i64>) -> (r:
    i64)
    requires
        config.wf(),
    ensures
        r == scaled_output(
            *config,
            pulse_level(
                cycle_position(*config, freq + config.tuning_offset_hz, t as int),
                width as int,
                bias_or_default(bias),
            ),
        ),
{
    let pos = cycle_position_exec(config, freq, t);
    let b: i64 = match bias {
        Some(x) => x,
        None => DEFAULT_BIAS,
    };
    let level: i128 = if pos < width {
        (ONE as i128) - (b as i128)
    } else {
        (b as i128) - (ONE as i128)
    };
    fx_mul(to_i64_saturating(level), config.amplitude_scaling)
}

/// A triangle-shaped sample: `2 × (|phase| mod 2) − 1` over the unwrapped
/// phase, not scaled by the configured amplitude; the bias is not used.
pub fn triangle(config: &SynthConfig, t: u32, freq: i64, bias: Option<i64>) -> (r: i64)
    requires
        config.wf(),
    ensures
        r == triangle_level(cycle_phase(*config, freq + config.tuning_offset_hz, t as int)),
{
    let f: i128 = freq as i128 + config.tuning_offset_hz as i128;
    proof {
        assert(-0x1_0000_0000_0000_0000 * 0x1_0000_0000 <= f * t <= 0x1_0000_0000_0000_0000
            * 0x1_0000_0000) by (nonlinear_arith)
            requires
                -0x1_0000_0000_0000_0000 <= f <= 0x1_0000_0000_0000_0000,
                0 <= t <= 0xffff_ffff,
        ;
    }
    let phase = div_floor(f * (t as i128), config.sample_rate as i128);
    proof {
        let p = f * t;
        let sr = config.sample_rate as int;
        if p >= 0 {
            assert(p / sr <= p) by (nonlinear_arith)
                requires
                    p >= 0,
                    sr >= 1,
            ;
            vstd::arithmetic::div_mod::lemma_div_pos_is_pos(p, sr);
        } else {
            assert(p / sr >= p) by (nonlinear_arith)
                requires
                    p < 0,
                    sr >= 1,
            ;
            assert(p / sr <= 0) by (nonlinear_arith)
                requires
                    p < 0,
                    sr >= 1,
            ;
        }
    }
    let magnitude = if phase < 0 {
        -phase
    } else {
        phase
    };
    let folded = magnitude % (2 * ONE as i128);
    (2 * folded - ONE as i128) as i64
}

/// A square sample; the bias is not used.
pub fn square(config: &SynthConfig, t: u32, freq: i64, bias: Option<i64>) -> (r: i64)
    requires
        config.wf(),
    ensures
        r == scaled_output(
            *config,
            square_level(cycle_position(*config, freq + config.tuning_offset_hz, t as int)),
        ),
{
    let pos = cycle_position_exec(config, freq, t);
    let level: i64 = if pos < ONE / 2 {
        ONE
    } else {
        -ONE
    };
    fx_mul(level, config.amplitude_scaling)
}

/// The frequency-modulated phase: the carrier's position plus the modulation
/// index times the sine of the modulator's position, in turns modulo one.
pub open spec fn fm_phase(c: SynthConfig, t: int, carrier: int, modulator: int, index: int) -> int {
    (cycle_position(c, carrier + c.tuning_offset_hz, t) + fx_product(
        index,
        sin_turns_spec(cycle_position(c, modulator + c.tuning_offset_hz, t)),
    )) % (ONE as int)
}

/// A frequency-modulated sine sample.
pub fn fm_synth(config: &SynthConfig, t: u32, carrier_freq: i64, mod_freq: i64, mod_index: i64) -> (r:
    i64)
    requires
        config.wf(),
    ensures
        r == scaled_output(
            *config,
            sin_turns_spec(fm_phase(*config, t as int, carrier_freq as int, mod_freq as int, mod_index as int)),
        ),
{
    let carrier = cycle_position_exec(config, carrier_freq, t);
    let modulator = sin_turns(cycle_position_exec(config, mod_freq, t));
    proof {
        assert(-0x8000_0000_0000_0000 * ONE <= (mod_index as int) * (modulator as int)
            <= 0x8000_0000_0000_0000 * ONE) by (nonlinear_arith)
            requires
                -0x8000_0000_0000_0000 <= mod_index <= 0x7fff_ffff_ffff_ffff,
                -ONE <= modulator <= ONE,
        ;
    }
    let deviation = crate::fixed::div_toward_zero(
        (mod_index as i128) * (modulator as i128),
        ONE as i128,
    );
    proof {
        let p = (mod_index as int) * (modulator as int);
        if p >= 0 {
            assert(p / (ONE as int) <= p) by (nonlinear_arith)
                requires
                    p >= 0,
                    ONE > 0,
            ;
        } else {
            assert((-p) / (ONE as int) <= -p) by (nonlinear_arith)
                requires
                    p < 0,
                    ONE > 0,
            ;
        }
    }
    let phase = wrap_turn((carrier as i128) + deviation);
    fx_mul(sin_turns(phase), config.amplitude_scaling)
}

/// Relies on rand's `thread_rng().gen_range(low..high)`: a value drawn from
/// `[low, high)`. The range must not be empty, or the call panics.
#[verifier::external_body]
pub(crate) fn draw_in_range(low: i64, high: i64) -> (r: i64)
    requires
        low < high,
    ensures
        low <= r < high,
{
    rand::thread_rng().gen_range(low..high)
}

/// The sum of the first `k` levels of `d`.
pub open spec fn level_sum(d: Seq<int>, k: int) -> int
    decreases k,
{
    if k <= 0 {
        0
    } else {
        level_sum(d, k - 1) + d[k - 1]
    }
}

/// The mean of the draws `d` (rounded toward zero), scaled by the configured
/// amplitude.
pub open spec fn noise_output(c: SynthConfig, d: Seq<int>) -> int {
    scaled_output(c, crate::fixed::trunc_div(level_sum(d, d.len() as int), d.len() as int))
}

/// Every level of `d` is a draw from `[-1.0, 1.0)`.
pub open spec fn valid_draws(d: Seq<int>) -> bool {
    forall|i: int| 0 <= i < d.len() ==> -ONE <= #[trigger] d[i] < ONE
}

/// The mean of the draws in `draws`, scaled by the configured amplitude.
/// Every draw lies in `[-1.0, 1.0)`; there is at least one.
pub fn noise_from_draws(config: &SynthConfig, draws: &Vec<i64>) -> (r: i64)
    requires
        draws.len() > 0,
        valid_draws(draws@.map_values(|x: i64| x as int)),
    ensures
        r == noise_output(*config, draws@.map_values(|x: i64| x as int)),
{
    let ghost d = draws@.map_values(|x: i64| x as int);
    let mut sum: i128 = 0;
    let mut i: usize = 0;
    while i < draws.len()
        invariant
            i <= draws.len(),
            d == draws@.map_values(|x: i64| x as int),
            valid_draws(d),
            sum == level_sum(d, i as int),
            -(i as int) * ONE <= sum <= (i as int) * ONE,
        decreases draws.len() - i,
    {
        proof {
            assert(-ONE <= d[i as int] < ONE);
        }
        sum = sum + draws[i] as i128;
        i = i + 1;
    }
    let mean = crate::fixed::div_toward_zero(sum, draws.len() as i128);
    proof {
        let n = d.len() as int;
        if sum >= 0 {
            assert(sum as int / n <= sum) by (nonlinear_arith)
                requires
                    sum >= 0,
                    n >= 1,
            ;
        } else {
            assert((-sum) as int / n <= -sum) by (nonlinear_arith)
                requires
                    sum < 0,
                    n >= 1,
            ;
        }
    }
    fx_mul(to_i64_saturating(mean), config.amplitude_scaling)
}

/// Draws `count` levels from `[-1.0, 1.0)`.
fn draw_levels(count: usize) -> (r: Vec<i64>)
    ensures
        r@.len() == count,
        valid_draws(r@.map_values(|x: i64| x as int)),
{
    let mut out: Vec<i64> = Vec::new();
    let mut i: usize = 0;
    while i < count
        invariant
            i <= count,
            out@.len() == i,
            forall|k: int| 0 <= k < i ==> -ONE <= #[trigger] out@[k] < ONE,
        decreases count - i,
    {
        let x = draw_in_range(-ONE, ONE);
        out.push(x);
        i = i + 1;
    }
    out
}

/// A white-noise sample: one draw from `[-1.0, 1.0)`, scaled by the
/// configured amplitude.
pub fn white_noise(config: &SynthConfig) -> (r: i64)
    ensures
        exists|d: Seq<int>| d.len() == 1 && valid_draws(d) && r == noise_output(*config, d),
{
    let draws = draw_levels(1);
    noise_from_draws(config, &draws)
}

/// A softer noise sample: the mean of five draws from `[-1.0, 1.0)`, scaled
/// by the configured amplitude.
pub fn pink_noise(config: &SynthConfig) -> (r: i64)
    ensures
        exists|d: Seq<int>| d.len() == 5 && valid_draws(d) && r == noise_output(*config, d),
{
    let draws = draw_levels(5);
    noise_from_draws(config, &draws)
}

/// The level `of` draws at: 0.1.
pub const OF_LEVEL: i64 = 107374182;

/// The shape `of` draws for a shape code: 0 triangle, 1 sawtooth, 2 square,
/// anything else sine.
pub open spec fn shape_of_code(shape: i8) -> Waveform {
    if shape == 0 {
        Waveform::Triangle
    } else if shape == 1 {
        Waveform::Sawtooth
    } else if shape == 2 {
        Waveform::Square
    } else {
        Waveform::Sine
    }
}

/// The direct-form sample of `kind`, as the functions of this module give it.
pub open spec fn direct_spec(kind: Waveform, c: SynthConfig, t: int, freq: int, bias: Option<i64>) -> int {
    let pos = cycle_position(c, freq + c.tuning_offset_hz, t);
    match kind {
        Waveform::Sine => evaluate_spec(Waveform::Sine, c, t, freq, bias),
        Waveform::Sawtooth => scaled_output(c, sawtooth_level(pos, bias_or_default(bias))),
        Waveform::Triangle => triangle_level(cycle_phase(c, freq + c.tuning_offset_hz, t)),
        Waveform::Square => scaled_output(c, square_level(pos)),
    }
}

/// The direct-form sample of `kind`.
pub fn direct(config: &SynthConfig, kind: Waveform, t: u32, freq: i64, bias: Option<i64>) -> (r: i64)
    requires
        config.wf(),
    ensures
        r == direct_spec(kind, *config, t as int, freq as int, bias),
{
    match kind {
        Waveform::Sine => sine(config, t, freq, bias),
        Waveform::Sawtooth => sawtooth(config, t, freq, bias),
        Waveform::Triangle => triangle(config, t, freq, bias),
        Waveform::Square => square(config, t, freq, bias),
    }
}

/// The frequency `of` draws at: 400 Hz.
pub const OF_FREQUENCY: i64 = 429496729600;

/// The samples of the shape with code `shape` at 400 Hz and level 0.1, with a
/// bias of half a turn, at each sample index of `ts`.
pub fn of(config: &SynthConfig, ts: Vec<u32>, sr: u32, shape: i8) -> (r: Vec<i64>)
    requires
        config.wf(),
    ensures
        r@.len() == ts@.len(),
        forall|i: int|
            0 <= i < ts@.len() ==> #[trigger] r@[i] as int == saturate(
                fx_product(
                    OF_LEVEL as int,
                    direct_spec(shape_of_code(shape), *config, ts@[i] as int, OF_FREQUENCY as int, Some(DEFAULT_BIAS)),
                ),
            ),
{
    let kind = if shape == 0 {
        Waveform::Triangle
    } else if shape == 1 {
        Waveform::Sawtooth
    } else if shape == 2 {
        Waveform::Square
    } else {
        Waveform::Sine
    };
    let mut samples: Vec<i64> = Vec::new();
    let mut i: usize = 0;
    while i < ts.len()
        invariant
            config.wf(),
            kind == shape_of_code(shape),
            i <= ts.len(),
            samples@.len() == i,
            forall|k: int|
                0 <= k < i ==> #[trigger] samples@[k] as int == saturate(
                    fx_product(
                        OF_LEVEL as int,
                        direct_spec(kind, *config, ts@[k] as int, OF_FREQUENCY as int, Some(DEFAULT_BIAS)),
                    ),
                ),
        decreases ts.len() - i,
    {
        let v = direct(config, kind, ts[i], OF_FREQUENCY, Some(DEFAULT_BIAS));
        samples.push(fx_mul(OF_LEVEL, v));
        i = i + 1;
    }
    samples
}

} // verus!
