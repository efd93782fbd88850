//! Rendering a unit generator over a list of sample indices.

use vstd::prelude::*;
use crate::config::SynthConfig;
use crate::fixed::{saturate, fx_product, fx_mul};
use crate::freq_forms::{Waveform, evaluate, evaluate_spec, DEFAULT_BIAS};
use crate::waveforms::{direct, direct_spec};

verus! {

/// A unit generator: a waveform drawn either from its band-limited harmonic
/// series or directly from the position in the cycle.
#[derive(Debug, Clone, Copy, PartialEq, Eq, Structural)]
pub enum Ugen {
    BandLimited(Waveform),
    Direct(Waveform),
}

/// The sample a unit generator gives.
pub open spec fn ugen_spec(u: Ugen, c: SynthConfig, t: int, freq: int, bias: Option<i64>) -> int {
    match u {
        Ugen::BandLimited(kind) => evaluate_spec(kind, c, t, freq, bias),
        Ugen::Direct(kind) => direct_spec(kind, c, t, freq, bias),
    }
}

/// The sample of `ugen` at sample index `t`.
pub fn run_ugen(config: &SynthConfig, ugen: Ugen, t: u32, freq: i64, bias: Option<i64>) -> (r: i64)
    requires
        config.wf(),
    ensures
        r == ugen_spec(ugen, *config, t as int, freq as int, bias),
{
    match ugen {
        Ugen::BandLimited(kind) => evaluate(config, kind, t, freq, bias),
        Ugen::Direct(kind) => direct(config, kind, t, freq, bias),
    }
}

/// The samples of `ugen` at frequency `freq`, with a bias of half a turn, at
/// each sample index of `ts`, each scaled by `amp`.
pub fn render2(config: &SynthConfig, ts: Vec<u32>, sr: u32, ugen: Ugen, freq: i64, amp: i64) -> (r: Vec<
    i64,
>)
    requires
        config.wf(),
    ensures
        r@.len() == ts@.len(),
        forall|i: int|
            0 <= i < ts@.len() ==> #[trigger] r@[i] as int == saturate(
                fx_product(amp as int, ugen_spec(ugen, *config, ts@[i] as int, freq as int, Some(DEFAULT_BIAS))),
            ),
{
    let mut samples: Vec<i64> = Vec::new();
    let mut i: usize = 0;
    while i < ts.len()
        invariant
            config.wf(),
            i <= ts.len(),
            samples@.len() == i,
            forall|k: int|
                0 <= k < i ==> #[trigger] samples@[k] as int == saturate(
                    fx_product(amp as int, ugen_spec(ugen, *config, ts@[k] as int, freq as int, Some(DEFAULT_BIAS))),
                ),
        decreases ts.len() - i,
    {
        let v = run_ugen(config, ugen, ts[i], freq, Some(DEFAULT_BIAS));
        samples.push(fx_mul(amp, v));
        i = i + 1;
    }
    samples
}

} // verus!
