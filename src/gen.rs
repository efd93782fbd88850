//! The phasor oscillator bank: additive synthesis by complex rotation.
//!
//! Each harmonic slot keeps a phasor that is rotated once per sample by a
//! fixed multiplier (the per-sample phase increment of that harmonic) and
//! scaled by the slot's envelope level. The output sample is the sum of the
//! imaginary parts, each weighted by the slot's amplitude. Trigonometric
//! functions are evaluated only when the frequency changes.
//!
//! The rotations are recomputed from the frequency, never accumulated, so
//! they cannot drift from unit modulus; each running phasor is kept within
//! the unit square after every step.

use vstd::prelude::*;
use num_complex::Complex;
use crate::error::SynthError;
use crate::fixed::{ONE, trunc_div, saturate, div_toward_zero, wrap_turn, to_i64_saturating};
use crate::phasor::{clamp_unit, pair_of, advance_spec, advance, in_unit_square, clamp_unit_exec};
use crate::trig::{sin_turns_spec, cos_turns_spec, sin_turns, cos_turns};
use crate::config::SynthConfig;
use crate::freq_forms::{Waveform, term_count, includes, divisor, term_count_exec};

verus! {

/// The level that scales a harmonic slot over time.
pub enum Modulation {
    /// The same level at every sample.
    Constant(i64),
    /// `slope × t`, with `t` the elapsed time in seconds.
    Linear(i64),
    /// One level per sample, such as a curve made by an `Envelope`; after
    /// the last one its value is held, and an empty table leaves the slot
    /// unscaled (level 1.0).
    Samples(Vec<i64>),
}

impl Modulation {
    /// The level at sample `k` at a rate of `sr` samples per second, before
    /// it is limited to `[-1.0, 1.0]`.
    pub open spec fn level_spec(&self, k: int, sr: int) -> int {
        match self {
            Modulation::Constant(x) => *x as int,
            Modulation::Linear(slope) => trunc_div(*slope as int * k, sr),
            Modulation::Samples(v) => if v@.len() == 0 {
                ONE as int
            } else if k < v@.len() {
                v@[k] as int
            } else {
                v@[v@.len() - 1] as int
            },
        }
    }

    /// The level at sample `k`, limited to `[-1.0, 1.0]`.
    pub fn level(&self, k: u64, sr: u32) -> (r: i64)
        requires
            sr > 0,
        ensures
            r == clamp_unit(self.level_spec(k as int, sr as int)),
    {
        match self {
            Modulation::Constant(x) => clamp_unit_exec(*x as i128),
            Modulation::Linear(slope) => {
                proof {
                    assert(-0x8000_0000_0000_0000 * 0x1_0000_0000_0000_0000 < (*slope as int) * (k as int)
                        < 0x8000_0000_0000_0000 * 0x1_0000_0000_0000_0000) by (nonlinear_arith)
                        requires
                            -0x8000_0000_0000_0000 <= *slope <= 0x7fff_ffff_ffff_ffff,
                            0 <= k <= 0xffff_ffff_ffff_ffff,
                    ;
                }
                clamp_unit_exec(div_toward_zero((*slope as i128) * (k as i128), sr as i128))
            },
            Modulation::Samples(v) => {
                if v.len() == 0 {
                    ONE
                } else if (k as u128) < (v.len() as u128) {
                    clamp_unit_exec(v[k as usize] as i128)
                } else {
                    clamp_unit_exec(v[v.len() - 1] as i128)
                }
            },
        }
    }
}

/// The definition of one harmonic slot.
pub struct Harmonic {
    /// Weight of the slot in the output.
    pub amplitude: i64,
    /// Phase of the slot, in turns; it is recorded with the definition and
    /// does not move the slot's running phasor.
    pub phase_offset: i64,
    /// Level that scales the slot's phasor at every sample.
    pub envelope: Modulation,
}

impl Harmonic {
    /// A slot definition from its parts.
    pub fn new(amplitude: i64, phase_offset: i64, envelope: Modulation) -> (r: Harmonic)
        ensures
            r == (Harmonic { amplitude, phase_offset, envelope }),
    {
        Harmonic { amplitude, phase_offset, envelope }
    }

    /// The definition every slot holds before it is set: silent, unscaled.
    pub open spec fn silent() -> Harmonic {
        Harmonic { amplitude: 0, phase_offset: 0, envelope: Modulation::Constant(ONE) }
    }
}

/// The phase advanced in one sample, in turns modulo one turn, by harmonic
/// order `h` of frequency `f` (Hz, fixed point) at `sr` samples per second.
pub open spec fn phase_step(f: int, h: int, sr: int) -> int {
    trunc_div(f * h, sr) % (ONE as int)
}

/// The unit phasor at a phase of `p` turns: `(cos, sin)`.
pub open spec fn unit_phasor(p: int) -> (int, int) {
    (cos_turns_spec(p), sin_turns_spec(p))
}

/// Both parts of `c` lie in `[-1.0, 1.0]`.
pub open spec fn unit_pair(c: (int, int)) -> bool {
    -ONE <= c.0 <= ONE && -ONE <= c.1 <= ONE
}

/// The sum over the first `k` slots of the imaginary part of the phasor
/// times the slot's amplitude.
pub open spec fn weighted_sum(values: Seq<(int, int)>, harmonics: Seq<Harmonic>, k: int) -> int
    decreases k,
{
    if k <= 0 {
        0
    } else {
        weighted_sum(values, harmonics, k - 1) + trunc_div(
            values[k - 1].1 * harmonics[k - 1].amplitude,
            ONE as int,
        )
    }
}

/// The state of an oscillator bank, as mathematical values.
pub ghost struct GeneratorView {
    pub sample_rate: int,
    pub frequency: int,
    pub harmonics: Seq<Harmonic>,
    /// Per-sample rotation of each slot.
    pub multipliers: Seq<(int, int)>,
    /// Running phasor of each slot.
    pub values: Seq<(int, int)>,
    /// Number of samples produced so far.
    pub time: int,
}

impl GeneratorView {
    /// A usable bank: a positive sample rate, one rotation and one phasor
    /// per slot, every one within the unit square.
    pub open spec fn wf(self) -> bool {
        &&& self.sample_rate > 0
        &&& self.multipliers.len() == self.harmonics.len()
        &&& self.values.len() == self.harmonics.len()
        &&& forall|i: int| 0 <= i < self.harmonics.len() ==> unit_pair(#[trigger] self.multipliers[i])
        &&& forall|i: int| 0 <= i < self.harmonics.len() ==> unit_pair(#[trigger] self.values[i])
    }

    /// The bank as constructed, before its frequency is applied.
    pub open spec fn initial(sr: int, n: nat) -> GeneratorView {
        GeneratorView {
            sample_rate: sr,
            frequency: 0,
            harmonics: Seq::new(n, |i: int| Harmonic::silent()),
            multipliers: Seq::new(n, |i: int| (0, 0)),
            values: Seq::new(n, |i: int| (ONE as int, 0)),
            time: 0,
        }
    }

    /// The bank tuned to `f`: slot `i` rotates by the phase step of harmonic
    /// order `i + 1`.
    pub open spec fn with_frequency(self, f: int) -> GeneratorView {
        GeneratorView {
            frequency: f,
            multipliers: Seq::new(
                self.harmonics.len(),
                |i: int| unit_phasor(phase_step(f, i + 1, self.sample_rate)),
            ),
            ..self
        }
    }

    /// The bank with slot `i` redefined as `h`; its running phasor and
    /// everything else are unchanged.
    pub open spec fn with_harmonic(self, i: int, h: Harmonic) -> GeneratorView {
        GeneratorView { harmonics: self.harmonics.update(i, h), ..self }
    }

    /// The bank one sample later.
    pub open spec fn advanced(self) -> GeneratorView {
        GeneratorView {
            values: Seq::new(
                self.harmonics.len(),
                |i: int|
                    advance_spec(
                        self.values[i],
                        self.multipliers[i],
                        clamp_unit(self.harmonics[i].envelope.level_spec(self.time, self.sample_rate)),
                    ),
            ),
            time: self.time + 1,
            ..self
        }
    }

    /// The output sample of the bank in this state.
    pub open spec fn output(self) -> int {
        saturate(weighted_sum(self.values, self.harmonics, self.harmonics.len() as int))
    }
}

/// A bank of harmonic oscillators advanced one sample at a time.
pub struct WaveformGenerator {
    sample_rate: u32,
    frequency: i64,
    harmonics: Vec<Harmonic>,
    multipliers: Vec<Complex<i64>>,
    values: Vec<Complex<i64>>,
    time: u64,
}

impl View for WaveformGenerator {
    type V = GeneratorView;

    closed spec fn view(&self) -> GeneratorView {
        GeneratorView {
            sample_rate: self.sample_rate as int,
            frequency: self.frequency as int,
            harmonics: self.harmonics@,
            multipliers: self.multipliers@.map_values(|c: Complex<i64>| pair_of(c)),
            values: self.values@.map_values(|c: Complex<i64>| pair_of(c)),
            time: self.time as int,
        }
    }
}

/// The phase step of harmonic order `h`, as `phase_step` states it.
fn phase_step_exec(f: i64, h: u64, sr: u32) -> (r: i64)
    requires
        sr > 0,
    ensures
        r == phase_step(f as int, h as int, sr as int),
        0 <= r < ONE,
{
    proof {
        assert(-0x8000_0000_0000_0000 * 0x1_0000_0000_0000_0000 < (f as int) * (h as int)
            < 0x8000_0000_0000_0000 * 0x1_0000_0000_0000_0000) by (nonlinear_arith)
            requires
                -0x8000_0000_0000_0000 <= f <= 0x7fff_ffff_ffff_ffff,
                0 <= h <= 0xffff_ffff_ffff_ffff,
        ;
    }
    let q = div_toward_zero((f as i128) * (h as i128), sr as i128);
    wrap_turn(q)
}

/// The unit phasor at a phase of `p` turns.
fn unit_phasor_exec(p: i64) -> (r: Complex<i64>)
    ensures
        pair_of(r) == unit_phasor(p as int),
        in_unit_square(r),
{
    Complex { re: cos_turns(p), im: sin_turns(p) }
}

impl WaveformGenerator {
    /// A bank of `num_harmonics` silent slots at `sample_rate` samples per
    /// second, tuned to `frequency` (Hz, fixed point). A zero sample rate is
    /// refused.
    pub fn new(sample_rate: u32, frequency: i64, num_harmonics: usize) -> (r: Result<
        WaveformGenerator,
        SynthError,
    >)
        ensures
            sample_rate == 0 <==> r is Err,
            r is Err ==> r == Err::<WaveformGenerator, SynthError>(SynthError::InvalidParameter),
            r matches Ok(g) ==> g@ == GeneratorView::initial(
                sample_rate as int,
                num_harmonics as nat,
            ).with_frequency(frequency as int) && g@.wf(),
    {
        if sample_rate == 0 {
            return Err(SynthError::InvalidParameter);
        }
        let mut harmonics: Vec<Harmonic> = Vec::new();
        let mut multipliers: Vec<Complex<i64>> = Vec::new();
        let mut values: Vec<Complex<i64>> = Vec::new();
        let mut k: usize = 0;
        while k < num_harmonics
            invariant
                k <= num_harmonics,
                harmonics@ == Seq::new(k as nat, |i: int| Harmonic::silent()),
                multipliers@ == Seq::new(k as nat, |i: int| Complex { re: 0i64, im: 0i64 }),
                values@ == Seq::new(k as nat, |i: int| Complex { re: ONE, im: 0i64 }),
            decreases num_harmonics - k,
        {
            harmonics.push(Harmonic::new(0, 0, Modulation::Constant(ONE)));
            multipliers.push(Complex { re: 0, im: 0 });
            values.push(Complex { re: ONE, im: 0 });
            k = k + 1;
            proof {
                assert(harmonics@ =~= Seq::new(k as nat, |i: int| Harmonic::silent()));
                assert(multipliers@ =~= Seq::new(k as nat, |i: int| Complex { re: 0i64, im: 0i64 }));
                assert(values@ =~= Seq::new(k as nat, |i: int| Complex { re: ONE, im: 0i64 }));
            }
        }
        let mut generator = WaveformGenerator {
            sample_rate,
            frequency,
            harmonics,
            multipliers,
            values,
            time: 0,
        };
        proof {
            let init = GeneratorView::initial(sample_rate as int, num_harmonics as nat);
            assert(generator@.harmonics =~= init.harmonics);
            assert(generator@.multipliers =~= init.multipliers);
            assert(generator@.values =~= init.values);
        }
        generator.update_frequency(frequency);
        Ok(generator)
    }

    /// Recomputes the per-sample rotation of every slot for `frequency`.
    pub fn update_frequency(&mut self, frequency: i64)
        requires
            old(self)@.wf(),
        ensures
            final(self)@ == old(self)@.with_frequency(frequency as int),
            final(self)@.wf(),
    {
        self.frequency = frequency;
        let n = self.multipliers.len();
        let ghost target = old(self)@.with_frequency(frequency as int);
        proof {
            assert forall|j: int| 0 <= j < n implies in_unit_square(#[trigger] self.multipliers@[j]) by {
                assert(unit_pair(old(self)@.multipliers[j]));
            }
        }
        let mut i: usize = 0;
        while i < n
            invariant
                n == self.multipliers.len(),
                i <= n,
                self.sample_rate == old(self).sample_rate,
                self.sample_rate > 0,
                self.frequency == frequency,
                self.harmonics == old(self).harmonics,
                self.values == old(self).values,
                self.time == old(self).time,
                self.harmonics@.len() == n,
                target == old(self)@.with_frequency(frequency as int),
                forall|j: int| 0 <= j < i ==> pair_of(#[trigger] self.multipliers@[j]) == target.multipliers[j],
                forall|j: int| 0 <= j < n ==> in_unit_square(#[trigger] self.multipliers@[j]),
            decreases n - i,
        {
            let step = phase_step_exec(frequency, (i as u64) + 1, self.sample_rate);
            let m = unit_phasor_exec(step);
            self.multipliers.set(i, m);
            i = i + 1;
        }
        proof {
            assert(self@.multipliers =~= target.multipliers);
            assert(self@.values =~= target.values);
            assert forall|j: int| 0 <= j < n implies unit_pair(#[trigger] self@.multipliers[j]) by {
                assert(in_unit_square(self.multipliers@[j]));
            }
            assert forall|j: int| 0 <= j < n implies unit_pair(#[trigger] self@.values[j]) by {
                assert(unit_pair(old(self)@.values[j]));
            }
        }
    }

    /// Redefines slot `index`, leaving its running phasor as it is. An index
    /// the bank does not have is refused and nothing changes.
    pub fn set_harmonic(
        &mut self,
        index: usize,
        amplitude: i64,
        phase_offset: i64,
        envelope: Modulation,
    ) -> (r: Result<(), SynthError>)
        requires
            old(self)@.wf(),
        ensures
            index >= old(self)@.harmonics.len() <==> r is Err,
            r is Err ==> r == Err::<(), SynthError>(SynthError::IndexOutOfRange),
            r is Err ==> final(self)@ == old(self)@,
            r is Ok ==> final(self)@ == old(self)@.with_harmonic(
                index as int,
                Harmonic { amplitude, phase_offset, envelope },
            ),
            final(self)@.wf(),
    {
        if index >= self.harmonics.len() {
            return Err(SynthError::IndexOutOfRange);
        }
        let ghost h = Harmonic { amplitude, phase_offset, envelope };
        self.harmonics.set(index, Harmonic::new(amplitude, phase_offset, envelope));
        proof {
            let target = old(self)@.with_harmonic(index as int, h);
            assert(self@.harmonics =~= target.harmonics);
            assert forall|j: int| 0 <= j < self@.harmonics.len() implies unit_pair(
                #[trigger] self@.values[j],
            ) by {
                assert(unit_pair(old(self)@.values[j]));
            }
            assert forall|j: int| 0 <= j < self@.harmonics.len() implies unit_pair(
                #[trigger] self@.multipliers[j],
            ) by {
                assert(unit_pair(old(self)@.multipliers[j]));
            }
        }
        Ok(())
    }

    /// Advances every slot by one sample and returns the new output sample.
    pub fn next_sample(&mut self) -> (r: i64)
        requires
            old(self)@.wf(),
            old(self)@.time < u64::MAX,
        ensures
            final(self)@ == old(self)@.advanced(),
            final(self)@.wf(),
            r == final(self)@.output(),
    {
        let n = self.values.len();
        let ghost target = old(self)@.advanced();
        proof {
            assert forall|j: int| 0 <= j < n implies in_unit_square(#[trigger] self.values@[j]) by {
                assert(unit_pair(old(self)@.values[j]));
            }
        }
        let mut i: usize = 0;
        while i < n
            invariant
                n == self.values.len(),
                i <= n,
                self.sample_rate == old(self).sample_rate,
                self.sample_rate > 0,
                self.frequency == old(self).frequency,
                self.harmonics == old(self).harmonics,
                self.multipliers == old(self).multipliers,
                self.time == old(self).time,
                old(self)@.wf(),
                self.harmonics@.len() == n,
                target == old(self)@.advanced(),
                forall|j: int| 0 <= j < i ==> pair_of(#[trigger] self.values@[j]) == target.values[j],
                forall|j: int| i <= j < n ==> self.values@[j] == old(self).values@[j],
                forall|j: int| 0 <= j < n ==> in_unit_square(#[trigger] self.values@[j]),
            decreases n - i,
        {
            let e = self.harmonics[i].envelope.level(self.time, self.sample_rate);
            proof {
                assert(unit_pair(old(self)@.multipliers[i as int]));
            }
            let v = advance(self.values[i], self.multipliers[i], e);
            self.values.set(i, v);
            i = i + 1;
        }
        self.time = self.time + 1;
        proof {
            assert(self@.values =~= target.values);
            assert(self@.multipliers =~= target.multipliers);
            assert forall|j: int| 0 <= j < n implies unit_pair(#[trigger] self@.values[j]) by {
                assert(in_unit_square(self.values@[j]));
            }
            assert forall|j: int| 0 <= j < n implies unit_pair(#[trigger] self@.multipliers[j]) by {
                assert(unit_pair(old(self)@.multipliers[j]));
            }
        }
        weighted_output(&self.values, &self.harmonics)
    }
}

/// The saturated weighted sum of the imaginary parts of `values`.
fn weighted_output(values: &Vec<Complex<i64>>, harmonics: &Vec<Harmonic>) -> (r: i64)
    requires
        values.len() == harmonics.len(),
        forall|j: int| 0 <= j < values.len() ==> in_unit_square(#[trigger] values@[j]),
    ensures
        r == saturate(
            weighted_sum(
                values@.map_values(|c: Complex<i64>| pair_of(c)),
                harmonics@,
                harmonics@.len() as int,
            ),
        ),
{
    let ghost vs = values@.map_values(|c: Complex<i64>| pair_of(c));
    let mut acc: i128 = 0;
    let mut i: usize = 0;
    while i < values.len()
        invariant
            i <= values.len(),
            values.len() == harmonics.len(),
            vs == values@.map_values(|c: Complex<i64>| pair_of(c)),
            forall|j: int| 0 <= j < values.len() ==> in_unit_square(#[trigger] values@[j]),
            acc == weighted_sum(vs, harmonics@, i as int),
            -(i as int) * 0x8000_0000_0000_0000 <= acc <= (i as int) * 0x8000_0000_0000_0000,
        decreases values.len() - i,
    {
        let im = values[i].im;
        let amp = harmonics[i].amplitude;
        proof {
            assert(-ONE * 0x8000_0000_0000_0000 <= im as int * amp as int <= ONE
                * 0x8000_0000_0000_0000) by (nonlinear_arith)
                requires
                    -ONE <= im <= ONE,
                    -0x8000_0000_0000_0000 <= amp <= 0x7fff_ffff_ffff_ffff,
            ;
            assert(i as int * 0x8000_0000_0000_0000 + 0x8000_0000_0000_0000 < 0x8000_0000_0000_0000_0000_0000_0000_0000) by (nonlinear_arith)
                requires
                    0 <= i < 0xffff_ffff_ffff_ffff,
            ;
        }
        let t = div_toward_zero((im as i128) * (amp as i128), ONE as i128);
        proof {
            let p = im as int * amp as int;
            if p >= 0 {
                assert(p / (ONE as int) <= 0x8000_0000_0000_0000) by (nonlinear_arith)
                    requires
                        0 <= p <= ONE * 0x8000_0000_0000_0000,
                        ONE > 0,
                ;
            } else {
                assert((-p) / (ONE as int) <= 0x8000_0000_0000_0000) by (nonlinear_arith)
                    requires
                        0 <= -p <= ONE * 0x8000_0000_0000_0000,
                        ONE > 0,
                ;
            }
        }
        acc = acc + t;
        i = i + 1;
        proof {
            assert(vs[i - 1] == pair_of(values@[i - 1]));
        }
    }
    to_i64_saturating(acc)
}

} // verus!

verus! {

/// Retuning a bank to the frequency it was just tuned to changes nothing:
/// the rotations depend on the frequency, the sample rate and the number of
/// slots alone.
pub proof fn lemma_update_frequency_idempotent(g: GeneratorView, f: int)
    ensures
        g.with_frequency(f).with_frequency(f) == g.with_frequency(f),
{
    assert(g.with_frequency(f).with_frequency(f).multipliers =~= g.with_frequency(f).multipliers);
}

} // verus!

verus! {

impl GeneratorView {
    /// The bank `k` samples later.
    pub open spec fn advanced_by(self, k: nat) -> GeneratorView
        decreases k,
    {
        if k == 0 {
            self
        } else {
            self.advanced_by((k - 1) as nat).advanced()
        }
    }

    /// The `k` output samples the bank gives next.
    pub open spec fn outputs(self, k: nat) -> Seq<int>
        decreases k,
    {
        if k == 0 {
            Seq::empty()
        } else {
            self.outputs((k - 1) as nat).push(self.advanced_by(k).output())
        }
    }
}

impl WaveformGenerator {
    /// Number of samples produced so far.
    pub fn samples_produced(&self) -> (r: u64)
        ensures
            r == self@.time,
    {
        self.time
    }

    /// Number of harmonic slots.
    pub fn harmonic_count(&self) -> (r: usize)
        ensures
            r == self@.harmonics.len(),
    {
        self.harmonics.len()
    }

    /// The next `count` output samples.
    pub fn render_bank(&mut self, count: u64) -> (r: Vec<i64>)
        requires
            old(self)@.wf(),
            old(self)@.time + count < u64::MAX,
        ensures
            final(self)@ == old(self)@.advanced_by(count as nat),
            final(self)@.wf(),
            r@.map_values(|x: i64| x as int) == old(self)@.outputs(count as nat),
    {
        let ghost start = self@;
        let mut out: Vec<i64> = Vec::new();
        let mut i: u64 = 0;
        while i < count
            invariant
                i <= count,
                start.time + count < u64::MAX,
                self@ == start.advanced_by(i as nat),
                self@.wf(),
                self@.time == start.time + i,
                out@.map_values(|x: i64| x as int) == start.outputs(i as nat),
            decreases count - i,
        {
            let v = self.next_sample();
            proof {
                let prev = out@.map_values(|x: i64| x as int);
                assert(out@.push(v).map_values(|x: i64| x as int) =~= prev.push(v as int));
            }
            out.push(v);
            i = i + 1;
        }
        out
    }
}

/// Most slots a harmonic-series bank holds.
pub const MAX_BANK_SLOTS: u64 = 256;

/// The number of slots of the series bank of `kind` at frequency `f`: the
/// orders the band-limited series sums over, at most `MAX_BANK_SLOTS`.
pub open spec fn bank_slots(kind: Waveform, sr: int, f: int) -> nat {
    let n = term_count(kind, sr, f);
    if n > MAX_BANK_SLOTS {
        MAX_BANK_SLOTS as nat
    } else if n < 0 {
        0
    } else {
        n as nat
    }
}

/// The weight of harmonic order `n` in the series of `kind`: one over the
/// order's divisor, or 0 for an order the waveform leaves out.
pub open spec fn series_weight(kind: Waveform, n: int) -> int {
    if includes(kind, n) {
        (ONE as int) / divisor(kind, n)
    } else {
        0
    }
}

/// The slot definition of harmonic order `n` in the series of `kind`.
pub open spec fn series_harmonic(kind: Waveform, n: int) -> Harmonic {
    Harmonic {
        amplitude: series_weight(kind, n) as i64,
        phase_offset: 0,
        envelope: Modulation::Constant(ONE),
    }
}

/// The bank that sums the band-limited series of `kind` at `freq` (tuned by
/// the configuration), every slot unscaled and its phasor at 1.0.
pub open spec fn series_bank(kind: Waveform, c: SynthConfig, freq: int) -> GeneratorView {
    let f = saturate(freq + c.tuning_offset_hz);
    let n = bank_slots(kind, c.sample_rate as int, f);
    GeneratorView {
        sample_rate: c.sample_rate as int,
        frequency: f,
        harmonics: Seq::new(n, |i: int| series_harmonic(kind, i + 1)),
        multipliers: Seq::new(n, |i: int| unit_phasor(phase_step(f, i + 1, c.sample_rate as int))),
        values: Seq::new(n, |i: int| (ONE as int, 0int)),
        time: 0,
    }
}

/// A bank that sums the band-limited harmonic series of `kind` at `frequency`.
/// A zero sample rate is refused.
pub fn harmonic_bank(config: &SynthConfig, kind: Waveform, frequency: i64) -> (r: Result<
    WaveformGenerator,
    SynthError,
>)
    ensures
        config.sample_rate == 0 <==> r is Err,
        r is Err ==> r == Err::<WaveformGenerator, SynthError>(SynthError::InvalidParameter),
        r matches Ok(g) ==> g@ == series_bank(kind, *config, frequency as int) && g@.wf(),
{
    let f = to_i64_saturating(frequency as i128 + config.tuning_offset_hz as i128);
    if config.sample_rate == 0 {
        return Err(SynthError::InvalidParameter);
    }
    let count: u64 = term_count_exec(kind, config.sample_rate, f as i128);
    let n: usize = if count > MAX_BANK_SLOTS {
        MAX_BANK_SLOTS as usize
    } else {
        count as usize
    };
    let mut g = match WaveformGenerator::new(config.sample_rate, f, n) {
        Ok(g) => g,
        Err(e) => {
            return Err(e);
        },
    };
    let ghost target = series_bank(kind, *config, frequency as int);
    assert(n == target.harmonics.len());
    assert(g@.values =~= target.values);
    let mut i: usize = 0;
    while i < n
        invariant
            i <= n,
            n <= MAX_BANK_SLOTS,
            n == target.harmonics.len(),
            target == series_bank(kind, *config, frequency as int),
            g@.wf(),
            g@.sample_rate == target.sample_rate,
            g@.frequency == target.frequency,
            g@.time == 0,
            g@.harmonics.len() == n,
            g@.multipliers == target.multipliers,
            forall|j: int| 0 <= j < i ==> #[trigger] g@.harmonics[j] == target.harmonics[j],
            g@.values == target.values,
        decreases n - i,
    {
        let order = (i as u64) + 1;
        let included = match kind {
            Waveform::Sine => order == 1,
            Waveform::Sawtooth => true,
            _ => order % 2 == 1,
        };
        proof {
            assert(1 <= order * order <= 256 * 256) by (nonlinear_arith)
                requires
                    1 <= order <= 256,
            ;
        }
        let weight: i64 = if included {
            let d: i64 = match kind {
                Waveform::Triangle => (order * order) as i64,
                _ => order as i64,
            };
            ONE / d
        } else {
            0
        };
        proof {
            assert(weight as int == series_weight(kind, order as int));
        }
        let ghost before = g@;
        let _ = g.set_harmonic(i, weight, 0, Modulation::Constant(ONE));
        proof {
            assert(g@ == before.with_harmonic(i as int, series_harmonic(kind, i + 1)));
        }
        i = i + 1;
    }
    proof {
        assert(g@.harmonics =~= target.harmonics);
    }
    Ok(g)
}

/// A bank for a band-limited sine: one slot.
pub fn sine_wave_generator(config: &SynthConfig, frequency: i64) -> (r: Result<WaveformGenerator, SynthError>)
    ensures
        config.sample_rate == 0 <==> r is Err,
        r is Err ==> r == Err::<WaveformGenerator, SynthError>(SynthError::InvalidParameter),
        r matches Ok(g) ==> g@ == series_bank(Waveform::Sine, *config, frequency as int) && g@.wf(),
{
    harmonic_bank(config, Waveform::Sine, frequency)
}

/// A bank for a band-limited square: odd orders over their order.
pub fn square_wave_generator(config: &SynthConfig, frequency: i64) -> (r: Result<WaveformGenerator, SynthError>)
    ensures
        config.sample_rate == 0 <==> r is Err,
        r is Err ==> r == Err::<WaveformGenerator, SynthError>(SynthError::InvalidParameter),
        r matches Ok(g) ==> g@ == series_bank(Waveform::Square, *config, frequency as int) && g@.wf(),
{
    harmonic_bank(config, Waveform::Square, frequency)
}

/// A bank for a band-limited sawtooth: every order over its order.
pub fn sawtooth_wave_generator(config: &SynthConfig, frequency: i64) -> (r: Result<WaveformGenerator, SynthError>)
    ensures
        config.sample_rate == 0 <==> r is Err,
        r is Err ==> r == Err::<WaveformGenerator, SynthError>(SynthError::InvalidParameter),
        r matches Ok(g) ==> g@ == series_bank(Waveform::Sawtooth, *config, frequency as int) && g@.wf(),
{
    harmonic_bank(config, Waveform::Sawtooth, frequency)
}

/// A bank for a band-limited triangle: odd orders over their order squared.
pub fn triangle_wave_generator(config: &SynthConfig, frequency: i64) -> (r: Result<WaveformGenerator, SynthError>)
    ensures
        config.sample_rate == 0 <==> r is Err,
        r is Err ==> r == Err::<WaveformGenerator, SynthError>(SynthError::InvalidParameter),
        r matches Ok(g) ==> g@ == series_bank(Waveform::Triangle, *config, frequency as int) && g@.wf(),
{
    harmonic_bank(config, Waveform::Triangle, frequency)
}

} // verus!

verus! {

/// The sum of the magnitudes of the amplitudes of the first `k` slots.
pub open spec fn amplitude_total(harmonics: Seq<Harmonic>, k: int) -> int
    decreases k,
{
    if k <= 0 {
        0
    } else {
        amplitude_total(harmonics, k - 1) + crate::envelope::abs(harmonics[k - 1].amplitude as int)
    }
}

proof fn lemma_weighted_sum_bounded(values: Seq<(int, int)>, harmonics: Seq<Harmonic>, k: int)
    requires
        0 <= k <= values.len(),
        k <= harmonics.len(),
        forall|i: int| 0 <= i < values.len() ==> unit_pair(#[trigger] values[i]),
    ensures
        -amplitude_total(harmonics, k) <= weighted_sum(values, harmonics, k) <= amplitude_total(
            harmonics,
            k,
        ),
        amplitude_total(harmonics, k) >= 0,
    decreases k,
{
    if k > 0 {
        lemma_weighted_sum_bounded(values, harmonics, k - 1);
        let v = values[k - 1].1;
        let a = harmonics[k - 1].amplitude as int;
        assert(unit_pair(values[k - 1]));
        let p = v * a;
        let one = ONE as int;
        if a >= 0 {
            assert(-one * a <= p <= one * a) by (nonlinear_arith)
                requires
                    -one <= v <= one,
                    a >= 0,
                    p == v * a,
            ;
        } else {
            assert(one * a <= p <= -one * a) by (nonlinear_arith)
                requires
                    -one <= v <= one,
                    a < 0,
                    p == v * a,
            ;
        }
        let m = crate::envelope::abs(a);
        if p >= 0 {
            assert(p / one <= m) by (nonlinear_arith)
                requires
                    0 <= p <= one * m,
                    one > 0,
            ;
        } else {
            assert((-p) / one <= m) by (nonlinear_arith)
                requires
                    0 <= -p <= one * m,
                    one > 0,
            ;
        }
    }
}

/// A bank's output never exceeds, in magnitude, the sum of the magnitudes of
/// its slots' amplitudes: every phasor stays within the unit square.
pub proof fn lemma_output_bounded(g: GeneratorView)
    requires
        g.wf(),
    ensures
        -amplitude_total(g.harmonics, g.harmonics.len() as int) <= g.output() <= amplitude_total(
            g.harmonics,
            g.harmonics.len() as int,
        ),
{
    lemma_weighted_sum_bounded(g.values, g.harmonics, g.harmonics.len() as int);
}

} // verus!
