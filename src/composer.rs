//! Random sequences of one-second notes.

use vstd::prelude::*;
use crate::config::SynthConfig;
use crate::fixed::{ONE, saturate, fx_product, fx_mul};
use crate::freq_forms::{Waveform, DEFAULT_BIAS};
use crate::phasor::{clamp_unit, clamp_unit_exec};
use crate::waveforms::{direct, direct_spec, draw_in_range};

verus! {

/// One note of a composition: a direct-form waveform at a frequency.
#[derive(Debug, Clone, Copy, PartialEq, Eq, Structural)]
pub struct Note {
    /// Hz, fixed point.
    pub frequency: i64,
    pub kind: Waveform,
}

/// Lowest frequency a composed note is drawn from: 220 Hz.
pub const NOTE_LOW: i64 = 236223201280;

/// Bound above the frequencies composed notes are drawn from: 880 Hz.
pub const NOTE_HIGH: i64 = 944892805120;

/// Lowest frequency of interest of a composition: 20 Hz.
pub const AUDIBLE_LOW: i64 = 21474836480;

/// Highest frequency of interest of a composition: 20 kHz.
pub const AUDIBLE_HIGH: i64 = 21474836480000;

/// A note `compose_sequence` may draw: a sawtooth, triangle or square in
/// `[220 Hz, 880 Hz)`.
pub open spec fn drawable(n: Note) -> bool {
    &&& NOTE_LOW <= n.frequency < NOTE_HIGH
    &&& n.kind != Waveform::Sine
}

/// The configuration compositions are drawn with: unit amplitude, no offsets.
pub open spec fn composition_config(sample_rate: u32) -> SynthConfig {
    SynthConfig {
        sample_rate,
        min_frequency: AUDIBLE_LOW,
        max_frequency: AUDIBLE_HIGH,
        amplitude_scaling: ONE,
        phase_offset: 0,
        tuning_offset_hz: 0,
        cps: ONE,
    }
}

/// The one second of samples of `note`: the waveform with a bias of half a
/// turn, at half level, limited to `[-1.0, 1.0]`.
pub open spec fn note_samples(c: SynthConfig, note: Note) -> Seq<int> {
    Seq::new(
        c.sample_rate as nat,
        |t: int|
            clamp_unit(
                saturate(
                    fx_product(direct_spec(note.kind, c, t, note.frequency as int, Some(DEFAULT_BIAS)), ONE / 2),
                ),
            ),
    )
}

/// The samples of `notes` one after the other.
pub open spec fn composed(c: SynthConfig, notes: Seq<Note>) -> Seq<int>
    decreases notes.len(),
{
    if notes.len() == 0 {
        Seq::empty()
    } else {
        composed(c, notes.drop_last()) + note_samples(c, notes.last())
    }
}

/// The samples of `notes`, one second each, one after the other.
pub fn compose_notes(config: &SynthConfig, notes: &Vec<Note>) -> (r: Vec<i64>)
    requires
        config.wf(),
    ensures
        r@.map_values(|x: i64| x as int) == composed(*config, notes@),
{
    let ghost c = *config;
    let mut out: Vec<i64> = Vec::new();
    let mut k: usize = 0;
    while k < notes.len()
        invariant
            c == *config,
            config.wf(),
            k <= notes.len(),
            out@.map_values(|x: i64| x as int) == composed(c, notes@.take(k as int)),
        decreases notes.len() - k,
    {
        let note = notes[k];
        let ghost before = out@.map_values(|x: i64| x as int);
        let mut t: u32 = 0;
        while t < config.sample_rate
            invariant
                c == *config,
                config.wf(),
                k < notes.len(),
                note == notes@[k as int],
                t <= config.sample_rate,
                out@.map_values(|x: i64| x as int) == before + note_samples(c, note).take(t as int),
            decreases config.sample_rate - t,
        {
            let v = direct(config, note.kind, t, note.frequency, Some(DEFAULT_BIAS));
            let half = fx_mul(v, ONE / 2);
            let s = clamp_unit_exec(half as i128);
            proof {
                let ns = note_samples(c, note);
                let prev = out@.map_values(|x: i64| x as int);
                assert(s as int == ns[t as int]);
                assert((out@.push(s)).map_values(|x: i64| x as int) =~= prev.push(s as int));
                assert(ns.take(t as int + 1) =~= ns.take(t as int).push(ns[t as int]));
                assert(before + ns.take(t as int + 1) =~= (before + ns.take(t as int)).push(ns[t as int]));
            }
            out.push(s);
            t = t + 1;
        }
        proof {
            assert(notes@.take(k as int + 1).drop_last() =~= notes@.take(k as int));
            assert(note_samples(c, note).take(c.sample_rate as int) =~= note_samples(c, note));
        }
        k = k + 1;
    }
    proof {
        assert(notes@.take(notes@.len() as int) =~= notes@);
    }
    out
}

/// `duration_secs` random one-second notes at `sample_rate` samples per
/// second: each a sawtooth, triangle or square in `[220 Hz, 880 Hz)`. A zero
/// sample rate gives no samples.
pub fn compose_sequence(duration_secs: u32, sample_rate: u32) -> (r: Vec<i64>)
    ensures
        sample_rate == 0 ==> r@.len() == 0,
        sample_rate > 0 ==> exists|notes: Seq<Note>|
            notes.len() == duration_secs && (forall|i: int|
                0 <= i < notes.len() ==> drawable(#[trigger] notes[i])) && r@.map_values(
                |x: i64| x as int,
            ) == composed(composition_config(sample_rate), notes),
{
    if sample_rate == 0 {
        return Vec::new();
    }
    let mut notes: Vec<Note> = Vec::new();
    let mut i: u32 = 0;
    while i < duration_secs
        invariant
            i <= duration_secs,
            notes@.len() == i,
            forall|j: int| 0 <= j < i ==> drawable(#[trigger] notes@[j]),
        decreases duration_secs - i,
    {
        let frequency = draw_in_range(NOTE_LOW, NOTE_HIGH);
        let choice = draw_in_range(0, 3);
        let kind = if choice == 0 {
            Waveform::Sawtooth
        } else if choice == 1 {
            Waveform::Triangle
        } else {
            Waveform::Square
        };
        notes.push(Note { frequency, kind });
        i = i + 1;
    }
    let config = SynthConfig {
        sample_rate,
        min_frequency: AUDIBLE_LOW,
        max_frequency: AUDIBLE_HIGH,
        amplitude_scaling: ONE,
        phase_offset: 0,
        tuning_offset_hz: 0,
        cps: ONE,
    };
    compose_notes(&config, &notes)
}

} // verus!
