//! The renders the demonstration program writes: their file names and their
//! samples. Writing the files is left to the caller.

use vstd::prelude::*;
use vstd::string::*;
use crate::config::SynthConfig;
use crate::fixed::ONE;
use crate::freq_forms::Waveform;
use crate::gen::{harmonic_bank, series_bank};
use crate::freq_forms::{evaluate, evaluate_spec};
use crate::waveforms::draw_in_range;

verus! {

/// The directory the demonstration renders are written to.
pub const TEST_AUDIO_DIR: &'static str = "test-render";

/// The path of the render labelled `label`: `test-render/<label>.wav`.
pub fn test_audio_name(label: &str) -> (r: String)
    ensures
        r@ == TEST_AUDIO_DIR@ + "/"@ + label@ + ".wav"@,
{
    let mut s = String::from_str(TEST_AUDIO_DIR);
    s.append("/");
    s.append(label);
    s.append(".wav");
    s
}

/// The frequency of the demonstration renders: 400 Hz.
pub const DEMO_FREQUENCY: i64 = 429496729600;

/// The label of the series render of `kind`.
pub open spec fn demo_label(kind: Waveform) -> Seq<char> {
    match kind {
        Waveform::Sine => "optimized_sine"@,
        Waveform::Square => "optimized_square"@,
        Waveform::Sawtooth => "optimized_sawtooth"@,
        Waveform::Triangle => "optimized_triangle"@,
    }
}

/// The shapes of the demonstration renders, in order.
pub open spec fn demo_kind(k: int) -> Waveform {
    if k == 0 {
        Waveform::Sine
    } else if k == 1 {
        Waveform::Square
    } else if k == 2 {
        Waveform::Sawtooth
    } else {
        Waveform::Triangle
    }
}

/// Two seconds of each harmonic-series bank (sine, square, sawtooth and
/// triangle at 400 Hz), each with the path it is written to.
pub fn test_waveform_generator(config: &SynthConfig) -> (r: Vec<(String, Vec<i64>)>)
    requires
        config.wf(),
    ensures
        r@.len() == 4,
        forall|k: int|
            0 <= k < 4 ==> (#[trigger] r@[k]).0@ == TEST_AUDIO_DIR@ + "/"@ + demo_label(demo_kind(k))
                + ".wav"@ && r@[k].1@.map_values(|x: i64| x as int) == series_bank(
                demo_kind(k),
                *config,
                DEMO_FREQUENCY as int,
            ).outputs(2 * config.sample_rate as nat),
{
    let num_samples = (config.sample_rate as u64) * 2;
    let mut out: Vec<(String, Vec<i64>)> = Vec::new();
    let mut k: usize = 0;
    while k < 4
        invariant
            config.wf(),
            num_samples == 2 * config.sample_rate,
            k <= 4,
            out@.len() == k,
            forall|j: int|
                0 <= j < k ==> (#[trigger] out@[j]).0@ == TEST_AUDIO_DIR@ + "/"@ + demo_label(demo_kind(j))
                    + ".wav"@ && out@[j].1@.map_values(|x: i64| x as int) == series_bank(
                    demo_kind(j),
                    *config,
                    DEMO_FREQUENCY as int,
                ).outputs(num_samples as nat),
        decreases 4 - k,
    {
        let kind = if k == 0 {
            Waveform::Sine
        } else if k == 1 {
            Waveform::Square
        } else if k == 2 {
            Waveform::Sawtooth
        } else {
            Waveform::Triangle
        };
        let label = if k == 0 {
            "optimized_sine"
        } else if k == 1 {
            "optimized_square"
        } else if k == 2 {
            "optimized_sawtooth"
        } else {
            "optimized_triangle"
        };
        let name = test_audio_name(label);
        let samples = match harmonic_bank(config, kind, DEMO_FREQUENCY) {
            Ok(mut g) => g.render_bank(num_samples),
            Err(_) => Vec::new(),
        };
        out.push((name, samples));
        k = k + 1;
    }
    out
}

/// The frequency of note `k` of the demonstration melody, Hz in fixed point:
/// 400, 600, 500, 700, 800, 600, 500, 400.
pub open spec fn melody_frequency(k: int) -> int {
    let hz: int = if k == 0 || k == 7 {
        400
    } else if k == 1 || k == 5 {
        600
    } else if k == 2 || k == 6 {
        500
    } else if k == 3 {
        700
    } else {
        800
    };
    hz * ONE
}

/// The number of samples of note `k`: `k + 1` cycles of the tempo,
/// `floor(sample_rate × (k + 1) / cps)`.
pub open spec fn melody_note_length(c: SynthConfig, k: int) -> int {
    (c.sample_rate * (k + 1) * ONE) / (c.cps as int)
}

/// The number of samples of note `k`, as `melody_note_length` states it.
pub fn melody_note_length_exec(config: &SynthConfig, k: u32) -> (r: i128)
    requires
        config.cps > 0,
        k < 8,
    ensures
        r == melody_note_length(*config, k as int),
{
    proof {
        assert(0 <= (config.sample_rate as int) * (k as int + 1) * ONE <= 0xffff_ffff * 8 * ONE)
            by (nonlinear_arith)
            requires
                0 <= k < 8,
                0 <= config.sample_rate <= 0xffff_ffff,
                ONE > 0,
        ;
    }
    ((config.sample_rate as i128) * (k as i128 + 1) * (ONE as i128)) / (config.cps as i128)
}

/// The samples of note `k` of the melody drawn as `kind`.
pub open spec fn melody_note(c: SynthConfig, kind: Waveform, k: int) -> Seq<int> {
    Seq::new(
        melody_note_length(c, k) as nat,
        |i: int| evaluate_spec(kind, c, i, melody_frequency(k), None),
    )
}

/// The first `k` notes of the melody, note `j` drawn as `shapes[j]`.
pub open spec fn melody(c: SynthConfig, shapes: Seq<Waveform>, k: int) -> Seq<int>
    decreases k,
{
    if k <= 0 {
        Seq::empty()
    } else {
        melody(c, shapes, k - 1) + melody_note(c, shapes[k - 1], k - 1)
    }
}

/// A shape the melody may draw a note as: sawtooth, triangle or sine.
pub open spec fn melody_shape(kind: Waveform) -> bool {
    kind != Waveform::Square
}

/// The eight notes of the melody, note `j` drawn as `shapes[j]` from its
/// band-limited series, one after the other. Every note's sample indices
/// must fit a `u32`.
pub fn melody_from_shapes(config: &SynthConfig, shapes: &Vec<Waveform>) -> (r: Vec<i64>)
    requires
        config.wf(),
        config.cps > 0,
        shapes.len() == 8,
        melody_note_length(*config, 7) <= 0x1_0000_0000,
    ensures
        r@.map_values(|x: i64| x as int) == melody(*config, shapes@, 8),
{
    let ghost c = *config;
    let freqs: Vec<i64> = vec![
        429496729600,
        644245094400,
        536870912000,
        751619276800,
        858993459200,
        644245094400,
        536870912000,
        429496729600,
    ];
    let mut out: Vec<i64> = Vec::new();
    let mut k: usize = 0;
    while k < 8
        invariant
            c == *config,
            config.wf(),
            config.cps > 0,
            shapes.len() == 8,
            melody_note_length(c, 7) <= 0x1_0000_0000,
            freqs@.len() == 8,
            forall|j: int| 0 <= j < 8 ==> #[trigger] freqs@[j] as int == melody_frequency(j),
            k <= 8,
            out@.map_values(|x: i64| x as int) == melody(c, shapes@, k as int),
        decreases 8 - k,
    {
        let kind = shapes[k];
        let frequency = freqs[k];
        proof {
            assert(0 <= (config.sample_rate as int) * (k as int + 1) * ONE <= (config.sample_rate as int) * 8
                * ONE) by (nonlinear_arith)
                requires
                    0 <= k < 8,
                    0 <= config.sample_rate,
                    ONE > 0,
            ;
            vstd::arithmetic::div_mod::lemma_div_is_ordered(
                (config.sample_rate as int) * (k as int + 1) * ONE,
                (config.sample_rate as int) * 8 * ONE,
                config.cps as int,
            );
            vstd::arithmetic::div_mod::lemma_div_pos_is_pos(
                (config.sample_rate as int) * (k as int + 1) * ONE,
                config.cps as int,
            );
        }
        let len = melody_note_length_exec(config, k as u32);
        let ghost before = out@.map_values(|x: i64| x as int);
        let ghost note = melody_note(c, kind, k as int);
        let mut i: i128 = 0;
        while i < len
            invariant
                c == *config,
                config.wf(),
                0 <= i <= len,
                len == melody_note_length(c, k as int),
                len <= 0x1_0000_0000,
                frequency == melody_frequency(k as int),
                note == melody_note(c, kind, k as int),
                out@.map_values(|x: i64| x as int) == before + note.take(i as int),
            decreases len - i,
        {
            let v = evaluate(config, kind, i as u32, frequency, None);
            proof {
                let prev = out@.map_values(|x: i64| x as int);
                assert(v as int == note[i as int]);
                assert((out@.push(v)).map_values(|x: i64| x as int) =~= prev.push(v as int));
                assert(note.take(i as int + 1) =~= note.take(i as int).push(note[i as int]));
                assert(before + note.take(i as int + 1) =~= (before + note.take(i as int)).push(note[i as int]));
            }
            out.push(v);
            i = i + 1;
        }
        proof {
            assert(note.take(len as int) =~= note);
        }
        k = k + 1;
    }
    out
}

/// The demonstration melody with each note's shape drawn at random from
/// sawtooth, triangle and sine.
pub fn sequenced_melody(config: &SynthConfig) -> (r: Vec<i64>)
    requires
        config.wf(),
        config.cps > 0,
        melody_note_length(*config, 7) <= 0x1_0000_0000,
    ensures
        exists|shapes: Seq<Waveform>|
            shapes.len() == 8 && (forall|j: int| 0 <= j < 8 ==> melody_shape(#[trigger] shapes[j]))
                && r@.map_values(|x: i64| x as int) == melody(*config, shapes, 8),
{
    let mut shapes: Vec<Waveform> = Vec::new();
    let mut k: usize = 0;
    while k < 8
        invariant
            k <= 8,
            shapes@.len() == k,
            forall|j: int| 0 <= j < k ==> melody_shape(#[trigger] shapes@[j]),
        decreases 8 - k,
    {
        let choice = draw_in_range(0, 3);
        let kind = if choice == 0 {
            Waveform::Sawtooth
        } else if choice == 1 {
            Waveform::Triangle
        } else {
            Waveform::Sine
        };
        shapes.push(kind);
        k = k + 1;
    }
    melody_from_shapes(config, &shapes)
}

} // verus!
