use raudio_synth::config::SynthConfig;
use raudio_synth::error::SynthError;
use raudio_synth::fixed::ONE;
use raudio_synth::gen::{sawtooth_wave_generator, sine_wave_generator, Modulation, WaveformGenerator};

fn fx(x: f64) -> i64 {
    (x * ONE as f64).round() as i64
}

fn to_f64(x: i64) -> f64 {
    x as f64 / ONE as f64
}

#[test]
fn test_waveform_generator() {
    let sample_rate = 44100;
    let frequency = fx(440.0);
    let num_harmonics = 64;
    let mut generator = WaveformGenerator::new(sample_rate, frequency, num_harmonics).unwrap();

    for i in 0..num_harmonics {
        let amplitude = fx(1.0 / (i as f64 + 1.0));
        let phase_offset = 0;
        let envelope = Modulation::Constant(amplitude);
        generator.set_harmonic(i, amplitude, phase_offset, envelope).unwrap();
    }

    for _ in 0..sample_rate as i32 {
        let sample = generator.next_sample();
        assert!(sample >= -ONE && sample <= ONE, "Sample out of range");
    }
}

fn single_sine(sample_rate: u32, frequency: f64) -> WaveformGenerator {
    let mut g = WaveformGenerator::new(sample_rate, fx(frequency), 1).unwrap();
    g.set_harmonic(0, ONE, 0, Modulation::Constant(ONE)).unwrap();
    g
}

#[test]
fn single_harmonic_follows_a_pure_sine() {
    let mut g = single_sine(44100, 440.0);
    for k in 1..=44100u32 {
        let got = to_f64(g.next_sample());
        let want = (2.0 * std::f64::consts::PI * 440.0 * k as f64 / 44100.0).sin();
        assert!((got - want).abs() < 1e-3, "sample {} got {} want {}", k, got, want);
    }
}

#[test]
fn one_second_at_440_hz_crosses_zero_twice_per_period() {
    let mut g = single_sine(44100, 440.0);
    let samples = g.render_bank(44100);
    assert!(samples.iter().all(|&s| to_f64(s).abs() <= 1.05));
    let mut crossings = 0;
    let mut prev = 0i64;
    for &s in &samples {
        if (prev < 0 && s >= 0) || (prev > 0 && s <= 0) {
            crossings += 1;
        }
        if s != 0 {
            prev = s;
        }
    }
    assert!((878..=882).contains(&crossings), "crossings {}", crossings);
}

#[test]
fn retuning_twice_matches_retuning_once() {
    let mut once = single_sine(44100, 220.0);
    let mut twice = single_sine(44100, 220.0);
    once.update_frequency(fx(330.0));
    twice.update_frequency(fx(330.0));
    twice.update_frequency(fx(330.0));
    assert_eq!(once.render_bank(500), twice.render_bank(500));
}

#[test]
fn retuning_changes_the_pitch() {
    let mut a = single_sine(44100, 220.0);
    a.update_frequency(fx(441.0));
    let out = a.render_bank(25);
    // 441 Hz: a quarter period is 25 samples.
    assert!((to_f64(out[24]) - 1.0).abs() < 1e-3);
}

#[test]
fn setting_a_missing_slot_is_refused() {
    let mut g = WaveformGenerator::new(44100, fx(440.0), 2).unwrap();
    assert_eq!(g.set_harmonic(2, ONE, 0, Modulation::Constant(ONE)), Err(SynthError::IndexOutOfRange));
}

#[test]
fn zero_sample_rate_is_refused() {
    assert!(matches!(WaveformGenerator::new(0, fx(440.0), 2), Err(SynthError::InvalidParameter)));
}

#[test]
fn silent_bank_outputs_zero() {
    let mut g = WaveformGenerator::new(44100, fx(440.0), 3).unwrap();
    assert_eq!(g.render_bank(10), vec![0; 10]);
}

#[test]
fn phase_offset_leaves_the_running_phasor() {
    let mut plain = single_sine(44100, 441.0);
    let mut offset = WaveformGenerator::new(44100, fx(441.0), 1).unwrap();
    offset.set_harmonic(0, ONE, ONE / 4, Modulation::Constant(ONE)).unwrap();
    assert_eq!(plain.render_bank(50), offset.render_bank(50));
}

#[test]
fn resetting_a_slot_keeps_its_phase() {
    let mut g = single_sine(44100, 441.0);
    let before = g.render_bank(10);
    g.set_harmonic(0, ONE, 0, Modulation::Constant(ONE)).unwrap();
    let after = g.next_sample();
    let mut h = single_sine(44100, 441.0);
    let run = h.render_bank(11);
    assert_eq!(before, run[..10].to_vec());
    assert_eq!(after, run[10]);
}

#[test]
fn envelope_level_scales_each_step() {
    let mut g = WaveformGenerator::new(44100, fx(441.0), 1).unwrap();
    g.set_harmonic(0, ONE, 0, Modulation::Samples(vec![ONE / 2])).unwrap();
    let first = to_f64(g.next_sample());
    let second = to_f64(g.next_sample());
    let step = 2.0 * std::f64::consts::PI / 100.0;
    assert!((first - 0.5 * step.sin()).abs() < 1e-6);
    assert!((second - 0.25 * (2.0 * step).sin()).abs() < 1e-6);
}

#[test]
fn linear_envelope_is_limited_to_unit_level() {
    let mut g = WaveformGenerator::new(4, fx(1.0), 1).unwrap();
    g.set_harmonic(0, ONE, 0, Modulation::Linear(fx(8.0))).unwrap();
    // At time 0 the level is 0, so the phasor collapses.
    assert_eq!(g.next_sample(), 0);
    assert_eq!(g.next_sample(), 0);
}

#[test]
fn series_banks_sum_their_harmonics() {
    let config = SynthConfig::new(44100, fx(20.0), fx(20000.0), ONE, 0, 0, ONE).unwrap();
    let mut sine = sine_wave_generator(&config, fx(441.0)).unwrap();
    let s = sine.render_bank(25);
    assert!((to_f64(s[24]) - 1.0).abs() < 1e-3);
    let mut saw = sawtooth_wave_generator(&config, fx(4410.0)).unwrap();
    let out = saw.render_bank(3);
    let mut want = 0.0;
    for n in 1..=5 {
        want += (2.0 * std::f64::consts::PI * n as f64 * 0.1).sin() / n as f64;
    }
    assert!((to_f64(out[0]) - want).abs() < 1e-5, "got {} want {}", to_f64(out[0]), want);
}

