use raudio_synth::config::SynthConfig;
use raudio_synth::error::SynthError;
use raudio_synth::fixed::ONE;
use raudio_synth::freq_forms::{
    evaluate, normalize_waveform, render, sawtooth, sine, square, triangle, Waveform,
};

fn fx(x: f64) -> i64 {
    (x * ONE as f64).round() as i64
}

fn to_f64(x: i64) -> f64 {
    x as f64 / ONE as f64
}

fn test_config() -> SynthConfig {
    SynthConfig {
        sample_rate: 44100,
        min_frequency: fx(20.0),
        max_frequency: fx(20000.0),
        amplitude_scaling: fx(1.0),
        phase_offset: fx(0.0),
        tuning_offset_hz: fx(0.0),
        cps: fx(1.0),
    }
}

#[test]
fn test_square_wave_basic() {
    let config = test_config();
    let sample = square(&config, 0, fx(440.0), Some(fx(0.0)));
    assert!(sample >= -ONE && sample <= ONE, "Square wave sample is not within expected range.");
}

#[test]
fn test_square_wave_frequency_bounds() {
    let config = test_config();
    let low_freq_sample = square(&config, 0, config.min_frequency, Some(fx(0.0)));
    let high_freq_sample = square(&config, 0, config.max_frequency, Some(fx(0.0)));
    assert!(low_freq_sample >= -ONE && low_freq_sample <= ONE, "Low frequency square wave sample is out of bounds.");
    assert!(high_freq_sample >= -ONE && high_freq_sample <= ONE, "High frequency square wave sample is out of bounds.");
}

#[test]
fn sine_starts_at_zero_and_peaks_at_quarter_period() {
    let config = SynthConfig::new(44100, fx(20.0), fx(20000.0), ONE, 0, 0, ONE).unwrap();
    assert_eq!(sine(&config, 0, fx(441.0), None), 0);
    // 441 Hz at 44100 samples per second: a period is 100 samples.
    let peak = to_f64(sine(&config, 25, fx(441.0), None));
    assert!((peak - 1.0).abs() < 1e-3, "peak {}", peak);
    let trough = to_f64(sine(&config, 75, fx(441.0), None));
    assert!((trough + 1.0).abs() < 1e-3, "trough {}", trough);
    let half = to_f64(sine(&config, 50, fx(441.0), None));
    assert!(half.abs() < 1e-6, "half {}", half);
}

#[test]
fn sine_tracks_the_exact_sine() {
    let config = test_config();
    for t in 0..2000u32 {
        let got = to_f64(sine(&config, t, fx(440.0), None));
        let want = (2.0 * std::f64::consts::PI * 440.0 * t as f64 / 44100.0).sin();
        assert!((got - want).abs() < 1e-6, "t {} got {} want {}", t, got, want);
    }
}

#[test]
fn sine_applies_phase_offset_and_scaling() {
    let mut config = test_config();
    config.phase_offset = ONE / 4;
    config.amplitude_scaling = ONE / 2;
    let v = to_f64(sine(&config, 0, fx(100.0), None));
    assert!((v - 0.5).abs() < 1e-6, "{}", v);
}

#[test]
fn sawtooth_series_matches_fourier_sum() {
    let config = test_config();
    let f = 2205.0; // ten harmonics below the Nyquist limit
    for t in [0u32, 3, 7, 11] {
        let got = to_f64(sawtooth(&config, t, fx(f), None));
        let mut want = 0.0;
        for n in 1..=10 {
            let bias = (0.5 * n as f64).rem_euclid(1.0);
            let angle = 2.0 * std::f64::consts::PI * f * n as f64 * t as f64 / 44100.0 + bias;
            want += angle.sin() / n as f64;
        }
        assert!((got - want).abs() < 1e-6, "t {} got {} want {}", t, got, want);
    }
}

#[test]
fn triangle_series_uses_odd_orders_over_squares() {
    let config = test_config();
    let f = 2205.0;
    let t = 5u32;
    let got = to_f64(triangle(&config, t, fx(f), Some(0)));
    let mut want = 0.0;
    for n in (1..=10).step_by(2) {
        let turns = f * n as f64 * t as f64 / 44100.0;
        want += (2.0 * std::f64::consts::PI * turns).sin() / (n * n) as f64;
    }
    assert!((got - want).abs() < 1e-6, "got {} want {}", got, want);
}

#[test]
fn square_series_uses_odd_orders() {
    let config = test_config();
    let f = 2205.0;
    let t = 3u32;
    let got = to_f64(square(&config, t, fx(f), None));
    let mut want = 0.0;
    for n in (1..=10).step_by(2) {
        let turns = f * n as f64 * t as f64 / 44100.0;
        want += (2.0 * std::f64::consts::PI * turns).sin() / n as f64;
    }
    assert!((got - want).abs() < 1e-6, "got {} want {}", got, want);
}

#[test]
fn frequency_at_or_above_nyquist_gives_zero() {
    let config = test_config();
    assert_eq!(sawtooth(&config, 17, fx(22050.5), None), 0);
    assert_eq!(sawtooth(&config, 0, fx(22050.0), Some(fx(0.25))), 0);
    assert_eq!(triangle(&config, 17, fx(30000.0), None), 0);
    assert_eq!(square(&config, 17, -fx(440.0), None), 0);
    assert_eq!(evaluate(&config, Waveform::Sawtooth, 17, 0, None), 0);
}

#[test]
fn tuning_offset_shifts_the_frequency() {
    let mut config = test_config();
    config.tuning_offset_hz = fx(1.0);
    let tuned = sine(&config, 123, fx(440.0), None);
    let plain = sine(&test_config(), 123, fx(441.0), None);
    assert_eq!(tuned, plain);
}

#[test]
fn normalize_waveform_maps_range_onto_unit() {
    let mut samples = vec![0, 5 * ONE, 10 * ONE];
    normalize_waveform(&mut samples);
    assert_eq!(samples, vec![-ONE, 0, ONE]);
    let mut flat = vec![7, 7, 7];
    normalize_waveform(&mut flat);
    assert_eq!(flat, vec![0, 0, 0]);
    let mut empty: Vec<i64> = vec![];
    normalize_waveform(&mut empty);
    assert!(empty.is_empty());
}

#[test]
fn render_spans_the_unit_range() {
    let config = test_config();
    let ts: Vec<u32> = (0..441).collect();
    let out = render(&config, ts, 44100, Waveform::Sine);
    assert_eq!(out.len(), 441);
    assert_eq!(*out.iter().min().unwrap(), -ONE);
    assert_eq!(*out.iter().max().unwrap(), ONE);
}

#[test]
fn config_refuses_zero_rate_and_tempo() {
    assert_eq!(SynthConfig::new(0, 0, 0, ONE, 0, 0, ONE), Err(SynthError::InvalidParameter));
    assert_eq!(SynthConfig::new(44100, 0, 0, ONE, 0, 0, 0), Err(SynthError::InvalidParameter));
    assert_eq!(SynthConfig::new(44100, 0, 0, ONE, 0, 0, ONE), Ok(SynthConfig {
        sample_rate: 44100,
        min_frequency: 0,
        max_frequency: 0,
        amplitude_scaling: ONE,
        phase_offset: 0,
        tuning_offset_hz: 0,
        cps: ONE,
    }));
}

#[test]
fn harmonic_bias_is_added_in_radians() {
    let config = test_config();
    // 20 kHz at 44100 samples per second: one harmonic, at angle 0.5 rad.
    let v = to_f64(sawtooth(&config, 0, fx(20000.0), Some(fx(0.5))));
    assert!((v - 0.5f64.sin()).abs() < 1e-6, "{}", v);
    let w = to_f64(triangle(&config, 0, fx(20000.0), Some(fx(0.5))));
    assert!((w - 0.5f64.sin()).abs() < 1e-6, "{}", w);
}

#[test]
fn sawtooth_at_zero_sums_the_bias_sines() {
    let config = test_config();
    // 440 Hz: 50 harmonics; at sample 0 only the bias term (n·0.5 mod 1) remains.
    let got = to_f64(sawtooth(&config, 0, fx(440.0), Some(fx(0.5))));
    let mut want = 0.0;
    for n in 1..=50 {
        want += (0.5 * n as f64).rem_euclid(1.0).sin() / n as f64;
    }
    assert!((got - want).abs() < 1e-6, "got {} want {}", got, want);
    assert!(got > 1.0);
}

#[test]
fn sine_is_one_term_at_every_frequency() {
    let config = SynthConfig::new(4, 0, 0, ONE, 0, 0, ONE).unwrap();
    // 3 Hz at 4 samples per second is above the Nyquist limit; sample 1 is
    // three quarters of a turn.
    assert_eq!(sine(&config, 1, fx(3.0), None), -(ONE - 1));
    assert_eq!(sine(&config, 1, fx(2.0), None), 0);
}
