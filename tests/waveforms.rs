use raudio_synth::config::SynthConfig;
use raudio_synth::fixed::ONE;
use raudio_synth::render::{render2, Ugen};
use raudio_synth::freq_forms::Waveform;
use raudio_synth::waveforms::{
    fm_synth, noise_from_draws, of, pink_noise, pulsewidth, sawtooth, sine, square, triangle,
    white_noise,
};

fn fx(x: f64) -> i64 {
    (x * ONE as f64).round() as i64
}

fn to_f64(x: i64) -> f64 {
    x as f64 / ONE as f64
}

fn assert_approx_eq(a: f64, b: i64, epsilon: f64) {
    let b = to_f64(b);
    assert!(a.abs() - b.abs() < epsilon, "assertion failed: `(left ≈ right)`\n  left: `{:?}`,\n right: `{:?}`", a, b);
}

fn config_96k() -> SynthConfig {
    SynthConfig::new(96000, fx(20.0), fx(20000.0), fx(1.0), fx(0.0), fx(0.0), fx(1.0)).unwrap()
}

#[test]
fn test_sine() {
    let config = config_96k();
    let epsilon = 1e-4;
    assert_approx_eq(0.0, sine(&config, 0, fx(1.0), None), epsilon);
    assert_approx_eq(1.0, sine(&config, 24000, fx(1.0), None), epsilon);
    assert_approx_eq(0.0, sine(&config, 48000, fx(1.0), None), epsilon);
    assert_approx_eq(-1.0, sine(&config, 72000, fx(1.0), None), epsilon);
    assert_approx_eq(0.0, sine(&config, 96000, fx(1.0), None), epsilon);
}

#[test]
fn test_sawtooth() {
    let config = config_96k();
    let epsilon = 1e-4;
    assert_eq!(fx(-1.0), sawtooth(&config, 0, fx(1.0), None));
    assert_eq!(fx(0.0), sawtooth(&config, 48000, fx(1.0), None));
    assert_approx_eq(1.0, sawtooth(&config, 95999, fx(1.0), None), epsilon);
    assert_eq!(fx(-1.0), sawtooth(&config, 96000, fx(1.0), None));
    assert_eq!(fx(-1.0), sawtooth(&config, 0, fx(2.0), None));
    assert_eq!(fx(0.0), sawtooth(&config, 24000, fx(2.0), None));
}

#[test]
fn sawtooth_approaches_one_before_wrapping() {
    let config = config_96k();
    let v = to_f64(sawtooth(&config, 95999, fx(1.0), Some(fx(0.5))));
    assert!(v < 1.0 && v > 1.0 - 1e-4, "{}", v);
}

#[test]
fn pulse_is_high_then_low() {
    let config = config_96k();
    assert_eq!(pulsewidth(&config, 0, fx(1.0), fx(0.25), None), fx(0.5));
    assert_eq!(pulsewidth(&config, 30000, fx(1.0), fx(0.25), None), fx(-0.5));
    assert_eq!(pulsewidth(&config, 0, fx(1.0), fx(0.25), Some(0)), ONE);
}

#[test]
fn square_and_triangle_follow_the_cycle() {
    let config = config_96k();
    assert_eq!(square(&config, 0, fx(1.0), None), ONE);
    assert_eq!(square(&config, 48000, fx(1.0), None), -ONE);
    assert_eq!(triangle(&config, 0, fx(1.0), None), -ONE);
    assert_eq!(triangle(&config, 24000, fx(1.0), None), -ONE / 2);
    assert_eq!(triangle(&config, 48000, fx(1.0), None), 0);
    assert_eq!(triangle(&config, 96000, fx(1.0), None), ONE);
    assert_eq!(triangle(&config, 144000, fx(1.0), None), 2 * ONE);
    assert_eq!(triangle(&config, 192000, fx(1.0), None), -ONE);
    // The triangle is not scaled by the configured amplitude.
    let mut quiet = config;
    quiet.amplitude_scaling = ONE / 2;
    assert_eq!(triangle(&quiet, 96000, fx(1.0), None), ONE);
}

#[test]
fn fm_without_modulation_is_a_sine() {
    let config = config_96k();
    assert_eq!(fm_synth(&config, 24000, fx(1.0), fx(3.0), 0), sine(&config, 24000, fx(1.0), None));
    let with = to_f64(fm_synth(&config, 0, fx(1.0), fx(1.0), ONE / 4));
    assert!(with.abs() < 1e-6);
}

#[test]
fn noise_is_the_scaled_mean_of_its_draws() {
    let mut config = config_96k();
    config.amplitude_scaling = ONE / 2;
    assert_eq!(noise_from_draws(&config, &vec![ONE / 2, -ONE / 4]), ONE / 16);
    for _ in 0..100 {
        let w = white_noise(&config);
        assert!(-ONE / 2 <= w && w < ONE / 2);
        let p = pink_noise(&config);
        assert!(-ONE / 2 <= p && p < ONE / 2);
    }
}

#[test]
fn of_draws_shapes_at_a_tenth() {
    let config = config_96k();
    let ts: Vec<u32> = vec![0, 60];
    let saw = of(&config, ts.clone(), 96000, 1);
    assert_eq!(saw[0], -(ONE / 10));
    let sq = of(&config, ts, 96000, 2);
    assert_eq!(sq[0], ONE / 10);
}

#[test]
fn render2_scales_each_sample() {
    let config = config_96k();
    let ts: Vec<u32> = vec![0, 24000, 48000];
    let out = render2(&config, ts, 96000, Ugen::Direct(Waveform::Square), fx(1.0), ONE / 2);
    assert_eq!(out, vec![ONE / 2, ONE / 2, -ONE / 2]);
}
