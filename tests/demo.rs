use raudio_synth::config::SynthConfig;
use raudio_synth::demo::{test_audio_name, test_waveform_generator};
use raudio_synth::fixed::ONE;

fn fx(x: f64) -> i64 {
    (x * ONE as f64).round() as i64
}

#[test]
fn audio_names_live_in_the_render_directory() {
    assert_eq!(test_audio_name("optimized_sine"), "test-render/optimized_sine.wav");
}

#[test]
fn demonstration_renders_two_seconds_of_each_shape() {
    let config = SynthConfig::new(800, fx(20.0), fx(20000.0), ONE, 0, 0, ONE).unwrap();
    let renders = test_waveform_generator(&config);
    let names: Vec<&str> = renders.iter().map(|(n, _)| n.as_str()).collect();
    assert_eq!(
        names,
        vec![
            "test-render/optimized_sine.wav",
            "test-render/optimized_square.wav",
            "test-render/optimized_sawtooth.wav",
            "test-render/optimized_triangle.wav"
        ]
    );
    assert!(renders.iter().all(|(_, s)| s.len() == 1600));
    // 400 Hz at 800 samples per second is the Nyquist limit: nothing is summed.
    assert!(renders.iter().all(|(_, s)| s.iter().all(|&x| x == 0)));
}
