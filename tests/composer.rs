use raudio_synth::composer::{compose_notes, compose_sequence, Note};
use raudio_synth::config::SynthConfig;
use raudio_synth::demo::{melody_from_shapes, melody_note_length_exec, sequenced_melody};
use raudio_synth::fixed::ONE;
use raudio_synth::freq_forms::{sawtooth, sine, Waveform};
use raudio_synth::waveforms::square;

fn fx(x: f64) -> i64 {
    (x * ONE as f64).round() as i64
}

#[test]
fn composition_has_one_second_per_note_at_half_level() {
    let out = compose_sequence(3, 100);
    assert_eq!(out.len(), 300);
    assert!(out.iter().all(|&s| -ONE <= s && s <= ONE));
    assert!(compose_sequence(3, 0).is_empty());
}

#[test]
fn composed_notes_are_halved_direct_forms() {
    let config = SynthConfig::new(8, fx(20.0), fx(20000.0), ONE, 0, 0, ONE).unwrap();
    let notes = vec![Note { frequency: fx(1.0), kind: Waveform::Square }];
    let out = compose_notes(&config, &notes);
    assert_eq!(out.len(), 8);
    assert_eq!(out[0], ONE / 2);
    assert_eq!(out[4], -ONE / 2);
    assert_eq!(out[4], square(&config, 4, fx(1.0), None) / 2);
}

#[test]
fn melody_notes_lengthen_by_one_tempo_cycle() {
    let config = SynthConfig::new(10, fx(20.0), fx(20000.0), ONE, 0, 0, fx(2.0)).unwrap();
    assert_eq!(melody_note_length_exec(&config, 0), 5);
    assert_eq!(melody_note_length_exec(&config, 7), 40);
    let shapes = vec![Waveform::Sine; 8];
    let out = melody_from_shapes(&config, &shapes);
    assert_eq!(out.len(), 5 * (1 + 2 + 3 + 4 + 5 + 6 + 7 + 8));
    assert_eq!(out[1], sine(&config, 1, fx(400.0), None));
    assert_eq!(out[6], sine(&config, 1, fx(600.0), None));
    let mixed = vec![Waveform::Sawtooth; 8];
    assert_eq!(melody_from_shapes(&config, &mixed)[3], sawtooth(&config, 3, fx(400.0), None));
    assert_eq!(sequenced_melody(&config).len(), out.len());
}
