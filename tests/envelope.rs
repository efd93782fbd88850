use raudio_synth::envelope::Envelope;
use raudio_synth::error::SynthError;
use raudio_synth::fixed::ONE;

fn fx(x: f64) -> i64 {
    (x * ONE as f64).round() as i64
}

fn fx_vec(xs: &[f64]) -> Vec<i64> {
    xs.iter().map(|&x| fx(x)).collect()
}

#[test]
fn test_constant() {
    let envelope = Envelope::new(5, 44100, fx(1.2), false).unwrap();
    let result = envelope.constant(fx(0.5)).unwrap();
    assert_eq!(result, fx_vec(&[0.5, 0.5, 0.5, 0.5, 0.5]));
}

#[test]
fn test_linear() {
    let envelope = Envelope::new(5, 1, fx(1.2), false).unwrap();
    let result = envelope.linear(fx(1.0)).unwrap();
    let expected = fx_vec(&[0.0, 0.25, 0.5, 0.75, 1.0]);
    assert_eq!(result, expected);
}

#[test]
fn test_flip() {
    let envelope = Envelope::new(5, 1, fx(1.2), true).unwrap();
    let result = envelope.linear(fx(1.0)).unwrap();
    let expected = fx_vec(&[0.0, -0.25, -0.5, -0.75, -1.0]);
    assert_eq!(result, expected);
}

#[test]
fn test_constant_out_of_range() {
    let envelope = Envelope::new(5, 44100, fx(1.2), false).unwrap();
    assert_eq!(envelope.constant(fx(1.5)), Err(SynthError::InvalidParameter));
}

#[test]
fn constant_below_range_is_refused() {
    let envelope = Envelope::new(3, 44100, fx(1.0), true).unwrap();
    assert_eq!(envelope.constant(-ONE - 1), Err(SynthError::InvalidParameter));
    assert_eq!(envelope.constant(-ONE), Ok(vec![ONE, ONE, ONE]));
}

#[test]
fn constant_is_flipped() {
    let envelope = Envelope::new(2, 44100, fx(1.0), true).unwrap();
    assert_eq!(envelope.constant(fx(0.25)), Ok(vec![-fx(0.25), -fx(0.25)]));
}

#[test]
fn zero_slope_is_refused() {
    let envelope = Envelope::new(5, 44100, fx(1.0), false).unwrap();
    assert_eq!(envelope.linear(0), Err(SynthError::InvalidParameter));
}

#[test]
fn tempo_and_rate_must_be_positive() {
    assert!(matches!(Envelope::new(5, 44100, 0, false), Err(SynthError::InvalidParameter)));
    assert!(matches!(Envelope::new(5, 44100, -ONE, false), Err(SynthError::InvalidParameter)));
    assert!(matches!(Envelope::new(5, 0, ONE, false), Err(SynthError::InvalidParameter)));
}

#[test]
fn linear_within_range_is_left_unscaled() {
    // 0.25 per second at 4 samples per second: 0, 1/16, 2/16, 3/16.
    let envelope = Envelope::new(4, 4, ONE, false).unwrap();
    let result = envelope.linear(fx(0.25)).unwrap();
    assert_eq!(result, vec![0, ONE / 16, 2 * ONE / 16, 3 * ONE / 16]);
}

#[test]
fn falling_curve_flipped_rises_within_unit_range() {
    let envelope = Envelope::new(6, 2, ONE, true).unwrap();
    let result = envelope.linear(-fx(3.0)).unwrap();
    assert_eq!(result.len(), 6);
    for w in result.windows(2) {
        assert!(w[0] <= w[1]);
    }
    assert!(result.iter().all(|&x| -ONE <= x && x <= ONE));
    assert_eq!(result[5], ONE);
}

#[test]
fn normalize_divides_by_largest_magnitude() {
    let envelope = Envelope::new(3, 1, ONE, false).unwrap();
    let raw: Vec<i128> = vec![-(4 * ONE as i128), 2 * ONE as i128, ONE as i128];
    assert_eq!(envelope.normalize_and_flip(raw), vec![-ONE, ONE / 2, ONE / 4]);
}

#[test]
fn normalize_handles_extreme_raw_levels() {
    let envelope = Envelope::new(3, 1, ONE, true).unwrap();
    let raw: Vec<i128> = vec![i128::MIN, 0, i128::MAX];
    assert_eq!(envelope.normalize_and_flip(raw), vec![ONE, 0, -(ONE - 1)]);
}

#[test]
fn empty_envelope_gives_empty_curves() {
    let envelope = Envelope::new(0, 44100, ONE, false).unwrap();
    assert_eq!(envelope.constant(ONE), Ok(vec![]));
    assert_eq!(envelope.linear(ONE), Ok(vec![]));
    assert_eq!(envelope.len(), 0);
}
