use raudio_synth::fixed::ONE;
use raudio_synth::trig::{cos_turns, sin_turns, QUARTER};

#[test]
fn sine_has_its_landmark_values() {
    assert_eq!(sin_turns(0), 0);
    assert_eq!(sin_turns(ONE / 2), 0);
    assert_eq!(sin_turns(QUARTER), ONE - 1);
    assert_eq!(sin_turns(3 * QUARTER), -(ONE - 1));
    assert_eq!(cos_turns(0), ONE - 1);
}

#[test]
fn sine_is_odd_and_periodic() {
    for p in [1i64, 12345, QUARTER - 7, ONE / 3, 5 * ONE + 99] {
        assert_eq!(sin_turns(-p), -sin_turns(p));
        assert_eq!(sin_turns(p + ONE), sin_turns(p));
    }
}
