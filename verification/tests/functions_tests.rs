use synth_dsp::fixed::FX_ONE;
use synth_dsp::functions::{ftom, mtof};

fn to_f(x: i64) -> f64 {
    (x as f64) / 4294967296.0
}

#[test]
fn a4_is_exactly_440() {
    assert_eq!(mtof(69), 440 * FX_ONE);
}

#[test]
fn octaves_double_frequency() {
    assert!((to_f(mtof(81)) - 880.0).abs() < 1e-3);
    assert!((to_f(mtof(57)) - 220.0).abs() < 1e-3);
}

#[test]
fn middle_c_frequency() {
    assert!((to_f(mtof(60)) - 261.6256).abs() < 0.01);
}

#[test]
fn ftom_of_440_is_69() {
    assert_eq!(ftom(440 * FX_ONE), 69);
}

#[test]
fn round_trip_over_midi_range() {
    for n in 21..=108u8 {
        let f = mtof(n);
        assert!(f >= 1);
        assert_eq!(ftom(f), n, "round trip failed at note {n}");
    }
}

#[test]
fn ftom_rounds_to_nearest_note() {
    // 450 Hz is closer to A4 (440 Hz) than to A#4 (466.16 Hz).
    assert_eq!(ftom(450 * FX_ONE), 69);
    // 460 Hz is closer to A#4.
    assert_eq!(ftom(460 * FX_ONE), 70);
}

#[test]
fn ftom_clamps_extreme_frequencies() {
    // One tick above zero hertz is far below any note; the result clamps to 0.
    assert_eq!(ftom(1), 0);
    // A frequency far above the top of the range clamps to 255.
    assert_eq!(ftom(30000000 * FX_ONE), 255);
}
