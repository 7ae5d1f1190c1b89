use synth_dsp::audio_source::AudioSource;
use synth_dsp::fixed::{FX_HALF, FX_ONE, FX_QUARTER};
use synth_dsp::oscillator::{Oscillator, OscillatorType};

const RATE_44100: i64 = 189408057753600;

fn to_f(x: i64) -> f64 {
    (x as f64) / 4294967296.0
}

#[test]
fn silent_when_frequency_is_zero() {
    let kinds = [
        OscillatorType::Sin,
        OscillatorType::Saw,
        OscillatorType::Square,
        OscillatorType::Pulse,
        OscillatorType::Triangle,
    ];
    for kind in kinds {
        let mut osc = Oscillator::new(kind, 0, FX_HALF, RATE_44100);
        for _ in 0..10 {
            assert_eq!(osc.get_next_sample_with_pitch_mod(0), 0);
            assert_eq!(osc.get_next_sample(), 0);
        }
    }
}

#[test]
fn silent_when_frequency_is_negative() {
    let mut osc = Oscillator::new(OscillatorType::Saw, -FX_ONE, FX_HALF, RATE_44100);
    for _ in 0..10 {
        assert_eq!(osc.get_next_sample(), 0);
    }
}

#[test]
fn sine_at_quarter_sample_rate_hits_quarter_points() {
    // 11025 Hz at 44100 Hz: the phase advances exactly 0.25 per sample, so
    // successive samples are sin(0), sin(pi/2), sin(pi), sin(3pi/2), and the
    // phase wraps at 1.0.
    let mut osc = Oscillator::new(OscillatorType::Sin, 47352014438400, FX_HALF, RATE_44100);
    let expected = [0, FX_ONE, 0, -FX_ONE, 0, FX_ONE, 0, -FX_ONE];
    for e in expected {
        let s = osc.get_next_sample();
        assert_eq!(s, e);
    }
}

#[test]
fn sine_stays_within_unit_range() {
    let mut osc = Oscillator::new(OscillatorType::Sin, 440 * FX_ONE, FX_HALF, RATE_44100);
    for _ in 0..1000 {
        let s = osc.get_next_sample();
        assert!(-FX_ONE <= s && s <= FX_ONE);
    }
}

#[test]
fn square_duty_is_half() {
    let mut osc = Oscillator::new(OscillatorType::Square, 441 * FX_ONE, FX_HALF, RATE_44100);
    let n = 20000;
    let mut high = 0;
    for _ in 0..n {
        if osc.get_next_sample() == FX_ONE {
            high += 1;
        }
    }
    let frac = high as f64 / n as f64;
    assert!((frac - 0.5).abs() < 0.02, "duty {frac}");
}

#[test]
fn pulse_duty_follows_pulse_width() {
    let mut osc = Oscillator::new(OscillatorType::Pulse, 441 * FX_ONE, FX_QUARTER, RATE_44100);
    let n = 20000;
    let mut high = 0;
    for _ in 0..n {
        if osc.get_next_sample() == FX_ONE {
            high += 1;
        }
    }
    let frac = high as f64 / n as f64;
    assert!((frac - 0.25).abs() < 0.02, "duty {frac}");
}

#[test]
fn pulse_width_is_clamped_on_evaluation() {
    // A pulse width far above one behaves exactly as a width of one.
    let mut wide = Oscillator::new(OscillatorType::Pulse, 441 * FX_ONE, 100 * FX_ONE, RATE_44100);
    let mut unit = Oscillator::new(OscillatorType::Pulse, 441 * FX_ONE, FX_ONE, RATE_44100);
    for _ in 0..2000 {
        assert_eq!(wide.get_next_sample(), unit.get_next_sample());
    }
}

#[test]
fn saw_ramps_between_minus_one_and_one() {
    let mut osc = Oscillator::new(OscillatorType::Saw, 441 * FX_ONE, FX_HALF, RATE_44100);
    let mut lo = f64::MAX;
    let mut hi = f64::MIN;
    for _ in 0..2000 {
        let s = to_f(osc.get_next_sample());
        lo = lo.min(s);
        hi = hi.max(s);
    }
    assert!(lo < -0.9 && hi > 0.9);
    assert!(lo >= -1.1 && hi <= 1.1);
}

#[test]
fn triangle_peaks_at_one_and_minus_one() {
    let mut osc = Oscillator::new(OscillatorType::Triangle, 441 * FX_ONE, FX_HALF, RATE_44100);
    let mut lo = f64::MAX;
    let mut hi = f64::MIN;
    for _ in 0..2000 {
        let s = to_f(osc.get_next_sample());
        lo = lo.min(s);
        hi = hi.max(s);
    }
    assert!((hi - 1.0).abs() < 0.05 && (lo + 1.0).abs() < 0.05);
}

#[test]
fn pitch_mod_of_one_doubles_frequency() {
    // With a pitch modulation of 1.0, an 11025/2 Hz sine advances a quarter
    // cycle per sample, landing on the same quarter points.
    let mut osc = Oscillator::new(OscillatorType::Sin, 47352014438400 / 2, FX_HALF, RATE_44100);
    let expected = [0, FX_ONE, 0, -FX_ONE];
    for e in expected {
        assert_eq!(osc.get_next_sample_with_pitch_mod(FX_ONE), e);
    }
}

#[test]
fn set_frequency_silences_and_restores() {
    let mut osc = Oscillator::new(OscillatorType::Square, 441 * FX_ONE, FX_HALF, RATE_44100);
    osc.set_frequency(0);
    assert_eq!(osc.get_next_sample(), 0);
    osc.set_frequency(441 * FX_ONE);
    let s = osc.get_next_sample();
    assert!(s == FX_ONE || s == -FX_ONE);
}

#[test]
fn set_pulsewidth_changes_duty() {
    let mut osc = Oscillator::new(OscillatorType::Pulse, 441 * FX_ONE, FX_HALF, RATE_44100);
    osc.set_pulsewidth(FX_QUARTER * 3);
    let n = 20000;
    let mut high = 0;
    for _ in 0..n {
        if osc.get_next_sample() == FX_ONE {
            high += 1;
        }
    }
    let frac = high as f64 / n as f64;
    assert!((frac - 0.75).abs() < 0.02, "duty {frac}");
}
