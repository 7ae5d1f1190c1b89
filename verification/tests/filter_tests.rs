use synth_dsp::audio_processor::AudioProcessor;
use synth_dsp::fixed::{FX_HALF, FX_ONE};
use synth_dsp::state_variable_filter::{FilterType, StateVariableFilter};

fn to_f(x: i64) -> f64 {
    (x as f64) / 4294967296.0
}

#[test]
fn lowpass_impulse_response_is_stable() {
    // Cutoff normalized 1.0 (20 kHz) and resonance 0.0 (minimum Q): a unit
    // impulse must give a bounded, converging response over 1000 samples.
    let mut f = StateVariableFilter::default();
    f.set_params(FX_ONE, 0, FilterType::Lowpass);
    let mut peak = 0.0f64;
    let mut out = f.process_sample(FX_ONE);
    for i in 0..1000 {
        peak = peak.max(to_f(out).abs());
        if i >= 900 {
            assert!(to_f(out).abs() < 1e-4, "tail sample {i} = {}", to_f(out));
        }
        out = f.process_sample(0);
    }
    assert!(peak < 2.0, "peak {peak}");
}

#[test]
fn lowpass_passes_direct_current() {
    let mut f = StateVariableFilter::default();
    f.set_params(FX_HALF, 0, FilterType::Lowpass);
    let mut out = 0;
    for _ in 0..2000 {
        out = f.process_sample(FX_ONE);
    }
    assert!((to_f(out) - 1.0).abs() < 1e-3, "dc gain {}", to_f(out));
}

#[test]
fn highpass_rejects_direct_current() {
    let mut f = StateVariableFilter::default();
    f.set_params(FX_HALF, 0, FilterType::Highpass);
    let mut out = 0;
    for _ in 0..2000 {
        out = f.process_sample(FX_ONE);
    }
    assert!(to_f(out).abs() < 1e-3, "hp dc {}", to_f(out));
}

#[test]
fn mode_switch_keeps_internal_state() {
    // Changing only the tap selection mid-stream must not disturb the
    // recursive state: the output stays finite and bounded.
    let mut f = StateVariableFilter::default();
    f.set_params(FX_HALF, FX_HALF, FilterType::Lowpass);
    for _ in 0..100 {
        f.process_sample(FX_ONE);
    }
    f.set_params(FX_HALF, FX_HALF, FilterType::Bandpass);
    for _ in 0..100 {
        let s = f.process_sample(FX_ONE);
        assert!(to_f(s).abs() < 100.0);
    }
}

#[test]
fn resonant_filter_stays_bounded() {
    let mut f = StateVariableFilter::default();
    f.set_params(FX_HALF, FX_ONE, FilterType::Bandpass);
    let mut peak = 0.0f64;
    for i in 0..5000 {
        let drive = if i % 2 == 0 { FX_ONE } else { -FX_ONE };
        peak = peak.max(to_f(f.process_sample(drive)).abs());
    }
    assert!(peak < 1000.0, "peak {peak}");
}

#[test]
fn set_sample_rate_defers_coefficient_update() {
    // Changing the rate alone must not change the response; only the next
    // set_params call recomputes the coefficients against the new rate.
    let mut a = StateVariableFilter::default();
    let mut b = StateVariableFilter::default();
    a.set_params(FX_HALF, 0, FilterType::Lowpass);
    b.set_params(FX_HALF, 0, FilterType::Lowpass);
    b.set_sample_rate(96000 * FX_ONE);
    for _ in 0..100 {
        let x = a.process_sample(FX_ONE);
        let y = b.process_sample(FX_ONE);
        assert_eq!(x, y);
    }
}
