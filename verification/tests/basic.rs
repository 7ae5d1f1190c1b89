use synth_dsp::adsr::ADSR;
use synth_dsp::fixed::FX_ONE;
use synth_dsp::oscillator::Oscillator;
use synth_dsp::state_variable_filter::StateVariableFilter;

#[test]
fn it_works() {
    assert_eq!(2 + 2, 4);
}

#[test]
fn defaults_construct() {
    let osc = Oscillator::default();
    let filter = StateVariableFilter::default();
    let env = ADSR::default();
    let _ = osc;
    let _ = filter;
    assert_eq!(env.get_output(), 0);
}

#[test]
fn fixed_point_one_is_two_to_thirty_two() {
    assert_eq!(FX_ONE, 4294967296);
    assert_eq!((FX_ONE as f64) / 4294967296.0, 1.0);
}
