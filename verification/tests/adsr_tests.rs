use synth_dsp::adsr::ADSR;
use synth_dsp::fixed::{FX_HALF, FX_ONE};

const RATE_44100: i64 = 189408057753600;
const TEN_MS: i64 = 42949673;

fn short_envelope() -> ADSR {
    // attack 0.01 s, decay 0.01 s, sustain 0.5, release 0.01 s at 44100 Hz.
    ADSR::new(TEN_MS, TEN_MS, FX_HALF, TEN_MS, RATE_44100)
}

#[test]
fn attack_rises_monotonically_and_clamps_to_one() {
    let mut env = short_envelope();
    env.start_note();
    let mut prev = env.get_output();
    let mut steps = 0;
    loop {
        env.process();
        steps += 1;
        let out = env.get_output();
        assert!(out >= prev, "output fell during attack at step {steps}");
        if out == FX_ONE {
            break;
        }
        assert!(out < FX_ONE);
        assert!(steps < 2000, "attack never reached 1.0");
        prev = out;
    }
    // ~441 samples of attack at 44100 Hz for 0.01 s.
    assert!(300 <= steps && steps <= 600, "attack took {steps} steps");
    // The transition frame sets the output to exactly 1.0; the next frames
    // are already decaying below it.
    env.process();
    assert!(env.get_output() < FX_ONE);
}

#[test]
fn decay_settles_exactly_on_sustain() {
    let mut env = short_envelope();
    env.start_note();
    for _ in 0..441 {
        env.process();
    }
    assert_eq!(env.get_output(), FX_ONE);
    let mut steps = 0;
    while env.get_output() != FX_HALF {
        env.process();
        steps += 1;
        assert!(steps < 2000, "decay never settled");
    }
    // Sustain holds.
    for _ in 0..100 {
        env.process();
        assert_eq!(env.get_output(), FX_HALF);
    }
}

#[test]
fn reset_is_idempotent_from_any_state() {
    // Fresh.
    let mut env = short_envelope();
    env.reset();
    assert_eq!(env.get_output(), 0);
    env.process();
    assert_eq!(env.get_output(), 0);

    // Mid-attack.
    let mut env = short_envelope();
    env.start_note();
    for _ in 0..100 {
        env.process();
    }
    assert!(env.get_output() > 0);
    env.reset();
    assert_eq!(env.get_output(), 0);
    env.process();
    assert_eq!(env.get_output(), 0);

    // Mid-release.
    let mut env = short_envelope();
    env.start_note();
    for _ in 0..600 {
        env.process();
    }
    env.end_note();
    env.process();
    env.reset();
    assert_eq!(env.get_output(), 0);
    env.process();
    assert_eq!(env.get_output(), 0);
}

#[test]
fn end_note_from_idle_does_nothing() {
    let mut env = short_envelope();
    env.end_note();
    for _ in 0..100 {
        env.process();
        assert_eq!(env.get_output(), 0);
    }
}

#[test]
fn full_note_lifecycle() {
    // End-to-end: attack crosses into decay around sample 441, sustain at
    // 0.5, and after end_note the output falls monotonically to exactly 0
    // within ~441 further samples.
    let mut env = short_envelope();
    env.start_note();
    let mut steps = 0;
    while env.get_output() != FX_ONE {
        env.process();
        steps += 1;
        assert!(steps < 2000);
    }
    assert!(300 <= steps && steps <= 600, "crossed into decay at {steps}");
    while env.get_output() != FX_HALF {
        env.process();
        steps += 1;
        assert!(steps < 4000);
    }
    env.end_note();
    let mut prev = env.get_output();
    let mut rel = 0;
    while env.get_output() != 0 {
        env.process();
        rel += 1;
        let out = env.get_output();
        assert!(out <= prev, "output rose during release");
        prev = out;
        assert!(rel < 2000, "release never finished");
    }
    assert!(rel <= 600, "release took {rel} steps");
    // Back in Idle: nothing moves any more.
    for _ in 0..100 {
        env.process();
        assert_eq!(env.get_output(), 0);
    }
}

#[test]
fn start_note_restarts_from_any_state() {
    let mut env = short_envelope();
    env.start_note();
    for _ in 0..600 {
        env.process();
    }
    env.end_note();
    for _ in 0..10 {
        env.process();
    }
    env.start_note();
    let before = env.get_output();
    env.process();
    assert!(env.get_output() >= before, "attack resumes rising");
}

#[test]
fn set_params_reshapes_envelope() {
    let mut env = ADSR::default();
    env.set_params(TEN_MS, TEN_MS, FX_HALF, TEN_MS);
    env.start_note();
    let mut steps = 0;
    while env.get_output() != FX_ONE {
        env.process();
        steps += 1;
        assert!(steps < 2000);
    }
    assert!(300 <= steps && steps <= 600, "attack took {steps}");
}

#[test]
fn set_params_with_ratio_still_reaches_sustain() {
    let mut env = ADSR::default();
    // A large attack ratio makes the segment almost linear; it must still
    // reach 1.0 and settle on the sustain level.
    env.set_params_with_ratio(TEN_MS, TEN_MS, FX_HALF, TEN_MS, FX_ONE, 429497);
    env.start_note();
    let mut steps = 0;
    while env.get_output() != FX_ONE {
        env.process();
        steps += 1;
        assert!(steps < 2000, "attack with ratio never finished");
    }
    while env.get_output() != FX_HALF {
        env.process();
        steps += 1;
        assert!(steps < 4000);
    }
}

#[test]
fn get_output_is_a_pure_read() {
    let mut env = short_envelope();
    env.start_note();
    env.process();
    let a = env.get_output();
    let b = env.get_output();
    assert_eq!(a, b);
    env.process();
    assert!(env.get_output() > a);
}
