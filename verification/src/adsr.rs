//! An ADSR envelope generator with adjustable times and curve ratios.
//!
//! A four-phase exponential-decay state machine over the states Idle,
//! Attack, Decay, Sustain and Release. Each segment approaches an overshoot
//! target instead of its true target, so it finishes in the configured time:
//! for a segment of `t` samples and an overshoot ratio `r`, the per-sample
//! multiplier is `(r / (1 + r)) ^ (1 / t)` and the additive base is chosen
//! so the fixed point of the recurrence is the overshoot target. All derived
//! coefficients are recomputed eagerly inside every setter that affects
//! them, so they are always consistent with the last-set parameters.

use crate::fixed::{
    clamp_spec, exp2_fx, exp2_spec, fx_clamp, fx_div, fx_div_spec, fx_mul, fx_mul_spec,
    lemma_exp2_nonpos, lemma_fx_mul_unit, log2_fx, log2_spec, FX_ONE, MAX_RATE_FX,
};
use vstd::prelude::*;

verus! {

/// Floor for the overshoot ratios, about one billionth, keeping the
/// logarithm argument away from its domain edge.
pub const RATIO_FLOOR: i64 = 5;

/// Cap for the overshoot ratios, sixteen whole units.
pub const RATIO_CAP: i64 = 68719476736;

/// The longest segment duration accepted, one thousand seconds.
pub const MAX_TIME_FX: i64 = 4294967296000;

/// The longest segment length in samples: the longest duration at the
/// widest sample rate.
pub const MAX_SAMPLES_FX: i64 = 4294967296000000000;

/// The default attack overshoot ratio, 0.3.
pub const ATTACK_RATIO_DEFAULT: i64 = 1288490189;

/// The default decay/release overshoot ratio, 0.0001.
pub const DR_RATIO_DEFAULT: i64 = 429497;

/// The discrete phase of the envelope.
#[derive(Clone, Copy, PartialEq, Eq, Structural, Debug)]
pub enum ADSRState {
    Idle,
    Attack,
    Decay,
    Sustain,
    Release,
}

/// The envelope generator.
pub struct ADSR {
    /// Attack length in samples.
    pub attack: i64,
    /// Decay length in samples.
    pub decay: i64,
    /// Sustain level in [0, 1].
    pub sustain: i64,
    /// Release length in samples.
    pub release: i64,
    /// Per-sample multiplier of the attack segment.
    pub attack_coeff: i64,
    /// Per-sample multiplier of the decay segment.
    pub decay_coeff: i64,
    /// Per-sample multiplier of the release segment.
    pub release_coeff: i64,
    /// Overshoot ratio of the attack segment.
    pub attack_target_ratio: i64,
    /// Shared overshoot ratio of the decay and release segments.
    pub dr_target_ratio: i64,
    /// Additive base of the attack segment.
    pub attack_base: i64,
    /// Additive base of the decay segment.
    pub decay_base: i64,
    /// Additive base of the release segment.
    pub release_base: i64,
    /// The current discrete phase.
    pub state: ADSRState,
    /// The host sample rate in fixed-point hertz.
    pub sample_rate: i64,
    /// The current output level, in [0, 1].
    pub output: i64,
}

/// The per-sample multiplier for a segment of `t` samples and overshoot
/// ratio `ratio`: 2 to the power -log2((1 + ratio) / ratio) / t. A segment
/// of no length, or one so short the exponent passes minus 32, collapses
/// the multiplier to zero, which finishes the segment in one step.
pub open spec fn coeff_spec(t: int, ratio: int) -> int {
    if t <= 0 {
        0
    } else {
        let l = log2_spec(fx_div_spec(FX_ONE as int + ratio, ratio));
        if t <= l / 32 {
            0
        } else {
            exp2_spec(-fx_div_spec(l, t))
        }
    }
}

/// The attack base: the attack overshoot target, 1 + ratio, times one minus
/// the multiplier.
pub open spec fn attack_base_spec(ratio: int, coeff: int) -> int {
    fx_mul_spec(FX_ONE as int + ratio, FX_ONE as int - coeff)
}

/// The decay base: the decay undershoot target, sustain - ratio, times one
/// minus the multiplier.
pub open spec fn decay_base_spec(sustain: int, ratio: int, coeff: int) -> int {
    fx_mul_spec(sustain - ratio, FX_ONE as int - coeff)
}

/// The release base: the release undershoot target, -ratio, times one minus
/// the multiplier.
pub open spec fn release_base_spec(ratio: int, coeff: int) -> int {
    -fx_mul_spec(ratio, FX_ONE as int - coeff)
}

/// The ambient parameter bounds: everything the setters keep clamped.
pub open spec fn adsr_env_wf(a: ADSR) -> bool {
    &&& FX_ONE as int <= a.sample_rate <= MAX_RATE_FX as int
    &&& RATIO_FLOOR as int <= a.attack_target_ratio <= RATIO_CAP as int
    &&& RATIO_FLOOR as int <= a.dr_target_ratio <= RATIO_CAP as int
    &&& 0 <= a.sustain <= FX_ONE as int
    &&& 0 <= a.attack <= MAX_SAMPLES_FX as int
    &&& 0 <= a.decay <= MAX_SAMPLES_FX as int
    &&& 0 <= a.release <= MAX_SAMPLES_FX as int
    &&& 0 <= a.output <= FX_ONE as int
}

/// The envelope invariant: ambient bounds, multipliers within [0, 1], and
/// every derived coefficient consistent with the last-set parameters.
pub open spec fn adsr_wf(a: ADSR) -> bool {
    &&& adsr_env_wf(a)
    &&& 0 <= a.attack_coeff <= FX_ONE as int
    &&& 0 <= a.decay_coeff <= FX_ONE as int
    &&& 0 <= a.release_coeff <= FX_ONE as int
    &&& a.attack_coeff == coeff_spec(a.attack as int, a.attack_target_ratio as int)
    &&& a.decay_coeff == coeff_spec(a.decay as int, a.dr_target_ratio as int)
    &&& a.release_coeff == coeff_spec(a.release as int, a.dr_target_ratio as int)
    &&& a.attack_base == attack_base_spec(a.attack_target_ratio as int, a.attack_coeff as int)
    &&& a.decay_base == decay_base_spec(
        a.sustain as int,
        a.dr_target_ratio as int,
        a.decay_coeff as int,
    )
    &&& a.release_base == release_base_spec(a.dr_target_ratio as int, a.release_coeff as int)
}

/// One advance of the state machine. Idle and Sustain hold; Attack rises by
/// its recurrence and moves to Decay the moment the recurrence reaches one,
/// clamping the output to exactly one on that step; Decay falls to the
/// sustain level and then holds in Sustain; Release falls to exactly zero
/// and then rests in Idle.
pub open spec fn adsr_step_spec(a: ADSR) -> ADSR {
    match a.state {
        ADSRState::Idle => a,
        ADSRState::Attack => {
            let out = a.attack_base as int + fx_mul_spec(a.output as int, a.attack_coeff as int);
            if out >= FX_ONE as int {
                ADSR { output: FX_ONE, state: ADSRState::Decay, ..a }
            } else {
                ADSR { output: out as i64, ..a }
            }
        },
        ADSRState::Decay => {
            let out = a.decay_base as int + fx_mul_spec(a.output as int, a.decay_coeff as int);
            if out <= a.sustain as int {
                ADSR { output: a.sustain, state: ADSRState::Sustain, ..a }
            } else {
                ADSR { output: out as i64, ..a }
            }
        },
        ADSRState::Sustain => a,
        ADSRState::Release => {
            let out = a.release_base as int + fx_mul_spec(a.output as int, a.release_coeff as int);
            if out <= 0 {
                ADSR { output: 0, state: ADSRState::Idle, ..a }
            } else {
                ADSR { output: out as i64, ..a }
            }
        },
    }
}

/// The envelope after a reset: Idle, output exactly zero, all parameters
/// kept.
pub open spec fn adsr_reset_spec(a: ADSR) -> ADSR {
    ADSR { state: ADSRState::Idle, output: 0, ..a }
}

/// A segment duration in seconds, clamped, converted to samples at the
/// given rate.
pub open spec fn samples_spec(t: int, sr: int) -> int {
    fx_mul_spec(clamp_spec(t, 0, MAX_TIME_FX as int), sr)
}

/// The envelope after `set_params`: all three segments and the sustain
/// level replaced, every multiplier and base recomputed, state and output
/// untouched.
pub open spec fn adsr_set_params_spec(a: ADSR, at: int, de: int, su: int, re: int) -> ADSR {
    let att = samples_spec(at, a.sample_rate as int);
    let dec = samples_spec(de, a.sample_rate as int);
    let rel = samples_spec(re, a.sample_rate as int);
    let suc = clamp_spec(su, 0, FX_ONE as int);
    let ac = coeff_spec(att, a.attack_target_ratio as int);
    let dc = coeff_spec(dec, a.dr_target_ratio as int);
    let rc = coeff_spec(rel, a.dr_target_ratio as int);
    ADSR {
        attack: att as i64,
        decay: dec as i64,
        sustain: suc as i64,
        release: rel as i64,
        attack_coeff: ac as i64,
        decay_coeff: dc as i64,
        release_coeff: rc as i64,
        attack_base: attack_base_spec(a.attack_target_ratio as int, ac) as i64,
        decay_base: decay_base_spec(suc, a.dr_target_ratio as int, dc) as i64,
        release_base: release_base_spec(a.dr_target_ratio as int, rc) as i64,
        ..a
    }
}

/// Computes the per-sample multiplier for one segment.
fn calculate_coefficient(rate: i64, ratio: i64) -> (r: i64)
    requires
        RATIO_FLOOR as int <= ratio <= RATIO_CAP as int,
    ensures
        r == coeff_spec(rate as int, ratio as int),
        0 <= r <= FX_ONE,
{
    if rate <= 0 {
        return 0;
    }
    proof {
        vstd::arithmetic::div_mod::lemma_hoist_over_denominator(
            (FX_ONE as int) * (FX_ONE as int),
            FX_ONE as int,
            ratio as nat,
        );
        assert((FX_ONE as int + ratio) * (FX_ONE as int) == (FX_ONE as int) * (FX_ONE as int)
            + (FX_ONE as int) * (ratio as int)) by (nonlinear_arith);
        vstd::arithmetic::div_mod::lemma_div_pos_is_pos(
            (FX_ONE as int) * (FX_ONE as int),
            ratio as int,
        );
        vstd::arithmetic::div_mod::lemma_div_is_ordered_by_denominator(
            (FX_ONE as int) * (FX_ONE as int),
            RATIO_FLOOR as int,
            ratio as int,
        );
    }
    let arg = fx_div(FX_ONE + ratio, ratio);
    let l = log2_fx(arg);
    let guard = l.checked_div_euclid(32).unwrap();
    if rate <= guard {
        return 0;
    }
    proof {
        let li = l as int;
        let t = rate as int;
        vstd::arithmetic::div_mod::lemma_fundamental_div_mod(li, 32);
        vstd::arithmetic::div_mod::lemma_mod_bound(li, 32);
        assert(li * (FX_ONE as int) <= 32 * t * (FX_ONE as int)) by (nonlinear_arith)
            requires
                li <= 32 * t,
                FX_ONE as int > 0,
        ;
        vstd::arithmetic::div_mod::lemma_div_is_ordered(
            li * (FX_ONE as int),
            32 * t * (FX_ONE as int),
            t,
        );
        vstd::arithmetic::div_mod::lemma_div_by_multiple(32 * (FX_ONE as int), t);
        assert((32 * (FX_ONE as int)) * t == 32 * t * (FX_ONE as int)) by (nonlinear_arith);
        vstd::arithmetic::div_mod::lemma_div_pos_is_pos(li * (FX_ONE as int), t);
        assert(li * (FX_ONE as int) >= 0) by (nonlinear_arith)
            requires
                li >= 0,
                FX_ONE as int > 0,
        ;
    }
    let e = -fx_div(l, rate);
    proof {
        lemma_exp2_nonpos(e as int);
    }
    exp2_fx(e)
}

impl ADSR {
    /// Stores the attack length in samples and recomputes the attack
    /// multiplier and base.
    fn calculate_attack(&mut self, attack: i64)
        requires
            adsr_wf(*old(self)),
            0 <= attack <= MAX_SAMPLES_FX,
        ensures
            adsr_wf(*final(self)),
            *final(self) == (ADSR {
                attack,
                attack_coeff: final(self).attack_coeff,
                attack_base: final(self).attack_base,
                ..*old(self)
            }),
            final(self).attack_coeff == coeff_spec(attack as int, old(self).attack_target_ratio as int),
    {
        self.attack = attack;
        self.attack_coeff = calculate_coefficient(self.attack, self.attack_target_ratio);
        proof {
            lemma_fx_mul_unit(
                FX_ONE as int + self.attack_target_ratio as int,
                FX_ONE as int - self.attack_coeff as int,
            );
        }
        self.attack_base = fx_mul(FX_ONE + self.attack_target_ratio, FX_ONE - self.attack_coeff);
    }

    /// Stores the decay length in samples and recomputes the decay
    /// multiplier and base.
    fn calculate_decay(&mut self, decay: i64)
        requires
            adsr_wf(*old(self)),
            0 <= decay <= MAX_SAMPLES_FX,
        ensures
            adsr_wf(*final(self)),
            *final(self) == (ADSR {
                decay,
                decay_coeff: final(self).decay_coeff,
                decay_base: final(self).decay_base,
                ..*old(self)
            }),
            final(self).decay_coeff == coeff_spec(decay as int, old(self).dr_target_ratio as int),
    {
        self.decay = decay;
        self.decay_coeff = calculate_coefficient(self.decay, self.dr_target_ratio);
        proof {
            lemma_decay_base_fits(
                self.sustain as int,
                self.dr_target_ratio as int,
                self.decay_coeff as int,
            );
        }
        self.decay_base = fx_mul(self.sustain - self.dr_target_ratio, FX_ONE - self.decay_coeff);
    }

    /// Stores the sustain level, clamped to [0, 1], and refreshes the decay
    /// base, which depends on it.
    fn calculate_sustain(&mut self, sustain: i64)
        requires
            adsr_wf(*old(self)),
        ensures
            adsr_wf(*final(self)),
            *final(self) == (ADSR {
                sustain: clamp_spec(sustain as int, 0, FX_ONE as int) as i64,
                decay_base: final(self).decay_base,
                ..*old(self)
            }),
    {
        self.sustain = fx_clamp(sustain, 0, FX_ONE);
        proof {
            lemma_decay_base_fits(
                self.sustain as int,
                self.dr_target_ratio as int,
                self.decay_coeff as int,
            );
        }
        self.decay_base = fx_mul(self.sustain - self.dr_target_ratio, FX_ONE - self.decay_coeff);
    }

    /// Stores the release length in samples and recomputes the release
    /// multiplier and base.
    fn calculate_release(&mut self, release: i64)
        requires
            adsr_wf(*old(self)),
            0 <= release <= MAX_SAMPLES_FX,
        ensures
            adsr_wf(*final(self)),
            *final(self) == (ADSR {
                release,
                release_coeff: final(self).release_coeff,
                release_base: final(self).release_base,
                ..*old(self)
            }),
            final(self).release_coeff == coeff_spec(release as int, old(self).dr_target_ratio as int),
    {
        self.release = release;
        self.release_coeff = calculate_coefficient(self.release, self.dr_target_ratio);
        proof {
            lemma_fx_mul_unit(self.dr_target_ratio as int, FX_ONE as int - self.release_coeff as int);
        }
        self.release_base = -fx_mul(self.dr_target_ratio, FX_ONE - self.release_coeff);
    }
}

impl ADSR {
    /// Builds an envelope with the given times in seconds, sustain level,
    /// and sample rate, under the default overshoot ratios; every input is
    /// clamped into its supported range and all coefficients are computed
    /// from the given parameters. The envelope starts Idle at level zero.
    pub fn new(attack: i64, decay: i64, sustain: i64, release: i64, sr: i64) -> (r: ADSR)
        ensures
            adsr_wf(r),
            r.state == ADSRState::Idle,
            r.output == 0,
            r.sample_rate == clamp_spec(sr as int, FX_ONE as int, MAX_RATE_FX as int),
            r.attack_target_ratio == ATTACK_RATIO_DEFAULT,
            r.dr_target_ratio == DR_RATIO_DEFAULT,
            r.attack == samples_spec(attack as int, r.sample_rate as int),
            r.decay == samples_spec(decay as int, r.sample_rate as int),
            r.release == samples_spec(release as int, r.sample_rate as int),
            r.sustain == clamp_spec(sustain as int, 0, FX_ONE as int),
    {
        let src = fx_clamp(sr, FX_ONE, MAX_RATE_FX);
        let att = samples_at(attack, src);
        let dec = samples_at(decay, src);
        let rel = samples_at(release, src);
        let suc = fx_clamp(sustain, 0, FX_ONE);
        let ac = calculate_coefficient(att, ATTACK_RATIO_DEFAULT);
        let dc = calculate_coefficient(dec, DR_RATIO_DEFAULT);
        let rc = calculate_coefficient(rel, DR_RATIO_DEFAULT);
        proof {
            lemma_fx_mul_unit(FX_ONE as int + ATTACK_RATIO_DEFAULT as int, FX_ONE as int - ac as int);
            lemma_decay_base_fits(suc as int, DR_RATIO_DEFAULT as int, dc as int);
            lemma_fx_mul_unit(DR_RATIO_DEFAULT as int, FX_ONE as int - rc as int);
        }
        ADSR {
            attack: att,
            decay: dec,
            sustain: suc,
            release: rel,
            attack_coeff: ac,
            decay_coeff: dc,
            release_coeff: rc,
            attack_target_ratio: ATTACK_RATIO_DEFAULT,
            dr_target_ratio: DR_RATIO_DEFAULT,
            attack_base: fx_mul(FX_ONE + ATTACK_RATIO_DEFAULT, FX_ONE - ac),
            decay_base: fx_mul(suc - DR_RATIO_DEFAULT, FX_ONE - dc),
            release_base: -fx_mul(DR_RATIO_DEFAULT, FX_ONE - rc),
            state: ADSRState::Idle,
            sample_rate: src,
            output: 0,
        }
    }

    /// Sets the envelope into Attack, from any state.
    pub fn start_note(&mut self)
        ensures
            *final(self) == (ADSR { state: ADSRState::Attack, ..*old(self) }),
    {
        self.state = ADSRState::Attack;
    }

    /// Starts releasing from whatever state the envelope is in; from Idle it
    /// does nothing.
    pub fn end_note(&mut self)
        ensures
            old(self).state == ADSRState::Idle ==> *final(self) == *old(self),
            old(self).state != ADSRState::Idle ==> *final(self) == (ADSR {
                state: ADSRState::Release,
                ..*old(self)
            }),
    {
        if !(self.state == ADSRState::Idle) {
            self.state = ADSRState::Release;
        }
    }

    /// Forces the envelope to Idle with an output of exactly zero,
    /// unconditionally from any state.
    pub fn reset(&mut self)
        ensures
            *final(self) == adsr_reset_spec(*old(self)),
            final(self).state == ADSRState::Idle,
            final(self).output == 0,
    {
        self.state = ADSRState::Idle;
        self.output = 0;
    }

    /// The current level of the envelope, between zero and one; a pure read
    /// with no side effect, decoupled from the per-sample clock.
    pub fn get_output(&self) -> (r: i64)
        ensures
            r == self.output,
    {
        self.output
    }

    /// Sets the four time/level parameters together, clamping each into its
    /// supported range and recomputing every multiplier and base against the
    /// current sample rate and the current overshoot ratios.
    pub fn set_params(&mut self, attack: i64, decay: i64, sustain: i64, release: i64)
        requires
            adsr_wf(*old(self)),
        ensures
            adsr_wf(*final(self)),
            *final(self) == adsr_set_params_spec(
                *old(self),
                attack as int,
                decay as int,
                sustain as int,
                release as int,
            ),
    {
        let att = samples_at(attack, self.sample_rate);
        let dec = samples_at(decay, self.sample_rate);
        let rel = samples_at(release, self.sample_rate);
        self.calculate_attack(att);
        self.calculate_decay(dec);
        self.calculate_sustain(sustain);
        self.calculate_release(rel);
    }

    /// Sets the four time/level parameters and both overshoot ratios; the
    /// ratio updates recompute the multipliers and bases they affect.
    pub fn set_params_with_ratio(
        &mut self,
        attack: i64,
        decay: i64,
        sustain: i64,
        release: i64,
        attack_ratio: i64,
        dr_ratio: i64,
    )
        requires
            adsr_wf(*old(self)),
        ensures
            adsr_wf(*final(self)),
            *final(self) == adsr_set_dr_ratio_spec(
                adsr_set_attack_ratio_spec(
                    adsr_set_params_spec(
                        *old(self),
                        attack as int,
                        decay as int,
                        sustain as int,
                        release as int,
                    ),
                    attack_ratio as int,
                ),
                dr_ratio as int,
            ),
    {
        self.set_params(attack, decay, sustain, release);
        self.set_attack_target_ratio(attack_ratio);
        self.set_dr_target_ratio(dr_ratio);
    }

    /// Sets the attack overshoot ratio, clamped to a tiny positive floor,
    /// and recomputes the attack multiplier and base from it.
    pub fn set_attack_target_ratio(&mut self, ratio: i64)
        requires
            adsr_wf(*old(self)),
        ensures
            adsr_wf(*final(self)),
            *final(self) == adsr_set_attack_ratio_spec(*old(self), ratio as int),
    {
        self.attack_target_ratio = fx_clamp(ratio, RATIO_FLOOR, RATIO_CAP);
        self.attack_coeff = calculate_coefficient(self.attack, self.attack_target_ratio);
        proof {
            lemma_fx_mul_unit(
                FX_ONE as int + self.attack_target_ratio as int,
                FX_ONE as int - self.attack_coeff as int,
            );
        }
        self.attack_base = fx_mul(FX_ONE + self.attack_target_ratio, FX_ONE - self.attack_coeff);
    }

    /// Sets the shared decay/release overshoot ratio, clamped to a tiny
    /// positive floor, and recomputes both multipliers and both bases.
    pub fn set_dr_target_ratio(&mut self, ratio: i64)
        requires
            adsr_wf(*old(self)),
        ensures
            adsr_wf(*final(self)),
            *final(self) == adsr_set_dr_ratio_spec(*old(self), ratio as int),
    {
        self.dr_target_ratio = fx_clamp(ratio, RATIO_FLOOR, RATIO_CAP);
        self.decay_coeff = calculate_coefficient(self.decay, self.dr_target_ratio);
        self.release_coeff = calculate_coefficient(self.release, self.dr_target_ratio);
        proof {
            lemma_decay_base_fits(
                self.sustain as int,
                self.dr_target_ratio as int,
                self.decay_coeff as int,
            );
            lemma_fx_mul_unit(self.dr_target_ratio as int, FX_ONE as int - self.release_coeff as int);
        }
        self.decay_base = fx_mul(self.sustain - self.dr_target_ratio, FX_ONE - self.decay_coeff);
        self.release_base = -fx_mul(self.dr_target_ratio, FX_ONE - self.release_coeff);
    }

    /// Stores a new sample rate (clamped). Durations already converted to
    /// samples are not rescaled: a fresh parameter-set call converts against
    /// the new rate.
    pub fn set_sample_rate(&mut self, sr: i64)
        requires
            adsr_wf(*old(self)),
        ensures
            adsr_wf(*final(self)),
            *final(self) == (ADSR {
                sample_rate: clamp_spec(sr as int, FX_ONE as int, MAX_RATE_FX as int) as i64,
                ..*old(self)
            }),
    {
        self.sample_rate = fx_clamp(sr, FX_ONE, MAX_RATE_FX);
    }

    /// Advances the state machine by one sample.
    pub fn process(&mut self)
        requires
            adsr_wf(*old(self)),
        ensures
            adsr_wf(*final(self)),
            *final(self) == adsr_step_spec(*old(self)),
    {
        match self.state {
            ADSRState::Idle => {},
            ADSRState::Attack => {
                proof {
                    lemma_fx_mul_unit(self.output as int, self.attack_coeff as int);
                    lemma_fx_mul_unit(
                        FX_ONE as int + self.attack_target_ratio as int,
                        FX_ONE as int - self.attack_coeff as int,
                    );
                }
                let out = self.attack_base + fx_mul(self.output, self.attack_coeff);
                if out >= FX_ONE {
                    self.output = FX_ONE;
                    self.state = ADSRState::Decay;
                } else {
                    self.output = out;
                }
            },
            ADSRState::Decay => {
                proof {
                    lemma_fx_mul_unit(self.output as int, self.decay_coeff as int);
                    lemma_decay_base_fits(
                        self.sustain as int,
                        self.dr_target_ratio as int,
                        self.decay_coeff as int,
                    );
                    lemma_decay_step_stays_low(
                        self.sustain as int,
                        self.dr_target_ratio as int,
                        self.decay_coeff as int,
                        self.output as int,
                    );
                }
                let out = self.decay_base + fx_mul(self.output, self.decay_coeff);
                if out <= self.sustain {
                    self.output = self.sustain;
                    self.state = ADSRState::Sustain;
                } else {
                    self.output = out;
                }
            },
            ADSRState::Sustain => {},
            ADSRState::Release => {
                proof {
                    lemma_fx_mul_unit(self.output as int, self.release_coeff as int);
                    lemma_fx_mul_unit(
                        self.dr_target_ratio as int,
                        FX_ONE as int - self.release_coeff as int,
                    );
                }
                let out = self.release_base + fx_mul(self.output, self.release_coeff);
                if out <= 0 {
                    self.output = 0;
                    self.state = ADSRState::Idle;
                } else {
                    self.output = out;
                }
            },
        }
    }
}

impl Default for ADSR {
    /// An envelope with attack 0.2 s, decay 0.1 s, sustain 0.8 and release
    /// 0.5 s at 44100 Hz, Idle at level zero.
    fn default() -> (r: ADSR)
        ensures
            adsr_wf(r),
            r.state == ADSRState::Idle,
            r.output == 0,
            r.sample_rate == crate::fixed::DEFAULT_RATE_FX,
            r.attack_target_ratio == ATTACK_RATIO_DEFAULT,
            r.dr_target_ratio == DR_RATIO_DEFAULT,
            r.attack == samples_spec(858993459, crate::fixed::DEFAULT_RATE_FX as int),
            r.decay == samples_spec(429496729, crate::fixed::DEFAULT_RATE_FX as int),
            r.release == samples_spec(2147483648, crate::fixed::DEFAULT_RATE_FX as int),
            r.sustain == 3435973836,
    {
        ADSR::new(858993459, 429496729, 3435973836, 2147483648, crate::fixed::DEFAULT_RATE_FX)
    }
}

/// The envelope after an attack-ratio update: ratio clamped, attack
/// multiplier and base recomputed.
pub open spec fn adsr_set_attack_ratio_spec(a: ADSR, ratio: int) -> ADSR {
    let rc = clamp_spec(ratio, RATIO_FLOOR as int, RATIO_CAP as int);
    let ac = coeff_spec(a.attack as int, rc);
    ADSR {
        attack_target_ratio: rc as i64,
        attack_coeff: ac as i64,
        attack_base: attack_base_spec(rc, ac) as i64,
        ..a
    }
}

/// The envelope after a decay/release-ratio update: ratio clamped, both
/// multipliers and both bases recomputed.
pub open spec fn adsr_set_dr_ratio_spec(a: ADSR, ratio: int) -> ADSR {
    let rc = clamp_spec(ratio, RATIO_FLOOR as int, RATIO_CAP as int);
    let dc = coeff_spec(a.decay as int, rc);
    let rl = coeff_spec(a.release as int, rc);
    ADSR {
        dr_target_ratio: rc as i64,
        decay_coeff: dc as i64,
        release_coeff: rl as i64,
        decay_base: decay_base_spec(a.sustain as int, rc, dc) as i64,
        release_base: release_base_spec(rc, rl) as i64,
        ..a
    }
}

/// A duration in seconds, clamped, converted to samples at the given rate.
fn samples_at(t: i64, sr: i64) -> (r: i64)
    requires
        FX_ONE as int <= sr <= MAX_RATE_FX as int,
    ensures
        r == samples_spec(t as int, sr as int),
        0 <= r <= MAX_SAMPLES_FX,
{
    let tc = fx_clamp(t, 0, MAX_TIME_FX);
    proof {
        crate::fixed::lemma_fx_mul_mono(tc as int, sr as int, MAX_TIME_FX as int, MAX_RATE_FX as int);
        crate::fixed::lemma_fx_mul_mono(0, 0, tc as int, sr as int);
        vstd::arithmetic::div_mod::lemma_div_by_multiple(MAX_SAMPLES_FX as int, FX_ONE as int);
        assert((MAX_TIME_FX as int) * (MAX_RATE_FX as int) == (MAX_SAMPLES_FX as int) * (
        FX_ONE as int));
    }
    fx_mul(tc, sr)
}

/// A decay step from an output at most one stays at most one: the base is
/// bounded by one minus the multiplier, the product term by the multiplier.
proof fn lemma_decay_step_stays_low(sustain: int, ratio: int, coeff: int, out: int)
    requires
        0 <= sustain <= FX_ONE as int,
        RATIO_FLOOR as int <= ratio <= RATIO_CAP as int,
        0 <= coeff <= FX_ONE as int,
        0 <= out <= FX_ONE as int,
    ensures
        decay_base_spec(sustain, ratio, coeff) + fx_mul_spec(out, coeff) <= FX_ONE as int,
{
    let a = sustain - ratio;
    let b = FX_ONE as int - coeff;
    if a >= 0 {
        crate::fixed::lemma_fx_mul_mono(a, b, FX_ONE as int, b);
        vstd::arithmetic::div_mod::lemma_div_multiples_vanish(b, FX_ONE as int);
    } else {
        assert(a * b <= 0) by (nonlinear_arith)
            requires
                a < 0,
                b >= 0,
        ;
        vstd::arithmetic::div_mod::lemma_div_is_ordered(a * b, 0, FX_ONE as int);
        vstd::arithmetic::div_mod::lemma_div_of0(FX_ONE as int);
    }
    crate::fixed::lemma_fx_mul_mono(out, coeff, FX_ONE as int, coeff);
    vstd::arithmetic::div_mod::lemma_div_multiples_vanish(coeff, FX_ONE as int);
}

/// From any well-formed state, a reset yields Idle with an output of
/// exactly zero, and the next advance leaves the envelope exactly as the
/// reset left it.
pub proof fn lemma_reset_quiesces(a: ADSR)
    requires
        adsr_wf(a),
    ensures
        adsr_reset_spec(a).state == ADSRState::Idle,
        adsr_reset_spec(a).output == 0,
        adsr_wf(adsr_reset_spec(a)),
        adsr_step_spec(adsr_reset_spec(a)) == adsr_reset_spec(a),
{
}

/// During Attack the output never falls: each advance raises it strictly
/// until the step whose recurrence reaches one; that step clamps the output
/// to exactly one and is the one that enters Decay, so the segment ends in
/// boundedly many steps: while it lasts, each step closes at least the
/// ratio times the remaining multiplier gap, less rounding. The strict rise
/// needs the attack still to make progress: that product must come to at
/// least three ticks, which holds for every attack shorter than about ten
/// to the eighth samples.
pub proof fn lemma_attack_monotone(a: ADSR)
    requires
        adsr_wf(a),
        a.state == ADSRState::Attack,
        (FX_ONE as int - a.attack_coeff as int) * (a.attack_target_ratio as int) >= 3 * (
        FX_ONE as int),
    ensures
        adsr_step_spec(a).output >= a.output,
        adsr_step_spec(a).state == ADSRState::Decay <==> a.attack_base as int + fx_mul_spec(
            a.output as int,
            a.attack_coeff as int,
        ) >= FX_ONE as int,
        adsr_step_spec(a).state == ADSRState::Decay ==> adsr_step_spec(a).output == FX_ONE,
        adsr_step_spec(a).state == ADSRState::Attack ==> (FX_ONE as int) * (adsr_step_spec(
            a,
        ).output - a.output) + 2 * (FX_ONE as int) > (FX_ONE as int - a.attack_coeff as int) * (
        a.attack_target_ratio as int),
{
    let one = FX_ONE as int;
    let c = a.attack_coeff as int;
    let r = a.attack_target_ratio as int;
    let o = a.output as int;
    let big = (one + r) * (one - c);
    let m = o * c;
    vstd::arithmetic::div_mod::lemma_fundamental_div_mod(big, one);
    vstd::arithmetic::div_mod::lemma_mod_bound(big, one);
    vstd::arithmetic::div_mod::lemma_fundamental_div_mod(m, one);
    vstd::arithmetic::div_mod::lemma_mod_bound(m, one);
    assert(big + m - o * one == (one - c) * (one + r - o)) by (nonlinear_arith)
        requires
            big == (one + r) * (one - c),
            m == o * c,
    ;
    assert((one - c) * (one + r - o) >= (one - c) * r) by (nonlinear_arith)
        requires
            o <= one,
            c <= one,
    ;
    let ab = a.attack_base as int;
    let mm = fx_mul_spec(o, c);
    assert(one * ab > big - one);
    assert(one * mm > m - one);
    assert(one * (ab + mm - o) > (one - c) * r - 2 * one);
    assert(ab + mm - o >= 0) by (nonlinear_arith)
        requires
            one * (ab + mm - o) > one,
            one > 0,
    ;
}

/// During Release the output never rises: each advance lowers it until the
/// step whose recurrence reaches zero; that step clamps the output to
/// exactly zero and is the one that returns to Idle. While the release is
/// still falling, each step closes at least the ratio times the remaining
/// multiplier gap, less rounding, so the segment ends in boundedly many
/// steps.
pub proof fn lemma_release_falls(a: ADSR)
    requires
        adsr_wf(a),
        a.state == ADSRState::Release,
    ensures
        adsr_step_spec(a).output <= a.output,
        adsr_step_spec(a).state == ADSRState::Idle <==> a.release_base as int + fx_mul_spec(
            a.output as int,
            a.release_coeff as int,
        ) <= 0,
        adsr_step_spec(a).state == ADSRState::Idle ==> adsr_step_spec(a).output == 0,
        adsr_step_spec(a).state == ADSRState::Release ==> (FX_ONE as int) * (a.output
            - adsr_step_spec(a).output) + FX_ONE as int > (a.dr_target_ratio as int) * (
        FX_ONE as int - a.release_coeff as int),
{
    let one = FX_ONE as int;
    let c = a.release_coeff as int;
    let r = a.dr_target_ratio as int;
    let o = a.output as int;
    let big = r * (one - c);
    let m = o * c;
    vstd::arithmetic::div_mod::lemma_fundamental_div_mod(big, one);
    vstd::arithmetic::div_mod::lemma_mod_bound(big, one);
    vstd::arithmetic::div_mod::lemma_fundamental_div_mod(m, one);
    vstd::arithmetic::div_mod::lemma_mod_bound(m, one);
    lemma_fx_mul_unit(o, c);
    lemma_fx_mul_unit(r, one - c);
    let rb = a.release_base as int;
    let mm = fx_mul_spec(o, c);
    assert(one * rb < -big + one);
    assert(one * mm <= m);
    assert(o * (one - c) >= 0) by (nonlinear_arith)
        requires
            o >= 0,
            c <= one,
    ;
    assert(one * (o - rb - mm) > o * (one - c) + big - one) by (nonlinear_arith)
        requires
            one * rb < -big + one,
            one * mm <= m,
            m == o * c,
    ;
}

/// The decay base product stays within one unit of magnitude on each side.
proof fn lemma_decay_base_fits(sustain: int, ratio: int, coeff: int)
    requires
        0 <= sustain <= FX_ONE as int,
        RATIO_FLOOR as int <= ratio <= RATIO_CAP as int,
        0 <= coeff <= FX_ONE as int,
    ensures
        -(RATIO_CAP as int) - 1 <= decay_base_spec(sustain, ratio, coeff) <= FX_ONE as int,
{
    let a = sustain - ratio;
    let b = FX_ONE as int - coeff;
    if a >= 0 {
        lemma_fx_mul_unit(a, b);
    } else {
        crate::fixed::lemma_fx_mul_bounds(a, b, RATIO_CAP as int, FX_ONE as int);
        vstd::arithmetic::div_mod::lemma_div_by_multiple(RATIO_CAP as int, FX_ONE as int);
        assert(a * b <= 0) by (nonlinear_arith)
            requires
                a < 0,
                b >= 0,
        ;
        vstd::arithmetic::div_mod::lemma_div_is_ordered(a * b, 0, FX_ONE as int);
        vstd::arithmetic::div_mod::lemma_div_of0(FX_ONE as int);
    }
}

} // verus!
