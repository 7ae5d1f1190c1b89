//! A multi-waveform oscillator usable as a sound source or an LFO.
//!
//! The waveform kind is fixed at construction. Every call to a
//! sample-producing method computes one output from the current phase and
//! advances the phase by the effective frequency over the sample rate.

use crate::audio_source::AudioSource;
use crate::fixed::{
    clamp_spec, fx_clamp, fx_div, fx_div_spec, fx_mul, fx_mul_spec, lemma_fx_div_bounds,
    lemma_fx_mul_bounds, sin_tau, sin_tau_spec, DEFAULT_RATE_FX, FX_HALF, FX_ONE, FX_QUARTER, MAX_RATE_FX,
};
use vstd::prelude::*;

verus! {

/// The widest oscillator frequency the library accepts, one million hertz.
pub const MAX_FREQ_FX: i64 = 4294967296000000;

/// The widest pitch-modulation fraction accepted, sixteen whole units.
pub const PITCH_MOD_LIMIT_FX: i64 = 68719476736;

/// The default frequency of a new oscillator: A4, 440 Hz.
pub const DEFAULT_FREQ_FX: i64 = 1889785610240;

/// The waveform shapes an oscillator can produce.
#[derive(Clone, Copy, PartialEq, Eq, Structural, Debug)]
pub enum OscillatorType {
    Sin,
    Saw,
    Square,
    Pulse,
    Triangle,
}

/// A periodic signal source tracking its position inside one cycle.
pub struct Oscillator {
    /// The waveform kind, fixed per instance.
    pub osc_type: OscillatorType,
    /// Frequency in fixed-point hertz; non-positive means silent.
    pub frequency: i64,
    /// Position within the cycle, wrapped whenever it crosses the
    /// waveform-specific threshold so it never grows unbounded.
    pub phase: i64,
    /// Duty threshold for the pulse waveform, clamped to [0, 1] on every
    /// evaluation.
    pub pulsewidth: i64,
    /// The host sample rate in fixed-point hertz.
    pub sample_rate: i64,
}

/// The oscillator invariant: rate and frequency within the supported ranges,
/// phase within its wrap window.
pub open spec fn osc_wf(o: Oscillator) -> bool {
    &&& FX_ONE as int <= o.sample_rate <= MAX_RATE_FX as int
    &&& -(MAX_FREQ_FX as int) <= o.frequency <= MAX_FREQ_FX as int
    &&& -2 * (FX_ONE as int) <= o.phase <= 3 * (FX_ONE as int)
}

/// One conditional wrap at the end of the unit cycle.
pub open spec fn wrap_unit(p: int) -> int {
    if p >= FX_ONE as int {
        p - FX_ONE as int
    } else {
        p
    }
}

/// The phase advance for one sample: the pitch-modulated frequency, clamped
/// to [0, MAX_FREQ], divided by the sample rate, capped at one full cycle
/// per sample.
pub open spec fn phase_inc_spec(freq: int, sr: int, pm: int) -> int {
    let pmc = clamp_spec(pm, -(PITCH_MOD_LIMIT_FX as int), PITCH_MOD_LIMIT_FX as int);
    let eff = clamp_spec(freq + fx_mul_spec(freq, pmc), 0, MAX_FREQ_FX as int);
    let raw = fx_div_spec(eff, sr);
    if raw > FX_ONE as int {
        FX_ONE as int
    } else {
        raw
    }
}

/// One oscillator step: the output sample and the successor state. Every
/// waveform computes its output from the current phase, before the phase
/// advances (the sine reads it before even the wrap, the others after it,
/// and the pulse against the freshly clamped width). With a non-positive
/// frequency the oscillator is silent and does not move.
pub open spec fn osc_step_spec(o: Oscillator, pm: int) -> (int, Oscillator) {
    if o.frequency <= 0 {
        (0int, o)
    } else {
        let inc = phase_inc_spec(o.frequency as int, o.sample_rate as int, pm);
        match o.osc_type {
            OscillatorType::Sin => {
                let ph = wrap_unit(o.phase as int) + inc;
                (sin_tau_spec(o.phase as int), Oscillator { phase: ph as i64, ..o })
            },
            OscillatorType::Saw => {
                let ph = (if o.phase >= FX_ONE {
                    o.phase - 2 * (FX_ONE as int)
                } else {
                    o.phase as int
                }) + 2 * inc;
                (o.phase as int, Oscillator { phase: ph as i64, ..o })
            },
            OscillatorType::Square => {
                let p = wrap_unit(o.phase as int);
                let out: int = if p < FX_HALF as int {
                    FX_ONE as int
                } else {
                    -(FX_ONE as int)
                };
                (out, Oscillator { phase: (p + inc) as i64, ..o })
            },
            OscillatorType::Triangle => {
                let p = wrap_unit(o.phase as int);
                let out: int = if p <= FX_HALF as int {
                    (p - FX_QUARTER as int) * 4
                } else {
                    (FX_ONE as int - p - FX_QUARTER as int) * 4
                };
                (out, Oscillator { phase: (p + inc) as i64, ..o })
            },
            OscillatorType::Pulse => {
                let pw = clamp_spec(o.pulsewidth as int, 0, FX_ONE as int);
                let p = wrap_unit(o.phase as int);
                let out: int = if p < pw {
                    FX_ONE as int
                } else {
                    -(FX_ONE as int)
                };
                (out, Oscillator { phase: (p + inc) as i64, pulsewidth: pw as i64, ..o })
            },
        }
    }
}

impl Oscillator {
    /// Builds an oscillator; frequency and sample rate are clamped into their
    /// supported ranges and the phase starts at zero.
    pub fn new(osc_type: OscillatorType, freq: i64, pw: i64, sr: i64) -> (r: Oscillator)
        ensures
            r.osc_type == osc_type,
            r.frequency == clamp_spec(freq as int, -(MAX_FREQ_FX as int), MAX_FREQ_FX as int),
            r.phase == 0,
            r.pulsewidth == pw,
            r.sample_rate == clamp_spec(sr as int, FX_ONE as int, MAX_RATE_FX as int),
            osc_wf(r),
    {
        Oscillator {
            osc_type,
            frequency: fx_clamp(freq, -MAX_FREQ_FX, MAX_FREQ_FX),
            phase: 0,
            pulsewidth: pw,
            sample_rate: fx_clamp(sr, FX_ONE, MAX_RATE_FX),
        }
    }

    /// Sets the oscillator frequency, clamped into the supported range; a
    /// non-positive value silences the oscillator.
    pub fn set_frequency(&mut self, freq: i64)
        ensures
            final(self).frequency == clamp_spec(
                freq as int,
                -(MAX_FREQ_FX as int),
                MAX_FREQ_FX as int,
            ),
            *final(self) == (Oscillator { frequency: final(self).frequency, ..*old(self) }),
    {
        self.frequency = fx_clamp(freq, -MAX_FREQ_FX, MAX_FREQ_FX);
    }

    /// Sets the pulse width; only the pulse waveform reads it, clamping it
    /// to [0, 1] on each evaluation.
    pub fn set_pulsewidth(&mut self, pw: i64)
        ensures
            *final(self) == (Oscillator { pulsewidth: pw, ..*old(self) }),
    {
        self.pulsewidth = pw;
    }

    /// Produces the next sample with a pitch modulation applied for this one
    /// step: the given fraction of the current frequency is added to it, so
    /// 1.0 doubles the pitch and -1.0 silences it.
    ///
    /// With frequency at or below zero the result is exactly zero and the
    /// state, the phase included, does not change.
    pub fn get_next_sample_with_pitch_mod(&mut self, pitch_mod: i64) -> (r: i64)
        requires
            osc_wf(*old(self)),
        ensures
            osc_wf(*final(self)),
            r == osc_step_spec(*old(self), pitch_mod as int).0,
            *final(self) == osc_step_spec(*old(self), pitch_mod as int).1,
            old(self).frequency <= 0 ==> r == 0 && *final(self) == *old(self),
    {
        if self.frequency <= 0 {
            return 0;
        }
        let pmc = fx_clamp(pitch_mod, -PITCH_MOD_LIMIT_FX, PITCH_MOD_LIMIT_FX);
        proof {
            lemma_fx_mul_bounds(
                self.frequency as int,
                pmc as int,
                MAX_FREQ_FX as int,
                PITCH_MOD_LIMIT_FX as int,
            );
        }
        let eff = fx_clamp(self.frequency + fx_mul(self.frequency, pmc), 0, MAX_FREQ_FX);
        proof {
            lemma_fx_div_bounds(eff as int, self.sample_rate as int);
        }
        let raw = fx_div(eff, self.sample_rate);
        let inc = if raw > FX_ONE {
            FX_ONE
        } else {
            raw
        };
        match self.osc_type {
            OscillatorType::Sin => {
                let out = sin_tau(self.phase);
                if self.phase >= FX_ONE {
                    self.phase = self.phase - FX_ONE;
                }
                self.phase = self.phase + inc;
                out
            },
            OscillatorType::Saw => {
                let out = self.phase;
                if self.phase >= FX_ONE {
                    self.phase = self.phase - 2 * FX_ONE;
                }
                self.phase = self.phase + 2 * inc;
                out
            },
            OscillatorType::Square => {
                if self.phase >= FX_ONE {
                    self.phase = self.phase - FX_ONE;
                }
                let out = if self.phase < FX_HALF {
                    FX_ONE
                } else {
                    -FX_ONE
                };
                self.phase = self.phase + inc;
                out
            },
            OscillatorType::Triangle => {
                if self.phase >= FX_ONE {
                    self.phase = self.phase - FX_ONE;
                }
                let out = if self.phase <= FX_HALF {
                    (self.phase - FX_QUARTER) * 4
                } else {
                    (FX_ONE - self.phase - FX_QUARTER) * 4
                };
                self.phase = self.phase + inc;
                out
            },
            OscillatorType::Pulse => {
                if self.phase >= FX_ONE {
                    self.phase = self.phase - FX_ONE;
                }
                self.pulsewidth = fx_clamp(self.pulsewidth, 0, FX_ONE);
                let out = if self.phase < self.pulsewidth {
                    FX_ONE
                } else {
                    -FX_ONE
                };
                self.phase = self.phase + inc;
                out
            },
        }
    }
}

impl Default for Oscillator {
    /// A sine oscillator at A4 and 44100 Hz with a centered pulse width.
    fn default() -> (r: Oscillator)
        ensures
            r.osc_type == OscillatorType::Sin,
            r.frequency == DEFAULT_FREQ_FX,
            r.phase == 0,
            r.pulsewidth == FX_HALF,
            r.sample_rate == DEFAULT_RATE_FX,
            osc_wf(r),
    {
        Oscillator {
            osc_type: OscillatorType::Sin,
            frequency: DEFAULT_FREQ_FX,
            phase: 0,
            pulsewidth: FX_HALF,
            sample_rate: DEFAULT_RATE_FX,
        }
    }
}

impl AudioSource for Oscillator {
    open spec fn src_wf(&self) -> bool {
        osc_wf(*self)
    }

    open spec fn src_rate(&self) -> int {
        self.sample_rate as int
    }

    /// Produces the next sample without pitch modulation.
    fn get_next_sample(&mut self) -> (r: i64)
        ensures
            r == osc_step_spec(*old(self), 0).0,
            *final(self) == osc_step_spec(*old(self), 0).1,
    {
        self.get_next_sample_with_pitch_mod(0)
    }

    /// Stores the new rate, clamped; nothing else changes.
    fn set_sample_rate(&mut self, sr: i64)
        ensures
            *final(self) == (Oscillator { sample_rate: final(self).sample_rate, ..*old(self) }),
    {
        self.sample_rate = fx_clamp(sr, FX_ONE, MAX_RATE_FX);
    }
}

} // verus!
