//! A state-variable filter with adjustable cutoff, resonance, and mode
//! (lowpass, bandpass, highpass).
//!
//! A trapezoidally integrated two-pole topology: coefficients are a pure
//! function of cutoff, resonance and sample rate, recomputed eagerly inside
//! the parameter setter, and two one-sample state registers persist between
//! calls. Every stored register is saturated into a wide fixed range, so the
//! state can never grow unbounded.

use crate::audio_processor::AudioProcessor;
use crate::fixed::{
    clamp_spec, fx_clamp, fx_div, fx_div_spec, fx_mul, fx_mul_spec, lemma_fx_mul_bounds,
    lemma_fx_mul_cap, lemma_sin_half_bounds, sin_tau, sin_tau_spec, DEFAULT_RATE_FX, FX_ONE,
    FX_QUARTER, MAX_RATE_FX,
};
use vstd::prelude::*;

verus! {

/// The filter tap selected as output.
#[derive(Clone, Copy, PartialEq, Eq, Structural, Debug)]
pub enum FilterType {
    Lowpass,
    Bandpass,
    Highpass,
}

/// Saturation bound for every filter register: two to the twentieth in whole
/// units, far above any audio signal.
pub const S_MAX: i64 = 4503599627370496;

/// Upper clamp for the warped frequency coefficient and the damping term,
/// sixteen whole units.
pub const G_MAX: i64 = 68719476736;

/// Upper clamp of the frequency warp argument, 0.48 of a cycle, keeping the
/// warp denominator away from zero.
pub const Q_MAX: i64 = 2061584302;

/// Resonance floor for the raw coefficient computation, one sixteenth.
pub const RES_FLOOR: i64 = 268435456;

/// Cutoff rescaling span: 19980 Hz, so normalized [0, 1] maps to
/// [20, 20000] Hz.
pub const CUT_SPAN: i64 = 85813446574080;

/// Cutoff rescaling offset: 20 Hz.
pub const CUT_MIN: i64 = 85899345920;

/// Resonance rescaling span: 9.9, so normalized [0, 1] maps to [0.1, 10].
pub const RES_SPAN: i64 = 42520176230;

/// Resonance rescaling offset: 0.1.
pub const RES_MIN: i64 = 429496729;

/// The derived coefficients of the filter: a frequency-warping term `g`, a
/// damping term `r2`, and a combined gain term `h`, along with the sample
/// rate they were computed against.
pub struct FilterState {
    /// The warped cutoff, tan(pi * cutoff / rate) by the library's sine.
    pub g: i64,
    /// The damping term, the reciprocal of the resonance.
    pub r2: i64,
    /// The combined gain, 1 / (1 + r2 g + g^2).
    pub h: i64,
    /// The sample rate the next coefficient computation will use.
    pub sample_rate: i64,
}

/// Well-formed coefficients: non-negative, clamped, with a gain at most one.
pub open spec fn fs_wf(fs: FilterState) -> bool {
    &&& 0 <= fs.g <= G_MAX as int
    &&& 0 <= fs.r2 <= G_MAX as int
    &&& 0 <= fs.h <= FX_ONE as int
    &&& FX_ONE as int <= fs.sample_rate <= MAX_RATE_FX as int
}

/// The warped frequency coefficient: tan of pi times the (clamped) cycle
/// fraction q, computed as sin(q/2 turns) over sin(q/2 + 1/4 turns), then
/// clamped into [0, G_MAX].
pub open spec fn warp_spec(sr: int, freq: int) -> int {
    let fpos = clamp_spec(freq, 0, MAX_RATE_FX as int);
    let q = clamp_spec(fx_div_spec(fpos, sr), 0, Q_MAX as int);
    clamp_spec(
        fx_div_spec(sin_tau_spec(q / 2), sin_tau_spec(q / 2 + FX_QUARTER as int)),
        0,
        G_MAX as int,
    )
}

/// The three derived coefficients for a cutoff in hertz and a raw resonance.
pub open spec fn fs_coeffs_spec(sr: int, freq: int, res: int) -> (int, int, int) {
    let g = warp_spec(sr, freq);
    let resc = clamp_spec(res, RES_FLOOR as int, i64::MAX as int);
    let r2 = fx_div_spec(FX_ONE as int, resc);
    let h = fx_div_spec(
        FX_ONE as int,
        FX_ONE as int + fx_mul_spec(r2, g) + fx_mul_spec(g, g),
    );
    (g, r2, h)
}

/// The numerator and denominator sines of the warp stay in range and the
/// denominator keeps a positive floor.
proof fn lemma_warp_sines(q: int)
    requires
        0 <= q <= Q_MAX as int,
    ensures
        0 <= sin_tau_spec(q / 2) <= FX_ONE as int,
        137438950 <= sin_tau_spec(q / 2 + FX_QUARTER as int) <= FX_ONE as int,
{
    let p1 = q / 2;
    assert(0 <= p1 <= 1030792151) by {
        vstd::arithmetic::div_mod::lemma_div_pos_is_pos(q, 2);
        vstd::arithmetic::div_mod::lemma_div_is_ordered(q, Q_MAX as int, 2);
    }
    let p2 = p1 + FX_QUARTER as int;
    vstd::arithmetic::div_mod::lemma_small_mod(p1 as nat, FX_ONE as nat);
    vstd::arithmetic::div_mod::lemma_small_mod(p2 as nat, FX_ONE as nat);
    lemma_sin_half_bounds(p1);
    lemma_sin_half_bounds(p2);
    let w = FX_ONE as int - 2 * p2;
    assert(85899346 <= w);
    assert(p2 * w >= FX_QUARTER as int * 85899346) by (nonlinear_arith)
        requires
            p2 >= FX_QUARTER as int,
            w >= 85899346,
            FX_QUARTER as int >= 0,
            85899346 >= 0,
    ;
    vstd::arithmetic::div_mod::lemma_div_is_ordered(
        FX_QUARTER as int * 85899346,
        p2 * w,
        FX_ONE as int,
    );
    let u = fx_mul_spec(p2, w);
    assert(u >= 21474836);
    let num = 32 * u;
    let den = 5 * (FX_ONE as int) - 8 * u;
    assert(num * (FX_ONE as int) >= 687194752 * (FX_ONE as int)) by (nonlinear_arith)
        requires
            num >= 687194752,
            FX_ONE as int > 0,
    ;
    vstd::arithmetic::div_mod::lemma_div_is_ordered(
        687194752 * (FX_ONE as int),
        num * (FX_ONE as int),
        den,
    );
    vstd::arithmetic::div_mod::lemma_div_is_ordered_by_denominator(
        687194752 * (FX_ONE as int),
        den,
        5 * (FX_ONE as int),
    );
    vstd::arithmetic::div_mod::lemma_div_denominator(
        687194752 * (FX_ONE as int),
        FX_ONE as int,
        5,
    );
    vstd::arithmetic::div_mod::lemma_div_by_multiple(687194752, FX_ONE as int);
}

/// Computes the coefficient triple; shared by the setter and the defaults.
fn fs_compute(sr: i64, freq: i64, res: i64) -> (r: (i64, i64, i64))
    requires
        FX_ONE as int <= sr <= MAX_RATE_FX as int,
    ensures
        (r.0 as int, r.1 as int, r.2 as int) == fs_coeffs_spec(sr as int, freq as int, res as int),
        0 <= r.0 <= G_MAX,
        0 <= r.1 <= G_MAX,
        0 <= r.2 <= FX_ONE,
{
    let fpos = fx_clamp(freq, 0, MAX_RATE_FX);
    proof {
        crate::fixed::lemma_fx_div_bounds(fpos as int, sr as int);
    }
    let q = fx_clamp(fx_div(fpos, sr), 0, Q_MAX);
    let p1 = q.checked_div_euclid(2).unwrap();
    proof {
        lemma_warp_sines(q as int);
    }
    let sa = sin_tau(p1);
    let sb = sin_tau(p1 + FX_QUARTER);
    proof {
        vstd::arithmetic::div_mod::lemma_div_is_ordered(
            sa as int * (FX_ONE as int),
            (FX_ONE as int) * (FX_ONE as int),
            sb as int,
        );
        vstd::arithmetic::div_mod::lemma_div_is_ordered_by_denominator(
            (FX_ONE as int) * (FX_ONE as int),
            137438950,
            sb as int,
        );
        vstd::arithmetic::div_mod::lemma_div_pos_is_pos(sa as int * (FX_ONE as int), sb as int);
        assert(sa as int * (FX_ONE as int) >= 0) by (nonlinear_arith)
            requires
                sa as int >= 0,
                FX_ONE as int > 0,
        ;
        assert(sa as int * (FX_ONE as int) <= (FX_ONE as int) * (FX_ONE as int))
            by (nonlinear_arith)
            requires
                sa as int <= FX_ONE as int,
                FX_ONE as int > 0,
        ;
    }
    let g = fx_clamp(fx_div(sa, sb), 0, G_MAX);
    let resc = fx_clamp(res, RES_FLOOR, i64::MAX);
    proof {
        vstd::arithmetic::div_mod::lemma_div_pos_is_pos(
            (FX_ONE as int) * (FX_ONE as int),
            resc as int,
        );
        vstd::arithmetic::div_mod::lemma_div_is_ordered_by_denominator(
            (FX_ONE as int) * (FX_ONE as int),
            RES_FLOOR as int,
            resc as int,
        );
    }
    let r2 = fx_div(FX_ONE, resc);
    proof {
        lemma_fx_mul_bounds(r2 as int, g as int, G_MAX as int, G_MAX as int);
        lemma_fx_mul_bounds(g as int, g as int, G_MAX as int, G_MAX as int);
        assert(r2 as int * (g as int) >= 0) by (nonlinear_arith)
            requires
                r2 as int >= 0,
                g as int >= 0,
        ;
        assert(g as int * (g as int) >= 0) by (nonlinear_arith)
            requires
                g as int >= 0,
        ;
        vstd::arithmetic::div_mod::lemma_div_pos_is_pos(r2 as int * (g as int), FX_ONE as int);
        vstd::arithmetic::div_mod::lemma_div_pos_is_pos(g as int * (g as int), FX_ONE as int);
    }
    let den = FX_ONE + fx_mul(r2, g) + fx_mul(g, g);
    proof {
        vstd::arithmetic::div_mod::lemma_div_pos_is_pos(
            (FX_ONE as int) * (FX_ONE as int),
            den as int,
        );
        vstd::arithmetic::div_mod::lemma_div_is_ordered_by_denominator(
            (FX_ONE as int) * (FX_ONE as int),
            FX_ONE as int,
            den as int,
        );
        vstd::arithmetic::div_mod::lemma_div_by_multiple(FX_ONE as int, FX_ONE as int);
    }
    let h = fx_div(FX_ONE, den);
    (g, r2, h)
}

impl FilterState {
    /// Recomputes the three coefficients from a cutoff in hertz and a raw
    /// resonance, against the stored sample rate.
    pub fn set_params(&mut self, freq: i64, resonance: i64)
        requires
            fs_wf(*old(self)),
        ensures
            fs_wf(*final(self)),
            final(self).sample_rate == old(self).sample_rate,
            (final(self).g as int, final(self).r2 as int, final(self).h as int)
                == fs_coeffs_spec(old(self).sample_rate as int, freq as int, resonance as int),
    {
        let (g, r2, h) = fs_compute(self.sample_rate, freq, resonance);
        self.g = g;
        self.r2 = r2;
        self.h = h;
    }

    /// Stores a new sample rate (clamped); the coefficients are recomputed
    /// from it only by the next `set_params` call.
    pub fn set_sample_rate(&mut self, sr: i64)
        requires
            fs_wf(*old(self)),
        ensures
            fs_wf(*final(self)),
            final(self).sample_rate == clamp_spec(sr as int, FX_ONE as int, MAX_RATE_FX as int),
            final(self).g == old(self).g,
            final(self).r2 == old(self).r2,
            final(self).h == old(self).h,
    {
        self.sample_rate = fx_clamp(sr, FX_ONE, MAX_RATE_FX);
    }
}

impl Default for FilterState {
    /// Coefficients for a 200 Hz cutoff and a resonance of one over the
    /// square root of two, at 44100 Hz.
    fn default() -> (r: FilterState)
        ensures
            fs_wf(r),
            r.sample_rate == DEFAULT_RATE_FX,
            (r.g as int, r.r2 as int, r.h as int) == fs_coeffs_spec(
                DEFAULT_RATE_FX as int,
                858993459200,
                3037000500,
            ),
    {
        let (g, r2, h) = fs_compute(DEFAULT_RATE_FX, 858993459200, 3037000500);
        FilterState { g, r2, h, sample_rate: DEFAULT_RATE_FX }
    }
}

/// The filter: three output taps, two state registers, the coefficient
/// block, and the tap selector.
pub struct StateVariableFilter {
    /// The host sample rate in fixed-point hertz.
    pub sample_rate: i64,
    /// The most recent lowpass tap.
    pub y_low: i64,
    /// The most recent bandpass tap.
    pub y_band: i64,
    /// The most recent highpass tap.
    pub y_high: i64,
    /// First one-sample state register.
    pub s1: i64,
    /// Second one-sample state register.
    pub s2: i64,
    /// The derived coefficients.
    pub filter_state: FilterState,
    /// Which tap `process_sample` returns.
    pub filter_type: FilterType,
}

/// The filter invariant: well-formed coefficients and every register
/// saturated within the fixed range.
pub open spec fn svf_wf(f: StateVariableFilter) -> bool {
    &&& fs_wf(f.filter_state)
    &&& FX_ONE as int <= f.sample_rate <= MAX_RATE_FX as int
    &&& -(S_MAX as int) <= f.s1 <= S_MAX as int
    &&& -(S_MAX as int) <= f.s2 <= S_MAX as int
    &&& -(S_MAX as int) <= f.y_low <= S_MAX as int
    &&& -(S_MAX as int) <= f.y_band <= S_MAX as int
    &&& -(S_MAX as int) <= f.y_high <= S_MAX as int
}

/// One filter step: the input is saturated, the highpass, bandpass and
/// lowpass taps are computed in turn with trapezoidal state updates, each
/// saturated into the register range, and the selected tap is the output.
pub open spec fn svf_step_spec(f: StateVariableFilter, sample: int) -> (int, StateVariableFilter) {
    let g = f.filter_state.g as int;
    let r2 = f.filter_state.r2 as int;
    let h = f.filter_state.h as int;
    let x = clamp_spec(sample, -(S_MAX as int), S_MAX as int);
    let hp = clamp_spec(
        fx_mul_spec(x - fx_mul_spec(f.s1 as int, r2) - fx_mul_spec(f.s1 as int, g) - f.s2, h),
        -(S_MAX as int),
        S_MAX as int,
    );
    let bp = clamp_spec(fx_mul_spec(hp, g) + f.s1, -(S_MAX as int), S_MAX as int);
    let s1 = clamp_spec(fx_mul_spec(hp, g) + bp, -(S_MAX as int), S_MAX as int);
    let lp = clamp_spec(fx_mul_spec(bp, g) + f.s2, -(S_MAX as int), S_MAX as int);
    let s2 = clamp_spec(fx_mul_spec(bp, g) + lp, -(S_MAX as int), S_MAX as int);
    let out: int = match f.filter_type {
        FilterType::Lowpass => lp,
        FilterType::Bandpass => bp,
        FilterType::Highpass => hp,
    };
    (
        out,
        StateVariableFilter {
            y_low: lp as i64,
            y_band: bp as i64,
            y_high: hp as i64,
            s1: s1 as i64,
            s2: s2 as i64,
            ..f
        },
    )
}

impl StateVariableFilter {
    /// Rescales the normalized cutoff into [20, 20000] Hz and the normalized
    /// resonance into [0.1, 10], recomputes the coefficients, and selects the
    /// output tap; out-of-range normalized inputs are clamped first.
    pub fn set_params(&mut self, cutoff: i64, res: i64, new_type: FilterType)
        requires
            svf_wf(*old(self)),
        ensures
            svf_wf(*final(self)),
            final(self).filter_type == new_type,
            (final(self).filter_state.g as int,
                final(self).filter_state.r2 as int,
                final(self).filter_state.h as int) == fs_coeffs_spec(
                old(self).filter_state.sample_rate as int,
                fx_mul_spec(clamp_spec(cutoff as int, 0, FX_ONE as int), CUT_SPAN as int)
                    + CUT_MIN as int,
                fx_mul_spec(clamp_spec(res as int, 0, FX_ONE as int), RES_SPAN as int)
                    + RES_MIN as int,
            ),
            final(self).filter_state.sample_rate == old(self).filter_state.sample_rate,
            final(self).sample_rate == old(self).sample_rate,
            final(self).s1 == old(self).s1,
            final(self).s2 == old(self).s2,
            final(self).y_low == old(self).y_low,
            final(self).y_band == old(self).y_band,
            final(self).y_high == old(self).y_high,
    {
        let c = fx_clamp(cutoff, 0, FX_ONE);
        let r = fx_clamp(res, 0, FX_ONE);
        proof {
            lemma_fx_mul_cap(c as int, CUT_SPAN as int);
            lemma_fx_mul_cap(r as int, RES_SPAN as int);
        }
        let freq = fx_mul(c, CUT_SPAN) + CUT_MIN;
        let reso = fx_mul(r, RES_SPAN) + RES_MIN;
        self.filter_state.set_params(freq, reso);
        self.filter_type = new_type;
    }
}

impl Default for StateVariableFilter {
    /// A lowpass filter at 44100 Hz with cleared registers and default
    /// coefficients.
    fn default() -> (r: StateVariableFilter)
        ensures
            svf_wf(r),
            r.sample_rate == DEFAULT_RATE_FX,
            r.y_low == 0 && r.y_band == 0 && r.y_high == 0 && r.s1 == 0 && r.s2 == 0,
            r.filter_type == FilterType::Lowpass,
            r.filter_state.sample_rate == DEFAULT_RATE_FX,
            (r.filter_state.g as int, r.filter_state.r2 as int, r.filter_state.h as int)
                == fs_coeffs_spec(DEFAULT_RATE_FX as int, 858993459200, 3037000500),
    {
        StateVariableFilter {
            sample_rate: DEFAULT_RATE_FX,
            y_low: 0,
            y_band: 0,
            y_high: 0,
            s1: 0,
            s2: 0,
            filter_state: FilterState::default(),
            filter_type: FilterType::Lowpass,
        }
    }
}

/// However the filter is driven, and whatever its parameters, one step
/// from a well-formed state gives a well-formed state and an output within
/// the register range: the response never grows unbounded and no register
/// can leave its range.
pub proof fn lemma_svf_step_bounded(f: StateVariableFilter, sample: int)
    requires
        svf_wf(f),
    ensures
        svf_wf(svf_step_spec(f, sample).1),
        -(S_MAX as int) <= svf_step_spec(f, sample).0 <= S_MAX as int,
{
}

impl AudioProcessor for StateVariableFilter {
    open spec fn proc_wf(&self) -> bool {
        svf_wf(*self)
    }

    open spec fn proc_rate(&self) -> int {
        self.sample_rate as int
    }

    /// Runs one sample through the filter and returns the selected tap.
    /// The registers stay saturated within the fixed range, so the response
    /// to any bounded drive is bounded.
    fn process_sample(&mut self, sample: i64) -> (r: i64)
        ensures
            r == svf_step_spec(*old(self), sample as int).0,
            *final(self) == svf_step_spec(*old(self), sample as int).1,
    {
        let x = fx_clamp(sample, -S_MAX, S_MAX);
        let g = self.filter_state.g;
        let r2 = self.filter_state.r2;
        let h = self.filter_state.h;
        proof {
            lemma_fx_mul_bounds(self.s1 as int, r2 as int, S_MAX as int, G_MAX as int);
            lemma_fx_mul_bounds(self.s1 as int, g as int, S_MAX as int, G_MAX as int);
        }
        let t1 = fx_mul(self.s1, r2);
        let t2 = fx_mul(self.s1, g);
        let inner = x - t1 - t2 - self.s2;
        proof {
            lemma_fx_mul_bounds(inner as int, h as int, 288230376151711744, FX_ONE as int);
        }
        let hp = fx_clamp(fx_mul(inner, h), -S_MAX, S_MAX);
        proof {
            lemma_fx_mul_bounds(hp as int, g as int, S_MAX as int, G_MAX as int);
        }
        let hg = fx_mul(hp, g);
        let bp = fx_clamp(hg + self.s1, -S_MAX, S_MAX);
        self.s1 = fx_clamp(hg + bp, -S_MAX, S_MAX);
        proof {
            lemma_fx_mul_bounds(bp as int, g as int, S_MAX as int, G_MAX as int);
        }
        let bg = fx_mul(bp, g);
        let lp = fx_clamp(bg + self.s2, -S_MAX, S_MAX);
        self.s2 = fx_clamp(bg + lp, -S_MAX, S_MAX);
        self.y_low = lp;
        self.y_band = bp;
        self.y_high = hp;
        match self.filter_type {
            FilterType::Lowpass => lp,
            FilterType::Bandpass => bp,
            FilterType::Highpass => hp,
        }
    }

    /// Stores the new rate on the filter and its coefficient block; the
    /// coefficients themselves change only at the next `set_params`.
    fn set_sample_rate(&mut self, rate: i64)
        ensures
            final(self).filter_state.sample_rate == final(self).sample_rate,
            final(self).filter_state.g == old(self).filter_state.g,
            final(self).filter_state.r2 == old(self).filter_state.r2,
            final(self).filter_state.h == old(self).filter_state.h,
            final(self).s1 == old(self).s1,
            final(self).s2 == old(self).s2,
            final(self).y_low == old(self).y_low,
            final(self).y_band == old(self).y_band,
            final(self).y_high == old(self).y_high,
            final(self).filter_type == old(self).filter_type,
    {
        self.sample_rate = fx_clamp(rate, FX_ONE, MAX_RATE_FX);
        self.filter_state.set_sample_rate(self.sample_rate);
    }
}

} // verus!
