//! Pure pitch/frequency conversions between MIDI-style note numbers and
//! fixed-point frequencies, around the A4 = note 69 = 440 Hz convention.

use crate::fixed::{
    clamp_spec, exp2_fx, exp2_spec, fx_clamp, fx_mul, fx_mul_spec, log2_fx, log2_spec, FX_HALF,
    FX_ONE,
};
use vstd::prelude::*;

verus! {

/// The note number of the reference pitch A4.
pub const A4_PITCH: i64 = 69;

/// The frequency of the reference pitch A4: 440 Hz.
pub const A4_FREQUENCY_FX: i64 = 1889785610240;

/// The frequency of a note number: 440 Hz moved by a twelfth of an octave
/// per semitone away from A4.
pub open spec fn mtof_spec(note: int) -> int {
    fx_mul_spec(exp2_spec(((note - 69) * (FX_ONE as int)) / 12), A4_FREQUENCY_FX as int)
}

/// The note number nearest to a frequency: 69 plus twelve times the binary
/// logarithm of the ratio to 440 Hz, rounded to the nearest integer and
/// clamped into the note range.
pub open spec fn ftom_spec(freq: int) -> int {
    let l = log2_spec(freq) - log2_spec(A4_FREQUENCY_FX as int);
    clamp_spec(69 + (12 * l + FX_HALF as int) / (FX_ONE as int), 0, 255)
}

/// Converts a note number to a fixed-point frequency in hertz.
pub fn mtof(note: u8) -> (r: i64)
    ensures
        r == mtof_spec(note as int),
        0 <= r,
{
    let x = ((note as i64) - A4_PITCH) * FX_ONE;
    let e = x.checked_div_euclid(12).unwrap();
    proof {
        vstd::arithmetic::div_mod::lemma_div_is_ordered(x as int, 186 * (FX_ONE as int), 12);
        vstd::arithmetic::div_mod::lemma_div_is_ordered(-69 * (FX_ONE as int), x as int, 12);
    }
    let p = exp2_fx(e);
    proof {
        crate::fixed::lemma_fx_mul_mono(p as int, A4_FREQUENCY_FX as int, 562949953421312, A4_FREQUENCY_FX as int);
        crate::fixed::lemma_fx_mul_mono(0, 0, p as int, A4_FREQUENCY_FX as int);
    }
    fx_mul(p, A4_FREQUENCY_FX)
}

/// Converts a positive fixed-point frequency in hertz to the nearest note
/// number.
pub fn ftom(freq: i64) -> (r: u8)
    requires
        1 <= freq,
    ensures
        r == ftom_spec(freq as int),
{
    let la = log2_fx(freq);
    let lb = log2_fx(A4_FREQUENCY_FX);
    let l = la - lb;
    let n = (12 * l + FX_HALF).checked_div_euclid(FX_ONE).unwrap();
    proof {
        vstd::arithmetic::div_mod::lemma_div_is_ordered(
            12 * (l as int) + FX_HALF as int,
            793 * (FX_ONE as int),
            FX_ONE as int,
        );
        vstd::arithmetic::div_mod::lemma_div_is_ordered(
            -793 * (FX_ONE as int),
            12 * (l as int) + FX_HALF as int,
            FX_ONE as int,
        );
    }
    let m = fx_clamp(A4_PITCH + n, 0, 255);
    m as u8
}

} // verus!
