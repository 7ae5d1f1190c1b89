//! Capability contract for an audio utility that generates its own samples.

use crate::fixed::{clamp_spec, FX_ONE, MAX_RATE_FX};
use vstd::prelude::*;

verus! {

/// A stateful per-sample signal source.
pub trait AudioSource {
    /// The well-formedness every method assumes and preserves.
    spec fn src_wf(&self) -> bool;

    /// The sample rate the source currently runs at, in fixed-point hertz.
    spec fn src_rate(&self) -> int;

    /// Generates a single sample, advancing internal state by exactly one
    /// time step.
    fn get_next_sample(&mut self) -> (r: i64)
        requires
            old(self).src_wf(),
        ensures
            final(self).src_wf(),
            final(self).src_rate() == old(self).src_rate(),
    ;

    /// Sets the current sample rate, clamped to the supported range; the
    /// host must call this whenever its sample rate changes.
    fn set_sample_rate(&mut self, sr: i64)
        requires
            old(self).src_wf(),
        ensures
            final(self).src_wf(),
            final(self).src_rate() == clamp_spec(sr as int, FX_ONE as int, MAX_RATE_FX as int),
    ;
}

} // verus!
