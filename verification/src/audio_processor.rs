//! Capability contract for an audio utility that transforms samples.

use crate::fixed::{clamp_spec, FX_ONE, MAX_RATE_FX};
use vstd::prelude::*;

verus! {

/// A stateful per-sample signal processor.
pub trait AudioProcessor {
    /// The well-formedness every method assumes and preserves.
    spec fn proc_wf(&self) -> bool;

    /// The sample rate the processor currently runs at, in fixed-point hertz.
    spec fn proc_rate(&self) -> int;

    /// Processes a single sample and returns the output, advancing internal
    /// state by exactly one time step.
    fn process_sample(&mut self, sample: i64) -> (r: i64)
        requires
            old(self).proc_wf(),
        ensures
            final(self).proc_wf(),
            final(self).proc_rate() == old(self).proc_rate(),
    ;

    /// Sets the current sample rate, clamped to the supported range; the
    /// host must call this whenever its sample rate changes.
    fn set_sample_rate(&mut self, sr: i64)
        requires
            old(self).proc_wf(),
        ensures
            final(self).proc_wf(),
            final(self).proc_rate() == clamp_spec(sr as int, FX_ONE as int, MAX_RATE_FX as int),
    ;
}

} // verus!
