//! Real-time audio DSP primitives in Q32.32 fixed point: a multi-waveform
//! oscillator, a state-variable filter, and an ADSR envelope generator, each
//! advanced one sample at a time by a host audio callback.

pub mod adsr;
pub mod audio_processor;
pub mod audio_source;
pub mod fixed;
pub mod functions;
pub mod oscillator;
pub mod state_variable_filter;
