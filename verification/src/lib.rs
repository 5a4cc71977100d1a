//! A monophonic waveform synthesizer with a time-varying biquad filter.
//!
//! The library generates short sawtooth or pulse waveforms and streams
//! them through a second-order recursive filter whose cutoff frequency
//! decays over the duration of the note.  All signal values are Q31.32
//! fixed-point integers (see [`fixed::SCALE`]), so the whole pipeline is
//! verified: buffer lengths, sample ranges, the clamping rules and the
//! per-sample recurrence are all stated in the contracts and proved.

pub mod audio_renderer;
pub mod filter;
pub mod fixed;
pub mod math;
pub mod oscillator;
pub mod text;

pub use audio_renderer::render_audio;
pub use filter::BiquadFilter;
pub use oscillator::generate_pulse;
pub use oscillator::generate_sawtooth;
