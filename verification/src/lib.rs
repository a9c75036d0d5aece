//! A real-time, allocation-free audio synthesis core: oscillators,
//! envelopes, filters and a Schroeder-style reverb composed into a scene
//! that produces one mono sample at a time, for a live callback or an
//! offline WAV render.
//!
//! Samples, coefficients and control values are Q32.32 fixed-point numbers
//! held in `i64`: the value `v` stands for the real number `v / 2^32`, and
//! [`fixed::ONE`] is `1.0`.  Working over integers keeps every signal-path
//! operation exact, so each component's contract can state the precise
//! difference equation it implements.
//!
//! Layout, leaves first:
//! - [`fixed`]     : Q32.32 arithmetic (multiply, divide, clamp, square root)
//! - [`qmath`]     : exponential, logarithm and sine kernels
//! - [`dsp`]       : scalar utilities, dB conversion, meters, block helpers
//! - [`envelopes`] : ADSR (linear and exponential), AR, slew limiter
//! - [`filters`]   : one-pole low/high-pass, DC blocker, TPT state-variable
//! - [`nodes`]     : oscillators, LFO, drift modulator, smoother, mixer, pan
//! - [`reverb`]    : mono tank over fixed-capacity delay lines
//! - [`graph`]     : the `Generator` capability and the `Engine` wrapper
//! - [`scenes`]    : the bundled slow-drone scene
//! - [`wav`]       : PCM conversion and RIFF/WAVE serialization

pub mod fixed;
pub mod qmath;
pub mod dsp;
pub mod envelopes;
pub mod filters;
pub mod nodes;
pub mod reverb;
pub mod graph;
pub mod scenes;
pub mod wav;
