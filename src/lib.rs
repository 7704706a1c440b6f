//! Speech capture core: energy-based voice activity detection, resampling to the
//! transcription rate, bounded sample buffers and the session state machines,
//! with the capture-source, sign-in callback and push-to-talk rules around them.
pub mod buffer;
pub mod capture;
pub mod dsp;
pub mod grid;
pub mod oauth;
pub mod ptt;
pub mod session;
pub mod text;
pub mod transcript;
pub mod vad;
