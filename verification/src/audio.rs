//! The decisions of the transcription pipeline: how a waveform is fed to the
//! voice-activity detector, which stretches of it go to the recogniser, and
//! what the transcript says. The engines themselves are driven by the caller.

pub mod error;
pub mod handler;
pub mod text;
pub mod transcript;
pub mod utils;
pub mod vad;
