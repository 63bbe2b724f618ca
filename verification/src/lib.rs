//! Keyframe extraction for recipe videos and the decision logic of a
//! voice-activity-gated transcription pipeline.
//!
//! All times and ratios are integers: timestamps are milliseconds, audio
//! positions are ticks of 1/16000 s, ratios are percent or per-mille.

pub mod arith;
pub mod audio;
pub mod bits;
pub mod video;
pub mod xhs;
