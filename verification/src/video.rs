//! Frame analysis: the batch keyframe extractor and the single-frame pipeline.

pub mod crop;
pub mod deduplicator;
pub mod diff_filter;
pub mod frame;
pub mod manager;
pub mod phash;
pub mod pipeline;
pub mod region;
pub mod simple_detector;
pub mod state_machine;
pub mod text_detector;
