//! What can go wrong in the audio pipeline.

use vstd::prelude::*;
use vstd::string::*;

verus! {

/// The stage that failed, with the detail reported by that stage.
#[derive(Debug, Clone, PartialEq, Eq)]
pub enum AudioError {
    /// The file is missing or cannot be read.
    Io(String),
    /// The WAV header is malformed or announces a sample rate of 0.
    Wav(String),
    /// The sample rate is not the one a stage needs, or resampling failed.
    Resample(String),
    /// The recogniser was used before a model was loaded.
    NotInitialized,
    /// A model directory is missing.
    ModelLoadFailed(String),
    /// The engine failed, or its lock is poisoned.
    SherpaNcnn(String),
}

impl AudioError {
    /// The text shown for the error.
    pub open spec fn message_text(self) -> Seq<char> {
        match self {
            AudioError::Io(detail) => "IO error: "@ + detail@,
            AudioError::Wav(detail) => "WAV format error: "@ + detail@,
            AudioError::Resample(detail) => "Resample error: "@ + detail@,
            AudioError::NotInitialized => "Model not initialized"@,
            AudioError::ModelLoadFailed(detail) => "Model load failed: "@ + detail@,
            AudioError::SherpaNcnn(detail) => "Sherpa-NCNN error: "@ + detail@,
        }
    }

    /// The text shown for the error.
    pub fn message(&self) -> (text: String)
        ensures
            text@ == self.message_text(),
    {
        match self {
            AudioError::Io(detail) => String::from_str("IO error: ").concat(detail.as_str()),
            AudioError::Wav(detail) => String::from_str("WAV format error: ").concat(
                detail.as_str(),
            ),
            AudioError::Resample(detail) => String::from_str("Resample error: ").concat(
                detail.as_str(),
            ),
            AudioError::NotInitialized => String::from_str("Model not initialized"),
            AudioError::ModelLoadFailed(detail) => String::from_str("Model load failed: ").concat(
                detail.as_str(),
            ),
            AudioError::SherpaNcnn(detail) => String::from_str("Sherpa-NCNN error: ").concat(
                detail.as_str(),
            ),
        }
    }
}

} // verus!
