//! What the recogniser asks of its caller.

use vstd::prelude::*;
use vstd::string::*;
use crate::audio::error::AudioError;
use crate::audio::text::{decimal, push_decimal};
use crate::audio::vad::SAMPLE_RATE;

verus! {

/// The recogniser never runs on more threads than this.
pub const MAX_THREADS: usize = 4;

/// The rules of the recogniser: its thread count and the sample rate it takes.
pub struct NcnnHandle;

/// The error for samples that are not at `SAMPLE_RATE`.
pub open spec fn invalid_rate_text(sample_rate: u32) -> Seq<char> {
    "Invalid sample rate: "@ + decimal(sample_rate as nat) + "Hz (expected 16000Hz)"@
}

/// `checked` is the recogniser's answer to samples at `sample_rate`.
pub open spec fn is_asr_rate_check(sample_rate: u32, checked: Result<(), AudioError>) -> bool {
    match checked {
        Ok(_) => sample_rate == SAMPLE_RATE,
        Err(AudioError::SherpaNcnn(text)) => sample_rate != SAMPLE_RATE && text@ == invalid_rate_text(
            sample_rate,
        ),
        Err(_) => false,
    }
}

impl NcnnHandle {
    /// Threads for the recogniser on a machine with `available` processors:
    /// all of them, but no more than `MAX_THREADS`.
    pub fn thread_count(available: usize) -> (threads: i32)
        ensures
            threads == (if available <= MAX_THREADS {
                available as int
            } else {
                MAX_THREADS as int
            }),
    {
        if available <= MAX_THREADS {
            available as i32
        } else {
            MAX_THREADS as i32
        }
    }

    /// The recogniser only takes samples at `SAMPLE_RATE`.
    pub fn check_sample_rate(sample_rate: u32) -> (checked: Result<(), AudioError>)
        ensures
            is_asr_rate_check(sample_rate, checked),
    {
        if sample_rate == SAMPLE_RATE {
            Ok(())
        } else {
            let mut text = String::from_str("Invalid sample rate: ");
            push_decimal(&mut text, sample_rate as u64);
            text.append("Hz (expected 16000Hz)");
            Err(AudioError::SherpaNcnn(text))
        }
    }
}

} // verus!
