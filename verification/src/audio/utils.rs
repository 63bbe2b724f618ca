//! Bringing a waveform to the pipeline's format: mono at 16 kHz.
//!
//! The arithmetic on samples is the caller's: it hands over how a group of
//! samples is averaged and how the sinc resampler is run. What is decided
//! here is which of them is used, on which samples, and in what order.

use vstd::prelude::*;
use vstd::string::*;
use vstd::slice::*;
use crate::audio::error::AudioError;
use crate::audio::vad::{chunk_at, chunk_bounds, chunk_count, chunks, SAMPLE_RATE};

verus! {

/// Length of the sinc filter.
pub const SINC_LEN: usize = 48;

/// Cutoff of the sinc filter relative to the Nyquist frequency, in per-mille.
pub const SINC_CUTOFF_PERMILLE: u32 = 900;

/// Oversampling factor of the sinc filter.
pub const SINC_OVERSAMPLING: usize = 4;

/// How the sinc resampler interpolates between the oversampled points.
#[derive(Debug, Clone, Copy, PartialEq, Eq, Structural)]
pub enum Interpolation {
    Cubic,
}

/// The window of the sinc filter.
#[derive(Debug, Clone, Copy, PartialEq, Eq, Structural)]
pub enum Window {
    BlackmanHarris2,
}

/// The settings of the sinc resampler. The resampling ratio is `target_rate / in_rate`.
#[derive(Debug, Clone, Copy, PartialEq, Eq, Structural)]
pub struct SincSettings {
    pub in_rate: u32,
    pub target_rate: u32,
    pub sinc_len: usize,
    pub cutoff_permille: u32,
    pub oversampling_factor: usize,
    pub interpolation: Interpolation,
    pub window: Window,
}

/// How a waveform at some rate is brought to 16 kHz.
#[derive(Debug, Clone, Copy, PartialEq, Eq, Structural)]
pub enum ResamplePlan {
    /// It is at 16 kHz already.
    Identity,
    /// The rate is a multiple of 16 kHz: every `factor` samples are averaged.
    BoxAverage { factor: usize },
    /// Any other rate goes through the sinc resampler.
    Sinc { settings: SincSettings },
}

/// The sinc settings for a waveform at `in_rate`.
pub open spec fn sinc_settings(in_rate: u32) -> SincSettings {
    SincSettings {
        in_rate,
        target_rate: SAMPLE_RATE,
        sinc_len: SINC_LEN,
        cutoff_permille: SINC_CUTOFF_PERMILLE,
        oversampling_factor: SINC_OVERSAMPLING,
        interpolation: Interpolation::Cubic,
        window: Window::BlackmanHarris2,
    }
}

/// The plan for a waveform at `in_rate`.
pub open spec fn plan_for(in_rate: u32) -> ResamplePlan {
    if in_rate == SAMPLE_RATE {
        ResamplePlan::Identity
    } else if in_rate % SAMPLE_RATE == 0 {
        ResamplePlan::BoxAverage { factor: (in_rate / SAMPLE_RATE) as usize }
    } else {
        ResamplePlan::Sinc { settings: sinc_settings(in_rate) }
    }
}

/// Chooses how to resample from `in_rate`.
pub fn resample_plan(in_rate: u32) -> (plan: ResamplePlan)
    requires
        in_rate > 0,
    ensures
        plan == plan_for(in_rate),
        plan matches ResamplePlan::BoxAverage { factor } ==> factor >= 2,
{
    if in_rate == SAMPLE_RATE {
        ResamplePlan::Identity
    } else if in_rate % SAMPLE_RATE == 0 {
        ResamplePlan::BoxAverage { factor: (in_rate / SAMPLE_RATE) as usize }
    } else {
        ResamplePlan::Sinc {
            settings: SincSettings {
                in_rate,
                target_rate: SAMPLE_RATE,
                sinc_len: SINC_LEN,
                cutoff_permille: SINC_CUTOFF_PERMILLE,
                oversampling_factor: SINC_OVERSAMPLING,
                interpolation: Interpolation::Cubic,
                window: Window::BlackmanHarris2,
            },
        }
    }
}

/// `value` is what `average` makes of the `i`-th group of `factor` samples of `input`.
pub open spec fn averages_group<T, A: Fn(&[T]) -> T>(
    average: &A,
    input: Seq<T>,
    factor: int,
    i: int,
    value: T,
) -> bool {
    exists|group: &[T]|
        {
            &&& #[trigger] average.ensures((group,), value)
            &&& group@ == input.subrange(
                chunk_at(input.len() as int, factor, i).0 as int,
                chunk_at(input.len() as int, factor, i).1 as int,
            )
        }
}

/// Replaces every group of `factor` consecutive samples by what `average`
/// makes of it; the last group holds what is left.
pub fn downsample_by_factor<T: Copy, A: Fn(&[T]) -> T>(input: &[T], factor: usize, average: &A) -> (output:
    Vec<T>)
    requires
        factor > 0,
        forall|group: &[T]| group@.len() > 0 ==> #[trigger] average.requires((group,)),
    ensures
        output@.len() == chunk_count(input@.len() as int, factor as int),
        forall|i: int|
            0 <= i < output@.len() ==> #[trigger] averages_group(
                average,
                input@,
                factor as int,
                i,
                output@[i],
            ),
{
    let bounds = chunk_bounds(input.len(), factor);
    let mut output: Vec<T> = Vec::new();
    let mut i: usize = 0;
    while i < bounds.len()
        invariant
            factor > 0,
            i <= bounds.len(),
            input@.len() == input.len(),
            bounds@ == chunks(input@.len() as int, factor as int),
            forall|group: &[T]| group@.len() > 0 ==> #[trigger] average.requires((group,)),
            output@.len() == i,
            forall|k: int|
                0 <= k < i ==> #[trigger] averages_group(
                    average,
                    input@,
                    factor as int,
                    k,
                    output@[k],
                ),
        decreases bounds.len() - i,
    {
        let (start, end) = bounds[i];
        proof {
            crate::audio::vad::lemma_chunk_starts(input@.len() as int, factor as int, i as int);
            assert(bounds@[i as int] == chunk_at(input@.len() as int, factor as int, i as int));
            assert(start == i * factor);
            assert(start < end <= input@.len());
        }
        let group = slice_subrange(input, start, end);
        let value = average(group);
        proof {
            assert(average.ensures((group,), value));
            assert(averages_group(average, input@, factor as int, i as int, value));
        }
        output.push(value);
        i = i + 1;
    }
    output
}

/// What `resample_to_16k_mono` hands back: the input itself at 16 kHz; at a
/// multiple of 16 kHz one average for every group of `factor` samples; else
/// what the sinc resampler answers, its failure as a `Resample` error.
pub open spec fn is_resampled<T, A: Fn(&[T]) -> T>(
    input: Seq<T>,
    in_rate: u32,
    result: Result<Vec<T>, AudioError>,
    average: &A,
    sinc_answer: spec_fn(Result<Vec<T>, String>) -> bool,
) -> bool {
    match plan_for(in_rate) {
        ResamplePlan::Identity => result.is_ok() && result.unwrap()@ == input,
        ResamplePlan::BoxAverage { factor } => {
            &&& result.is_ok()
            &&& result.unwrap()@.len() == chunk_count(input.len() as int, factor as int)
            &&& forall|i: int|
                0 <= i < result.unwrap()@.len() ==> #[trigger] averages_group(
                    average,
                    input,
                    factor as int,
                    i,
                    result.unwrap()@[i],
                )
        },
        ResamplePlan::Sinc { settings } => match result {
            Ok(output) => sinc_answer(Ok(output)),
            Err(AudioError::Resample(detail)) => sinc_answer(Err(detail)),
            Err(_) => false,
        },
    }
}

/// Brings a mono waveform to 16 kHz: unchanged at 16 kHz, by averaging
/// groups of samples at a multiple of 16 kHz, else by the sinc resampler,
/// whose failure is reported as a `Resample` error.
pub fn resample_to_16k_mono<
    T: Copy,
    A: Fn(&[T]) -> T,
    S: FnOnce(&[T], SincSettings) -> Result<Vec<T>, String>,
>(input: &[T], in_rate: u32, average: &A, sinc: S) -> (result: Result<Vec<T>, AudioError>)
    requires
        in_rate > 0,
        plan_for(in_rate) is BoxAverage ==> forall|group: &[T]|
            group@.len() > 0 ==> #[trigger] average.requires((group,)),
        plan_for(in_rate) is Sinc ==> sinc.requires((input, sinc_settings(in_rate))),
    ensures
        is_resampled(
            input@,
            in_rate,
            result,
            average,
            |answer: Result<Vec<T>, String>| sinc.ensures((input, sinc_settings(in_rate)), answer),
        ),
{
    match resample_plan(in_rate) {
        ResamplePlan::Identity => Ok(slice_to_vec(input)),
        ResamplePlan::BoxAverage { factor } => Ok(downsample_by_factor(input, factor, average)),
        ResamplePlan::Sinc { settings } => {
            match sinc(input, settings) {
                Ok(output) => Ok(output),
                Err(detail) => Err(AudioError::Resample(detail)),
            }
        },
    }
}

// ---------------------------------------------------------------------------
// WAV input
// ---------------------------------------------------------------------------

/// How the interleaved samples of a WAV file become mono.
#[derive(Debug, Clone, Copy, PartialEq, Eq, Structural)]
pub enum Mixdown {
    /// One channel: every sample is taken as it is.
    Mono,
    /// More channels: the first two samples of every frame are averaged.
    AverageFirstTwo,
}

/// What to do with a WAV file once its header is read.
#[derive(Debug, Clone, Copy, PartialEq, Eq, Structural)]
pub struct WavPlan {
    pub mixdown: Mixdown,
    /// Samples to skip after the first two of every frame.
    pub skip_per_frame: u16,
    pub resample: ResamplePlan,
}

/// The plan for a WAV file with the given header fields.
pub open spec fn wav_plan_for(sample_rate: u32, channels: u16) -> WavPlan {
    WavPlan {
        mixdown: if channels == 1 {
            Mixdown::Mono
        } else {
            Mixdown::AverageFirstTwo
        },
        skip_per_frame: if channels > 2 {
            (channels - 2) as u16
        } else {
            0
        },
        resample: plan_for(sample_rate),
    }
}

/// Decides how a WAV file is read. A sample rate of 0 is rejected as a format error.
pub fn wav_plan(sample_rate: u32, channels: u16) -> (plan: Result<WavPlan, AudioError>)
    ensures
        match plan {
            Ok(p) => sample_rate > 0 && p == wav_plan_for(sample_rate, channels),
            Err(AudioError::Wav(detail)) => sample_rate == 0 && detail@ == "invalid sample rate"@,
            Err(_) => false,
        },
{
    if sample_rate == 0 {
        return Err(AudioError::Wav(String::from_str("invalid sample rate")));
    }
    Ok(
        WavPlan {
            mixdown: if channels == 1 {
                Mixdown::Mono
            } else {
                Mixdown::AverageFirstTwo
            },
            skip_per_frame: if channels > 2 {
                channels - 2
            } else {
                0
            },
            resample: resample_plan(sample_rate),
        },
    )
}

} // verus!
