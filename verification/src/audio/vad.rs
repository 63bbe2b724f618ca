//! Speech segments and the plan by which a waveform is shown to the
//! voice-activity detector.
//!
//! Positions in time are ticks of 1/16000 s: at the pipeline's sample rate
//! a tick is a sample.

use vstd::prelude::*;
use vstd::string::*;
use vstd::slice::*;
use crate::audio::error::AudioError;
use crate::audio::text::{decimal, push_decimal};
use crate::arith::lemma_mul_bound;

verus! {

/// The sample rate of the whole pipeline, and the number of ticks in a second.
pub const SAMPLE_RATE: u32 = 16000;

/// The detector takes at most this many samples at a time: one second.
pub const VAD_CHUNK_SIZE: usize = 16000;

/// A stretch of speech, in ticks: `start` is its first tick, `end` the tick after its last.
#[derive(Debug, Clone, Copy, PartialEq, Eq, Structural)]
pub struct SpeechSegment {
    pub start: u64,
    pub end: u64,
}

/// A segment as the detector reports it: its first sample, and how many samples it has.
#[derive(Debug, Clone, Copy, PartialEq, Eq, Structural)]
pub struct RawSegment {
    pub start: i32,
    pub len: usize,
}

/// One step of a detector run.
#[derive(Debug, Clone, Copy, PartialEq, Eq, Structural)]
pub enum VadCommand {
    /// Forget the state of the last run.
    Reset,
    /// Drop the segments of the last run.
    Clear,
    /// Hand over the samples `start .. end`.
    Accept { start: usize, end: usize },
    /// Close the segment that is still open.
    Flush,
    /// Fetch all segments.
    Collect,
}

impl SpeechSegment {
    /// The segment does not end before it starts.
    pub open spec fn is_ordered(&self) -> bool {
        self.start <= self.end
    }
}

// ---------------------------------------------------------------------------
// Chunks
// ---------------------------------------------------------------------------

/// Number of chunks of `size` that cover `total`: `total / size`, rounded up.
pub open spec fn chunk_count(total: int, size: int) -> int {
    if total <= 0 {
        0
    } else {
        (total - 1) / size + 1
    }
}

/// The `i`-th chunk of `size` out of `total`: its first index and the index after its last.
pub open spec fn chunk_at(total: int, size: int, i: int) -> (usize, usize) {
    (
        (i * size) as usize,
        (if (i + 1) * size <= total {
            (i + 1) * size
        } else {
            total
        }) as usize,
    )
}

/// The chunks of `size` that cover `0 .. total`, in order.
pub open spec fn chunks(total: int, size: int) -> Seq<(usize, usize)> {
    Seq::new(chunk_count(total, size) as nat, |i: int| chunk_at(total, size, i))
}

/// Chunk `i` starts inside `0 .. total`; every chunk but the last is full.
pub proof fn lemma_chunk_starts(total: int, size: int, i: int)
    requires
        size > 0,
        0 <= i < chunk_count(total, size),
    ensures
        0 <= i * size < total,
        (i + 1) * size == i * size + size,
        i + 1 < chunk_count(total, size) ==> (i + 1) * size < total,
        i + 1 == chunk_count(total, size) ==> (i + 1) * size >= total,
{
    let q = (total - 1) / size;
    vstd::arithmetic::div_mod::lemma_fundamental_div_mod(total - 1, size);
    vstd::arithmetic::div_mod::lemma_mod_bound(total - 1, size);
    assert(0 <= i * size && i * size <= q * size && (i + 1) * size == i * size + size && size * q
        == q * size) by (nonlinear_arith)
        requires
            0 <= i <= q,
            size > 0,
    ;
    if i + 1 <= q {
        assert((i + 1) * size <= q * size) by (nonlinear_arith)
            requires
                i + 1 <= q,
                size > 0,
        ;
    } else {
        assert((i + 1) * size == q * size + size) by (nonlinear_arith)
            requires
                i == q,
        ;
    }
}

/// Cuts `0 .. total` into consecutive chunks of `size`; the last takes what is left.
pub fn chunk_bounds(total: usize, size: usize) -> (bounds: Vec<(usize, usize)>)
    requires
        size > 0,
    ensures
        bounds@ == chunks(total as int, size as int),
{
    let count: usize = if total == 0 {
        0
    } else {
        (total - 1) / size + 1
    };
    let mut bounds: Vec<(usize, usize)> = Vec::new();
    let mut start: usize = 0;
    let mut i: usize = 0;
    while i < count
        invariant
            size > 0,
            count == chunk_count(total as int, size as int),
            i <= count,
            i < count ==> start == i * size,
            bounds@.len() == i,
            forall|k: int| 0 <= k < i ==> bounds@[k] == chunk_at(total as int, size as int, k),
        decreases count - i,
    {
        proof {
            lemma_chunk_starts(total as int, size as int, i as int);
        }
        let end: usize = if total - start > size {
            start + size
        } else {
            total
        };
        bounds.push((start, end));
        i = i + 1;
        if i < count {
            start = start + size;
        }
    }
    proof {
        assert(bounds@ =~= chunks(total as int, size as int));
    }
    bounds
}

// ---------------------------------------------------------------------------
// The detector run
// ---------------------------------------------------------------------------

/// The steps of a run over `total` samples: reset, clear, the chunks of at
/// most `VAD_CHUNK_SIZE` samples in order, flush, collect.
pub open spec fn run_plan(total: int) -> Seq<VadCommand> {
    let n = chunk_count(total, VAD_CHUNK_SIZE as int);
    Seq::new(
        (n + 4) as nat,
        |k: int|
            if k == 0 {
                VadCommand::Reset
            } else if k == 1 {
                VadCommand::Clear
            } else if k < n + 2 {
                VadCommand::Accept {
                    start: chunk_at(total, VAD_CHUNK_SIZE as int, k - 2).0,
                    end: chunk_at(total, VAD_CHUNK_SIZE as int, k - 2).1,
                }
            } else if k == n + 2 {
                VadCommand::Flush
            } else {
                VadCommand::Collect
            },
    )
}

/// Plans a detector run over a waveform of `total_samples` samples.
pub fn vad_plan(total_samples: usize) -> (plan: Vec<VadCommand>)
    ensures
        plan@ == run_plan(total_samples as int),
{
    let bounds = chunk_bounds(total_samples, VAD_CHUNK_SIZE);
    let mut plan: Vec<VadCommand> = Vec::new();
    plan.push(VadCommand::Reset);
    plan.push(VadCommand::Clear);
    let mut i: usize = 0;
    while i < bounds.len()
        invariant
            i <= bounds.len(),
            bounds@ == chunks(total_samples as int, VAD_CHUNK_SIZE as int),
            plan@.len() == 2 + i,
            plan@[0] == VadCommand::Reset,
            plan@[1] == VadCommand::Clear,
            forall|k: int|
                2 <= k < 2 + i ==> plan@[k] == (VadCommand::Accept {
                    start: bounds@[k - 2].0,
                    end: bounds@[k - 2].1,
                }),
        decreases bounds.len() - i,
    {
        let (start, end) = bounds[i];
        plan.push(VadCommand::Accept { start, end });
        i = i + 1;
    }
    plan.push(VadCommand::Flush);
    plan.push(VadCommand::Collect);
    proof {
        assert(plan@ =~= run_plan(total_samples as int));
    }
    plan
}

/// The error for a waveform that is not at `SAMPLE_RATE`.
pub open spec fn wrong_rate_text(sample_rate: u32) -> Seq<char> {
    "VAD requires 16000Hz sample rate, got "@ + decimal(sample_rate as nat) + "Hz"@
}

/// `checked` is what the rate check answers: `Ok` at `SAMPLE_RATE`, else a
/// `Resample` error that names the rate.
pub open spec fn is_rate_check(sample_rate: u32, checked: Result<(), AudioError>) -> bool {
    match checked {
        Ok(_) => sample_rate == SAMPLE_RATE,
        Err(AudioError::Resample(text)) => sample_rate != SAMPLE_RATE && text@ == wrong_rate_text(
            sample_rate,
        ),
        Err(_) => false,
    }
}

/// The detector only takes waveforms at `SAMPLE_RATE`.
pub fn check_vad_rate(sample_rate: u32) -> (checked: Result<(), AudioError>)
    ensures
        is_rate_check(sample_rate, checked),
{
    if sample_rate == SAMPLE_RATE {
        Ok(())
    } else {
        let mut text = String::from_str("VAD requires 16000Hz sample rate, got ");
        push_decimal(&mut text, sample_rate as u64);
        text.append("Hz");
        Err(AudioError::Resample(text))
    }
}

// ---------------------------------------------------------------------------
// Segments
// ---------------------------------------------------------------------------

/// The one segment that covers a waveform of `total` samples.
pub open spec fn whole_waveform(total: int) -> SpeechSegment {
    SpeechSegment { start: 0, end: total as u64 }
}

/// The segment that the detector reported as `raw`, in a waveform of
/// `total` samples: a negative start counts as 0, the end is cut off at `total`.
pub open spec fn segment_of(raw: RawSegment, total: int) -> SpeechSegment {
    let start = if raw.start >= 0 {
        raw.start as int
    } else {
        0
    };
    let end = raw.start + raw.len;
    SpeechSegment {
        start: start as u64,
        end: (if end <= 0 {
            0
        } else if end <= total {
            end
        } else {
            total
        }) as u64,
    }
}

/// The segments of a detector run: those reported, in order; where none was
/// reported, the whole waveform as one segment.
pub open spec fn speech_segments(raw: Seq<RawSegment>, total: int) -> Seq<SpeechSegment> {
    if raw.len() == 0 {
        seq![whole_waveform(total)]
    } else {
        Seq::new(raw.len(), |i: int| segment_of(raw[i], total))
    }
}

/// The segment that stands for the whole waveform; it is also what remains
/// when the detector fails.
pub fn fallback_segment(total_samples: usize) -> (segment: SpeechSegment)
    ensures
        segment == whole_waveform(total_samples as int),
{
    SpeechSegment { start: 0, end: total_samples as u64 }
}

/// Turns the detector's report into segments.
pub fn segments_from_raw(raw: &Vec<RawSegment>, total_samples: usize) -> (segments: Vec<
    SpeechSegment,
>)
    ensures
        segments@ == speech_segments(raw@, total_samples as int),
        segments@.len() >= 1,
{
    let mut segments: Vec<SpeechSegment> = Vec::new();
    if raw.len() == 0 {
        segments.push(fallback_segment(total_samples));
        proof {
            assert(segments@ =~= speech_segments(raw@, total_samples as int));
        }
        return segments;
    }
    let total: i128 = total_samples as i128;
    let mut i: usize = 0;
    while i < raw.len()
        invariant
            i <= raw.len(),
            total == total_samples,
            segments@.len() == i,
            forall|k: int| 0 <= k < i ==> segments@[k] == segment_of(raw@[k], total_samples as int),
        decreases raw.len() - i,
    {
        let seg: RawSegment = raw[i];
        let start: u64 = if seg.start >= 0 {
            seg.start as u64
        } else {
            0
        };
        let end_wide: i128 = seg.start as i128 + seg.len as i128;
        let end: u64 = if end_wide <= 0 {
            0
        } else if end_wide <= total {
            end_wide as u64
        } else {
            total_samples as u64
        };
        segments.push(SpeechSegment { start, end });
        i = i + 1;
    }
    proof {
        assert(segments@ =~= speech_segments(raw@, total_samples as int));
    }
    segments
}

/// The segments to transcribe: those of the detector, or the whole
/// waveform where the detector failed.
pub fn segments_or_fallback(detected: Result<Vec<SpeechSegment>, AudioError>, total_samples: usize) -> (segments:
    Vec<SpeechSegment>)
    ensures
        match detected {
            Ok(found) => segments@ == found@,
            Err(_) => segments@ == seq![whole_waveform(total_samples as int)],
        },
{
    match detected {
        Ok(found) => found,
        Err(_) => {
            let mut segments: Vec<SpeechSegment> = Vec::new();
            segments.push(fallback_segment(total_samples));
            segments
        },
    }
}

/// The sample at which tick `tick` falls in a waveform of `len` samples at
/// `sample_rate`: `tick * sample_rate / 16000`, rounded down and cut off at `len`.
pub open spec fn sample_index(tick: u64, sample_rate: u32, len: int) -> int {
    let at = tick as int * sample_rate as int / (SAMPLE_RATE as int);
    if at <= len {
        at
    } else {
        len
    }
}

fn sample_at(tick: u64, sample_rate: u32, len: usize) -> (at: usize)
    ensures
        at == sample_index(tick, sample_rate, len as int),
{
    proof {
        lemma_mul_bound(tick as int, sample_rate as int, u64::MAX as int, u32::MAX as int);
    }
    let at: u128 = (tick as u128) * (sample_rate as u128) / (SAMPLE_RATE as u128);
    if at <= len as u128 {
        at as usize
    } else {
        len
    }
}

/// Copies the samples of a segment out of a waveform at `sample_rate`.
/// Both ends are cut off at the end of the waveform.
pub fn extract_segment<T: Copy>(samples: &[T], sample_rate: u32, segment: &SpeechSegment) -> (window:
    Vec<T>)
    requires
        segment.is_ordered(),
    ensures
        window@ == samples@.subrange(
            sample_index(segment.start, sample_rate, samples@.len() as int),
            sample_index(segment.end, sample_rate, samples@.len() as int),
        ),
        window@.len() == sample_index(segment.end, sample_rate, samples@.len() as int)
            - sample_index(segment.start, sample_rate, samples@.len() as int),
{
    let start: usize = sample_at(segment.start, sample_rate, samples.len());
    let end: usize = sample_at(segment.end, sample_rate, samples.len());
    proof {
        assert(segment.start as int * sample_rate as int <= segment.end as int * sample_rate as int)
            by (nonlinear_arith)
            requires
                segment.start <= segment.end,
                sample_rate >= 0,
        ;
    }
    slice_to_vec(slice_subrange(samples, start, end))
}

} // verus!
