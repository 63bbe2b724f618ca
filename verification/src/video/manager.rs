//! The batch keyframe extractor.
//!
//! Every frame of a batch is cropped to a tile and analysed on its own; a
//! serial pass in input order then keeps the frames whose content differs
//! from the last kept one, and at least one text frame every
//! `MAX_INTERVAL_MS`.

use vstd::prelude::*;
use crate::arith::elapsed;
use crate::video::deduplicator::{DedupState, FrameDeduplicator};
use crate::video::diff_filter::SAMPLE_SIZE;
use crate::video::frame::{resize_fits, Frame, RawFrame};
use crate::video::pipeline::{
    is_filterable,
    ExtractionConfig,
    ExtractionResult,
    FrameExtractor,
    PipelineState,
};
use crate::video::simple_detector::MockTextDetector;
use crate::video::text_detector::{
    no_text,
    CookingTextDetector,
    TextDetectionResult,
    TextDetector,
};
use crate::video::region::{
    analyze_region,
    content_changed,
    crop_y_plane,
    cropped_samples,
    cropped_side,
    has_region_changed,
    region_analysis,
    CroppedYPlane,
    RegionState,
};

verus! {

/// Percent of the rows trimmed from the top of a frame before analysis.
pub const TOP_CROP_PCT: u32 = 11;

/// Percent of the rows trimmed from the bottom of a frame before analysis.
pub const BOTTOM_CROP_PCT: u32 = 20;

/// A text frame is kept once more than this has passed since the last kept frame.
pub const MAX_INTERVAL_MS: u64 = 5000;

/// Quality of the JPEG made of a kept tile.
pub const JPEG_QUALITY: u8 = 70;

/// Confidence, in per-mille, of every keyframe of the batch extractor.
pub const FULL_CONFIDENCE: u32 = 1000;

/// The luma plane of one decoded video frame.
#[derive(Debug, Clone)]
pub struct YFrameData {
    pub width: u32,
    pub height: u32,
    pub y_plane: Vec<u8>,
    pub timestamp_ms: u64,
    pub frame_number: u64,
}

/// A frame after cropping and analysis, ready for the keep/drop pass.
#[derive(Debug, Clone)]
pub struct AnalyzedFrame {
    pub timestamp_ms: u64,
    pub frame_number: u64,
    pub content: RegionState,
    pub tile: CroppedYPlane,
}

/// A kept frame. `confidence` is in per-mille; `jpeg_data` is empty where
/// the tile could not be encoded.
#[derive(Debug, Clone)]
pub struct FrameExtractedInfo {
    pub timestamp_ms: u64,
    pub frame_number: u64,
    pub confidence: u32,
    pub jpeg_data: Vec<u8>,
    pub width: u32,
    pub height: u32,
}

#[derive(Debug, Clone, Copy)]
pub struct ExtractionStats {
    pub processed_frames: u64,
    pub extracted_frames: u64,
}

/// What the keep/drop pass reads of a frame.
pub struct Judged {
    pub timestamp_ms: u64,
    pub content: RegionState,
}

/// What the keep/drop pass remembers: the analysis and time of the last kept frame.
pub struct KeepState {
    pub last: Option<RegionState>,
    pub last_kept_ms: u64,
}

// ---------------------------------------------------------------------------
// The keep/drop rule
// ---------------------------------------------------------------------------

/// A text frame that comes more than `MAX_INTERVAL_MS` after the last kept frame.
pub open spec fn time_forced(state: KeepState, frame: Judged) -> bool {
    elapsed(frame.timestamp_ms, state.last_kept_ms) > MAX_INTERVAL_MS && frame.content.has_text
}

/// The frame is kept: its content changed, or time forces it.
pub open spec fn keeps(state: KeepState, frame: Judged) -> bool {
    content_changed(state.last, frame.content) || time_forced(state, frame)
}

/// The memory of the pass after the first `n` frames.
pub open spec fn state_after(frames: Seq<Judged>, n: int) -> KeepState
    decreases n,
{
    if n <= 0 {
        KeepState { last: None, last_kept_ms: 0 }
    } else {
        let before = state_after(frames, n - 1);
        if keeps(before, frames[n - 1]) {
            KeepState {
                last: Some(frames[n - 1].content),
                last_kept_ms: frames[n - 1].timestamp_ms,
            }
        } else {
            before
        }
    }
}

/// Frame `i` is kept by a pass over `frames`.
pub open spec fn is_kept(frames: Seq<Judged>, i: int) -> bool {
    keeps(state_after(frames, i), frames[i])
}

/// The indices below `n` of the kept frames, ascending.
pub open spec fn kept_indices(frames: Seq<Judged>, n: int) -> Seq<int>
    decreases n,
{
    if n <= 0 {
        Seq::empty()
    } else if is_kept(frames, n - 1) {
        kept_indices(frames, n - 1).push(n - 1)
    } else {
        kept_indices(frames, n - 1)
    }
}

/// The kept indices ascend strictly, lie below `n`, and are exactly the
/// indices of kept frames; so no more frames are kept than were given, each
/// kept frame is one of the given frames, and the input order is preserved.
pub proof fn lemma_kept_indices_ascend(frames: Seq<Judged>, n: int)
    requires
        0 <= n <= frames.len(),
    ensures
        kept_indices(frames, n).len() <= n,
        forall|k: int|
            0 <= k < kept_indices(frames, n).len() ==> 0 <= #[trigger] kept_indices(frames, n)[k]
                < n && is_kept(frames, kept_indices(frames, n)[k]),
        forall|j: int, k: int|
            0 <= j < k < kept_indices(frames, n).len() ==> kept_indices(frames, n)[j]
                < kept_indices(frames, n)[k],
        forall|i: int|
            0 <= i < n && is_kept(frames, i) ==> kept_indices(frames, n).contains(i),
    decreases n,
{
    if n > 0 {
        lemma_kept_indices_ascend(frames, n - 1);
        let before = kept_indices(frames, n - 1);
        let now = kept_indices(frames, n);
        assert forall|i: int| 0 <= i < n && is_kept(frames, i) implies now.contains(i) by {
            if i < n - 1 {
                assert(before.contains(i));
                let k = choose|k: int| 0 <= k < before.len() && before[k] == i;
                assert(now[k] == i);
            } else {
                assert(now[now.len() - 1] == i);
            }
        }
    }
}

/// Kept frames keep the order of time: where the timestamps of the frames
/// never decrease, those of the kept frames never decrease either.
pub proof fn lemma_kept_timestamps_ordered(frames: Seq<Judged>, n: int)
    requires
        0 <= n <= frames.len(),
        forall|i: int, j: int|
            0 <= i <= j < n ==> frames[i].timestamp_ms <= frames[j].timestamp_ms,
    ensures
        forall|j: int, k: int|
            0 <= j <= k < kept_indices(frames, n).len() ==> frames[kept_indices(
                frames,
                n,
            )[j]].timestamp_ms <= frames[kept_indices(frames, n)[k]].timestamp_ms,
{
    lemma_kept_indices_ascend(frames, n);
    let kept = kept_indices(frames, n);
    assert forall|j: int, k: int| 0 <= j <= k < kept.len() implies frames[kept[j]].timestamp_ms
        <= frames[kept[k]].timestamp_ms by {
        assert(0 <= kept[j] < n && 0 <= kept[k] < n);
        if j < k {
            assert(kept[j] < kept[k]);
        }
    }
}

/// The memory of the pass is the last kept frame: before anything is kept it
/// is empty, afterwards it holds the analysis and the time of the kept frame
/// with the highest index.
pub proof fn lemma_state_is_last_kept(frames: Seq<Judged>, n: int)
    requires
        0 <= n <= frames.len(),
    ensures
        kept_indices(frames, n).len() == 0 ==> state_after(frames, n) == (KeepState {
            last: None,
            last_kept_ms: 0,
        }),
        kept_indices(frames, n).len() > 0 ==> state_after(frames, n) == (KeepState {
            last: Some(frames[kept_indices(frames, n).last()].content),
            last_kept_ms: frames[kept_indices(frames, n).last()].timestamp_ms,
        }),
    decreases n,
{
    if n > 0 {
        lemma_state_is_last_kept(frames, n - 1);
    }
}

/// Why a frame was kept. For the `k`-th kept frame one of these holds: it
/// shows text and nothing was kept before it; or its analysis differs from
/// that of the kept frame before it; or it shows text and comes more than
/// `MAX_INTERVAL_MS` after the kept frame before it.
pub proof fn lemma_kept_for_a_reason(frames: Seq<Judged>, n: int, k: int)
    requires
        0 <= n <= frames.len(),
        0 <= k < kept_indices(frames, n).len(),
    ensures
        ({
            let kept = kept_indices(frames, n);
            let frame = frames[kept[k]];
            if k == 0 {
                frame.content.has_text
            } else {
                let previous = frames[kept[k - 1]];
                ||| content_changed(Some(previous.content), frame.content)
                ||| (frame.content.has_text && elapsed(
                    frame.timestamp_ms,
                    previous.timestamp_ms,
                ) > MAX_INTERVAL_MS)
            }
        }),
    decreases n,
{
    let kept = kept_indices(frames, n);
    if k < kept_indices(frames, n - 1).len() {
        lemma_kept_for_a_reason(frames, n - 1, k);
    } else {
        // the k-th kept frame is frame n - 1, judged against the state after n - 1 frames
        lemma_state_is_last_kept(frames, n - 1);
        assert(kept[k] == n - 1);
        assert(is_kept(frames, n - 1));
        if k > 0 {
            assert(kept[k - 1] == kept_indices(frames, n - 1).last());
        }
    }
}

// ---------------------------------------------------------------------------
// JPEG
// ---------------------------------------------------------------------------

/// The baseline JPEG that the encoder makes of a `width` x `height`
/// grayscale image at the given quality; `None` where it makes none.
pub uninterp spec fn jpeg_gray(data: Seq<u8>, width: u32, height: u32, quality: u8) -> Option<
    Seq<u8>,
>;

/// The JPEG of a tile, or no bytes for an empty tile and for one that the
/// encoder refuses.
pub open spec fn tile_jpeg(data: Seq<u8>, width: u32, height: u32) -> Seq<u8> {
    if data.len() == 0 || width == 0 || height == 0 {
        Seq::empty()
    } else {
        match jpeg_gray(data, width, height, JPEG_QUALITY) {
            Some(bytes) => bytes,
            None => Seq::empty(),
        }
    }
}

/// Calls `image::GrayImage::from_raw` and `ImageBuffer::write_to` with
/// `ImageOutputFormat::Jpeg(quality)` on an in-memory cursor. The contract
/// only names the bytes that come back; `None` stands for a buffer that
/// does not fit the dimensions and for an encoder error.
#[verifier::external_body]
fn encode_gray_jpeg(data: &[u8], width: u32, height: u32, quality: u8) -> (encoded: Option<Vec<u8>>)
    requires
        width > 0,
        height > 0,
    ensures
        match encoded {
            Some(bytes) => jpeg_gray(data@, width, height, quality) == Some(bytes@),
            None => jpeg_gray(data@, width, height, quality).is_none(),
        },
{
    let img = image::GrayImage::from_raw(width, height, data.to_vec())?;
    let mut buffer = std::io::Cursor::new(Vec::new());
    img.write_to(&mut buffer, image::ImageOutputFormat::Jpeg(quality)).ok()?;
    Some(buffer.into_inner())
}

/// The bytes of an encoded tile, or none where encoding failed.
pub fn jpeg_bytes_or_empty(encoded: Option<Vec<u8>>) -> (bytes: Vec<u8>)
    ensures
        bytes@ == (match encoded {
            Some(b) => b@,
            None => Seq::<u8>::empty(),
        }),
{
    match encoded {
        Some(b) => b,
        None => Vec::new(),
    }
}

/// Encodes a grayscale tile as JPEG of quality `JPEG_QUALITY`.
pub fn compress_to_jpeg(gray_data: &[u8], width: u32, height: u32) -> (bytes: Vec<u8>)
    ensures
        bytes@ == tile_jpeg(gray_data@, width, height),
{
    if gray_data.len() == 0 || width == 0 || height == 0 {
        return Vec::new();
    }
    jpeg_bytes_or_empty(encode_gray_jpeg(gray_data, width, height, JPEG_QUALITY))
}

// ---------------------------------------------------------------------------
// Frames
// ---------------------------------------------------------------------------

impl YFrameData {
    /// The samples of the tile cut from this frame.
    pub open spec fn tile(&self) -> Seq<u8> {
        cropped_samples(self.y_plane@, self.width, self.height, TOP_CROP_PCT, BOTTOM_CROP_PCT)
    }

    /// Side of the tile cut from this frame.
    pub open spec fn tile_side(&self) -> u32 {
        cropped_side(self.width, self.height, TOP_CROP_PCT, BOTTOM_CROP_PCT)
    }

    /// The analysis of the whole tile of this frame.
    pub open spec fn analysis(&self) -> RegionState {
        region_analysis(self.tile(), self.tile_side(), self.tile_side(), 0, 100)
    }

    /// What the keep/drop pass reads of this frame.
    pub open spec fn judged(&self) -> Judged {
        Judged { timestamp_ms: self.timestamp_ms, content: self.analysis() }
    }
}

impl AnalyzedFrame {
    pub open spec fn judged(&self) -> Judged {
        Judged { timestamp_ms: self.timestamp_ms, content: self.content }
    }

    /// The keyframe made of this frame when it is kept.
    pub open spec fn is_shown_by(&self, info: FrameExtractedInfo) -> bool {
        &&& info.timestamp_ms == self.timestamp_ms
        &&& info.frame_number == self.frame_number
        &&& info.confidence == FULL_CONFIDENCE
        &&& info.jpeg_data@ == tile_jpeg(self.tile.data@, self.tile.width, self.tile.height)
        &&& info.width == self.tile.width
        &&& info.height == self.tile.height
    }

    /// This value is the analysis of `frame`.
    pub open spec fn is_analysis_of(&self, frame: YFrameData) -> bool {
        &&& self.timestamp_ms == frame.timestamp_ms
        &&& self.frame_number == frame.frame_number
        &&& self.content == frame.analysis()
        &&& self.tile.data@ == frame.tile()
        &&& self.tile.width == frame.tile_side()
        &&& self.tile.height == frame.tile_side()
    }
}

/// What the pass reads of each of the analysed frames.
pub open spec fn judged_all(analyzed: Seq<AnalyzedFrame>) -> Seq<Judged> {
    Seq::new(analyzed.len(), |i: int| analyzed[i].judged())
}

/// What the pass reads of each of the frames of a batch.
pub open spec fn judged_batch(frames: Seq<YFrameData>) -> Seq<Judged> {
    Seq::new(frames.len(), |i: int| frames[i].judged())
}

/// Crops one frame to its tile and analyses the tile.
pub fn analyze_frame(frame: &YFrameData) -> (analyzed: AnalyzedFrame)
    ensures
        analyzed.is_analysis_of(*frame),
{
    let tile = crop_y_plane(
        frame.y_plane.as_slice(),
        frame.width,
        frame.height,
        TOP_CROP_PCT,
        BOTTOM_CROP_PCT,
    );
    let content = analyze_region(tile.data.as_slice(), tile.width, tile.height, 0, 100);
    AnalyzedFrame {
        timestamp_ms: frame.timestamp_ms,
        frame_number: frame.frame_number,
        content,
        tile,
    }
}

// ---------------------------------------------------------------------------
// The manager
// ---------------------------------------------------------------------------

/// The counters of a manager: never more frames extracted than processed.
struct Counters {
    processed: u64,
    extracted: u64,
}

impl Counters {
    #[verifier::type_invariant]
    spec fn is_ordered(self) -> bool {
        self.extracted <= self.processed
    }
}

/// The batch extractor and the single-frame pipeline behind one handle,
/// with the counters of the batches.
pub struct FrameExtractorManager {
    extractor: FrameExtractor,
    detector: ManagerDetector,
    deduplicator: FrameDeduplicator,
    counters: Counters,
}

/// The detectors that a manager can work with.
pub enum ManagerDetector {
    /// The detector for recipe videos.
    Cooking(CookingTextDetector),
    /// A detector that finds text in given frames.
    Mock(MockTextDetector),
}

impl TextDetector for ManagerDetector {
    open spec fn may_detect(&self, frame: Frame, result: TextDetectionResult) -> bool {
        match self {
            ManagerDetector::Cooking(detector) => detector.may_detect(frame, result),
            ManagerDetector::Mock(detector) => detector.may_detect(frame, result),
        }
    }

    fn detect(&self, frame: &Frame) -> (result: TextDetectionResult) {
        match self {
            ManagerDetector::Cooking(detector) => detector.detect(frame),
            ManagerDetector::Mock(detector) => detector.detect(frame),
        }
    }

    open spec fn may_detect_yuv(
        &self,
        width: u32,
        height: u32,
        y_plane: Seq<u8>,
        result: TextDetectionResult,
    ) -> bool {
        match self {
            ManagerDetector::Cooking(detector) => detector.may_detect_yuv(
                width,
                height,
                y_plane,
                result,
            ),
            ManagerDetector::Mock(detector) => detector.may_detect_yuv(width, height, y_plane, result),
        }
    }

    fn detect_yuv(&self, width: u32, height: u32, y_plane: &[u8]) -> (result: TextDetectionResult) {
        match self {
            ManagerDetector::Cooking(detector) => detector.detect_yuv(width, height, y_plane),
            ManagerDetector::Mock(detector) => detector.detect_yuv(width, height, y_plane),
        }
    }
}

/// The keyframe that the single-frame pipeline reports: without an image.
pub open spec fn is_reported(info: Option<FrameExtractedInfo>, extraction: Option<ExtractionResult>) -> bool {
    match extraction {
        None => info.is_none(),
        Some(found) => info.is_some() && ({
            let info = info.unwrap();
            &&& info.timestamp_ms == found.frame_info.timestamp_ms
            &&& info.frame_number == found.frame_info.frame_number
            &&& info.confidence == found.confidence
            &&& info.jpeg_data@.len() == 0
            &&& info.width == 0
            &&& info.height == 0
        }),
    }
}

fn report(extraction: Option<ExtractionResult>) -> (info: Option<FrameExtractedInfo>)
    ensures
        is_reported(info, extraction),
{
    match extraction {
        Some(found) => Some(
            FrameExtractedInfo {
                timestamp_ms: found.frame_info.timestamp_ms,
                frame_number: found.frame_info.frame_number,
                confidence: found.confidence,
                jpeg_data: Vec::new(),
                width: 0,
                height: 0,
            },
        ),
        None => None,
    }
}

impl FrameExtractorManager {
    /// Frames handed over in batches since creation or the last reset.
    pub closed spec fn processed(&self) -> nat {
        self.counters.processed as nat
    }

    /// Frames kept from batches since creation or the last reset.
    pub closed spec fn extracted(&self) -> nat {
        self.counters.extracted as nat
    }

    /// The state of the single-frame pipeline.
    pub closed spec fn pipeline(&self) -> PipelineState {
        self.extractor@
    }

    /// The detector of the single-frame pipeline.
    pub closed spec fn detector(&self) -> ManagerDetector {
        self.detector
    }

    /// The deduplicator that the manager holds beside the pipeline's own.
    pub closed spec fn spare_deduplicator(&self) -> DedupState {
        self.deduplicator@
    }

    /// The single-frame pipeline is well formed.
    pub closed spec fn wf(&self) -> bool {
        self.extractor.wf() && self.deduplicator.wf()
    }

    /// A manager that looks for text with the detector for recipe videos:
    /// the counters are at 0, the single-frame pipeline has the standard
    /// configuration and has seen no frame, and the manager's own
    /// deduplicator remembers nothing.
    pub fn new() -> (manager: Self)
        ensures
            manager.wf(),
            manager.processed() == 0,
            manager.extracted() == 0,
            manager.pipeline() == PipelineState::initial(ExtractionConfig::standard()),
            manager.detector() == ManagerDetector::Cooking(CookingTextDetector {  }),
            manager.spare_deduplicator() == PipelineState::initial(
                ExtractionConfig::standard(),
            ).dedup,
    {
        FrameExtractorManager {
            extractor: FrameExtractor::new(),
            detector: ManagerDetector::Cooking(CookingTextDetector::new()),
            deduplicator: FrameDeduplicator::with_threshold(8),
            counters: Counters { processed: 0, extracted: 0 },
        }
    }

    /// A manager whose detector finds text in the frames with the given
    /// numbers; everything else is as in a new manager.
    pub fn with_mock_detector(text_frames: Vec<u64>) -> (manager: Self)
        ensures
            manager.wf(),
            manager.processed() == 0,
            manager.extracted() == 0,
            manager.pipeline() == PipelineState::initial(ExtractionConfig::standard()),
            manager.detector() matches ManagerDetector::Mock(mock) && mock.text_frames()
                == text_frames@,
            manager.spare_deduplicator() == PipelineState::initial(
                ExtractionConfig::standard(),
            ).dedup,
    {
        FrameExtractorManager {
            extractor: FrameExtractor::new(),
            detector: ManagerDetector::Mock(MockTextDetector::with_fixed_frames(text_frames)),
            deduplicator: FrameDeduplicator::with_threshold(8),
            counters: Counters { processed: 0, extracted: 0 },
        }
    }

    /// Runs an RGBA frame through the single-frame pipeline.
    pub fn process_frame(
        &mut self,
        width: u32,
        height: u32,
        rgba_data: Vec<u8>,
        timestamp_ms: u64,
        frame_number: u64,
    ) -> (info: Option<FrameExtractedInfo>)
        requires
            old(self).wf(),
            old(self).pipeline().frames_seen + 1 < u64::MAX,
            is_filterable(Frame { width, height, data: rgba_data, timestamp_ms, frame_number }),
        ensures
            final(self).wf(),
            final(self).processed() == old(self).processed(),
            final(self).extracted() == old(self).extracted(),
            final(self).detector() == old(self).detector(),
            ({
                let frame = Frame { width, height, data: rgba_data, timestamp_ms, frame_number };
                let before = old(self).pipeline();
                &&& !before.lets_through(frame) ==> info.is_none() && final(self).pipeline()
                    == before.frame_step(frame, no_text(), false).0
                &&& before.lets_through(frame) ==> exists|detection: TextDetectionResult|
                    {
                        &&& old(self).detector().may_detect(frame, detection)
                        &&& final(self).pipeline() == (#[trigger] before.frame_step(
                            frame,
                            detection,
                            false,
                        )).0
                        &&& is_reported(info, before.frame_step(frame, detection, false).1)
                    }
            }),
    {
        let frame = Frame::new(width, height, rgba_data, timestamp_ms, frame_number);
        let extraction = self.extractor.process_frame(&frame, &self.detector);
        report(extraction)
    }

    /// Runs a planar YUV frame through the single-frame pipeline.
    pub fn process_yuv_frame(
        &mut self,
        width: u32,
        height: u32,
        y_plane: Vec<u8>,
        u_plane: Vec<u8>,
        v_plane: Vec<u8>,
        timestamp_ms: u64,
        frame_number: u64,
    ) -> (info: Option<FrameExtractedInfo>)
        requires
            old(self).wf(),
            old(self).pipeline().frames_seen + 1 < u64::MAX,
            (RawFrame {
                width,
                height,
                y_plane,
                u_plane,
                v_plane,
                timestamp_ms,
                frame_number,
            }).is_complete(),
            resize_fits(width, height, SAMPLE_SIZE, SAMPLE_SIZE),
        ensures
            final(self).wf(),
            final(self).processed() == old(self).processed(),
            final(self).extracted() == old(self).extracted(),
            final(self).detector() == old(self).detector(),
            ({
                let raw = RawFrame {
                    width,
                    height,
                    y_plane,
                    u_plane,
                    v_plane,
                    timestamp_ms,
                    frame_number,
                };
                let before = old(self).pipeline();
                exists|frame: Frame|
                    {
                        &&& #[trigger] raw.is_shown_by(frame)
                        &&& !before.lets_through(frame) ==> info.is_none() && final(self).pipeline()
                            == before.frame_step(frame, no_text(), false).0
                        &&& before.lets_through(frame) ==> exists|detection: TextDetectionResult|
                            {
                                &&& old(self).detector().may_detect(frame, detection)
                                &&& final(self).pipeline() == (#[trigger] before.frame_step(
                                    frame,
                                    detection,
                                    false,
                                )).0
                                &&& is_reported(info, before.frame_step(frame, detection, false).1)
                            }
                    }
            }),
    {
        let raw_frame = RawFrame {
            width,
            height,
            y_plane,
            u_plane,
            v_plane,
            timestamp_ms,
            frame_number,
        };
        let frame = raw_frame.to_rgba();
        let extraction = self.extractor.process_frame(&frame, &self.detector);
        proof {
            assert(raw_frame.is_shown_by(frame));
        }
        report(extraction)
    }

    /// Runs a luma plane through the single-frame pipeline.
    pub fn process_y_frame(
        &mut self,
        width: u32,
        height: u32,
        y_plane: Vec<u8>,
        timestamp_ms: u64,
        frame_number: u64,
    ) -> (info: Option<FrameExtractedInfo>)
        requires
            old(self).wf(),
            old(self).pipeline().frames_seen + 1 < u64::MAX,
        ensures
            final(self).wf(),
            final(self).processed() == old(self).processed(),
            final(self).extracted() == old(self).extracted(),
            final(self).detector() == old(self).detector(),
            exists|detection: TextDetectionResult|
                {
                    &&& old(self).detector().may_detect_yuv(width, height, y_plane@, detection)
                    &&& final(self).pipeline() == (#[trigger] old(self).pipeline().plane_step(
                        width,
                        height,
                        y_plane@,
                        timestamp_ms,
                        frame_number,
                        detection,
                    )).0
                    &&& is_reported(
                        info,
                        old(self).pipeline().plane_step(
                            width,
                            height,
                            y_plane@,
                            timestamp_ms,
                            frame_number,
                            detection,
                        ).1,
                    )
                },
    {
        let extraction = self.extractor.process_y_frame(
            width,
            height,
            y_plane.as_slice(),
            &self.detector,
            timestamp_ms,
            frame_number,
        );
        report(extraction)
    }

    /// Frames that the state machine of the single-frame pipeline has seen.
    pub fn pipeline_frame_count(&self) -> (count: u64)
        ensures
            count == self.pipeline().frames_seen,
    {
        self.extractor.frame_count()
    }

    pub fn get_stats(&self) -> (stats: ExtractionStats)
        ensures
            stats.processed_frames == self.processed(),
            stats.extracted_frames == self.extracted(),
            stats.extracted_frames <= stats.processed_frames,
    {
        proof {
            use_type_invariant(&self.counters);
        }
        ExtractionStats {
            processed_frames: self.counters.processed,
            extracted_frames: self.counters.extracted,
        }
    }

    /// Zeroes the counters and brings the single-frame pipeline back to its start.
    pub fn reset(&mut self)
        ensures
            final(self).wf(),
            final(self).processed() == 0,
            final(self).extracted() == 0,
            final(self).pipeline().frames_seen == 0,
            final(self).pipeline().dedup.history.len() == 0,
            final(self).detector() == old(self).detector(),
    {
        self.extractor.reset();
        self.deduplicator.clear();
        self.counters = Counters { processed: 0, extracted: 0 };
    }

    /// The serial pass: keeps, in input order, the analysed frames that the
    /// keep/drop rule selects, encodes the tile of each as JPEG, and counts.
    pub fn select_keyframes(&mut self, analyzed: &Vec<AnalyzedFrame>) -> (kept: Vec<
        FrameExtractedInfo,
    >)
        requires
            old(self).processed() + analyzed.len() <= u64::MAX,
        ensures
            kept@.len() <= analyzed@.len(),
            kept@.len() == kept_indices(judged_all(analyzed@), analyzed@.len() as int).len(),
            forall|k: int|
                0 <= k < kept@.len() ==> analyzed@[kept_indices(
                    judged_all(analyzed@),
                    analyzed@.len() as int,
                )[k]].is_shown_by(#[trigger] kept@[k]),
            final(self).processed() == old(self).processed() + analyzed@.len(),
            final(self).extracted() == old(self).extracted() + kept@.len(),
            final(self).extracted() <= final(self).processed(),
            final(self).pipeline() == old(self).pipeline(),
            final(self).wf() == old(self).wf(),
    {
        let ghost frames = judged_all(analyzed@);
        let n: usize = analyzed.len();
        let mut kept: Vec<FrameExtractedInfo> = Vec::new();
        let mut last_content: Option<RegionState> = None;
        let mut last_kept_ms: u64 = 0;
        let mut i: usize = 0;
        while i < n
            invariant
                i <= n,
                n == analyzed@.len(),
                frames == judged_all(analyzed@),
                state_after(frames, i as int) == (KeepState {
                    last: last_content,
                    last_kept_ms,
                }),
                kept@.len() == kept_indices(frames, i as int).len(),
                kept@.len() <= i,
                forall|k: int|
                    0 <= k < kept@.len() ==> analyzed@[kept_indices(frames, i as int)[k]].is_shown_by(
                        #[trigger] kept@[k],
                    ),
            decreases n - i,
        {
            let frame = &analyzed[i];
            let content_changed = has_region_changed(&last_content, &frame.content);
            let time_force_keep = frame.timestamp_ms.saturating_sub(last_kept_ms) > MAX_INTERVAL_MS
                && frame.content.has_text;
            proof {
                assert(frames[i as int] == frame.judged());
                assert((content_changed || time_force_keep) == is_kept(frames, i as int));
            }
            if content_changed || time_force_keep {
                let jpeg_data = compress_to_jpeg(
                    frame.tile.data.as_slice(),
                    frame.tile.width,
                    frame.tile.height,
                );
                kept.push(
                    FrameExtractedInfo {
                        timestamp_ms: frame.timestamp_ms,
                        frame_number: frame.frame_number,
                        confidence: FULL_CONFIDENCE,
                        jpeg_data,
                        width: frame.tile.width,
                        height: frame.tile.height,
                    },
                );
                last_content = Some(frame.content);
                last_kept_ms = frame.timestamp_ms;
            }
            i = i + 1;
        }
        proof {
            use_type_invariant(&self.counters);
        }
        self.counters = Counters {
            processed: self.counters.processed + n as u64,
            extracted: self.counters.extracted + kept.len() as u64,
        };
        kept
    }

    /// Analyses every frame of the batch and keeps those whose subtitle
    /// content changed, each with the JPEG of its tile.
    pub fn process_batch(&mut self, frames: Vec<YFrameData>) -> (kept: Vec<FrameExtractedInfo>)
        requires
            old(self).processed() + frames.len() <= u64::MAX,
        ensures
            kept@.len() <= frames@.len(),
            kept@.len() == kept_indices(judged_batch(frames@), frames@.len() as int).len(),
            forall|k: int|
                0 <= k < kept@.len() ==> ({
                    let frame = frames@[kept_indices(judged_batch(frames@), frames@.len() as int)[k]];
                    let info = #[trigger] kept@[k];
                    &&& info.timestamp_ms == frame.timestamp_ms
                    &&& info.frame_number == frame.frame_number
                    &&& info.confidence == FULL_CONFIDENCE
                    &&& info.jpeg_data@ == tile_jpeg(
                        frame.tile(),
                        frame.tile_side(),
                        frame.tile_side(),
                    )
                    &&& info.width == frame.tile_side()
                    &&& info.height == frame.tile_side()
                }),
            final(self).processed() == old(self).processed() + frames@.len(),
            final(self).extracted() == old(self).extracted() + kept@.len(),
            final(self).extracted() <= final(self).processed(),
            final(self).pipeline() == old(self).pipeline(),
            final(self).wf() == old(self).wf(),
    {
        let n: usize = frames.len();
        let mut analyzed: Vec<AnalyzedFrame> = Vec::new();
        let mut i: usize = 0;
        while i < n
            invariant
                i <= n,
                n == frames@.len(),
                analyzed@.len() == i,
                forall|j: int| 0 <= j < i ==> (#[trigger] analyzed@[j]).is_analysis_of(frames@[j]),
            decreases n - i,
        {
            analyzed.push(analyze_frame(&frames[i]));
            i = i + 1;
        }
        proof {
            assert(judged_all(analyzed@) =~= judged_batch(frames@));
        }
        let kept = self.select_keyframes(&analyzed);
        proof {
            lemma_kept_indices_ascend(judged_batch(frames@), n as int);
        }
        kept
    }
}

impl Default for FrameExtractorManager {
    fn default() -> (manager: Self)
        ensures
            manager.wf(),
            manager.processed() == 0,
            manager.extracted() == 0,
    {
        FrameExtractorManager::new()
    }
}

} // verus!
