//! The single-frame pipeline: difference filter, text detection,
//! deduplication and the sampling state machine, one frame at a time.

use vstd::prelude::*;
use crate::video::deduplicator::{
    frame_hashes,
    plane_hashes,
    DedupState,
    FrameDeduplicator,
    HISTORY_LEN,
};
use crate::video::diff_filter::{
    frame_signature,
    SAMPLE_SIZE,
    plane_signature,
    FilterState,
    FrameDiffFilter,
};
use crate::video::frame::{resize_fits, Frame, FrameInfo, RawFrame};
use crate::video::state_machine::{ExtractionState, StateAction, StateConfig, StateMachine};
use crate::video::text_detector::{no_text, TextDetectionResult, TextDetector};

verus! {

/// The tuning of a pipeline. The difference threshold is in per-mille.
#[derive(Debug, Clone, Copy)]
pub struct ExtractionConfig {
    pub state_config: StateConfig,
    pub diff_threshold: u32,
    pub dedup_threshold: u32,
}

/// An extracted frame. `confidence` is in per-mille.
#[derive(Debug, Clone, Copy, PartialEq, Eq, Structural)]
pub struct ExtractionResult {
    pub frame_info: FrameInfo,
    pub confidence: u32,
}

impl ExtractionConfig {
    pub open spec fn standard() -> ExtractionConfig {
        ExtractionConfig {
            state_config: StateConfig::standard(),
            diff_threshold: 150,
            dedup_threshold: 8,
        }
    }

    /// The deduplicator can derive its other thresholds from this one.
    pub open spec fn is_usable(&self) -> bool {
        self.dedup_threshold + 10 <= u32::MAX
    }

    pub fn for_high_motion() -> (config: Self)
        ensures
            config.is_usable(),
            config.state_config == (StateConfig {
                initial_skip: 2,
                max_skip: 8,
                min_lock_frames: 2,
                cooldown_frames: 20,
            }),
            config.diff_threshold == 120,
            config.dedup_threshold == 10,
    {
        ExtractionConfig {
            state_config: StateConfig::for_high_motion(),
            diff_threshold: 120,
            dedup_threshold: 10,
        }
    }

    pub fn for_low_motion() -> (config: Self)
        ensures
            config.is_usable(),
            config.state_config == (StateConfig {
                initial_skip: 8,
                max_skip: 20,
                min_lock_frames: 5,
                cooldown_frames: 45,
            }),
            config.diff_threshold == 180,
            config.dedup_threshold == 6,
    {
        ExtractionConfig {
            state_config: StateConfig::for_low_motion(),
            diff_threshold: 180,
            dedup_threshold: 6,
        }
    }
}

impl Default for ExtractionConfig {
    fn default() -> (config: Self)
        ensures
            config == ExtractionConfig::standard(),
    {
        ExtractionConfig {
            state_config: StateConfig::default(),
            diff_threshold: 150,
            dedup_threshold: 8,
        }
    }
}

/// The configuration for videos with much motion.
pub fn create_high_motion_config() -> (config: ExtractionConfig)
    ensures
        config.is_usable(),
        config.diff_threshold == 120,
        config.dedup_threshold == 10,
{
    ExtractionConfig::for_high_motion()
}

/// The configuration for videos with little motion.
pub fn create_low_motion_config() -> (config: ExtractionConfig)
    ensures
        config.is_usable(),
        config.diff_threshold == 180,
        config.dedup_threshold == 6,
{
    ExtractionConfig::for_low_motion()
}

/// The state of a pipeline.
pub struct PipelineState {
    pub filter: FilterState,
    pub machine: ExtractionState,
    pub state_config: StateConfig,
    pub frames_seen: nat,
    pub dedup: DedupState,
    /// The configuration that the pipeline was made with.
    pub config: ExtractionConfig,
}

pub struct FrameExtractor {
    diff_filter: FrameDiffFilter,
    state_machine: StateMachine,
    deduplicator: FrameDeduplicator,
    config: ExtractionConfig,
}

impl PipelineState {
    /// The state after a frame that the difference filter held back and that
    /// is counted as a frame without text.
    pub open spec fn held_back(self, filter: FilterState) -> PipelineState {
        PipelineState {
            filter,
            machine: self.machine.step(false, false, self.state_config).0,
            frames_seen: self.frames_seen + 1,
            ..self
        }
    }

    /// The action for a frame that passed the filter: the deduplicator
    /// judges the hashes, the state machine judges text and duplicate.
    pub open spec fn action(self, has_text: bool, hashes: crate::video::deduplicator::RegionHashes) -> StateAction {
        self.machine.step(has_text, self.dedup.decide(hashes).is_duplicate, self.state_config).1
    }

    /// The state after a frame that passed the filter. `keep_extracted`
    /// tells whether an extracted frame is remembered once more.
    pub open spec fn judged(
        self,
        filter: FilterState,
        has_text: bool,
        hashes: crate::video::deduplicator::RegionHashes,
        keep_extracted: bool,
    ) -> PipelineState {
        let dedup = self.dedup.after(hashes);
        PipelineState {
            filter,
            machine: self.machine.step(
                has_text,
                self.dedup.decide(hashes).is_duplicate,
                self.state_config,
            ).0,
            frames_seen: self.frames_seen + 1,
            dedup: if keep_extracted && self.action(has_text, hashes) == StateAction::Extract {
                dedup.keep(hashes)
            } else {
                dedup
            },
            ..self
        }
    }

    /// What the pipeline answers for a frame that passed the filter.
    pub open spec fn answer(
        self,
        has_text: bool,
        hashes: crate::video::deduplicator::RegionHashes,
        info: FrameInfo,
        confidence: u32,
    ) -> Option<ExtractionResult> {
        if self.action(has_text, hashes) == StateAction::Extract {
            Some(ExtractionResult { frame_info: info, confidence })
        } else {
            None
        }
    }
}

impl PipelineState {
    /// The state of a pipeline with the given configuration that has seen no
    /// frame: the filter and the deduplicator remember nothing, the state
    /// machine scans at the initial skip distance, and the deduplicator
    /// forces a keep every 250 ms.
    pub open spec fn initial(config: ExtractionConfig) -> PipelineState {
        PipelineState {
            filter: FilterState {
                threshold_permille: config.diff_threshold,
                last: None,
                last_y: None,
            },
            machine: ExtractionState::Scanning { skip_count: config.state_config.initial_skip },
            state_config: config.state_config,
            frames_seen: 0,
            dedup: DedupState::empty(config.dedup_threshold, 250),
            config,
        }
    }

    /// The difference filter lets the RGBA frame through.
    pub open spec fn lets_through(self, frame: Frame) -> bool {
        FilterState::passes(
            self.filter.last,
            frame_signature(frame),
            self.filter.threshold_permille,
        )
    }

    /// The state and the answer after an RGBA frame of which the detector
    /// said `detection`. A frame that the difference filter holds back is
    /// dropped unseen by the state machine; `held_back_counts` tells whether
    /// it is counted as a frame without text instead.
    pub open spec fn frame_step(
        self,
        frame: Frame,
        detection: TextDetectionResult,
        held_back_counts: bool,
    ) -> (PipelineState, Option<ExtractionResult>) {
        let filter = FilterState { last: Some(frame_signature(frame)), ..self.filter };
        if FilterState::passes(
            self.filter.last,
            frame_signature(frame),
            self.filter.threshold_permille,
        ) {
            (
                self.judged(filter, detection.has_text, frame_hashes(frame), true),
                self.answer(
                    detection.has_text,
                    frame_hashes(frame),
                    info_of(frame),
                    detection.confidence,
                ),
            )
        } else if held_back_counts {
            (self.held_back(filter), None)
        } else {
            (PipelineState { filter, ..self }, None)
        }
    }

    /// The state and the answer after a luma plane of which the detector
    /// said `detection`. A plane that the difference filter holds back
    /// counts as a frame without text; an extracted plane is not
    /// remembered a second time.
    pub open spec fn plane_step(
        self,
        width: u32,
        height: u32,
        y_plane: Seq<u8>,
        timestamp_ms: u64,
        frame_number: u64,
        detection: TextDetectionResult,
    ) -> (PipelineState, Option<ExtractionResult>) {
        let signature = plane_signature(y_plane, width, height);
        let filter = FilterState { last_y: Some(signature), ..self.filter };
        let hashes = plane_hashes(y_plane, width, height, timestamp_ms);
        if FilterState::passes(self.filter.last_y, signature, self.filter.threshold_permille) {
            (
                self.judged(filter, detection.has_text, hashes, false),
                self.answer(
                    detection.has_text,
                    hashes,
                    FrameInfo { width, height, timestamp_ms, frame_number },
                    detection.confidence,
                ),
            )
        } else {
            (self.held_back(filter), None)
        }
    }
}

/// The metadata of a frame.
pub open spec fn info_of(frame: Frame) -> FrameInfo {
    FrameInfo {
        width: frame.width,
        height: frame.height,
        timestamp_ms: frame.timestamp_ms,
        frame_number: frame.frame_number,
    }
}

/// The frame can be resized for the difference filter.
pub open spec fn is_filterable(frame: Frame) -> bool {
    frame.is_complete() && resize_fits(frame.width, frame.height, SAMPLE_SIZE, SAMPLE_SIZE)
}

impl FrameExtractor {
    pub closed spec fn view(&self) -> PipelineState {
        PipelineState {
            filter: self.diff_filter@,
            machine: self.state_machine.state(),
            state_config: self.state_machine.config(),
            frames_seen: self.state_machine.frames_seen(),
            dedup: self.deduplicator@,
            config: self.config,
        }
    }

    /// The parts are well formed and the frame counter has room.
    pub closed spec fn wf(&self) -> bool {
        &&& self.diff_filter.wf()
        &&& self.deduplicator.wf()
        &&& self.state_machine.frames_seen() < u64::MAX
    }

    /// A pipeline with the standard configuration that has seen no frame.
    pub fn new() -> (extractor: Self)
        ensures
            extractor.wf(),
            extractor@ == PipelineState::initial(ExtractionConfig::standard()),
    {
        Self::with_config(ExtractionConfig::default())
    }

    /// A pipeline with the given configuration that has seen no frame.
    pub fn with_config(config: ExtractionConfig) -> (extractor: Self)
        requires
            config.is_usable(),
        ensures
            extractor.wf(),
            extractor@ == PipelineState::initial(config),
    {
        FrameExtractor {
            diff_filter: FrameDiffFilter::with_threshold(config.diff_threshold),
            state_machine: StateMachine::with_config(config.state_config),
            deduplicator: FrameDeduplicator::with_threshold(config.dedup_threshold),
            config,
        }
    }

    /// Judges a frame that passed the difference filter, given what the
    /// detector said of it. An extracted frame is remembered by the deduplicator.
    fn judge(&mut self, frame: &Frame, has_text: bool, confidence: u32) -> (result: Option<
        ExtractionResult,
    >)
        requires
            old(self).wf(),
        ensures
            final(self).state_machine.frames_seen() == old(self).state_machine.frames_seen() + 1,
            final(self).diff_filter.wf(),
            final(self).deduplicator.wf(),
            final(self)@ == old(self)@.judged(old(self)@.filter, has_text, frame_hashes(*frame), true),
            result == old(self)@.answer(has_text, frame_hashes(*frame), info_of(*frame), confidence),
    {
        let is_duplicate = self.deduplicator.is_duplicate(frame);
        let action = self.state_machine.process_frame(has_text, is_duplicate);
        match action {
            StateAction::Extract => {
                self.deduplicator.add(frame);
                Some(ExtractionResult { frame_info: FrameInfo::from_frame(frame), confidence })
            },
            _ => None,
        }
    }

    /// Runs a frame through the pipeline. A frame that the difference filter
    /// holds back is dropped unseen by the state machine and the detector;
    /// any other frame is judged with what the detector says of it.
    pub fn process_frame<D: TextDetector + ?Sized>(&mut self, frame: &Frame, detector: &D) -> (result:
        Option<ExtractionResult>)
        requires
            old(self).wf(),
            old(self)@.frames_seen + 1 < u64::MAX,
            is_filterable(*frame),
        ensures
            final(self).wf(),
            !old(self)@.lets_through(*frame) ==> (final(self)@, result) == old(self)@.frame_step(
                *frame,
                no_text(),
                false,
            ),
            old(self)@.lets_through(*frame) ==> exists|detection: TextDetectionResult|
                {
                    &&& detector.may_detect(*frame, detection)
                    &&& (final(self)@, result) == #[trigger] old(self)@.frame_step(
                        *frame,
                        detection,
                        false,
                    )
                },
    {
        let ghost before = old(self)@;
        if !self.diff_filter.should_process(frame) {
            return None;
        }
        let detection = detector.detect(frame);
        let result = self.judge(frame, detection.has_text, detection.confidence);
        proof {
            assert((self@, result) == before.frame_step(*frame, detection, false));
        }
        result
    }

    /// Converts a planar YUV frame to RGBA and runs it through the pipeline.
    pub fn process_raw_frame<D: TextDetector + ?Sized>(
        &mut self,
        raw_frame: &RawFrame,
        detector: &D,
    ) -> (result: Option<ExtractionResult>)
        requires
            old(self).wf(),
            old(self)@.frames_seen + 1 < u64::MAX,
            raw_frame.is_complete(),
            resize_fits(raw_frame.width, raw_frame.height, SAMPLE_SIZE, SAMPLE_SIZE),
        ensures
            final(self).wf(),
            exists|frame: Frame|
                {
                    &&& #[trigger] raw_frame.is_shown_by(frame)
                    &&& !old(self)@.lets_through(frame) ==> (final(self)@, result) == old(
                        self,
                    )@.frame_step(frame, no_text(), false)
                    &&& old(self)@.lets_through(frame) ==> exists|detection: TextDetectionResult|
                        {
                            &&& detector.may_detect(frame, detection)
                            &&& (final(self)@, result) == #[trigger] old(self)@.frame_step(
                                frame,
                                detection,
                                false,
                            )
                        }
                },
    {
        let ghost before = self@;
        let frame = raw_frame.to_rgba();
        let result = self.process_frame(&frame, detector);
        proof {
            assert(before == old(self)@);
            assert(raw_frame.is_shown_by(frame));
            assert(before.lets_through(frame) ==> exists|detection: TextDetectionResult|
                {
                    &&& detector.may_detect(frame, detection)
                    &&& (self@, result) == #[trigger] before.frame_step(frame, detection, false)
                });
        }
        result
    }

    /// Runs a luma plane through the pipeline. A plane that the difference
    /// filter holds back counts as a frame without text; an extracted
    /// plane is not remembered a second time.
    pub fn process_y_frame<D: TextDetector + ?Sized>(
        &mut self,
        width: u32,
        height: u32,
        y_plane: &[u8],
        detector: &D,
        timestamp_ms: u64,
        frame_number: u64,
    ) -> (result: Option<ExtractionResult>)
        requires
            old(self).wf(),
            old(self)@.frames_seen + 1 < u64::MAX,
        ensures
            final(self).wf(),
            exists|detection: TextDetectionResult|
                {
                    &&& detector.may_detect_yuv(width, height, y_plane@, detection)
                    &&& (final(self)@, result) == #[trigger] old(self)@.plane_step(
                        width,
                        height,
                        y_plane@,
                        timestamp_ms,
                        frame_number,
                        detection,
                    )
                },
    {
        let ghost before = old(self)@;
        let detection = detector.detect_yuv(width, height, y_plane);
        if !self.diff_filter.should_process_y(y_plane, width, height) {
            let _ = self.state_machine.process_frame(false, false);
            proof {
                assert((self@, None::<ExtractionResult>) == before.plane_step(
                    width,
                    height,
                    y_plane@,
                    timestamp_ms,
                    frame_number,
                    detection,
                ));
            }
            return None;
        }
        let region_hashes = FrameDeduplicator::region_hashes_from_y_plane(
            y_plane,
            width,
            height,
            timestamp_ms,
        );
        let decision = self.deduplicator.check_duplicate(&region_hashes);
        let action = self.state_machine.process_frame(detection.has_text, decision.is_duplicate);
        let result = match action {
            StateAction::Extract => Some(
                ExtractionResult {
                    frame_info: FrameInfo { width, height, timestamp_ms, frame_number },
                    confidence: detection.confidence,
                },
            ),
            _ => None,
        };
        proof {
            assert((self@, result) == before.plane_step(
                width,
                height,
                y_plane@,
                timestamp_ms,
                frame_number,
                detection,
            ));
        }
        result
    }

    /// Frames seen by the state machine.
    pub fn frame_count(&self) -> (count: u64)
        ensures
            count == self@.frames_seen,
    {
        self.state_machine.frame_count()
    }

    /// Frames that the deduplicator remembers: at most `HISTORY_LEN`.
    pub fn extracted_count(&self) -> (count: usize)
        requires
            self.wf(),
        ensures
            count == self@.dedup.history.len(),
            count <= HISTORY_LEN,
    {
        self.deduplicator.len()
    }

    /// Back to the state of a new pipeline; the thresholds stay.
    pub fn reset(&mut self)
        ensures
            final(self).wf(),
            final(self)@.frames_seen == 0,
            final(self)@.machine == (ExtractionState::Scanning { skip_count: 5 }),
            final(self)@.state_config == old(self)@.state_config,
            final(self)@.dedup.history.len() == 0,
            final(self)@.filter == (FilterState {
                last: None,
                last_y: None,
                ..old(self)@.filter
            }),
    {
        self.diff_filter.reset();
        self.state_machine.reset();
        self.deduplicator.clear();
    }

    /// Runs a frame through the pipeline with the detection given by the
    /// caller. A frame that the difference filter holds back counts as a
    /// frame without text.
    pub fn process_frame_with_detection(&mut self, frame: &Frame, has_text: bool, confidence: u32) -> (result:
        Option<ExtractionResult>)
        requires
            old(self).wf(),
            old(self)@.frames_seen + 1 < u64::MAX,
            is_filterable(*frame),
        ensures
            final(self).wf(),
            (final(self)@, result) == old(self)@.frame_step(
                *frame,
                TextDetectionResult { has_text, confidence, text_region_count: 0 },
                true,
            ),
    {
        if !self.diff_filter.should_process(frame) {
            let _ = self.state_machine.process_frame(false, false);
            return None;
        }
        self.judge(frame, has_text, confidence)
    }
}

impl Default for FrameExtractor {
    fn default() -> (extractor: Self)
        ensures
            extractor.wf(),
    {
        FrameExtractor::new()
    }
}

} // verus!
