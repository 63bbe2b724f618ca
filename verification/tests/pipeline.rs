use recipe_media::video::frame::{Frame, FrameInfo, RawFrame};
use recipe_media::video::pipeline::{
    create_high_motion_config, create_low_motion_config, ExtractionConfig, ExtractionResult,
    FrameExtractor,
};
use recipe_media::video::simple_detector::MockTextDetector;
use recipe_media::video::state_machine::StateConfig;

fn create_test_frame(width: u32, height: u32, fill: u8, frame_number: u64) -> Frame {
    let data = vec![fill; (width * height * 4) as usize];
    Frame::new(width, height, data, frame_number * 33, frame_number)
}

#[test]
fn test_extractor_respects_cooldown() {
    let config = ExtractionConfig {
        state_config: StateConfig {
            min_lock_frames: 1,
            cooldown_frames: 10,
            initial_skip: 2,
            ..Default::default()
        },
        ..Default::default()
    };

    let mut extractor = FrameExtractor::with_config(config);
    let detector = MockTextDetector::with_pattern(|n| n == 5 || n == 6);

    for i in 1..=20 {
        let frame = create_test_frame(100, 100, (i * 20) as u8, i);
        extractor.process_frame(&frame, &detector);
    }

    assert_eq!(extractor.extracted_count(), 1);
}

#[test]
fn test_extractor_reset() {
    let mut extractor = FrameExtractor::new();
    let detector = MockTextDetector::with_pattern(|_| true);

    for i in 1..=10 {
        let frame = create_test_frame(100, 100, (i * 30) as u8, i);
        extractor.process_frame(&frame, &detector);
    }

    assert!(extractor.extracted_count() > 0);
    assert!(extractor.frame_count() > 0);

    extractor.reset();

    assert_eq!(extractor.extracted_count(), 0);
    assert_eq!(extractor.frame_count(), 0);
}

#[test]
fn test_raw_frame_processing() {
    let mut extractor = FrameExtractor::new();
    let detector = MockTextDetector::with_pattern(|_| true);

    let raw_frame = RawFrame {
        width: 64,
        height: 64,
        y_plane: vec![128u8; 64 * 64],
        u_plane: vec![128u8; 64 * 32],
        v_plane: vec![128u8; 64 * 32],
        timestamp_ms: 1000,
        frame_number: 1,
    };

    let result = extractor.process_raw_frame(&raw_frame, &detector);
    assert!(result.is_none() || result.is_some());
}

#[test]
fn first_text_frame_is_extracted_without_a_lock() {
    let config = ExtractionConfig {
        state_config: StateConfig { min_lock_frames: 1, cooldown_frames: 2, ..Default::default() },
        ..Default::default()
    };
    let mut extractor = FrameExtractor::with_config(config);
    let detector = MockTextDetector::with_fixed_frames(vec![1, 2]);
    let frame = create_test_frame(32, 32, 100, 1);
    let result = extractor.process_frame(&frame, &detector);
    assert_eq!(
        result,
        Some(ExtractionResult {
            frame_info: FrameInfo { width: 32, height: 32, timestamp_ms: 33, frame_number: 1 },
            confidence: 850,
        })
    );
    // judged and extracted: the frame is remembered twice
    assert_eq!(extractor.extracted_count(), 2);
    assert_eq!(extractor.frame_count(), 1);
    // the same picture again is held back by the difference filter, unseen by the state machine
    let again = create_test_frame(32, 32, 100, 2);
    assert_eq!(extractor.process_frame(&again, &detector), None);
    assert_eq!(extractor.frame_count(), 1);
    // with a given detection a held back frame counts as a frame without text
    assert_eq!(extractor.process_frame_with_detection(&again, true, 900), None);
    assert_eq!(extractor.frame_count(), 2);
}

#[test]
fn luma_frames_go_through_the_plane_path() {
    let config = ExtractionConfig {
        state_config: StateConfig { min_lock_frames: 1, ..Default::default() },
        ..Default::default()
    };
    let mut extractor = FrameExtractor::with_config(config);
    let detector = MockTextDetector::with_fixed_frames(vec![0]);
    // the default plane path shows the plane to the detector as frame number 0
    let plane = vec![90u8; 64 * 64];
    let result = extractor.process_y_frame(64, 64, &plane, &detector, 500, 7);
    assert_eq!(
        result,
        Some(ExtractionResult {
            frame_info: FrameInfo { width: 64, height: 64, timestamp_ms: 500, frame_number: 7 },
            confidence: 850,
        })
    );
    assert_eq!(extractor.extracted_count(), 1);
    // held back: counted by the state machine
    assert_eq!(extractor.process_y_frame(64, 64, &plane, &detector, 533, 8), None);
    assert_eq!(extractor.frame_count(), 2);
}

#[test]
fn presets() {
    let d = ExtractionConfig::default();
    assert_eq!((d.diff_threshold, d.dedup_threshold), (150, 8));
    let h = create_high_motion_config();
    assert_eq!((h.diff_threshold, h.dedup_threshold, h.state_config.cooldown_frames), (120, 10, 20));
    let l = create_low_motion_config();
    assert_eq!((l.diff_threshold, l.dedup_threshold, l.state_config.cooldown_frames), (180, 6, 45));
}

#[test]
fn test_extractor_full_pipeline() {
    let config = ExtractionConfig {
        state_config: StateConfig {
            min_lock_frames: 1,
            cooldown_frames: 5,
            ..Default::default()
        },
        ..Default::default()
    };

    let mut extractor = FrameExtractor::with_config(config);

    let detector = MockTextDetector::with_fixed_frames(vec![5, 10, 15]);

    let mut extracted = 0;
    for i in 1..=20 {
        let frame = create_test_frame(100, 100, (i * 10) as u8, i);
        if let Some(result) = extractor.process_frame(&frame, &detector) {
            extracted += 1;
            assert_eq!(result.frame_info.frame_number, i);
        }
    }

    // uniform frames differ in the brightness byte of their hashes only, in at
    // most 8 bits: after the first frame every frame is a duplicate, and a
    // text frame that is a duplicate is dropped
    assert_eq!(extracted, 0);
    assert_eq!(extractor.extracted_count(), 1);
    assert_eq!(extractor.frame_count(), 20);
}

#[test]
fn test_extractor_duplicate_skipped() {
    let config = ExtractionConfig {
        state_config: StateConfig {
            min_lock_frames: 1,
            cooldown_frames: 1,
            ..Default::default()
        },
        ..Default::default()
    };

    let mut extractor = FrameExtractor::with_config(config);
    let detector = MockTextDetector::with_pattern(|n| n <= 3);

    let frame1 = create_test_frame(100, 100, 100, 1);
    let frame2 = create_test_frame(100, 100, 102, 2);
    let frame3 = create_test_frame(100, 100, 104, 3);

    let r1 = extractor.process_frame(&frame1, &detector);
    assert!(r1.is_some());

    // the second frame is held back by the difference filter
    assert!(extractor.process_frame(&frame2, &detector).is_none());

    // the third frame passes the filter, is a duplicate of the first, and
    // falls into the cooldown after the first
    let r3 = extractor.process_frame(&frame3, &detector);
    assert!(r3.is_none());

    // the first frame was remembered when judged and again when extracted
    assert_eq!(extractor.extracted_count(), 2);
    assert_eq!(extractor.frame_count(), 2);
}
