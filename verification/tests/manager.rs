use recipe_media::video::manager::{
    analyze_frame, compress_to_jpeg, jpeg_bytes_or_empty, FrameExtractorManager, YFrameData,
};
use recipe_media::video::region::{analyze_region, crop_y_plane, has_region_changed, RegionState};

fn create_frame_with_edges(width: u32, height: u32, frame_number: u64) -> YFrameData {
    let mut y_plane = vec![128u8; (width * height) as usize];
    for y in 0..height {
        for x in 0..width {
            let idx = (y * width + x) as usize;
            if x % 4 == 0 || y % 4 == 0 {
                y_plane[idx] = 255;
            } else {
                y_plane[idx] = 0;
            }
        }
    }
    YFrameData {
        width,
        height,
        y_plane,
        timestamp_ms: frame_number * 33,
        frame_number,
    }
}

fn create_uniform_frame(width: u32, height: u32, value: u8, frame_number: u64) -> YFrameData {
    YFrameData {
        width,
        height,
        y_plane: vec![value; (width * height) as usize],
        timestamp_ms: frame_number * 33,
        frame_number,
    }
}

#[test]
fn video_test_manager_creation() {
    let manager = FrameExtractorManager::new();
    let stats = manager.get_stats();
    assert_eq!(stats.processed_frames, 0);
    assert_eq!(stats.extracted_frames, 0);
}

#[test]
fn video_test_manager_batch_extracts_text_frames() {
    let mut manager = FrameExtractorManager::new();

    let frames = vec![
        create_uniform_frame(100, 100, 128, 1),
        create_frame_with_edges(100, 100, 2),
        create_uniform_frame(100, 100, 128, 3),
        create_frame_with_edges(100, 100, 4),
    ];

    let results = manager.process_batch(frames);
    assert!(results.len() >= 1);

    let stats = manager.get_stats();
    assert_eq!(stats.processed_frames, 4);
}

#[test]
fn video_test_manager_batch_deduplicates() {
    let mut manager = FrameExtractorManager::new();

    let frames = vec![
        create_frame_with_edges(100, 100, 1),
        create_frame_with_edges(100, 100, 2),
        create_frame_with_edges(100, 100, 3),
    ];

    let results = manager.process_batch(frames);
    assert_eq!(results.len(), 1);
}

#[test]
fn video_test_manager_reset() {
    let mut manager = FrameExtractorManager::new();

    let frames = vec![create_frame_with_edges(100, 100, 1)];

    manager.process_batch(frames);

    let stats_before = manager.get_stats();
    assert!(stats_before.extracted_frames > 0 || stats_before.processed_frames > 0);

    manager.reset();

    let stats_after = manager.get_stats();
    assert_eq!(stats_after.processed_frames, 0);
    assert_eq!(stats_after.extracted_frames, 0);
}

#[test]
fn manager_test_manager_creation() {
    let manager = FrameExtractorManager::default();
    let stats = manager.get_stats();
    assert_eq!(stats.processed_frames, 0);
    assert_eq!(stats.extracted_frames, 0);
}

#[test]
fn manager_test_manager_batch_extracts_text_frames() {
    let mut manager = FrameExtractorManager::new();

    let frames = vec![
        create_uniform_frame(100, 100, 128, 1),
        create_frame_with_edges(100, 100, 2),
        create_uniform_frame(100, 100, 128, 3),
        create_frame_with_edges(100, 100, 4),
    ];

    let results = manager.process_batch(frames);
    assert!(results.len() >= 1);
    // text appears at frame 2, goes at frame 3, comes back at frame 4
    let numbers: Vec<u64> = results.iter().map(|r| r.frame_number).collect();
    assert_eq!(numbers, vec![2, 3, 4]);

    let stats = manager.get_stats();
    assert_eq!(stats.processed_frames, 4);
    assert_eq!(stats.extracted_frames, 3);
}

#[test]
fn manager_test_manager_batch_deduplicates() {
    let mut manager = FrameExtractorManager::new();

    let frames = vec![
        create_frame_with_edges(100, 100, 1),
        create_frame_with_edges(100, 100, 2),
        create_frame_with_edges(100, 100, 3),
    ];

    let results = manager.process_batch(frames);
    assert_eq!(results.len(), 1);
    assert_eq!(results[0].frame_number, 1);
    assert_eq!(results[0].timestamp_ms, 33);
    assert_eq!(results[0].confidence, 1000);
    assert_eq!((results[0].width, results[0].height), (512, 512));
    assert_eq!(manager.get_stats().extracted_frames, 1);
}

#[test]
fn manager_test_manager_reset() {
    let mut manager = FrameExtractorManager::new();

    let frames = vec![create_frame_with_edges(100, 100, 1)];

    manager.process_batch(frames);

    let stats_before = manager.get_stats();
    assert!(stats_before.extracted_frames > 0 || stats_before.processed_frames > 0);

    manager.reset();

    let stats_after = manager.get_stats();
    assert_eq!(stats_after.processed_frames, 0);
    assert_eq!(stats_after.extracted_frames, 0);
}

#[test]
fn empty_batch_keeps_nothing() {
    let mut manager = FrameExtractorManager::new();
    let results = manager.process_batch(vec![]);
    assert!(results.is_empty());
    let stats = manager.get_stats();
    assert_eq!(stats.processed_frames, 0);
    assert_eq!(stats.extracted_frames, 0);
}

#[test]
fn uniform_frames_keep_nothing() {
    let mut manager = FrameExtractorManager::new();
    let frames = vec![
        create_uniform_frame(100, 100, 128, 1),
        create_uniform_frame(100, 100, 128, 2),
        create_uniform_frame(100, 100, 128, 3),
    ];
    let results = manager.process_batch(frames);
    assert_eq!(results.len(), 0);
    let stats = manager.get_stats();
    assert_eq!(stats.processed_frames, 3);
    assert_eq!(stats.extracted_frames, 0);
}

#[test]
fn time_forces_a_second_keyframe() {
    let mut manager = FrameExtractorManager::new();
    let template = create_frame_with_edges(100, 100, 0);
    let frames: Vec<YFrameData> = (0..200u64)
        .map(|i| YFrameData {
            width: 100,
            height: 100,
            y_plane: template.y_plane.clone(),
            timestamp_ms: i * 100,
            frame_number: i,
        })
        .collect();
    let results = manager.process_batch(frames);
    // the first frame; then the frames more than 5000 ms after the last kept one
    let stamps: Vec<u64> = results.iter().map(|r| r.timestamp_ms).collect();
    assert_eq!(stamps, vec![0, 5100, 10200, 15300]);
    assert_eq!(manager.get_stats().processed_frames, 200);
    assert_eq!(manager.get_stats().extracted_frames, 4);
}

#[test]
fn time_forced_keep_within_ten_seconds() {
    let mut manager = FrameExtractorManager::new();
    let template = create_frame_with_edges(100, 100, 0);
    let frames: Vec<YFrameData> = (0..100u64)
        .map(|i| YFrameData {
            width: 100,
            height: 100,
            y_plane: template.y_plane.clone(),
            timestamp_ms: i * 100,
            frame_number: i,
        })
        .collect();
    let results = manager.process_batch(frames);
    assert_eq!(results.len(), 2);
    assert_eq!(results[0].frame_number, 0);
    assert_eq!(results[1].frame_number, 51);
}

#[test]
fn kept_frames_come_from_the_input_in_order() {
    let mut manager = FrameExtractorManager::new();
    let frames = vec![
        create_frame_with_edges(100, 100, 3),
        create_uniform_frame(100, 100, 20, 5),
        create_uniform_frame(100, 100, 200, 6),
        create_frame_with_edges(64, 200, 9),
    ];
    let stamps: Vec<u64> = frames.iter().map(|f| f.timestamp_ms).collect();
    let results = manager.process_batch(frames);
    assert!(results.len() <= 4);
    let mut from = 0usize;
    for r in &results {
        let at = stamps[from..].iter().position(|t| *t == r.timestamp_ms);
        assert!(at.is_some());
        from += at.unwrap() + 1;
    }
    let stats = manager.get_stats();
    assert!(stats.extracted_frames <= stats.processed_frames);
}

#[test]
fn kept_tile_is_a_jpeg() {
    let mut manager = FrameExtractorManager::new();
    let results = manager.process_batch(vec![create_frame_with_edges(100, 100, 1)]);
    assert_eq!(results.len(), 1);
    let jpeg = &results[0].jpeg_data;
    assert!(jpeg.len() > 4);
    assert_eq!(&jpeg[..2], &[0xFF, 0xD8]);
    assert_eq!(&jpeg[jpeg.len() - 2..], &[0xFF, 0xD9]);
    assert_ne!(jpeg.len(), 512 * 512);
}

#[test]
fn jpeg_of_nothing_is_empty() {
    assert!(compress_to_jpeg(&[], 512, 512).is_empty());
    assert!(compress_to_jpeg(&[1, 2, 3, 4], 0, 4).is_empty());
    assert!(compress_to_jpeg(&[1, 2, 3, 4], 4, 0).is_empty());
    // too few samples for the dimensions
    assert!(compress_to_jpeg(&[1, 2, 3, 4], 4, 4).is_empty());
    assert!(jpeg_bytes_or_empty(None).is_empty());
    assert_eq!(jpeg_bytes_or_empty(Some(vec![1, 2])), vec![1, 2]);
}

#[test]
fn malformed_frames_have_no_text() {
    let zero_width = YFrameData { width: 0, height: 10, y_plane: vec![], timestamp_ms: 1, frame_number: 1 };
    let zero_height = YFrameData { width: 10, height: 0, y_plane: vec![], timestamp_ms: 2, frame_number: 2 };
    let mut truncated = create_frame_with_edges(100, 100, 3);
    truncated.y_plane.truncate(50);
    for f in [&zero_width, &zero_height] {
        let a = analyze_frame(f);
        assert_eq!(a.content, RegionState { has_text: false, hash: 0 });
        assert!(a.tile.data.is_empty());
        assert_eq!((a.tile.width, a.tile.height), (0, 0));
    }
    let a = analyze_frame(&truncated);
    assert!(!a.content.has_text);
    assert_eq!(a.tile.data.len(), 512 * 512);
    let mut manager = FrameExtractorManager::new();
    let results = manager.process_batch(vec![zero_width, zero_height, truncated]);
    assert!(results.is_empty());
    assert_eq!(manager.get_stats().processed_frames, 3);
}

#[test]
fn crop_takes_the_centred_square_of_the_band() {
    // 4 columns, 100 rows; row y holds the value y
    let mut plane = Vec::new();
    for y in 0..100u32 {
        for _ in 0..4 {
            plane.push(y as u8);
        }
    }
    let tile = crop_y_plane(&plane, 4, 100, 11, 20);
    assert_eq!((tile.width, tile.height), (512, 512));
    assert_eq!(tile.data.len(), 512 * 512);
    // band: rows 11..80 (69 rows), square side 4, y offset 11 + 65 / 2 = 43
    assert_eq!(tile.data[0], 43);
    assert_eq!(tile.data[127 * 512], 43);
    assert_eq!(tile.data[128 * 512], 44);
    assert_eq!(tile.data[511 * 512 + 511], 46);
}

#[test]
fn crop_pads_a_short_plane() {
    let plane = vec![7u8; 10];
    let tile = crop_y_plane(&plane, 10, 10, 0, 0);
    assert_eq!(tile.data[0], 7);
    assert_eq!(tile.data[511 * 512], 128);
}

#[test]
fn crop_of_everything_is_empty() {
    let plane = vec![7u8; 100];
    let tile = crop_y_plane(&plane, 10, 10, 60, 40);
    assert!(tile.data.is_empty());
    assert_eq!((tile.width, tile.height), (0, 0));
    let tile = crop_y_plane(&plane, 10, 10, 90, 90);
    assert!(tile.data.is_empty());
}

#[test]
fn analysis_finds_striped_rows() {
    // 40 columns, 8 rows; rows 2 and 6 alternate flat dark runs and bright pixels
    let w = 40usize;
    let mut plane = vec![0u8; w * 8];
    for y in [2usize, 6] {
        for x in 0..w {
            // pattern of period 4: dark dark dark bright-ish ramp
            plane[y * w + x] = match x % 4 {
                0 => 0,
                1 => 0,
                2 => 200,
                _ => 255,
            };
        }
    }
    let state = analyze_region(&plane, 40, 8, 0, 100);
    assert!(state.has_text);
    // x = 2 (mod 4): value 200, left 0, right 255, and the pair before it is flat
    // each text row has 9 or 10 such pixels in columns 1..39; 5% of 40 is 2
    // block sizes: 10 columns, 2 rows; row 2 lies in grid row 1, row 6 in grid row 3
    // cells 4..8 and 12..16 hold the edges: hash bits 4-7 and 12-15
    assert_eq!(state.hash, 0xF0F0);
    let none = analyze_region(&plane, 40, 8, 0, 20);
    assert_eq!(none, RegionState { has_text: false, hash: 0 });
    let short = analyze_region(&plane[..100], 40, 8, 0, 100);
    assert_eq!(short, RegionState { has_text: false, hash: 0 });
    let empty = analyze_region(&plane, 40, 8, 50, 50);
    assert_eq!(empty, RegionState { has_text: false, hash: 0 });
}

#[test]
fn change_rule_follows_text_and_hash_distance() {
    let text = |hash: u64| RegionState { has_text: true, hash };
    let blank = RegionState { has_text: false, hash: 0 };
    assert!(has_region_changed(&None, &text(1)));
    assert!(!has_region_changed(&None, &blank));
    assert!(has_region_changed(&Some(blank), &text(0)));
    assert!(has_region_changed(&Some(text(0)), &blank));
    assert!(!has_region_changed(&Some(blank), &blank));
    // four differing bits are not enough, five are
    assert!(!has_region_changed(&Some(text(0b1111)), &text(0)));
    assert!(has_region_changed(&Some(text(0b11111)), &text(0)));
}

#[test]
fn single_frames_go_through_the_pipeline() {
    let mut manager = FrameExtractorManager::with_mock_detector(vec![1, 2, 3]);
    // default state machine: three text frames are needed before one is extracted
    let frame = |fill: u8| vec![fill; 16 * 16 * 4];
    assert!(manager.process_frame(16, 16, frame(10), 0, 1).is_none());
    assert!(manager.process_frame(16, 16, frame(60), 33, 2).is_none());
    let third = manager.process_frame(16, 16, frame(110), 66, 3);
    // the deduplicator finds the third frame too similar to the first kept one: dropped
    assert!(third.is_none());
    // the counters only count batches
    let stats = manager.get_stats();
    assert_eq!((stats.processed_frames, stats.extracted_frames), (0, 0));
    manager.reset();
    assert_eq!(manager.get_stats().processed_frames, 0);
}

#[test]
fn single_luma_frame_is_reported_without_an_image() {
    let mut manager = FrameExtractorManager::with_mock_detector(vec![0]);
    // planes count as frame 0 for the mock detector; three text planes lock and extract
    assert!(manager.process_y_frame(32, 32, vec![10; 1024], 0, 1).is_none());
    assert!(manager.process_y_frame(32, 32, vec![80; 1024], 300, 2).is_none());
    let third = manager.process_y_frame(32, 32, vec![150; 1024], 600, 3);
    let info = third.expect("the third text plane is extracted");
    assert_eq!((info.timestamp_ms, info.frame_number), (600, 3));
    assert_eq!(info.confidence, 850);
    assert!(info.jpeg_data.is_empty());
    assert_eq!((info.width, info.height), (0, 0));
}

#[test]
fn cooking_detector_is_the_default() {
    let mut manager = FrameExtractorManager::new();
    let raw = |v: u8| (vec![v; 64 * 64], vec![128u8; 32 * 32], vec![128u8; 32 * 32]);
    let (y, u, v) = raw(40);
    // a dark uniform frame has no text: nothing is extracted
    assert!(manager.process_yuv_frame(64, 64, y, u, v, 0, 1).is_none());
    let (y, u, v) = raw(90);
    assert!(manager.process_yuv_frame(64, 64, y, u, v, 33, 2).is_none());
}

#[test]
fn pipeline_frames_are_counted_apart_from_batches() {
    let mut manager = FrameExtractorManager::with_mock_detector(vec![]);
    assert_eq!(manager.pipeline_frame_count(), 0);
    manager.process_y_frame(32, 32, vec![10; 1024], 0, 1);
    manager.process_y_frame(32, 32, vec![80; 1024], 300, 2);
    assert_eq!(manager.pipeline_frame_count(), 2);
    assert_eq!(manager.get_stats().processed_frames, 0);
    manager.reset();
    assert_eq!(manager.pipeline_frame_count(), 0);
}
