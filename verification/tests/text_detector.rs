use recipe_media::video::frame::Frame;
use recipe_media::video::simple_detector::{
    isqrt, MockTextDetector, SimpleFeatureDetector,
};
use recipe_media::video::text_detector::{
    CookingTextDetector, SubtitleBand, TextDetectionResult, TextDetector,
};

fn create_test_frame(width: u32, height: u32, pattern: u8, frame_number: u64) -> Frame {
    let data = vec![pattern; (width * height * 4) as usize];
    Frame::new(width, height, data, 0, frame_number)
}

const NO_TEXT: TextDetectionResult =
    TextDetectionResult { has_text: false, confidence: 0, text_region_count: 0 };

#[test]
fn test_mock_detector_with_pattern() {
    let detector = MockTextDetector::with_pattern(|n| n % 10 == 0);

    let frame_with_text = create_test_frame(100, 100, 128, 10);
    let result = detector.detect(&frame_with_text);
    assert!(result.has_text);
    assert_eq!(result.text_region_count, 2);

    let frame_without_text = create_test_frame(100, 100, 128, 5);
    let result = detector.detect(&frame_without_text);
    assert!(!result.has_text);
    assert_eq!(result.text_region_count, 0);
}

#[test]
fn test_mock_detector_with_fixed_frames() {
    let detector = MockTextDetector::with_fixed_frames(vec![5, 10, 15]);

    assert!(
        detector
            .detect(&create_test_frame(100, 100, 128, 5))
            .has_text
    );
    assert!(
        detector
            .detect(&create_test_frame(100, 100, 128, 10))
            .has_text
    );
    assert!(
        !detector
            .detect(&create_test_frame(100, 100, 128, 7))
            .has_text
    );
}

#[test]
fn test_simple_detector_edges() {
    let detector = SimpleFeatureDetector::new();

    let uniform_frame = create_test_frame(64, 64, 128, 0);
    let result = detector.detect(&uniform_frame);
    assert!(!result.has_text);

    let high_contrast = create_test_frame(64, 64, 0, 0);
    let result = detector.detect(&high_contrast);
    assert!(!result.has_text);
}

#[test]
fn mock_detector_without_frames_finds_nothing() {
    let detector = MockTextDetector::new();
    assert_eq!(detector.detect(&create_test_frame(4, 4, 0, 0)), NO_TEXT);
    let detector = MockTextDetector::with_fixed_frames(vec![3]);
    let found = detector.detect(&create_test_frame(4, 4, 0, 3));
    assert_eq!(found, TextDetectionResult { has_text: true, confidence: 850, text_region_count: 2 });
    // the plane path of a mock shows the plane as frame number 0
    assert_eq!(detector.detect_yuv(4, 4, &[0u8; 16]), NO_TEXT);
}

#[test]
fn square_roots_round_down() {
    assert_eq!(isqrt(0), 0);
    assert_eq!(isqrt(1), 1);
    assert_eq!(isqrt(3), 1);
    assert_eq!(isqrt(4), 2);
    assert_eq!(isqrt(99), 9);
    assert_eq!(isqrt(100), 10);
    assert_eq!(isqrt(1 << 100), 1 << 50);
    assert_eq!(isqrt((1u128 << 100) - 1), (1 << 50) - 1);
}

fn stripes(width: usize, height: usize) -> Vec<u8> {
    // vertical stripes two pixels wide: 0 0 255 255 0 0 ..
    let mut plane = vec![0u8; width * height];
    for y in 0..height {
        for x in 0..width {
            if x % 4 >= 2 {
                plane[y * width + x] = 255;
            }
        }
    }
    plane
}

#[test]
fn simple_detector_sees_stripes() {
    let detector = SimpleFeatureDetector::new();
    let plane = stripes(64, 64);
    let result = detector.detect_yuv(64, 64, &plane);
    // every pixel lies on a vertical edge; half black, half white: deviation 127.5 of 255
    assert!(result.has_text);
    assert_eq!(result.text_region_count, 1);
    assert_eq!(result.confidence, 1000);
    let uniform = vec![77u8; 64 * 64];
    assert_eq!(detector.detect_yuv(64, 64, &uniform), NO_TEXT);
    // a plane that is too short has no text
    assert_eq!(detector.detect_yuv(64, 64, &plane[..100]), NO_TEXT);
    assert_eq!(detector.detect_yuv(0, 0, &[]), NO_TEXT);
    let rgba: Vec<u8> = plane.iter().flat_map(|&v| [v, v, v, 255]).collect();
    let frame = Frame::new(64, 64, rgba, 0, 0);
    let result = detector.detect(&frame);
    assert!(result.has_text);
    assert_eq!(result.confidence, 1000);
    let short = Frame::new(64, 64, vec![0; 16], 0, 0);
    assert_eq!(detector.detect(&short), NO_TEXT);
}

#[test]
fn simple_detector_confidence_without_text() {
    let detector = SimpleFeatureDetector::new();
    // left half 100, right half 110: one soft edge, little texture
    let mut plane = vec![100u8; 32 * 32];
    for y in 0..32 {
        for x in 16..32 {
            plane[y * 32 + x] = 110;
        }
    }
    let result = detector.detect_yuv(32, 32, &plane);
    assert!(!result.has_text);
    assert_eq!(result.text_region_count, 0);
    // no gradient above 20 levels; deviation 5 of 255 is 19 per-mille
    assert_eq!(result.confidence, 19);
}

fn subtitle_plane() -> Vec<u8> {
    // 100 x 100, dark; rows 80..90 hold white text: stripes of two bright and two dark pixels
    let mut plane = vec![20u8; 100 * 100];
    for y in 80..90 {
        for x in 0..100 {
            if x % 4 < 2 {
                plane[y * 100 + x] = 255;
            }
        }
    }
    plane
}

#[test]
fn cooking_detector_finds_the_subtitle_band() {
    let detector = CookingTextDetector::new();
    let plane = subtitle_plane();
    let band = detector.detect_subtitle_bands(&plane, 100, 100);
    assert_eq!(band, SubtitleBand { found: true, y: 80, height: 10 });
    let found = detector.subtitle_band_hash(&plane, 100, 100);
    assert!(found.is_some());
    let (hash, y, height) = found.unwrap();
    assert_eq!((y, height), (80, 10));
    // blocks of 12 columns and 1 row; the stripes make every block of a row alike
    assert_eq!(hash >> 48, 0);
    assert_eq!(detector.compute_band_hash(&plane, 100, 80, 10), hash);
    // no band in a dark plane, in a plane that is bright all over, or in a short plane
    let dark = vec![20u8; 100 * 100];
    assert!(!detector.detect_subtitle_bands(&dark, 100, 100).found);
    assert_eq!(detector.subtitle_band_hash(&dark, 100, 100), None);
    let bright = vec![250u8; 100 * 100];
    assert_eq!(
        detector.detect_subtitle_bands(&bright, 100, 100),
        SubtitleBand { found: false, y: 60, height: 40 }
    );
    assert_eq!(
        detector.detect_subtitle_bands(&plane[..500], 100, 100),
        SubtitleBand { found: false, y: 0, height: 0 }
    );
}

#[test]
fn longest_band_wins_and_the_first_among_equals() {
    let detector = CookingTextDetector::new();
    let mut plane = vec![0u8; 10 * 100];
    for y in [62usize, 63, 64, 70, 71, 72, 73, 80, 81, 82, 83] {
        for x in 0..10 {
            plane[y * 10 + x] = 200;
        }
    }
    let band = detector.detect_subtitle_bands(&plane, 10, 100);
    assert_eq!(band, SubtitleBand { found: true, y: 70, height: 4 });
}

#[test]
fn cooking_detector_reads_the_bottom_region() {
    let detector = CookingTextDetector::new();
    let plane = subtitle_plane();
    let result = detector.detect_yuv(100, 100, &plane);
    // bottom 30 rows: 3000 pixels, 500 bright; 10 rows with 98 interior pixels on an edge each
    // bright share 166 per-mille -> 400; contrast 300; edges 980 of 2940 -> 300
    assert_eq!(
        result,
        TextDetectionResult { has_text: true, confidence: 1000, text_region_count: 1 }
    );
    assert_eq!(detector.detect_bottom_region(&plane, 100, 100), result);
    let dark = vec![20u8; 100 * 100];
    assert_eq!(detector.detect_yuv(100, 100, &dark), NO_TEXT);
    assert_eq!(detector.detect_yuv(100, 100, &plane[..9000]), NO_TEXT);
    assert_eq!(detector.detect_yuv(0, 0, &[]), NO_TEXT);
    let rgba: Vec<u8> = plane.iter().flat_map(|&v| [v, v, v, 255]).collect();
    let frame = Frame::new(100, 100, rgba, 0, 0);
    assert_eq!(detector.detect(&frame), result);
}

#[test]
fn few_bright_pixels_lower_the_confidence() {
    let detector = CookingTextDetector::new();
    // 100 x 100, dark; rows 80..90 hold a bright pixel at every tenth column
    let mut plane = vec![20u8; 100 * 100];
    for y in 80..90 {
        for x in (5..100).step_by(10) {
            plane[y * 100 + x] = 255;
        }
    }
    let result = detector.detect_yuv(100, 100, &plane);
    // 100 bright of 3000: 33 per-mille, ten times that is 333
    // mean 27, variance (100 * 228^2 + 2900 * 7^2) / 3000 = 1780 > 1600
    // edges: the two neighbours of each bright pixel: 200 of 2940, five times the share is 340 -> 300
    assert_eq!(
        result,
        TextDetectionResult { has_text: true, confidence: 933, text_region_count: 1 }
    );
}
