use recipe_media::video::diff_filter::FrameDiffFilter;
use recipe_media::video::frame::Frame;

fn create_test_frame(width: u32, height: u32, fill: u8) -> Frame {
    let data = vec![fill; (width * height * 4) as usize];
    Frame::new(width, height, data, 0, 0)
}

#[test]
fn test_identical_frames() {
    let mut filter = FrameDiffFilter::new();
    let frame1 = create_test_frame(100, 100, 128);
    let frame2 = create_test_frame(100, 100, 128);

    assert!(filter.should_process(&frame1));
    assert!(!filter.should_process(&frame2));
}

#[test]
fn test_different_frames() {
    let mut filter = FrameDiffFilter::new();
    let frame1 = create_test_frame(100, 100, 0);
    let frame2 = create_test_frame(100, 100, 255);

    assert!(filter.should_process(&frame1));
    assert!(filter.should_process(&frame2));
}

#[test]
fn test_histogram_similarity() {
    let h1 = vec![1u32; 64];
    let h2 = vec![1u32; 64];
    let sim = FrameDiffFilter::histogram_similarity(&h1, &h2);
    assert!((sim as f32 / 1000.0 - 1.0).abs() < 0.01);
}

#[test]
fn diff_filter_test_hamming_distance() {
    assert_eq!(FrameDiffFilter::hamming_distance(0b0, 0b0), 0);
    assert_eq!(FrameDiffFilter::hamming_distance(0b0, 0b1), 1);
    assert_eq!(FrameDiffFilter::hamming_distance(0b1111, 0b0000), 4);
}

#[test]
fn test_frame_resize() {
    let data = vec![255u8; 100 * 100 * 4];
    let frame = Frame::new(100, 100, data, 0, 0);
    let resized = frame.resize_to(32, 32);

    assert_eq!(resized.width, 32);
    assert_eq!(resized.height, 32);
    assert_eq!(resized.data.len(), 32 * 32 * 4);
}

#[test]
fn resize_averages_the_pixels() {
    // left half black, right half white, opaque
    let mut data = Vec::new();
    for _ in 0..4 {
        for x in 0..4 {
            let v = if x < 2 { 0 } else { 255 };
            data.extend_from_slice(&[v, v, v, 255]);
        }
    }
    let frame = Frame::new(4, 4, data.clone(), 5, 6);
    let resized = frame.resize_to(2, 2);
    assert_eq!(resized.data.len(), 16);
    assert_ne!(resized.data, data);
    assert!(resized.data[0] < 128 && resized.data[4] > 128);
    assert_eq!(resized.data[3], 255);
    assert_eq!((resized.timestamp_ms, resized.frame_number), (5, 6));
}

#[test]
fn histogram_similarity_is_the_intersection() {
    let mut h1 = vec![0u32; 64];
    let mut h2 = vec![0u32; 64];
    h1[0] = 10;
    h1[1] = 30;
    h2[1] = 20;
    h2[2] = 60;
    // overlap 20, larger total 80
    assert_eq!(FrameDiffFilter::histogram_similarity(&h1, &h2), 250);
    assert_eq!(FrameDiffFilter::histogram_similarity(&h1, &vec![0u32; 64]), 0);
    assert_eq!(FrameDiffFilter::histogram_similarity(&h1, &h1), 1000);
}

#[test]
fn reduced_image_hash_and_histogram() {
    let gray: Vec<u8> = (0..64u32).map(|i| (i * 4) as u8).collect();
    // mean of 0, 4, .., 252 is 126; samples 32.. are brighter; only the first 56 get a bit
    let hash = FrameDiffFilter::phash(&gray, 126);
    assert_eq!(hash, (0x00FF_FFFF_0000_0000u64) | (126u64 << 56));
    let hist = FrameDiffFilter::y_histogram(&gray);
    assert_eq!(hist, vec![1u32; 64]);
    let hist = FrameDiffFilter::y_histogram(&vec![3, 4, 7, 255]);
    assert_eq!((hist[0], hist[1], hist[63]), (1, 2, 1));
}

#[test]
fn luma_planes_are_judged_on_their_own() {
    let mut filter = FrameDiffFilter::with_threshold(100);
    let dark = vec![10u8; 64 * 64];
    let bright = vec![200u8; 64 * 64];
    assert!(filter.should_process_y(&dark, 64, 64));
    assert!(!filter.should_process_y(&dark, 64, 64));
    assert!(filter.should_process_y(&bright, 64, 64));
    // the RGBA side has not seen a frame yet
    assert!(filter.should_process(&create_test_frame(16, 16, 10)));
    filter.reset();
    assert!(filter.should_process_y(&bright, 64, 64));
}

#[test]
fn threshold_is_compared_exactly() {
    // same histogram bin, hashes differ in the brightness byte only: 100 ^ 102 has one bit
    // score = 1 / 128 = 7.8125 per-mille
    let a = vec![100u8; 64 * 64];
    let b = vec![102u8; 64 * 64];
    let mut filter = FrameDiffFilter::with_threshold(7);
    assert!(filter.should_process_y(&a, 64, 64));
    assert!(filter.should_process_y(&b, 64, 64));
    let mut filter = FrameDiffFilter::with_threshold(8);
    assert!(filter.should_process_y(&a, 64, 64));
    assert!(!filter.should_process_y(&b, 64, 64));
}

#[test]
fn downsample_takes_block_means() {
    // 16 x 16, left half 40, right half 80
    let mut plane = vec![0u8; 256];
    for y in 0..16 {
        for x in 0..16 {
            plane[y * 16 + x] = if x < 8 { 40 } else { 80 };
        }
    }
    let (gray, mean) = FrameDiffFilter::downsample_y_plane(&plane, 16, 16);
    assert_eq!(gray.len(), 64);
    assert_eq!(&gray[..8], &[40, 40, 40, 40, 80, 80, 80, 80]);
    assert_eq!(mean, 60);
    let frame = Frame::new(2, 1, vec![255, 0, 0, 255, 0, 0, 255, 255], 0, 0);
    let (gray, mean) = FrameDiffFilter::to_grayscale(&frame);
    assert_eq!(gray, vec![76, 29]);
    assert_eq!(mean, 52);
}
