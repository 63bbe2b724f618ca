use recipe_media::video::frame::{Frame, FrameInfo, RawFrame};

#[test]
fn test_frame_creation() {
    let data = vec![255u8; 100 * 100 * 4]; // 100x100 white image
    let frame = Frame::new(100, 100, data.clone(), 1000, 30);

    assert_eq!(frame.width, 100);
    assert_eq!(frame.height, 100);
    assert_eq!(frame.pixel_count(), 10000);
    assert_eq!(frame.timestamp_ms, 1000);
    assert_eq!(frame.frame_number, 30);
}

#[test]
fn test_yuv_to_rgba() {
    let width = 64;
    let height = 64;
    let y_plane = vec![128u8; (width * height) as usize];
    let u_plane = vec![128u8; (width * height / 4) as usize];
    let v_plane = vec![128u8; (width * height / 4) as usize];

    let raw_frame = RawFrame {
        width,
        height,
        y_plane,
        u_plane,
        v_plane,
        timestamp_ms: 0,
        frame_number: 0,
    };

    let frame = raw_frame.to_rgba();
    assert_eq!(frame.width, width);
    assert_eq!(frame.height, height);
    assert_eq!(frame.data.len(), (width * height * 4) as usize);
}

#[test]
fn neutral_chroma_gives_gray() {
    let raw = RawFrame {
        width: 2,
        height: 2,
        y_plane: vec![0, 100, 200, 255],
        u_plane: vec![128],
        v_plane: vec![128],
        timestamp_ms: 7,
        frame_number: 9,
    };
    let frame = raw.to_rgba();
    assert_eq!(
        frame.data,
        vec![0, 0, 0, 255, 100, 100, 100, 255, 200, 200, 200, 255, 255, 255, 255, 255]
    );
    assert_eq!(frame.timestamp_ms, 7);
    assert_eq!(frame.frame_number, 9);
}

#[test]
fn chroma_shifts_the_channels() {
    // y = 100, u = 228 (+100), v = 28 (-100)
    // r = 100 - 140.2 -> 0; g = 100 - 34.4136 + 71.4136 = 137; b = 100 + 177.2 -> 255
    let raw = RawFrame {
        width: 1,
        height: 1,
        y_plane: vec![100],
        u_plane: vec![228],
        v_plane: vec![28],
        timestamp_ms: 0,
        frame_number: 0,
    };
    assert_eq!(raw.to_rgba().data, vec![0, 137, 255, 255]);
    // y = 100, u = 138 (+10), v = 148 (+20)
    // r = 128.04 -> 128; g = 100 - 3.44136 - 14.28272 = 82.27 -> 82; b = 117.72 -> 117
    let raw = RawFrame {
        width: 1,
        height: 1,
        y_plane: vec![100],
        u_plane: vec![138],
        v_plane: vec![148],
        timestamp_ms: 0,
        frame_number: 0,
    };
    assert_eq!(raw.to_rgba().data, vec![128, 82, 117, 255]);
}

#[test]
fn chroma_is_shared_by_two_by_two_blocks() {
    // 4x2 frame, two chroma samples: left block neutral, right block red-ish
    let raw = RawFrame {
        width: 4,
        height: 2,
        y_plane: vec![50; 8],
        u_plane: vec![128, 128],
        v_plane: vec![128, 178],
        timestamp_ms: 0,
        frame_number: 0,
    };
    let data = raw.to_rgba().data;
    // v = +50: r = 50 + 70.1 = 120; g = 50 - 35.7068 = 14; b = 50
    for pixel in [0usize, 1, 4, 5] {
        assert_eq!(&data[pixel * 4..pixel * 4 + 4], &[50, 50, 50, 255]);
    }
    for pixel in [2usize, 3, 6, 7] {
        assert_eq!(&data[pixel * 4..pixel * 4 + 4], &[120, 14, 50, 255]);
    }
}

#[test]
fn to_rgb_drops_alpha_and_incomplete_pixels() {
    let frame = Frame::new(2, 1, vec![1, 2, 3, 4, 5, 6, 7, 8, 9, 10], 0, 0);
    assert_eq!(frame.to_rgb(), vec![1, 2, 3, 5, 6, 7]);
    let empty = Frame::new(0, 0, vec![], 0, 0);
    assert!(empty.to_rgb().is_empty());
    assert_eq!(empty.pixel_count(), 0);
}

#[test]
fn frame_info_copies_the_metadata() {
    let frame = Frame::new(3, 4, vec![0; 48], 1234, 56);
    let info = FrameInfo::from_frame(&frame);
    assert_eq!(
        info,
        FrameInfo { width: 3, height: 4, timestamp_ms: 1234, frame_number: 56 }
    );
}
