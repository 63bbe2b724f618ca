use recipe_media::video::crop::{
    crop_and_resize_batch, crop_and_resize_frame, crop_and_resize_frame_with_config,
    crop_yuv_frame, CroppedFrame, FrameCropConfig, YuvFrameData,
};

fn gray_frame(width: u32, height: u32) -> YuvFrameData {
    YuvFrameData {
        width,
        height,
        y_plane: (0..width * height).map(|i| (i / width) as u8).collect(),
        u_plane: vec![128; ((width / 2) * (height / 2)) as usize],
        v_plane: vec![128; ((width / 2) * (height / 2)) as usize],
        timestamp_ms: 40,
        frame_number: 2,
    }
}

#[test]
fn default_config_is_the_documented_one() {
    assert_eq!(
        FrameCropConfig::default(),
        FrameCropConfig { top_crop_pct: 15, bottom_crop_pct: 20, output_size: 512 }
    );
}

#[test]
fn crop_takes_the_rows_between_the_bands() {
    // 10 columns, 100 rows; row y has luma y
    let frame = gray_frame(10, 100);
    let config = FrameCropConfig { top_crop_pct: 15, bottom_crop_pct: 20, output_size: 4 };
    let cropped: CroppedFrame = crop_yuv_frame(&frame, config);
    assert_eq!((cropped.width, cropped.height), (4, 4));
    assert_eq!((cropped.timestamp_ms, cropped.frame_number), (40, 2));
    assert_eq!(cropped.rgb_data.len(), 4 * 4 * 3);
    // rows 15..80: 65 rows; output row r shows row 15 + r * 65 / 4
    let rows: Vec<u8> = (0..4).map(|r| cropped.rgb_data[r * 12]).collect();
    assert_eq!(rows, vec![15, 31, 47, 63]);
    // neutral chroma: gray pixels
    assert_eq!(&cropped.rgb_data[..3], &[15, 15, 15]);
}

#[test]
fn wide_frames_are_cropped_to_the_centre() {
    // 100 columns, 10 rows; column x has luma x
    let frame = YuvFrameData {
        width: 100,
        height: 10,
        y_plane: (0..1000u32).map(|i| (i % 100) as u8).collect(),
        u_plane: vec![128; 250],
        v_plane: vec![128; 250],
        timestamp_ms: 0,
        frame_number: 0,
    };
    let config = FrameCropConfig { top_crop_pct: 0, bottom_crop_pct: 0, output_size: 5 };
    let cropped = crop_yuv_frame(&frame, config);
    // window: 10 columns from column 45; output column c shows column 45 + c * 10 / 5
    let columns: Vec<u8> = (0..5).map(|c| cropped.rgb_data[c * 3]).collect();
    assert_eq!(columns, vec![45, 47, 49, 51, 53]);
}

#[test]
fn chroma_is_converted_with_fixed_point_bt601() {
    let pixel = |y: u8, u: u8, v: u8| -> Vec<u8> {
        let config = FrameCropConfig { top_crop_pct: 0, bottom_crop_pct: 0, output_size: 1 };
        crop_and_resize_frame_with_config(vec![y; 4], vec![u], vec![v], 2, 2, 0, 0, config).rgb_data
    };
    assert_eq!(pixel(100, 128, 128), vec![100, 100, 100]);
    // v = +50: r = 100 + (359 * 50 >> 8) = 170; g = 100 - (183 * 50 >> 8) = 65; b = 100
    assert_eq!(pixel(100, 128, 178), vec![170, 65, 100]);
    // u = -28: g = 100 - (88 * -28 >> 8) = 100 + 10 = 110; b = 100 + (454 * -28 >> 8) = 100 - 50 = 50
    assert_eq!(pixel(100, 100, 128), vec![100, 110, 50]);
    // clamped at both ends: g = 250 - (271 * 127 >> 8) = 116 and g = 5 - (271 * -128 >> 8) = 5 + 136
    assert_eq!(pixel(250, 255, 255), vec![255, 116, 255]);
    assert_eq!(pixel(5, 0, 0), vec![0, 141, 0]);
}

#[test]
fn missing_samples_are_neutral() {
    let config = FrameCropConfig { top_crop_pct: 0, bottom_crop_pct: 0, output_size: 2 };
    let cropped = crop_and_resize_frame_with_config(vec![], vec![], vec![], 4, 4, 1, 2, config);
    assert_eq!(cropped.rgb_data, vec![128; 12]);
    let cropped = crop_and_resize_frame_with_config(vec![], vec![], vec![], 0, 0, 1, 2, config);
    assert_eq!(cropped.rgb_data, vec![128; 12]);
    let none = FrameCropConfig { top_crop_pct: 0, bottom_crop_pct: 0, output_size: 0 };
    assert!(crop_and_resize_frame_with_config(vec![1], vec![1], vec![1], 1, 1, 0, 0, none).rgb_data.is_empty());
}

#[test]
fn standard_crop_gives_512_squared() {
    let frame = gray_frame(20, 40);
    let cropped = crop_and_resize_frame(
        frame.y_plane.clone(),
        frame.u_plane.clone(),
        frame.v_plane.clone(),
        20,
        40,
        9,
        8,
    );
    assert_eq!((cropped.width, cropped.height), (512, 512));
    assert_eq!(cropped.rgb_data.len(), 512 * 512 * 3);
    // rows 6..32 remain: the first output row shows row 6, the last row 6 + 511 * 26 / 512 = 31
    assert_eq!(cropped.rgb_data[0], 6);
    assert_eq!(cropped.rgb_data[511 * 512 * 3], 31);
    assert_eq!((cropped.timestamp_ms, cropped.frame_number), (9, 8));
}

#[test]
fn batches_keep_their_order() {
    let config = FrameCropConfig { top_crop_pct: 10, bottom_crop_pct: 10, output_size: 2 };
    let mut a = gray_frame(4, 10);
    a.frame_number = 1;
    let mut b = gray_frame(4, 20);
    b.frame_number = 2;
    let cropped = crop_and_resize_batch(vec![a.clone(), b.clone()], config);
    assert_eq!(cropped.len(), 2);
    assert_eq!(cropped[0].frame_number, 1);
    assert_eq!(cropped[1].frame_number, 2);
    assert_eq!(cropped[0].rgb_data, crop_yuv_frame(&a, config).rgb_data);
    assert_eq!(cropped[1].rgb_data, crop_yuv_frame(&b, config).rgb_data);
    assert!(crop_and_resize_batch(vec![], config).is_empty());
}
