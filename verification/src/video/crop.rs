//! Cropping a YUV 4:2:0 frame to the body of a vertical video and scaling
//! it to a square RGB image.

use vstd::prelude::*;
use crate::arith::{lemma_mul_bound, min_int};

verus! {

/// Sample used where a plane is too short to hold the pixel: mid gray, no colour.
pub const NEUTRAL_SAMPLE: u8 = 128;

/// How a frame is cropped: the shares of the height trimmed at the top and
/// the bottom, in percent, and the side of the square output.
#[derive(Debug, Clone, Copy, PartialEq, Eq, Structural)]
pub struct FrameCropConfig {
    pub top_crop_pct: u32,
    pub bottom_crop_pct: u32,
    pub output_size: u32,
}

/// A cropped and scaled frame: `width * height` RGB pixels, three bytes each.
#[derive(Debug, Clone)]
pub struct CroppedFrame {
    pub rgb_data: Vec<u8>,
    pub width: u32,
    pub height: u32,
    pub timestamp_ms: u64,
    pub frame_number: u64,
}

/// A decoded frame with its two chroma planes, each one sample for 2x2 pixels.
#[derive(Debug, Clone)]
pub struct YuvFrameData {
    pub width: u32,
    pub height: u32,
    pub y_plane: Vec<u8>,
    pub u_plane: Vec<u8>,
    pub v_plane: Vec<u8>,
    pub timestamp_ms: u64,
    pub frame_number: u64,
}

impl FrameCropConfig {
    /// 15% off the top for titles and watermarks, 20% off the bottom for
    /// subtitles, output 512 x 512.
    pub open spec fn standard() -> FrameCropConfig {
        FrameCropConfig { top_crop_pct: 15, bottom_crop_pct: 20, output_size: 512 }
    }

    /// The output fits into memory.
    pub open spec fn fits(&self) -> bool {
        self.output_size as int * self.output_size as int * 3 <= usize::MAX
    }
}

impl Default for FrameCropConfig {
    fn default() -> (config: Self)
        ensures
            config == FrameCropConfig::standard(),
    {
        FrameCropConfig { top_crop_pct: 15, bottom_crop_pct: 20, output_size: 512 }
    }
}

/// The window that is cut out of a frame.
pub struct CropWindow {
    pub x_start: int,
    pub width: int,
    pub y_start: int,
    pub height: int,
}

/// The window for a frame of `w` x `h` pixels: the rows between the trimmed
/// bands, and of the columns the centred stretch as wide as the window is
/// high, or all columns where the frame is narrower.
pub open spec fn crop_window(w: int, h: int, config: FrameCropConfig) -> CropWindow {
    let top = h * config.top_crop_pct / 100;
    let bottom = h * config.bottom_crop_pct / 100;
    let height = if h - top - bottom > 0 {
        h - top - bottom
    } else {
        0
    };
    CropWindow {
        x_start: if w > height {
            (w - height) / 2
        } else {
            0
        },
        width: if w > height {
            height
        } else {
            w
        },
        y_start: top,
        height,
    }
}

/// The source column shown at output column `out_x`: nearest neighbour, kept inside the frame.
pub open spec fn source_x(w: int, h: int, config: FrameCropConfig, out_x: int) -> int {
    let win = crop_window(w, h, config);
    min_int(win.x_start + out_x * win.width / (config.output_size as int), w - 1)
}

/// The source row shown at output row `out_y`.
pub open spec fn source_y(w: int, h: int, config: FrameCropConfig, out_y: int) -> int {
    let win = crop_window(w, h, config);
    min_int(win.y_start + out_y * win.height / (config.output_size as int), h - 1)
}

/// Sample `idx` of a plane, or `NEUTRAL_SAMPLE` where the plane does not hold it.
pub open spec fn sample_or_neutral(plane: Seq<u8>, idx: int) -> int {
    if 0 <= idx < plane.len() {
        plane[idx] as int
    } else {
        NEUTRAL_SAMPLE as int
    }
}

pub open spec fn clamp_byte(v: int) -> int {
    if v < 0 {
        0
    } else if v > 255 {
        255
    } else {
        v
    }
}

/// BT.601 in 8-bit fixed point; `u` and `v` are the chroma samples less 128,
/// divisions round down.
pub open spec fn bt601_red(y: int, v: int) -> int {
    clamp_byte(y + 359 * v / 256)
}

pub open spec fn bt601_green(y: int, u: int, v: int) -> int {
    clamp_byte(y - (88 * u + 183 * v) / 256)
}

pub open spec fn bt601_blue(y: int, u: int) -> int {
    clamp_byte(y + 454 * u / 256)
}

/// Byte `k` of the output: channel `k % 3` of the pixel at column
/// `k / 3 % size`, row `k / 3 / size`.
pub open spec fn cropped_byte(frame: YuvFrameData, config: FrameCropConfig, k: int) -> int {
    let w = frame.width as int;
    let h = frame.height as int;
    let size = config.output_size as int;
    let src_x = source_x(w, h, config, k / 3 % size);
    let src_y = source_y(w, h, config, k / 3 / size);
    let luma = sample_or_neutral(frame.y_plane@, src_y * w + src_x);
    let uv_idx = (src_y / 2) * (w / 2) + src_x / 2;
    let u = sample_or_neutral(frame.u_plane@, uv_idx) - 128;
    let v = sample_or_neutral(frame.v_plane@, uv_idx) - 128;
    if w == 0 || h == 0 {
        NEUTRAL_SAMPLE as int
    } else if k % 3 == 0 {
        bt601_red(luma, v)
    } else if k % 3 == 1 {
        bt601_green(luma, u, v)
    } else {
        bt601_blue(luma, u)
    }
}

/// The cropped and scaled image of a frame.
pub open spec fn cropped_rgb(frame: YuvFrameData, config: FrameCropConfig) -> Seq<u8> {
    Seq::new(
        (config.output_size as int * config.output_size as int * 3) as nat,
        |k: int| cropped_byte(frame, config, k) as u8,
    )
}

/// `frame` is what cropping makes of `source`.
pub open spec fn is_cropped(cropped: CroppedFrame, source: YuvFrameData, config: FrameCropConfig) -> bool {
    &&& cropped.rgb_data@ == cropped_rgb(source, config)
    &&& cropped.width == config.output_size
    &&& cropped.height == config.output_size
    &&& cropped.timestamp_ms == source.timestamp_ms
    &&& cropped.frame_number == source.frame_number
}

/// Scaling a coordinate below `size` by `extent / size` stays below `extent`.
proof fn lemma_scaled_below(out: int, extent: int, size: int)
    requires
        0 <= out < size,
        0 <= extent,
    ensures
        0 <= out * extent / size <= extent,
        0 <= out * extent,
{
    assert(0 <= out * extent <= size * extent) by (nonlinear_arith)
        requires
            0 <= out < size,
            0 <= extent,
    ;
    vstd::arithmetic::div_mod::lemma_div_is_ordered(out * extent, size * extent, size);
    vstd::arithmetic::div_mod::lemma_div_multiples_vanish(extent, size);
    assert(size * extent == extent * size) by (nonlinear_arith);
    vstd::arithmetic::div_mod::lemma_div_pos_is_pos(out * extent, size);
}

/// `x / 256`, rounded down.
fn div_256(x: i32) -> (q: i32)
    requires
        -10_000_000 <= x <= 10_000_000,
    ensures
        q == x as int / 256,
{
    if x >= 0 {
        x / 256
    } else {
        -((255 - x) / 256)
    }
}

fn clamp_to_u8(v: i32) -> (c: u8)
    ensures
        c == clamp_byte(v as int),
{
    if v < 0 {
        0
    } else if v > 255 {
        255
    } else {
        v as u8
    }
}

fn read_or_neutral(plane: &Vec<u8>, idx: u64) -> (sample: i32)
    ensures
        sample == sample_or_neutral(plane@, idx as int),
        0 <= sample <= 255,
{
    if idx < plane.len() as u64 {
        plane[idx as usize] as i32
    } else {
        NEUTRAL_SAMPLE as i32
    }
}

/// Converts the pixel at `(src_x, src_y)` of the frame to RGB.
fn pixel_rgb(frame: &YuvFrameData, src_x: u64, src_y: u64) -> (rgb: (u8, u8, u8))
    requires
        src_x < frame.width,
        src_y < frame.height,
    ensures
        ({
            let w = frame.width as int;
            let luma = sample_or_neutral(frame.y_plane@, src_y * w + src_x);
            let uv_idx = (src_y as int / 2) * (w / 2) + src_x as int / 2;
            let u = sample_or_neutral(frame.u_plane@, uv_idx) - 128;
            let v = sample_or_neutral(frame.v_plane@, uv_idx) - 128;
            &&& rgb.0 == bt601_red(luma, v)
            &&& rgb.1 == bt601_green(luma, u, v)
            &&& rgb.2 == bt601_blue(luma, u)
        }),
{
    let w: u64 = frame.width as u64;
    proof {
        lemma_mul_bound(src_y as int, w as int, 0xFFFF_FFFF, 0xFFFF_FFFF);
        lemma_mul_bound((src_y / 2) as int, (w / 2) as int, 0x7FFF_FFFF, 0x7FFF_FFFF);
    }
    let luma: i32 = read_or_neutral(&frame.y_plane, src_y * w + src_x);
    let uv_idx: u64 = (src_y / 2) * (w / 2) + src_x / 2;
    let u: i32 = read_or_neutral(&frame.u_plane, uv_idx) - 128;
    let v: i32 = read_or_neutral(&frame.v_plane, uv_idx) - 128;
    let r: u8 = clamp_to_u8(luma + div_256(359 * v));
    let g: u8 = clamp_to_u8(luma - div_256(88 * u + 183 * v));
    let b: u8 = clamp_to_u8(luma + div_256(454 * u));
    (r, g, b)
}

/// Crops a frame and scales it to `config.output_size` squared, converting
/// to RGB on the way. Samples that a plane does not hold count as
/// `NEUTRAL_SAMPLE`; a frame without pixels gives a gray image.
pub fn crop_yuv_frame(frame: &YuvFrameData, config: FrameCropConfig) -> (cropped: CroppedFrame)
    requires
        config.fits(),
    ensures
        is_cropped(cropped, *frame, config),
{
    let w: u64 = frame.width as u64;
    let h: u64 = frame.height as u64;
    let size: u64 = config.output_size as u64;
    proof {
        lemma_mul_bound(h as int, config.top_crop_pct as int, 0xFFFF_FFFF, 0xFFFF_FFFF);
        lemma_mul_bound(h as int, config.bottom_crop_pct as int, 0xFFFF_FFFF, 0xFFFF_FFFF);
    }
    let top: u64 = h * (config.top_crop_pct as u64) / 100;
    let bottom: u64 = h * (config.bottom_crop_pct as u64) / 100;
    let crop_height: u64 = h.saturating_sub(top).saturating_sub(bottom);
    let crop_x_start: u64 = if w > crop_height {
        (w - crop_height) / 2
    } else {
        0
    };
    let crop_width: u64 = if w > crop_height {
        crop_height
    } else {
        w
    };
    let ghost win = crop_window(w as int, h as int, config);
    assert(win.x_start == crop_x_start && win.width == crop_width && win.y_start == top
        && win.height == crop_height);
    let ghost wi = frame.width as int;
    let ghost hi = frame.height as int;

    let mut rgb_data: Vec<u8> = Vec::new();
    let mut out_y: u64 = 0;
    while out_y < size
        invariant
            out_y <= size,
            size == config.output_size,
            w == frame.width,
            h == frame.height,
            wi == w,
            hi == h,
            win == crop_window(wi, hi, config),
            win.x_start == crop_x_start && win.width == crop_width && win.y_start == top
                && win.height == crop_height,
            crop_width <= 0xFFFF_FFFF,
            crop_height <= 0xFFFF_FFFF,
            crop_x_start <= 0xFFFF_FFFF,
            top <= 0xFFFF_FFFF * 0xFFFF_FFFF,
            rgb_data@.len() == out_y * size * 3,
            forall|k: int| 0 <= k < rgb_data@.len() ==> rgb_data@[k] == cropped_byte(*frame, config, k),
        decreases size - out_y,
    {
        proof {
            lemma_mul_bound(out_y as int, crop_height as int, 0xFFFF_FFFF, 0xFFFF_FFFF);
            lemma_scaled_below(out_y as int, crop_height as int, size as int);
            assert((out_y + 1) * size * 3 == out_y * size * 3 + size * 3) by (nonlinear_arith);
        }
        let raw_y: u64 = top + out_y * crop_height / size;
        let mut out_x: u64 = 0;
        while out_x < size
            invariant
                out_x <= size,
                out_y < size,
                size == config.output_size,
                w == frame.width,
                h == frame.height,
                wi == w,
                hi == h,
                win == crop_window(wi, hi, config),
                win.x_start == crop_x_start && win.width == crop_width && win.y_start == top
                    && win.height == crop_height,
                crop_width <= 0xFFFF_FFFF,
                crop_x_start <= 0xFFFF_FFFF,
                raw_y == top + out_y * crop_height / (size as int),
                rgb_data@.len() == (out_y * size + out_x) * 3,
                forall|k: int|
                    0 <= k < rgb_data@.len() ==> rgb_data@[k] == cropped_byte(*frame, config, k),
            decreases size - out_x,
        {
            proof {
                lemma_mul_bound(out_x as int, crop_width as int, 0xFFFF_FFFF, 0xFFFF_FFFF);
                lemma_scaled_below(out_x as int, crop_width as int, size as int);
            }
            let raw_x: u64 = crop_x_start + out_x * crop_width / size;
            let ghost pixel = out_y * size + out_x;
            proof {
                vstd::arithmetic::div_mod::lemma_fundamental_div_mod_converse(
                    pixel as int,
                    size as int,
                    out_y as int,
                    out_x as int,
                );
                let base = pixel * 3;
                assert(base / 3 == pixel && (base + 1) / 3 == pixel && (base + 2) / 3 == pixel);
                assert(base % 3 == 0 && (base + 1) % 3 == 1 && (base + 2) % 3 == 2);
            }
            let (r, g, b) = if w == 0 || h == 0 {
                (NEUTRAL_SAMPLE, NEUTRAL_SAMPLE, NEUTRAL_SAMPLE)
            } else {
                let src_x: u64 = if raw_x < w - 1 {
                    raw_x
                } else {
                    w - 1
                };
                let src_y: u64 = if raw_y < h - 1 {
                    raw_y
                } else {
                    h - 1
                };
                proof {
                    assert(src_x == source_x(wi, hi, config, out_x as int));
                    assert(src_y == source_y(wi, hi, config, out_y as int));
                }
                pixel_rgb(frame, src_x, src_y)
            };
            proof {
                let base = pixel * 3;
                assert(cropped_byte(*frame, config, base) == r);
                assert(cropped_byte(*frame, config, base + 1) == g);
                assert(cropped_byte(*frame, config, base + 2) == b);
            }
            rgb_data.push(r);
            rgb_data.push(g);
            rgb_data.push(b);
            out_x = out_x + 1;
        }
        out_y = out_y + 1;
    }
    proof {
        assert(size * size * 3 == config.output_size as int * config.output_size as int * 3)
            by (nonlinear_arith)
            requires
                size == config.output_size,
        ;
        assert(rgb_data@ =~= cropped_rgb(*frame, config));
    }
    CroppedFrame {
        rgb_data,
        width: config.output_size,
        height: config.output_size,
        timestamp_ms: frame.timestamp_ms,
        frame_number: frame.frame_number,
    }
}

/// Crops a frame given by its planes.
pub fn crop_and_resize_frame_with_config(
    y_plane: Vec<u8>,
    u_plane: Vec<u8>,
    v_plane: Vec<u8>,
    width: u32,
    height: u32,
    timestamp_ms: u64,
    frame_number: u64,
    config: FrameCropConfig,
) -> (cropped: CroppedFrame)
    requires
        config.fits(),
    ensures
        is_cropped(
            cropped,
            YuvFrameData { width, height, y_plane, u_plane, v_plane, timestamp_ms, frame_number },
            config,
        ),
{
    let frame = YuvFrameData {
        width,
        height,
        y_plane,
        u_plane,
        v_plane,
        timestamp_ms,
        frame_number,
    };
    crop_yuv_frame(&frame, config)
}

/// Crops a frame given by its planes with the standard configuration.
pub fn crop_and_resize_frame(
    y_plane: Vec<u8>,
    u_plane: Vec<u8>,
    v_plane: Vec<u8>,
    width: u32,
    height: u32,
    timestamp_ms: u64,
    frame_number: u64,
) -> (cropped: CroppedFrame)
    ensures
        is_cropped(
            cropped,
            YuvFrameData { width, height, y_plane, u_plane, v_plane, timestamp_ms, frame_number },
            FrameCropConfig::standard(),
        ),
{
    crop_and_resize_frame_with_config(
        y_plane,
        u_plane,
        v_plane,
        width,
        height,
        timestamp_ms,
        frame_number,
        FrameCropConfig::default(),
    )
}

/// Crops every frame of a batch, in order.
pub fn crop_and_resize_batch(frames: Vec<YuvFrameData>, config: FrameCropConfig) -> (cropped: Vec<
    CroppedFrame,
>)
    requires
        config.fits(),
    ensures
        cropped@.len() == frames@.len(),
        forall|i: int| 0 <= i < cropped@.len() ==> is_cropped(#[trigger] cropped@[i], frames@[i], config),
{
    let mut cropped: Vec<CroppedFrame> = Vec::new();
    let mut i: usize = 0;
    while i < frames.len()
        invariant
            config.fits(),
            i <= frames.len(),
            cropped@.len() == i,
            forall|k: int| 0 <= k < i ==> is_cropped(#[trigger] cropped@[k], frames@[k], config),
        decreases frames.len() - i,
    {
        cropped.push(crop_yuv_frame(&frames[i], config));
        i = i + 1;
    }
    cropped
}

} // verus!
