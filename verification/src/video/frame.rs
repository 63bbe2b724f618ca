//! Frames of the single-frame pipeline: RGBA frames, planar YUV 4:2:0 frames
//! as the decoder hands them over, and the conversion between the two.

use vstd::prelude::*;

verus! {

/// An RGBA frame: four bytes per pixel, row-major. The timestamp is in milliseconds.
#[derive(Debug, Clone)]
pub struct Frame {
    pub width: u32,
    pub height: u32,
    pub data: Vec<u8>,
    pub timestamp_ms: u64,
    pub frame_number: u64,
}

/// What is passed on about a frame once its pixels are no longer needed.
#[derive(Debug, Clone, Copy, PartialEq, Eq, Structural)]
pub struct FrameInfo {
    pub width: u32,
    pub height: u32,
    pub timestamp_ms: u64,
    pub frame_number: u64,
}

/// A planar YUV 4:2:0 frame: a full-size luma plane, and two chroma planes
/// that hold one sample for every 2x2 block of pixels.
#[derive(Debug)]
pub struct RawFrame {
    pub width: u32,
    pub height: u32,
    pub y_plane: Vec<u8>,
    pub u_plane: Vec<u8>,
    pub v_plane: Vec<u8>,
    pub timestamp_ms: u64,
    pub frame_number: u64,
}

/// `num / den` cut off at 0 and 255.
pub open spec fn clamp_channel(num: int, den: int) -> int {
    if num <= 0 {
        0
    } else if num >= 255 * den {
        255
    } else {
        num / den
    }
}

/// Red from luma and red-difference chroma: `y + 1.402 (v - 128)`, cut off and rounded down.
pub open spec fn red_of(y: u8, v: u8) -> int {
    clamp_channel(1000 * y + 1402 * (v - 128), 1000)
}

/// Green: `y - 0.344136 (u - 128) - 0.714136 (v - 128)`, cut off and rounded down.
pub open spec fn green_of(y: u8, u: u8, v: u8) -> int {
    clamp_channel(1_000_000 * y - 344_136 * (u - 128) - 714_136 * (v - 128), 1_000_000)
}

/// Blue: `y + 1.772 (u - 128)`, cut off and rounded down.
pub open spec fn blue_of(y: u8, u: u8) -> int {
    clamp_channel(1000 * y + 1772 * (u - 128), 1000)
}

fn clamp_to_byte(num: i64, den: i64) -> (c: u8)
    requires
        0 < den <= 1_000_000,
    ensures
        c == clamp_channel(num as int, den as int),
{
    if num <= 0 {
        0
    } else if num >= 255 * den {
        255
    } else {
        let q: i64 = num / den;
        assert(0 <= q <= 255) by (nonlinear_arith)
            requires
                q == num / den,
                0 < num < 255 * den,
                den > 0,
        ;
        q as u8
    }
}

impl Frame {
    pub fn new(width: u32, height: u32, data: Vec<u8>, timestamp_ms: u64, frame_number: u64) -> (frame:
        Self)
        ensures
            frame.width == width,
            frame.height == height,
            frame.data == data,
            frame.timestamp_ms == timestamp_ms,
            frame.frame_number == frame_number,
    {
        Frame { width, height, data, timestamp_ms, frame_number }
    }

    /// Number of pixels that the dimensions announce.
    pub open spec fn pixels(&self) -> int {
        self.width as int * self.height as int
    }

    /// The frame holds every sample that its dimensions announce, and their
    /// number fits the 32-bit arithmetic of the frame's indices.
    pub open spec fn is_complete(&self) -> bool {
        self.pixels() * 4 <= u32::MAX && self.data@.len() >= self.pixels() * 4
    }

    pub fn pixel_count(&self) -> (count: usize)
        requires
            self.pixels() <= u32::MAX,
        ensures
            count == self.pixels(),
    {
        ((self.width as u64) * (self.height as u64)) as usize
    }

    /// Resizes the frame with the triangle filter.
    pub fn resize_to(&self, target_width: u32, target_height: u32) -> (resized: Frame)
        requires
            self.is_complete(),
            resize_fits(self.width, self.height, target_width, target_height),
        ensures
            resized.width == target_width,
            resized.height == target_height,
            resized.data@ == resized_rgba(
                self.data@,
                self.width,
                self.height,
                target_width,
                target_height,
            ),
            resized.data@.len() == target_width as int * target_height as int * 4,
            resized.timestamp_ms == self.timestamp_ms,
            resized.frame_number == self.frame_number,
            resized.is_complete(),
    {
        let data = resize_rgba_triangle(
            &self.data,
            self.width,
            self.height,
            target_width,
            target_height,
        );
        Frame {
            width: target_width,
            height: target_height,
            data,
            timestamp_ms: self.timestamp_ms,
            frame_number: self.frame_number,
        }
    }

    /// The red, green and blue bytes of every complete pixel of `data`.
    pub open spec fn rgb_bytes(data: Seq<u8>) -> Seq<u8> {
        Seq::new((data.len() / 4 * 3) as nat, |k: int| data[k / 3 * 4 + k % 3])
    }

    /// Drops the alpha channel.
    pub fn to_rgb(&self) -> (rgb: Vec<u8>)
        ensures
            rgb@ == Self::rgb_bytes(self.data@),
    {
        let mut rgb: Vec<u8> = Vec::new();
        let n: usize = self.data.len() / 4;
        let mut i: usize = 0;
        while i < n
            invariant
                i <= n,
                n == self.data.len() / 4,
                rgb@.len() == i * 3,
                forall|k: int| 0 <= k < rgb@.len() ==> rgb@[k] == self.data@[k / 3 * 4 + k % 3],
            decreases n - i,
        {
            rgb.push(self.data[4 * i]);
            rgb.push(self.data[4 * i + 1]);
            rgb.push(self.data[4 * i + 2]);
            i = i + 1;
        }
        proof {
            assert(rgb@ =~= Self::rgb_bytes(self.data@));
        }
        rgb
    }
}

/// The RGBA image that the triangle filter makes of a `width` x `height`
/// RGBA image when it is resized to `target_width` x `target_height`.
pub uninterp spec fn resized_rgba(
    data: Seq<u8>,
    width: u32,
    height: u32,
    target_width: u32,
    target_height: u32,
) -> Seq<u8>;

/// No side of an image that is resized, or of its target, is longer than this.
pub const MAX_RESIZE_SIDE: u32 = 65535;

/// The source image has pixels, no side of the source or of the target is
/// longer than `MAX_RESIZE_SIDE`, and the buffers of the resize stay below
/// 4 GiB. Within these bounds the filter finds, for every pixel of the
/// target, a source pixel of positive weight.
pub open spec fn resize_fits(width: u32, height: u32, target_width: u32, target_height: u32) -> bool {
    &&& width > 0 && height > 0
    &&& width <= MAX_RESIZE_SIDE && height <= MAX_RESIZE_SIDE
    &&& target_width <= MAX_RESIZE_SIDE && target_height <= MAX_RESIZE_SIDE
    &&& width as int * target_height as int * 16 <= u32::MAX
    &&& target_width as int * target_height as int * 4 <= u32::MAX
}

/// Calls `image::RgbaImage::from_raw` and `image::imageops::resize` with
/// `FilterType::Triangle`, and takes the raw bytes of the result. The
/// contract names those bytes and states their number, four for each pixel
/// of the target. The image must hold `width * height` pixels, and the
/// sides must stay within `resize_fits`: on longer sides the filter's
/// weights can vanish, and the call does not return.
#[verifier::external_body]
fn resize_rgba_triangle(
    data: &Vec<u8>,
    width: u32,
    height: u32,
    target_width: u32,
    target_height: u32,
) -> (resized: Vec<u8>)
    requires
        data@.len() >= width as int * height as int * 4,
        resize_fits(width, height, target_width, target_height),
    ensures
        resized@ == resized_rgba(data@, width, height, target_width, target_height),
        resized@.len() == target_width as int * target_height as int * 4,
{
    let img = image::RgbaImage::from_raw(width, height, data.clone()).expect("Invalid frame data");
    image::imageops::resize(
        &img,
        target_width,
        target_height,
        image::imageops::FilterType::Triangle,
    ).into_raw()
}

impl FrameInfo {
    pub fn from_frame(frame: &Frame) -> (info: Self)
        ensures
            info == (FrameInfo {
                width: frame.width,
                height: frame.height,
                timestamp_ms: frame.timestamp_ms,
                frame_number: frame.frame_number,
            }),
    {
        FrameInfo {
            width: frame.width,
            height: frame.height,
            timestamp_ms: frame.timestamp_ms,
            frame_number: frame.frame_number,
        }
    }
}

impl RawFrame {
    /// Index of the chroma sample shared by the pixel at `(x, y)`.
    pub open spec fn chroma_index(&self, x: int, y: int) -> int {
        (y / 2) * (self.width as int / 2) + x / 2
    }

    /// The planes hold every sample that the conversion reads, and the
    /// RGBA frame fits the 32-bit arithmetic of the frame's indices.
    pub open spec fn is_complete(&self) -> bool {
        let w = self.width as int;
        let h = self.height as int;
        &&& w * h * 4 <= u32::MAX
        &&& self.y_plane@.len() >= w * h
        &&& w > 0 && h > 0 ==> self.u_plane@.len() > self.chroma_index(w - 1, h - 1)
        &&& w > 0 && h > 0 ==> self.v_plane@.len() > self.chroma_index(w - 1, h - 1)
    }

    /// Byte `k` of the RGBA frame: channel `k % 4` of pixel `k / 4`, alpha opaque.
    pub open spec fn rgba_byte(&self, k: int) -> int {
        let w = self.width as int;
        let pixel = k / 4;
        let luma = self.y_plane@[pixel];
        let c = self.chroma_index(pixel % w, pixel / w);
        let u = self.u_plane@[c];
        let v = self.v_plane@[c];
        if k % 4 == 0 {
            red_of(luma, v)
        } else if k % 4 == 1 {
            green_of(luma, u, v)
        } else if k % 4 == 2 {
            blue_of(luma, u)
        } else {
            255
        }
    }

    /// `frame` is the RGBA frame of this frame.
    pub open spec fn is_shown_by(&self, frame: Frame) -> bool {
        &&& frame.width == self.width
        &&& frame.height == self.height
        &&& frame.timestamp_ms == self.timestamp_ms
        &&& frame.frame_number == self.frame_number
        &&& frame.data@.len() == self.width * self.height * 4
        &&& forall|k: int| 0 <= k < frame.data@.len() ==> frame.data@[k] == self.rgba_byte(k)
    }

    /// Converts to RGBA with the full-range BT.601 coefficients.
    pub fn to_rgba(&self) -> (frame: Frame)
        requires
            self.is_complete(),
        ensures
            self.is_shown_by(frame),
            frame.is_complete(),
    {
        let w: usize = self.width as usize;
        let h: usize = self.height as usize;
        let half_w: usize = w / 2;
        let mut data: Vec<u8> = Vec::new();
        let mut y: usize = 0;
        proof {
            assert(w * h * 4 == (w * h) * 4) by (nonlinear_arith);
        }
        while y < h
            invariant
                w == self.width,
                h == self.height,
                half_w == w / 2,
                y <= h,
                self.is_complete(),
                data@.len() == y * w * 4,
                forall|k: int| 0 <= k < data@.len() ==> data@[k] == self.rgba_byte(k),
            decreases h - y,
        {
            let mut x: usize = 0;
            proof {
                assert((y + 1) * w <= h * w) by (nonlinear_arith)
                    requires
                        y + 1 <= h,
                        w >= 0,
                ;
                assert((y + 1) * w == y * w + w) by (nonlinear_arith);
                assert(h * w == w * h) by (nonlinear_arith);
                assert(y * w * 4 == (y * w) * 4) by (nonlinear_arith);
                assert((y / 2) * half_w <= ((h - 1) / 2) * half_w) by (nonlinear_arith)
                    requires
                        y / 2 <= (h - 1) / 2,
                        half_w >= 0,
                ;
            }
            while x < w
                invariant
                    w == self.width,
                    h == self.height,
                    half_w == w / 2,
                    y < h,
                    x <= w,
                    self.is_complete(),
                    y * w + w <= w * h,
                    w * h * 4 <= u32::MAX,
                    (y / 2) * half_w <= ((h - 1) / 2) * half_w,
                    data@.len() == (y * w + x) * 4,
                    forall|k: int| 0 <= k < data@.len() ==> data@[k] == self.rgba_byte(k),
                decreases w - x,
            {
                proof {
                    assert(self.chroma_index(w - 1, h - 1) < self.u_plane.len());
                    assert(self.chroma_index(w - 1, h - 1) == ((h - 1) / 2) * half_w + (w - 1) / 2);
                    assert(0 <= (y / 2) * half_w) by (nonlinear_arith)
                        requires
                            y >= 0,
                            half_w >= 0,
                    ;
                }
                let pixel: usize = y * w + x;
                let uv_idx: usize = (y / 2) * half_w + x / 2;
                proof {
                    vstd::arithmetic::div_mod::lemma_fundamental_div_mod_converse(
                        pixel as int,
                        w as int,
                        y as int,
                        x as int,
                    );
                    assert(uv_idx == self.chroma_index(x as int, y as int));
                    assert(uv_idx <= self.chroma_index(w - 1, h - 1));
                }
                let luma: u8 = self.y_plane[pixel];
                let u: u8 = self.u_plane[uv_idx];
                let v: u8 = self.v_plane[uv_idx];
                let cu: i64 = u as i64 - 128;
                let cv: i64 = v as i64 - 128;
                let r: u8 = clamp_to_byte(1000 * (luma as i64) + 1402 * cv, 1000);
                let g: u8 = clamp_to_byte(
                    1_000_000 * (luma as i64) - 344_136 * cu - 714_136 * cv,
                    1_000_000,
                );
                let b: u8 = clamp_to_byte(1000 * (luma as i64) + 1772 * cu, 1000);
                proof {
                    let base = pixel * 4;
                    assert(base / 4 == pixel && (base + 1) / 4 == pixel && (base + 2) / 4 == pixel
                        && (base + 3) / 4 == pixel);
                    assert(self.rgba_byte(base) == r);
                    assert(self.rgba_byte(base + 1) == g);
                    assert(self.rgba_byte(base + 2) == b);
                    assert(self.rgba_byte(base + 3) == 255);
                }
                data.push(r);
                data.push(g);
                data.push(b);
                data.push(255);
                x = x + 1;
            }
            y = y + 1;
        }
        proof {
            assert(h * w == w * h) by (nonlinear_arith);
        }
        Frame {
            width: self.width,
            height: self.height,
            data,
            timestamp_ms: self.timestamp_ms,
            frame_number: self.frame_number,
        }
    }
}

} // verus!
