//! Perceptual hashes over a rectangle of a frame.
//!
//! The rectangle is cut into 8x8 blocks; every block is averaged; a bit of
//! the hash tells whether a block is brighter than the mean of the 64 block
//! averages. Pixels that the buffer does not hold are left out of the
//! averages, a block without pixels counts as black.

use vstd::prelude::*;
use crate::arith::min_int;
use crate::bits::{pack_bits, pack_flags};

verus! {

/// How a buffer holds its pixels.
#[derive(Debug, Clone, Copy, PartialEq, Eq, Structural)]
pub enum PixelFormat {
    /// One luma byte per pixel.
    Luma,
    /// Four bytes per pixel: red, green, blue, alpha.
    Rgba,
}

/// Luminance of an RGB triple: `0.299 r + 0.587 g + 0.114 b`, rounded down.
pub open spec fn rgb_luma(r: u8, g: u8, b: u8) -> int {
    (r * 299 + g * 587 + b * 114) / 1000
}

pub fn rgb_to_luma(r: u8, g: u8, b: u8) -> (luma: u8)
    ensures
        luma == rgb_luma(r, g, b),
{
    ((r as u32 * 299 + g as u32 * 587 + b as u32 * 114) / 1000) as u8
}

/// The buffer holds pixel number `pixel`.
pub open spec fn has_pixel(data: Seq<u8>, format: PixelFormat, pixel: int) -> bool {
    match format {
        PixelFormat::Luma => 0 <= pixel < data.len(),
        PixelFormat::Rgba => 0 <= pixel && pixel * 4 + 2 < data.len(),
    }
}

/// Luminance of pixel number `pixel`.
pub open spec fn pixel_luma(data: Seq<u8>, format: PixelFormat, pixel: int) -> int {
    match format {
        PixelFormat::Luma => data[pixel] as int,
        PixelFormat::Rgba => rgb_luma(data[pixel * 4], data[pixel * 4 + 1], data[pixel * 4 + 2]),
    }
}

/// Sum of the luminances of the pixels `first + x0 .. first + x1` that the buffer holds.
pub open spec fn row_sum(data: Seq<u8>, format: PixelFormat, first: int, x0: int, x1: int) -> int
    decreases x1 - x0,
{
    if x1 <= x0 {
        0
    } else {
        row_sum(data, format, first, x0, x1 - 1) + if has_pixel(data, format, first + x1 - 1) {
            pixel_luma(data, format, first + x1 - 1)
        } else {
            0
        }
    }
}

/// Number of the pixels `first + x0 .. first + x1` that the buffer holds.
pub open spec fn row_count(data: Seq<u8>, format: PixelFormat, first: int, x0: int, x1: int) -> int
    decreases x1 - x0,
{
    if x1 <= x0 {
        0
    } else {
        row_count(data, format, first, x0, x1 - 1) + if has_pixel(data, format, first + x1 - 1) {
            1int
        } else {
            0int
        }
    }
}

/// A rectangle of pixels: columns `x0 .. x1` of the rows `y0 .. y1` of an image `img_w` wide.
pub struct Block {
    pub img_w: int,
    pub x0: int,
    pub x1: int,
    pub y0: int,
    pub y1: int,
}

/// Sum of the luminances of the pixels of the block that the buffer holds.
pub open spec fn block_sum(data: Seq<u8>, format: PixelFormat, b: Block) -> int
    decreases b.y1 - b.y0,
{
    if b.y1 <= b.y0 {
        0
    } else {
        block_sum(data, format, Block { y1: b.y1 - 1, ..b }) + row_sum(
            data,
            format,
            (b.y1 - 1) * b.img_w,
            b.x0,
            b.x1,
        )
    }
}

/// Number of the pixels of the block that the buffer holds.
pub open spec fn block_count(data: Seq<u8>, format: PixelFormat, b: Block) -> int
    decreases b.y1 - b.y0,
{
    if b.y1 <= b.y0 {
        0
    } else {
        block_count(data, format, Block { y1: b.y1 - 1, ..b }) + row_count(
            data,
            format,
            (b.y1 - 1) * b.img_w,
            b.x0,
            b.x1,
        )
    }
}

/// Mean luminance of the block, rounded down; 0 for a block without pixels.
pub open spec fn block_mean(data: Seq<u8>, format: PixelFormat, b: Block) -> int {
    if block_count(data, format, b) > 0 {
        block_sum(data, format, b) / block_count(data, format, b)
    } else {
        0
    }
}

/// The rectangle to hash: it starts at `(x, y)`, is `w` wide and `h` high,
/// and is cut off at column `x_limit` and row `y_limit`.
#[derive(Debug, Clone, Copy)]
pub struct HashArea {
    pub img_w: u32,
    pub x_limit: u32,
    pub y_limit: u32,
    pub x: u32,
    pub y: u32,
    pub w: u32,
    pub h: u32,
}

impl HashArea {
    /// Block number `i` of the 8x8 grid, counted row by row.
    pub open spec fn block(&self, i: int) -> Block {
        let block_w = self.w as int / 8;
        let block_h = self.h as int / 8;
        let bx = i % 8;
        let by = i / 8;
        Block {
            img_w: self.img_w as int,
            x0: min_int(self.x + bx * block_w, self.x_limit as int),
            x1: min_int(self.x + (bx + 1) * block_w, self.x_limit as int),
            y0: min_int(self.y + by * block_h, self.y_limit as int),
            y1: min_int(self.y + (by + 1) * block_h, self.y_limit as int),
        }
    }

    /// The whole image, `width` x `height`.
    pub open spec fn whole(width: u32, height: u32) -> HashArea {
        HashArea { img_w: width, x_limit: width, y_limit: height, x: 0, y: 0, w: width, h: height }
    }

    /// The rows `y .. y + h` of an image `width` wide, cut off at row `height`.
    pub open spec fn rows(width: u32, height: u32, y: u32, h: u32) -> HashArea {
        HashArea { img_w: width, x_limit: width, y_limit: height, x: 0, y, w: width, h }
    }
}

/// The 64 block means of the area.
pub open spec fn block_means(data: Seq<u8>, format: PixelFormat, area: HashArea) -> Seq<int> {
    Seq::new(64, |i: int| block_mean(data, format, area.block(i)))
}

/// Sum of the first `n` samples.
pub open spec fn samples_total(samples: Seq<int>, n: int) -> int
    decreases n,
{
    if n <= 0 {
        0
    } else {
        samples_total(samples, n - 1) + samples[n - 1]
    }
}

/// Mean of 64 samples, rounded down.
pub open spec fn samples_mean(samples: Seq<int>) -> int {
    samples_total(samples, 64) / 64
}

/// Bit `i`, for `i` below `bits`, tells whether sample `i` lies above `mean`.
pub open spec fn threshold_bits(samples: Seq<int>, mean: int, bits: nat) -> nat {
    pack_bits(Seq::new(bits, |i: int| samples[i] > mean))
}

/// The hash of 64 block means: bits 0 to 47 compare the first 48 blocks
/// with the mean of all, bits 48 to 63 hold that mean.
pub open spec fn phash_of(samples: Seq<int>) -> nat {
    (threshold_bits(samples, samples_mean(samples), 48) + samples_mean(samples) * 0x1_0000_0000_0000) as nat
}

/// The hash of a band: bits 0 to 47 as in `phash_of`, the upper bits 0.
pub open spec fn band_hash_of(samples: Seq<int>) -> nat {
    threshold_bits(samples, samples_mean(samples), 48)
}

/// The view of exec samples as mathematical integers.
pub open spec fn as_ints(samples: Seq<u32>) -> Seq<int> {
    Seq::new(samples.len(), |i: int| samples[i] as int)
}

/// Reads the luminance of one pixel, if the buffer holds it.
fn read_pixel(data: &[u8], format: PixelFormat, pixel: u64) -> (luma: Option<u8>)
    ensures
        luma.is_some() == has_pixel(data@, format, pixel as int),
        luma.is_some() ==> luma.unwrap() == pixel_luma(data@, format, pixel as int),
{
    match format {
        PixelFormat::Luma => {
            if pixel < data.len() as u64 {
                Some(data[pixel as usize])
            } else {
                None
            }
        },
        PixelFormat::Rgba => {
            let len: usize = data.len();
            if len >= 3 && pixel <= ((len - 3) / 4) as u64 {
                let i: usize = (pixel as usize) * 4;
                Some(rgb_to_luma(data[i], data[i + 1], data[i + 2]))
            } else {
                None
            }
        },
    }
}

/// Averages one block.
fn mean_of_block(
    data: &[u8],
    format: PixelFormat,
    img_w: u64,
    x0: u64,
    x1: u64,
    y0: u64,
    y1: u64,
) -> (mean: u32)
    requires
        img_w <= 0xFFFF_FFFF,
        x0 <= x1 <= 0xFFFF_FFFF,
        y0 <= y1 <= 0xFFFF_FFFF,
    ensures
        mean == block_mean(
            data@,
            format,
            Block { img_w: img_w as int, x0: x0 as int, x1: x1 as int, y0: y0 as int, y1: y1 as int },
        ),
        mean <= 255,
{
    let ghost whole = Block {
        img_w: img_w as int,
        x0: x0 as int,
        x1: x1 as int,
        y0: y0 as int,
        y1: y1 as int,
    };
    let mut sum: u128 = 0;
    let mut count: u64 = 0;
    let mut py: u64 = y0;
    while py < y1
        invariant
            img_w <= 0xFFFF_FFFF,
            x0 <= x1 <= 0xFFFF_FFFF,
            y0 <= py <= y1 <= 0xFFFF_FFFF,
            whole == (Block {
                img_w: img_w as int,
                x0: x0 as int,
                x1: x1 as int,
                y0: y0 as int,
                y1: y1 as int,
            }),
            sum == block_sum(data@, format, Block { y1: py as int, ..whole }),
            count == block_count(data@, format, Block { y1: py as int, ..whole }),
            0 <= sum <= 255 * count,
            count <= (py - y0) * 0xFFFF_FFFF,
        decreases y1 - py,
    {
        proof {
            assert(py * img_w <= 0xFFFF_FFFF * 0xFFFF_FFFF) by (nonlinear_arith)
                requires
                    0 <= py <= 0xFFFF_FFFF,
                    0 <= img_w <= 0xFFFF_FFFF,
            ;
        }
        let first: u64 = py * img_w;
        let mut row_total: u64 = 0;
        let mut row_pixels: u64 = 0;
        let mut px: u64 = x0;
        while px < x1
            invariant
                x0 <= px <= x1 <= 0xFFFF_FFFF,
                first <= 0xFFFF_FFFF * 0xFFFF_FFFF,
                row_total == row_sum(data@, format, first as int, x0 as int, px as int),
                row_pixels == row_count(data@, format, first as int, x0 as int, px as int),
                row_pixels <= px - x0,
                0 <= row_total <= 255 * row_pixels,
            decreases x1 - px,
        {
            match read_pixel(data, format, first + px) {
                Some(luma) => {
                    row_total = row_total + luma as u64;
                    row_pixels = row_pixels + 1;
                },
                None => {},
            }
            px = px + 1;
        }
        proof {
            assert((Block { y1: py + 1, ..whole }).y1 - 1 == py);
            assert((Block { y1: (py + 1) - 1, ..(Block { y1: py + 1, ..whole }) }) == (Block {
                y1: py as int,
                ..whole
            }));
        }
        sum = sum + row_total as u128;
        count = count + row_pixels;
        py = py + 1;
    }
    proof {
        assert((Block { y1: y1 as int, ..whole }) == whole);
    }
    if count > 0 {
        let mean: u128 = sum / (count as u128);
        assert(mean <= 255) by (nonlinear_arith)
            requires
                mean == sum / (count as u128),
                0 <= sum <= 255 * count,
                count > 0,
        ;
        mean as u32
    } else {
        0
    }
}

fn min_u64(a: u64, b: u64) -> (m: u64)
    ensures
        m == min_int(a as int, b as int),
{
    if a <= b {
        a
    } else {
        b
    }
}

/// Averages the 64 blocks of the area.
pub fn compute_block_means(data: &[u8], format: PixelFormat, area: &HashArea) -> (samples: Vec<u32>)
    ensures
        samples@.len() == 64,
        as_ints(samples@) == block_means(data@, format, *area),
        forall|i: int| 0 <= i < 64 ==> samples@[i] <= 255,
{
    let block_w: u64 = (area.w / 8) as u64;
    let block_h: u64 = (area.h / 8) as u64;
    let x: u64 = area.x as u64;
    let y: u64 = area.y as u64;
    let x_limit: u64 = area.x_limit as u64;
    let y_limit: u64 = area.y_limit as u64;
    let mut samples: Vec<u32> = Vec::new();
    let mut i: u64 = 0;
    while i < 64
        invariant
            i <= 64,
            block_w == area.w / 8,
            block_h == area.h / 8,
            x == area.x,
            y == area.y,
            x_limit == area.x_limit,
            y_limit == area.y_limit,
            samples@.len() == i,
            forall|k: int|
                0 <= k < i ==> samples@[k] == block_mean(data@, format, area.block(k))
                    && samples@[k] <= 255,
        decreases 64 - i,
    {
        let bx: u64 = i % 8;
        let by: u64 = i / 8;
        proof {
            assert(bx * block_w <= 7 * 0x1FFF_FFFF && (bx + 1) * block_w <= 8 * 0x1FFF_FFFF
                && bx * block_w <= (bx + 1) * block_w) by (nonlinear_arith)
                requires
                    0 <= bx <= 7,
                    0 <= block_w <= 0x1FFF_FFFF,
            ;
            assert(by * block_h <= 7 * 0x1FFF_FFFF && (by + 1) * block_h <= 8 * 0x1FFF_FFFF
                && by * block_h <= (by + 1) * block_h) by (nonlinear_arith)
                requires
                    0 <= by <= 7,
                    0 <= block_h <= 0x1FFF_FFFF,
            ;
        }
        let x0: u64 = min_u64(x + bx * block_w, x_limit);
        let x1: u64 = min_u64(x + (bx + 1) * block_w, x_limit);
        let y0: u64 = min_u64(y + by * block_h, y_limit);
        let y1: u64 = min_u64(y + (by + 1) * block_h, y_limit);
        let mean: u32 = mean_of_block(data, format, area.img_w as u64, x0, x1, y0, y1);
        samples.push(mean);
        i = i + 1;
    }
    proof {
        assert(as_ints(samples@) =~= block_means(data@, format, *area));
    }
    samples
}

/// Mean of 64 samples, none above 255.
pub fn mean_of_samples(samples: &Vec<u32>) -> (mean: u32)
    requires
        samples@.len() == 64,
        forall|i: int| 0 <= i < 64 ==> samples@[i] <= 255,
    ensures
        mean == samples_mean(as_ints(samples@)),
        mean <= 255,
{
    let mut sum: u32 = 0;
    let mut i: usize = 0;
    while i < 64
        invariant
            i <= 64,
            samples@.len() == 64,
            forall|k: int| 0 <= k < 64 ==> samples@[k] <= 255,
            sum == samples_total(as_ints(samples@), i as int),
            sum <= 255 * i,
        decreases 64 - i,
    {
        sum = sum + samples[i];
        i = i + 1;
    }
    sum / 64
}

/// Compares the first `bits` samples with `mean` and packs the outcomes.
pub fn threshold_hash(samples: &Vec<u32>, mean: u32, bits: usize) -> (hash: u64)
    requires
        bits <= 64,
        bits <= samples@.len(),
    ensures
        hash == threshold_bits(as_ints(samples@), mean as int, bits as nat),
        hash < vstd::arithmetic::power2::pow2(bits as nat),
{
    let mut flags: Vec<bool> = Vec::new();
    let mut i: usize = 0;
    while i < bits
        invariant
            i <= bits <= samples@.len(),
            flags@.len() == i,
            forall|k: int| 0 <= k < i ==> flags@[k] == (samples@[k] > mean),
        decreases bits - i,
    {
        flags.push(samples[i] > mean);
        i = i + 1;
    }
    proof {
        assert(flags@ =~= Seq::new(bits as nat, |i: int| as_ints(samples@)[i] > mean as int));
    }
    pack_flags(&flags)
}

/// The perceptual hash of 64 block means.
pub fn phash_from_samples(samples: &Vec<u32>) -> (hash: u64)
    requires
        samples@.len() == 64,
        forall|i: int| 0 <= i < 64 ==> samples@[i] <= 255,
    ensures
        hash == phash_of(as_ints(samples@)),
{
    let mean: u32 = mean_of_samples(samples);
    let low: u64 = threshold_hash(samples, mean, 48);
    proof {
        vstd::arithmetic::power2::lemma2_to64_rest();
    }
    low + (mean as u64) * 0x1_0000_0000_0000
}

/// The perceptual hash of a rectangle of a frame.
pub fn phash_area(data: &[u8], format: PixelFormat, area: &HashArea) -> (hash: u64)
    ensures
        hash == phash_of(block_means(data@, format, *area)),
{
    let samples = compute_block_means(data, format, area);
    phash_from_samples(&samples)
}

} // verus!
