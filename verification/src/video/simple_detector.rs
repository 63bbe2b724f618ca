//! A light detector that looks at edges and texture of the whole frame, and
//! detectors that follow a rule on the frame number, for trying out a pipeline.

use vstd::prelude::*;
use crate::arith::lemma_mul_bound;
use crate::video::frame::Frame;
use crate::video::text_detector::{
    gray_frame,
    no_text,
    range_sum,
    TextDetectionResult,
    TextDetector,
};

verus! {

// ---------------------------------------------------------------------------
// Square roots
// ---------------------------------------------------------------------------

/// `r` is the square root of `n`, rounded down.
pub open spec fn is_floor_sqrt(n: int, r: int) -> bool {
    0 <= r && r * r <= n < (r + 1) * (r + 1)
}

/// The square root of `n`, rounded down.
pub open spec fn floor_sqrt(n: int) -> int {
    choose|r: int| is_floor_sqrt(n, r)
}

/// A number has one rounded-down square root.
pub proof fn lemma_floor_sqrt_unique(n: int, r: int)
    requires
        is_floor_sqrt(n, r),
    ensures
        floor_sqrt(n) == r,
{
    let s = floor_sqrt(n);
    assert(is_floor_sqrt(n, s));
    assert(s == r) by (nonlinear_arith)
        requires
            0 <= r && r * r <= n < (r + 1) * (r + 1),
            0 <= s && s * s <= n < (s + 1) * (s + 1),
    ;
}

/// Computes the square root of `n`, rounded down, by bisection.
pub fn isqrt(n: u128) -> (r: u64)
    requires
        n < 0x4000_0000_0000_0000_0000_0000_0000_0000,
    ensures
        r == floor_sqrt(n as int),
        is_floor_sqrt(n as int, r as int),
        r < 0x8000_0000_0000_0000,
{
    let mut low: u64 = 0;
    let mut high: u64 = 0x8000_0000_0000_0000;
    proof {
        assert(0x8000_0000_0000_0000int * 0x8000_0000_0000_0000int
            == 0x4000_0000_0000_0000_0000_0000_0000_0000int);
    }
    while high - low > 1
        invariant
            low < high <= 0x8000_0000_0000_0000,
            low * low <= n,
            n < high * high,
        decreases high - low,
    {
        let mid: u64 = low + (high - low) / 2;
        proof {
            lemma_mul_bound(mid as int, mid as int, 0x8000_0000_0000_0000, 0x8000_0000_0000_0000);
        }
        if (mid as u128) * (mid as u128) <= n {
            low = mid;
        } else {
            high = mid;
        }
    }
    proof {
        lemma_floor_sqrt_unique(n as int, low as int);
    }
    low
}

// ---------------------------------------------------------------------------
// The detector on RGBA frames
// ---------------------------------------------------------------------------

/// The square of the gradient, in thousandths of a luminance level, above which a pixel is an edge.
pub const STEEP_SQUARED: u64 = 416_160_000;

/// Luminance of pixel `i` in thousandths of a level: `299 r + 587 g + 114 b`.
pub open spec fn milli_luma(rgba: Seq<u8>, i: int) -> int {
    299 * rgba[4 * i] + 587 * rgba[4 * i + 1] + 114 * rgba[4 * i + 2]
}

pub open spec fn milli_luma_at(rgba: Seq<u8>) -> spec_fn(int) -> int {
    |i: int| milli_luma(rgba, i)
}

pub open spec fn milli_luma_squared_at(rgba: Seq<u8>) -> spec_fn(int) -> int {
    |i: int| milli_luma(rgba, i) * milli_luma(rgba, i)
}

/// 1 where the luminance gradient at pixel `i` is steeper than 8% of the range, else 0.
pub open spec fn steep_at(rgba: Seq<u8>, w: int) -> spec_fn(int) -> int {
    |i: int|
        {
            let gx = milli_luma(rgba, i + 1) - milli_luma(rgba, i - 1);
            let gy = milli_luma(rgba, i + w) - milli_luma(rgba, i - w);
            if gx * gx + gy * gy > STEEP_SQUARED {
                1int
            } else {
                0int
            }
        }
}

/// Steep pixels among the interior pixels of the rows `1 ..= rows`.
pub open spec fn steep_in_rows(f: spec_fn(int) -> int, w: int, rows: int) -> int
    decreases rows,
{
    if rows <= 0 {
        0
    } else {
        steep_in_rows(f, w, rows - 1) + range_sum(f, rows * w + 1, rows * w + w - 1)
    }
}

/// What the detector measures.
pub struct FeatureStats {
    /// Pixels on an edge, and pixels looked at for edges.
    pub edges: int,
    pub edge_total: int,
    /// Pixels looked at for texture.
    pub n: int,
    /// `n` times the sum of the squared luminances less the square of their
    /// sum: the variance times `n` squared.
    pub spread: int,
}

/// The variance of `n` values times `n` squared, from their sum and the sum of their squares.
pub open spec fn spread(n: int, sum: int, squares: int) -> int {
    if n * squares >= sum * sum {
        n * squares - sum * sum
    } else {
        0
    }
}

/// The share of edge pixels, in per-mille; 0 where no pixel was looked at.
pub open spec fn edge_permille(s: FeatureStats) -> int {
    if s.edge_total > 0 {
        s.edges * 1000 / s.edge_total
    } else {
        0
    }
}

/// The measurements on a complete RGBA frame.
pub open spec fn rgba_stats(rgba: Seq<u8>, w: int, h: int) -> FeatureStats {
    let n = w * h;
    let sum = range_sum(milli_luma_at(rgba), 0, n);
    FeatureStats {
        edges: steep_in_rows(steep_at(rgba, w), w, h - 2),
        edge_total: if w >= 2 && h >= 2 {
            (h - 2) * (w - 2)
        } else {
            0
        },
        n,
        spread: spread(n, sum, range_sum(milli_luma_squared_at(rgba), 0, n)),
    }
}

/// The verdict on an RGBA frame: text needs edges on more than 5% of the
/// interior and a standard deviation of the luminance above 8% of the range.
/// The confidence adds the share of edges and the standard deviation
/// relative to the range, both in per-mille.
pub open spec fn rgba_verdict(s: FeatureStats) -> TextDetectionResult {
    let has_text = s.edges * 20 > s.edge_total && s.spread > STEEP_SQUARED * s.n * s.n;
    let texture = if s.n > 0 {
        floor_sqrt(s.spread) / (255 * s.n)
    } else {
        0
    };
    let confidence = edge_permille(s) + texture;
    TextDetectionResult {
        has_text,
        confidence: (if confidence < 1000 {
            confidence
        } else {
            1000
        }) as u32,
        text_region_count: if has_text {
            1
        } else {
            0
        },
    }
}

// ---------------------------------------------------------------------------
// The detector on luma planes
// ---------------------------------------------------------------------------

/// Every third pixel of every third row is looked at.
pub const STRIDE: usize = 3;

/// The square of the gradient, in luminance levels, above which a pixel is an edge.
pub const FAST_STEEP_SQUARED: u32 = 400;

/// The largest plane that is analysed, in samples.
pub const MAX_PLANE: u64 = 0xFFFF_FFFF;

pub open spec fn level_at(plane: Seq<u8>) -> spec_fn(int) -> int {
    |i: int| plane[i] as int
}

pub open spec fn level_squared_at(plane: Seq<u8>) -> spec_fn(int) -> int {
    |i: int| plane[i] * plane[i]
}

/// The gradient at sample `i` of a plane `w` wide is steep.
pub open spec fn is_steep(plane: Seq<u8>, w: int, i: int) -> bool {
    let gx = plane[i + 1] - plane[i - 1];
    let gy = plane[i + w] - plane[i - w];
    gx * gx + gy * gy > FAST_STEEP_SQUARED
}

/// Steep pixels among the first `k` looked at in row `y`: the columns `1, 4, 7, ..`.
pub open spec fn fast_row_edges(plane: Seq<u8>, w: int, y: int, k: int) -> int
    decreases k,
{
    if k <= 0 {
        0
    } else {
        fast_row_edges(plane, w, y, k - 1) + if is_steep(plane, w, y * w + 1 + 3 * (k - 1)) {
            1int
        } else {
            0int
        }
    }
}

/// Number of positions `1, 4, 7, ..` below `limit - 1`.
pub open spec fn strides(limit: int) -> int {
    if limit >= 3 {
        (limit - 3) / 3 + 1
    } else {
        0
    }
}

/// Steep pixels among those looked at in the first `j` rows looked at: the rows `1, 4, 7, ..`.
pub open spec fn fast_edges(plane: Seq<u8>, w: int, j: int) -> int
    decreases j,
{
    if j <= 0 {
        0
    } else {
        fast_edges(plane, w, j - 1) + fast_row_edges(plane, w, 1 + 3 * (j - 1), strides(w))
    }
}

/// The measurements on a luma plane that holds `w * h` samples: edges on
/// the strided grid, texture over all `w * h` samples.
pub open spec fn plane_stats(plane: Seq<u8>, w: int, h: int) -> FeatureStats {
    let n = w * h;
    let sum = range_sum(level_at(plane), 0, n);
    FeatureStats {
        edges: fast_edges(plane, w, strides(h)),
        edge_total: strides(h) * strides(w),
        n,
        spread: spread(n, sum, range_sum(level_squared_at(plane), 0, n)),
    }
}

/// The verdict on a luma plane: text needs edges on more than 1.5% of the
/// grid and a standard deviation above 8% of the range.
pub open spec fn plane_verdict(s: FeatureStats) -> TextDetectionResult {
    let has_text = s.edge_total > 0 && s.edges * 200 > 3 * s.edge_total && 100 * s.spread > 41616
        * s.n * s.n;
    let texture = if s.n > 0 {
        floor_sqrt(1_000_000 * s.spread) / (255 * s.n)
    } else {
        0
    };
    let confidence = edge_permille(s) + texture;
    TextDetectionResult {
        has_text,
        confidence: (if confidence < 1000 {
            confidence
        } else {
            1000
        }) as u32,
        text_region_count: if has_text {
            1
        } else {
            0
        },
    }
}

/// A light detector on edges and texture, for trials and as a fallback.
#[derive(Debug, Clone, Copy)]
pub struct SimpleFeatureDetector {}

impl SimpleFeatureDetector {
    pub fn new() -> (detector: Self)
        ensures
            detector == (SimpleFeatureDetector {  }),
    {
        SimpleFeatureDetector {  }
    }

    /// What the detector says of an RGBA frame. A frame that does not hold
    /// all its pixels has no text.
    pub open spec fn on_frame(frame: Frame) -> TextDetectionResult {
        if frame.is_complete() {
            rgba_verdict(rgba_stats(frame.data@, frame.width as int, frame.height as int))
        } else {
            no_text()
        }
    }

    /// What the detector says of a luma plane. A plane that does not hold
    /// `width * height` samples, or more than `MAX_PLANE`, has no text.
    pub open spec fn on_plane(plane: Seq<u8>, width: u32, height: u32) -> TextDetectionResult {
        let n = width as int * height as int;
        if n <= plane.len() && n <= MAX_PLANE {
            plane_verdict(plane_stats(plane, width as int, height as int))
        } else {
            no_text()
        }
    }
}

fn luma_milli(rgba: &Vec<u8>, i: usize) -> (l: u64)
    requires
        4 * i + 2 < rgba.len(),
    ensures
        l == milli_luma(rgba@, i as int),
        l <= 255000,
{
    299 * (rgba[4 * i] as u64) + 587 * (rgba[4 * i + 1] as u64) + 114 * (rgba[4 * i + 2] as u64)
}

fn squared_distance(a: u64, b: u64) -> (d: u64)
    requires
        a <= 255000,
        b <= 255000,
    ensures
        d == (a - b) * (a - b),
        d <= 255000 * 255000,
{
    let diff: u64 = if a >= b {
        a - b
    } else {
        b - a
    };
    proof {
        assert(diff * diff == (a - b) * (a - b)) by (nonlinear_arith)
            requires
                diff == a - b || diff == b - a,
        ;
        lemma_mul_bound(diff as int, diff as int, 255000, 255000);
    }
    diff * diff
}

/// `part` out of `whole` in per-mille, rounded down; 0 of nothing.
fn permille(part: u64, whole: u64) -> (share: u64)
    requires
        part <= whole <= 0xFFFF_FFFF_FFFF,
    ensures
        share == (if whole > 0 {
            part * 1000 / (whole as int)
        } else {
            0
        }),
        share <= 1000,
{
    if whole > 0 {
        let share: u64 = part * 1000 / whole;
        assert(share <= 1000) by (nonlinear_arith)
            requires
                share == part * 1000 / (whole as int),
                0 <= part <= whole,
                whole > 0,
        ;
        share
    } else {
        0
    }
}

/// Counts the steep interior pixels of a complete RGBA frame.
fn count_steep(rgba: &Vec<u8>, w: usize, h: usize) -> (edges: u64)
    requires
        w * h * 4 <= rgba@.len(),
        w * h * 4 <= u32::MAX,
    ensures
        edges == steep_in_rows(steep_at(rgba@, w as int), w as int, h - 2),
        w >= 2 && h >= 2 ==> edges <= (h - 2) * (w - 2),
        !(w >= 2 && h >= 2) ==> edges == 0,
{
    let ghost f = steep_at(rgba@, w as int);
    if h < 3 || w < 3 {
        proof {
            lemma_no_interior(f, w as int, h - 2);
        }
        return 0;
    }
    let mut edges: u64 = 0;
    let mut y: usize = 1;
    proof {
        assert(w * h * 4 == (w * h) * 4) by (nonlinear_arith);
        assert((1 - 1) * (w - 2) == 0) by (nonlinear_arith);
    }
    while y + 1 < h
        invariant
            w >= 3,
            h >= 3,
            1 <= y < h,
            (w * h) * 4 <= rgba@.len(),
            (w * h) * 4 <= u32::MAX,
            f == steep_at(rgba@, w as int),
            edges == steep_in_rows(f, w as int, y - 1),
            edges <= (y - 1) * (w - 2),
        decreases h - y,
    {
        proof {
            assert((y + 2) * w <= h * w && (y + 2) * w == y * w + 2 * w && h * w == w * h && y * w
                >= w) by (nonlinear_arith)
                requires
                    1 <= y,
                    y + 2 <= h,
                    w >= 0,
            ;
            assert((y + 1 - 1) * (w - 2) == (y - 1) * (w - 2) + (w - 2)) by (nonlinear_arith);
            assert((y - 1) * (w - 2) <= w * h) by (nonlinear_arith)
                requires
                    1 <= y < h,
                    w >= 3,
            ;
        }
        let row: usize = y * w;
        let mut row_edges: u64 = 0;
        let mut x: usize = 1;
        while x + 1 < w
            invariant
                w >= 3,
                1 <= x < w,
                row == y * w,
                row >= w,
                row + 2 * w <= w * h,
                (w * h) * 4 <= rgba@.len(),
                (w * h) * 4 <= u32::MAX,
                f == steep_at(rgba@, w as int),
                row_edges == range_sum(f, row + 1, row + x),
                row_edges <= x - 1,
            decreases w - x,
        {
            let idx: usize = row + x;
            let gx2: u64 = squared_distance(luma_milli(rgba, idx + 1), luma_milli(rgba, idx - 1));
            let gy2: u64 = squared_distance(luma_milli(rgba, idx + w), luma_milli(rgba, idx - w));
            if gx2 + gy2 > STEEP_SQUARED {
                row_edges = row_edges + 1;
            }
            x = x + 1;
        }
        edges = edges + row_edges;
        y = y + 1;
    }
    proof {
        assert((h - 1 - 1) * (w - 2) == (h - 2) * (w - 2));
    }
    edges
}

/// Rows narrower than three pixels, and fewer than three rows, have no interior.
proof fn lemma_no_interior(f: spec_fn(int) -> int, w: int, rows: int)
    requires
        w < 3 || rows <= 0,
    ensures
        steep_in_rows(f, w, rows) == 0,
    decreases rows,
{
    if rows > 0 {
        lemma_no_interior(f, w, rows - 1);
        assert(range_sum(f, rows * w + 1, rows * w + w - 1) == 0) by {
            if rows * w + w - 1 > rows * w + 1 {
            }
        }
    }
}

/// The sum and the sum of squares of the luminance of the first `n` pixels.
fn luma_moments(rgba: &Vec<u8>, n: usize) -> (moments: (u128, u128))
    requires
        n * 4 <= rgba@.len(),
        n * 4 <= u32::MAX,
    ensures
        moments.0 == range_sum(milli_luma_at(rgba@), 0, n as int),
        moments.1 == range_sum(milli_luma_squared_at(rgba@), 0, n as int),
        moments.0 <= 255000 * n,
        moments.1 <= 65_025_000_000 * n,
{
    let ghost f = milli_luma_at(rgba@);
    let ghost g = milli_luma_squared_at(rgba@);
    let mut sum: u128 = 0;
    let mut squares: u128 = 0;
    let mut i: usize = 0;
    while i < n
        invariant
            i <= n,
            n * 4 <= rgba@.len(),
            n * 4 <= u32::MAX,
            f == milli_luma_at(rgba@),
            g == milli_luma_squared_at(rgba@),
            sum == range_sum(f, 0, i as int),
            squares == range_sum(g, 0, i as int),
            sum <= 255000 * i,
            squares <= 65_025_000_000 * i,
        decreases n - i,
    {
        let l: u64 = luma_milli(rgba, i);
        proof {
            lemma_mul_bound(l as int, l as int, 255000, 255000);
            assert(l * l <= 65_025_000_000);
        }
        sum = sum + l as u128;
        squares = squares + (l as u128) * (l as u128);
        i = i + 1;
    }
    (sum, squares)
}

/// `n * squares - sum * sum`, which is not negative for the moments of `n` values.
fn spread_of_moments(n: u128, sum: u128, squares: u128, cap: u128) -> (value: u128)
    requires
        n <= 0xFFFF_FFFF,
        cap <= 255000,
        sum <= cap * n,
        squares <= cap * cap * n,
    ensures
        value == spread(n as int, sum as int, squares as int),
        value <= cap * cap * n * n,
{
    proof {
        lemma_mul_bound(cap as int, n as int, 255000, 0xFFFF_FFFF);
        lemma_mul_bound(cap as int, cap as int, 255000, 255000);
        lemma_mul_bound((cap * cap) as int, n as int, 255000int * 255000int, 0xFFFF_FFFF);
        lemma_mul_bound(
            n as int,
            squares as int,
            0xFFFF_FFFF,
            255000int * 255000int * 0xFFFF_FFFFint,
        );
        lemma_mul_bound(
            sum as int,
            sum as int,
            255000int * 0xFFFF_FFFFint,
            255000int * 0xFFFF_FFFFint,
        );
        assert(n * squares <= cap * cap * n * n) by (nonlinear_arith)
            requires
                squares <= cap * cap * n,
                n >= 0,
        ;
    }
    let a: u128 = n * squares;
    let b: u128 = sum * sum;
    if a >= b {
        a - b
    } else {
        0
    }
}

impl TextDetector for SimpleFeatureDetector {
    open spec fn may_detect(&self, frame: Frame, result: TextDetectionResult) -> bool {
        result == Self::on_frame(frame)
    }

    open spec fn may_detect_yuv(
        &self,
        width: u32,
        height: u32,
        y_plane: Seq<u8>,
        result: TextDetectionResult,
    ) -> bool {
        result == Self::on_plane(y_plane, width, height)
    }

    /// Looks at the edges and the texture of the whole frame.
    fn detect(&self, frame: &Frame) -> (result: TextDetectionResult) {
        let none = TextDetectionResult { has_text: false, confidence: 0, text_region_count: 0 };
        proof {
            lemma_mul_bound(frame.width as int, frame.height as int, 0xFFFF_FFFF, 0xFFFF_FFFF);
        }
        let pixels: u64 = (frame.width as u64) * (frame.height as u64);
        if pixels > 0x3FFF_FFFF || (frame.data.len() as u64) < pixels * 4 {
            return none;
        }
        let w: usize = frame.width as usize;
        let h: usize = frame.height as usize;
        let n: usize = pixels as usize;
        proof {
            assert(w * h * 4 == (w * h) * 4) by (nonlinear_arith);
        }
        let edges: u64 = count_steep(&frame.data, w, h);
        let edge_total: u64 = if w >= 2 && h >= 2 {
            proof {
                assert(0 <= (h - 2) * (w - 2) <= w * h) by (nonlinear_arith)
                    requires
                        w >= 2,
                        h >= 2,
                ;
            }
            ((h - 2) * (w - 2)) as u64
        } else {
            0
        };
        let (sum, squares) = luma_moments(&frame.data, n);
        let spread: u128 = spread_of_moments(n as u128, sum, squares, 255000);
        proof {
            lemma_mul_bound(n as int, n as int, 0x3FFF_FFFF, 0x3FFF_FFFF);
            lemma_mul_bound(
                (n * n) as int,
                STEEP_SQUARED as int,
                0x3FFF_FFFFint * 0x3FFF_FFFFint,
                416_160_000,
            );
            assert(STEEP_SQUARED * n * n == (n * n) * STEEP_SQUARED) by (nonlinear_arith);
            assert(255000 * 255000 * n * n == (n * n) * (255000 * 255000)) by (nonlinear_arith);
        }
        let has_text = edges * 20 > edge_total && spread > (STEEP_SQUARED as u128) * (n as u128) * (
        n as u128);
        let density: u64 = permille(edges, edge_total);
        let texture: u64 = if n > 0 {
            let root: u64 = isqrt(spread);
            let share: u64 = root / (255 * (n as u64));
            assert(share <= root) by (nonlinear_arith)
                requires
                    share == (root as int) / ((255 * n) as int),
                    n >= 1,
                    root >= 0,
            ;
            share
        } else {
            0
        };
        let confidence: u64 = if density + texture < 1000 {
            density + texture
        } else {
            1000
        };
        TextDetectionResult {
            has_text,
            confidence: confidence as u32,
            text_region_count: if has_text {
                1
            } else {
                0
            },
        }
    }

    /// The fast path for luma planes: integer gradients on every third
    /// pixel of every third row, texture over the whole plane.
    fn detect_yuv(&self, width: u32, height: u32, y_plane: &[u8]) -> (result: TextDetectionResult) {
        let none = TextDetectionResult { has_text: false, confidence: 0, text_region_count: 0 };
        proof {
            lemma_mul_bound(width as int, height as int, 0xFFFF_FFFF, 0xFFFF_FFFF);
        }
        let samples: u64 = (width as u64) * (height as u64);
        if samples > MAX_PLANE || (y_plane.len() as u64) < samples {
            return none;
        }
        let w: usize = width as usize;
        let h: usize = height as usize;
        let n: usize = samples as usize;
        let (edges, edge_total) = count_fast_edges(y_plane, w, h);
        let (sum, squares) = level_moments(y_plane, n);
        let spread: u128 = spread_of_moments(n as u128, sum, squares, 255);
        proof {
            lemma_mul_bound(n as int, n as int, 0xFFFF_FFFF, 0xFFFF_FFFF);
            assert(255 * 255 * n * n == 65025 * (n * n)) by (nonlinear_arith);
            assert(41616 * n * n == 41616 * (n * n)) by (nonlinear_arith);
        }
        let has_text = edge_total > 0 && edges * 200 > 3 * edge_total && 100 * spread > 41616 * (
        n as u128) * (n as u128);
        let density: u64 = permille(edges, edge_total);
        let texture: u64 = if n > 0 {
            let root: u64 = isqrt(1_000_000 * spread);
            let share: u64 = root / (255 * (n as u64));
            assert(share <= root) by (nonlinear_arith)
                requires
                    share == (root as int) / ((255 * n) as int),
                    n >= 1,
                    root >= 0,
            ;
            share
        } else {
            0
        };
        let confidence: u64 = if density + texture < 1000 {
            density + texture
        } else {
            1000
        };
        TextDetectionResult {
            has_text,
            confidence: confidence as u32,
            text_region_count: if has_text {
                1
            } else {
                0
            },
        }
    }
}

/// Number of positions `1, 4, 7, ..` below `limit - 1`.
fn stride_count(limit: usize) -> (count: usize)
    ensures
        count == strides(limit as int),
        limit >= 3 ==> 1 + 3 * (count - 1) + 1 < limit,
        count <= limit,
{
    if limit >= 3 {
        (limit - 3) / 3 + 1
    } else {
        0
    }
}

/// Counts the steep pixels on the strided grid, and the pixels of the grid.
fn count_fast_edges(plane: &[u8], w: usize, h: usize) -> (counts: (u64, u64))
    requires
        w * h <= plane@.len(),
        w * h <= MAX_PLANE,
    ensures
        counts.0 == fast_edges(plane@, w as int, strides(h as int)),
        counts.1 == strides(h as int) * strides(w as int),
        counts.0 <= counts.1 <= 0xFFFF_FFFF,
{
    let rows: usize = stride_count(h);
    let cols: usize = stride_count(w);
    let mut edges: u64 = 0;
    let mut j: usize = 0;
    proof {
        assert(0 * cols == 0);
        lemma_mul_bound(rows as int, cols as int, h as int, w as int);
        assert(h * w == w * h) by (nonlinear_arith);
    }
    while j < rows
        invariant
            j <= rows,
            rows == strides(h as int),
            cols == strides(w as int),
            h >= 3 ==> 1 + 3 * (rows - 1) + 1 < h,
            w >= 3 ==> 1 + 3 * (cols - 1) + 1 < w,
            w * h <= plane@.len(),
            w * h <= MAX_PLANE,
            plane@.len() == plane.len(),
            edges == fast_edges(plane@, w as int, j as int),
            edges <= j * cols,
            rows * cols <= w * h,
        decreases rows - j,
    {
        let y: usize = 1 + 3 * j;
        proof {
            assert((y + 2) * w <= h * w && (y + 2) * w == y * w + 2 * w && h * w == w * h && y * w
                >= w) by (nonlinear_arith)
                requires
                    1 <= y,
                    y + 2 <= h,
                    w >= 0,
            ;
            assert((j + 1) * cols == j * cols + cols && (j + 1) * cols <= rows * cols)
                by (nonlinear_arith)
                requires
                    j + 1 <= rows,
                    cols >= 0,
            ;
        }
        let row: usize = y * w;
        let mut row_edges: u64 = 0;
        let mut k: usize = 0;
        while k < cols
            invariant
                k <= cols,
                cols == strides(w as int),
                w >= 3 ==> 1 + 3 * (cols - 1) + 1 < w,
                row == y * w,
                row >= w,
                row + 2 * w <= w * h,
                w * h <= plane@.len(),
                plane@.len() == plane.len(),
                row_edges == fast_row_edges(plane@, w as int, y as int, k as int),
                row_edges <= k,
            decreases cols - k,
        {
            let idx: usize = row + 1 + 3 * k;
            let left: i32 = plane[idx - 1] as i32;
            let right: i32 = plane[idx + 1] as i32;
            let up: i32 = plane[idx - w] as i32;
            let down: i32 = plane[idx + w] as i32;
            let gx: i32 = right - left;
            let gy: i32 = down - up;
            proof {
                assert(0 <= gx * gx <= 65025 && 0 <= gy * gy <= 65025) by (nonlinear_arith)
                    requires
                        -255 <= gx <= 255,
                        -255 <= gy <= 255,
                ;
            }
            if gx * gx + gy * gy > FAST_STEEP_SQUARED as i32 {
                row_edges = row_edges + 1;
            }
            k = k + 1;
        }
        edges = edges + row_edges;
        j = j + 1;
    }
    (edges, (rows as u64) * (cols as u64))
}

/// The sum and the sum of squares of the first `n` samples.
fn level_moments(plane: &[u8], n: usize) -> (moments: (u128, u128))
    requires
        n <= plane@.len(),
    ensures
        moments.0 == range_sum(level_at(plane@), 0, n as int),
        moments.1 == range_sum(level_squared_at(plane@), 0, n as int),
        moments.0 <= 255 * n,
        moments.1 <= 65025 * n,
{
    let ghost f = level_at(plane@);
    let ghost g = level_squared_at(plane@);
    let mut sum: u128 = 0;
    let mut squares: u128 = 0;
    let mut i: usize = 0;
    while i < n
        invariant
            i <= n <= plane@.len(),
            f == level_at(plane@),
            g == level_squared_at(plane@),
            sum == range_sum(f, 0, i as int),
            squares == range_sum(g, 0, i as int),
            sum <= 255 * i,
            squares <= 65025 * i,
        decreases n - i,
    {
        let l: u128 = plane[i] as u128;
        proof {
            lemma_mul_bound(l as int, l as int, 255, 255);
        }
        sum = sum + l;
        squares = squares + l * l;
        i = i + 1;
    }
    (sum, squares)
}

// ---------------------------------------------------------------------------
// Detectors by frame number
// ---------------------------------------------------------------------------

/// Confidence of a mock detection, in per-mille.
pub const MOCK_CONFIDENCE: u32 = 850;

/// The result that the mock detectors give for a frame with or without text.
pub open spec fn mock_result(has_text: bool) -> TextDetectionResult {
    if has_text {
        TextDetectionResult { has_text: true, confidence: MOCK_CONFIDENCE, text_region_count: 2 }
    } else {
        no_text()
    }
}

fn mock_detection(has_text: bool) -> (result: TextDetectionResult)
    ensures
        result == mock_result(has_text),
{
    TextDetectionResult {
        has_text,
        confidence: if has_text {
            MOCK_CONFIDENCE
        } else {
            0
        },
        text_region_count: if has_text {
            2
        } else {
            0
        },
    }
}

/// A detector that finds text in the frames whose numbers it was given, and in no other.
pub struct MockTextDetector {
    text_frames: Vec<u64>,
}

/// A detector that finds text in the frames whose numbers a rule accepts.
pub struct PatternTextDetector<F: Fn(u64) -> bool> {
    pattern: F,
}

impl MockTextDetector {
    /// The frame numbers with text.
    pub closed spec fn text_frames(&self) -> Seq<u64> {
        self.text_frames@
    }

    /// A detector that never finds text.
    pub fn new() -> (detector: Self)
        ensures
            detector.text_frames() == Seq::<u64>::empty(),
    {
        MockTextDetector { text_frames: Vec::new() }
    }

    /// A detector that finds text where `pattern` accepts the frame number.
    pub fn with_pattern<F: Fn(u64) -> bool>(pattern: F) -> (detector: PatternTextDetector<F>)
        requires
            forall|n: u64| pattern.requires((n,)),
        ensures
            detector.pattern() == pattern,
    {
        PatternTextDetector { pattern }
    }

    /// A detector that finds text in the frames with the given numbers.
    pub fn with_fixed_frames(frames: Vec<u64>) -> (detector: Self)
        ensures
            detector.text_frames() == frames@,
    {
        MockTextDetector { text_frames: frames }
    }

    fn has_text_at(&self, frame_number: u64) -> (has_text: bool)
        ensures
            has_text == self.text_frames().contains(frame_number),
    {
        let mut i: usize = 0;
        while i < self.text_frames.len()
            invariant
                i <= self.text_frames.len(),
                forall|k: int| 0 <= k < i ==> self.text_frames@[k] != frame_number,
            decreases self.text_frames.len() - i,
        {
            if self.text_frames[i] == frame_number {
                return true;
            }
            i = i + 1;
        }
        false
    }
}

impl Default for MockTextDetector {
    fn default() -> (detector: Self)
        ensures
            detector.text_frames() == Seq::<u64>::empty(),
    {
        MockTextDetector::new()
    }
}

impl TextDetector for MockTextDetector {
    open spec fn may_detect(&self, frame: Frame, result: TextDetectionResult) -> bool {
        result == mock_result(self.text_frames().contains(frame.frame_number))
    }

    fn detect(&self, frame: &Frame) -> (result: TextDetectionResult) {
        mock_detection(self.has_text_at(frame.frame_number))
    }

    /// A plane has no frame number: it counts as frame 0.
    open spec fn may_detect_yuv(
        &self,
        width: u32,
        height: u32,
        y_plane: Seq<u8>,
        result: TextDetectionResult,
    ) -> bool {
        result == mock_result(self.text_frames().contains(0))
    }

    fn detect_yuv(&self, width: u32, height: u32, y_plane: &[u8]) -> (result: TextDetectionResult) {
        let frame = gray_frame(width, height, y_plane);
        self.detect(&frame)
    }
}

impl<F: Fn(u64) -> bool> PatternTextDetector<F> {
    #[verifier::type_invariant]
    spec fn pattern_is_total(self) -> bool {
        forall|n: u64| self.pattern.requires((n,))
    }

    /// The rule of the detector.
    pub closed spec fn pattern(&self) -> F {
        self.pattern
    }
}

impl<F: Fn(u64) -> bool> TextDetector for PatternTextDetector<F> {
    open spec fn may_detect(&self, frame: Frame, result: TextDetectionResult) -> bool {
        self.pattern().ensures((frame.frame_number,), result.has_text) && result == mock_result(
            result.has_text,
        )
    }

    fn detect(&self, frame: &Frame) -> (result: TextDetectionResult) {
        proof {
            use_type_invariant(self);
        }
        let has_text = (self.pattern)(frame.frame_number);
        mock_detection(has_text)
    }

    /// A plane has no frame number: it counts as frame 0.
    open spec fn may_detect_yuv(
        &self,
        width: u32,
        height: u32,
        y_plane: Seq<u8>,
        result: TextDetectionResult,
    ) -> bool {
        self.pattern().ensures((0u64,), result.has_text) && result == mock_result(result.has_text)
    }

    fn detect_yuv(&self, width: u32, height: u32, y_plane: &[u8]) -> (result: TextDetectionResult) {
        let frame = gray_frame(width, height, y_plane);
        self.detect(&frame)
    }
}

impl Default for SimpleFeatureDetector {
    fn default() -> (detector: Self)
        ensures
            detector == (SimpleFeatureDetector {  }),
    {
        SimpleFeatureDetector::new()
    }
}

} // verus!
