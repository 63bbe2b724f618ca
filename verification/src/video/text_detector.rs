//! Detectors that tell whether a frame shows subtitle text.
//!
//! Ratios are compared as integer cross products and confidences are in
//! per-mille, so every decision is exact.

use vstd::prelude::*;
use crate::arith::{lemma_mul_bound, min_int};
use crate::video::frame::Frame;
use crate::video::phash::{
    band_hash_of,
    block_means,
    compute_block_means,
    mean_of_samples,
    rgb_luma,
    rgb_to_luma,
    threshold_hash,
    HashArea,
    PixelFormat,
};

verus! {

/// Outcome of a text detection. `confidence` is in per-mille.
#[derive(Debug, Clone, Copy, PartialEq, Eq, Structural)]
pub struct TextDetectionResult {
    pub has_text: bool,
    pub confidence: u32,
    pub text_region_count: u32,
}

/// The result for a frame without text.
pub open spec fn no_text() -> TextDetectionResult {
    TextDetectionResult { has_text: false, confidence: 0, text_region_count: 0 }
}

/// Sum of `f` over the integers `a .. b`.
pub open spec fn range_sum(f: spec_fn(int) -> int, a: int, b: int) -> int
    decreases b - a,
{
    if b <= a {
        0
    } else {
        range_sum(f, a, b - 1) + f(b - 1)
    }
}

/// The luminance of every complete pixel of RGBA data.
pub open spec fn luma_plane(rgba: Seq<u8>) -> Seq<u8> {
    Seq::new(
        (rgba.len() / 4) as nat,
        |i: int| rgb_luma(rgba[4 * i], rgba[4 * i + 1], rgba[4 * i + 2]) as u8,
    )
}

/// Converts RGBA data to one luminance byte per complete pixel.
pub fn to_luma_plane(rgba: &Vec<u8>) -> (gray: Vec<u8>)
    ensures
        gray@ == luma_plane(rgba@),
{
    let n: usize = rgba.len() / 4;
    let mut gray: Vec<u8> = Vec::new();
    let mut i: usize = 0;
    while i < n
        invariant
            i <= n,
            n == rgba.len() / 4,
            gray@.len() == i,
            forall|k: int|
                0 <= k < i ==> gray@[k] == rgb_luma(rgba@[4 * k], rgba@[4 * k + 1], rgba@[4 * k + 2]),
        decreases n - i,
    {
        gray.push(rgb_to_luma(rgba[4 * i], rgba[4 * i + 1], rgba[4 * i + 2]));
        i = i + 1;
    }
    proof {
        assert(gray@ =~= luma_plane(rgba@));
    }
    gray
}

// ---------------------------------------------------------------------------
// Subtitle bands
// ---------------------------------------------------------------------------

/// A pixel brighter than this may belong to a subtitle.
pub const BRIGHTNESS_THRESHOLD: u8 = 180;

/// The plane holds all `w * h` samples.
pub open spec fn holds_plane(gray: Seq<u8>, w: u32, h: u32) -> bool {
    gray.len() >= (w as int) * (h as int)
}

/// 1 where sample `i` is brighter than `BRIGHTNESS_THRESHOLD`, else 0.
pub open spec fn bright_at(gray: Seq<u8>) -> spec_fn(int) -> int {
    |i: int|
        if gray[i] > BRIGHTNESS_THRESHOLD {
            1int
        } else {
            0int
        }
}

/// Number of bright pixels in row `y`.
pub open spec fn bright_in_row(gray: Seq<u8>, w: int, y: int) -> int {
    range_sum(bright_at(gray), y * w, y * w + w)
}

/// More than 15% of row `y` is bright.
pub open spec fn is_band_row(gray: Seq<u8>, w: int, y: int) -> bool {
    bright_in_row(gray, w, y) * 20 > 3 * w
}

/// The search for the longest run of band rows, after some rows.
pub struct BandScan {
    /// Length of the longest finished run, and the row it starts at.
    pub best_height: int,
    pub best_y: int,
    /// Length of the run that is still growing, and the row it starts at.
    pub run_height: int,
    pub run_y: int,
}

impl BandScan {
    /// The longest run once the last row is seen: the first among equals.
    pub open spec fn longest(self) -> (int, int) {
        if self.run_height > self.best_height {
            (self.run_height, self.run_y)
        } else {
            (self.best_height, self.best_y)
        }
    }
}

/// The scan over the rows `start_y .. start_y + rows`; rows are numbered from `start_y`.
pub open spec fn band_scan(gray: Seq<u8>, w: int, start_y: int, rows: int) -> BandScan
    decreases rows,
{
    if rows <= 0 {
        BandScan { best_height: 0, best_y: 0, run_height: 0, run_y: 0 }
    } else {
        let s = band_scan(gray, w, start_y, rows - 1);
        if is_band_row(gray, w, start_y + rows - 1) {
            BandScan {
                run_height: s.run_height + 1,
                run_y: if s.run_height == 0 {
                    rows - 1
                } else {
                    s.run_y
                },
                ..s
            }
        } else {
            BandScan {
                best_height: s.longest().0,
                best_y: s.longest().1,
                run_height: 0,
                run_y: s.run_y,
            }
        }
    }
}

/// The rows `a .. b`, counted from `start_y`, are all band rows.
pub open spec fn is_run(gray: Seq<u8>, w: int, start_y: int, a: int, b: int) -> bool {
    forall|row: int| start_y + a <= row < start_y + b ==> is_band_row(gray, w, row)
}

/// What the scan knows after `rows` rows: the growing run is the run of
/// band rows that ends at the last row seen; the best run lies before it;
/// every run of band rows lies within the growing run or is no longer than
/// the best, and starts no earlier where it is as long.
spec fn scan_is_sound(gray: Seq<u8>, w: int, start_y: int, rows: int) -> bool {
    let s = band_scan(gray, w, start_y, rows);
    let open_from = rows - s.run_height;
    &&& 0 <= s.run_height <= rows
    &&& s.run_height > 0 ==> s.run_y == open_from
    &&& is_run(gray, w, start_y, open_from, rows)
    &&& open_from > 0 ==> !is_band_row(gray, w, start_y + open_from - 1)
    &&& 0 <= s.best_height
    &&& s.best_height > 0 ==> 0 <= s.best_y && s.best_y + s.best_height <= open_from && is_run(
        gray,
        w,
        start_y,
        s.best_y,
        s.best_y + s.best_height,
    )
    &&& forall|a: int, b: int|
        0 <= a < b <= rows && #[trigger] is_run(gray, w, start_y, a, b) ==> a >= open_from || (b - a
            <= s.best_height && (b - a == s.best_height ==> s.best_y <= a))
}

proof fn lemma_scan_is_sound(gray: Seq<u8>, w: int, start_y: int, rows: int)
    requires
        rows >= 0,
    ensures
        scan_is_sound(gray, w, start_y, rows),
    decreases rows,
{
    if rows > 0 {
        lemma_scan_is_sound(gray, w, start_y, rows - 1);
        let before = band_scan(gray, w, start_y, rows - 1);
        let s = band_scan(gray, w, start_y, rows);
        let was_open_from = rows - 1 - before.run_height;
        let open_from = rows - s.run_height;
        let last = rows - 1;
        if is_band_row(gray, w, start_y + last) {
            assert(open_from == was_open_from);
            assert forall|a: int, b: int|
                0 <= a < b <= rows && #[trigger] is_run(gray, w, start_y, a, b) implies a
                >= open_from || (b - a <= s.best_height && (b - a == s.best_height ==> s.best_y
                <= a)) by {
                if a < open_from {
                    // the row before the growing run is no band row: the run ends before it
                    assert(!is_band_row(gray, w, start_y + open_from - 1));
                    assert(b <= open_from - 1) by {
                        if b > open_from - 1 {
                            assert(a <= open_from - 1 < b);
                        }
                    }
                    assert(is_run(gray, w, start_y, a, b));
                }
            }
        } else {
            assert(open_from == rows);
            assert forall|a: int, b: int|
                0 <= a < b <= rows && #[trigger] is_run(gray, w, start_y, a, b) implies a
                >= open_from || (b - a <= s.best_height && (b - a == s.best_height ==> s.best_y
                <= a)) by {
                assert(b <= last) by {
                    if b > last {
                        assert(a <= last < b);
                    }
                }
                assert(is_run(gray, w, start_y, a, b));
            }
        }
    }
}

/// What the scan finds is the longest run of band rows among the rows
/// `start_y .. start_y + rows`, and of the runs of that length the first:
/// its rows are band rows, no other run of band rows is longer, and none
/// of the same length starts before it.
pub proof fn lemma_longest_band(gray: Seq<u8>, w: int, start_y: int, rows: int)
    requires
        rows >= 0,
    ensures
        ({
            let (height, y) = band_scan(gray, w, start_y, rows).longest();
            &&& 0 <= height <= rows
            &&& height > 0 ==> 0 <= y && y + height <= rows && is_run(
                gray,
                w,
                start_y,
                y,
                y + height,
            )
            &&& forall|a: int, b: int|
                0 <= a < b <= rows && #[trigger] is_run(gray, w, start_y, a, b) ==> b - a <= height
                    && (b - a == height ==> y <= a)
        }),
{
    lemma_scan_is_sound(gray, w, start_y, rows);
    let s = band_scan(gray, w, start_y, rows);
    let (height, y) = s.longest();
    assert forall|a: int, b: int|
        0 <= a < b <= rows && #[trigger] is_run(gray, w, start_y, a, b) implies b - a <= height && (
    b - a == height ==> y <= a) by {
        assert(is_run(gray, w, start_y, a, b));
    }
}

/// A subtitle band: whether one was found, its first row and its height.
#[derive(Debug, Clone, Copy, PartialEq, Eq, Structural)]
pub struct SubtitleBand {
    pub found: bool,
    pub y: usize,
    pub height: usize,
}

/// The longest run of band rows in the bottom 40% of the plane. It counts
/// as a subtitle band when it is not empty and its height lies between 3%
/// and 15% of the plane's height. A plane that does not hold all its
/// samples has no band.
pub open spec fn subtitle_band(gray: Seq<u8>, w: u32, h: u32) -> SubtitleBand {
    let start_y = h as int * 6 / 10;
    let best = band_scan(gray, w as int, start_y, h - start_y).longest();
    if !holds_plane(gray, w, h) {
        SubtitleBand { found: false, y: 0, height: 0 }
    } else {
        SubtitleBand {
            found: best.0 > 0 && h as int * 3 / 100 <= best.0 <= h as int * 15 / 100,
            y: (start_y + best.1) as usize,
            height: best.0 as usize,
        }
    }
}

/// Counts the bright pixels of one row.
fn count_bright_in_row(gray: &[u8], w: usize, y: usize, first: usize) -> (count: usize)
    requires
        first == y * w,
        first + w <= gray.len(),
    ensures
        count == bright_in_row(gray@, w as int, y as int),
        count <= w,
{
    let ghost f = bright_at(gray@);
    let mut count: usize = 0;
    let mut x: usize = 0;
    while x < w
        invariant
            x <= w,
            first == y * w,
            first + w <= gray.len(),
            f == bright_at(gray@),
            count == range_sum(f, first as int, first + x),
            count <= x,
        decreases w - x,
    {
        if gray[first + x] > BRIGHTNESS_THRESHOLD {
            count = count + 1;
        }
        x = x + 1;
    }
    count
}

/// The band hash of the rows `band_y .. band_y + band_height`.
pub open spec fn band_area(width: u32, band_y: u32, band_height: u32) -> HashArea {
    HashArea {
        img_w: width,
        x_limit: width,
        y_limit: (band_y + band_height) as u32,
        x: 0,
        y: band_y,
        w: width,
        h: band_height,
    }
}

/// A frame needs a luminance standard deviation above this to show text.
pub const CONTRAST_THRESHOLD: u32 = 40;

/// A frame needs more bright pixels than this share, in per-mille, to show text.
pub const MIN_TEXT_AREA_PERMILLE: u32 = 5;

/// The detector tuned to recipe videos: white or yellow subtitles of high
/// contrast in the lower part of the frame.
#[derive(Debug, Clone, Copy)]
pub struct CookingTextDetector {}

/// What the look at the bottom 30% of a plane measures.
pub struct BottomStats {
    /// Pixels in the region.
    pub total: int,
    /// Brighter than `BRIGHTNESS_THRESHOLD`.
    pub bright: int,
    /// Mean luminance, rounded down.
    pub mean: int,
    /// Mean squared distance from `mean`, rounded down.
    pub variance: int,
    /// Interior pixels whose neighbours differ by more than `HORIZONTAL_EDGE_MIN`.
    pub edges: int,
    /// Interior pixels.
    pub edge_total: int,
}

/// Minimal left-right difference of a horizontal edge.
pub const HORIZONTAL_EDGE_MIN: u8 = 30;

/// The luminance of sample `i`.
pub open spec fn luma_at(gray: Seq<u8>) -> spec_fn(int) -> int {
    |i: int| gray[i] as int
}

/// The squared distance of sample `i` from `mean`.
pub open spec fn squared_diff_at(gray: Seq<u8>, mean: int) -> spec_fn(int) -> int {
    |i: int| (gray[i] - mean) * (gray[i] - mean)
}

/// 1 where the neighbours of sample `i` differ by more than `HORIZONTAL_EDGE_MIN`, else 0.
pub open spec fn hedge_at(gray: Seq<u8>) -> spec_fn(int) -> int {
    |i: int|
        if gray[i + 1] - gray[i - 1] > HORIZONTAL_EDGE_MIN || gray[i - 1] - gray[i + 1]
            > HORIZONTAL_EDGE_MIN {
            1int
        } else {
            0int
        }
}

/// Horizontal edges among the interior pixels of the rows `y0 .. y0 + rows`.
pub open spec fn hedges_in_rows(gray: Seq<u8>, w: int, y0: int, rows: int) -> int
    decreases rows,
{
    if rows <= 0 {
        0
    } else {
        hedges_in_rows(gray, w, y0, rows - 1) + range_sum(
            hedge_at(gray),
            (y0 + rows - 1) * w + 1,
            (y0 + rows - 1) * w + w - 1,
        )
    }
}

/// First row of the bottom 30% of `h` rows.
pub open spec fn bottom_start(h: u32) -> int {
    h - h as int * 3 / 10
}

/// The measurements over the bottom 30% of a plane that holds all its samples.
pub open spec fn bottom_stats(gray: Seq<u8>, w: u32, h: u32) -> BottomStats {
    let a = bottom_start(h) * w;
    let b = h as int * w;
    let total = b - a;
    let mean = if total > 0 {
        range_sum(luma_at(gray), a, b) / total
    } else {
        0
    };
    BottomStats {
        total,
        bright: range_sum(bright_at(gray), a, b),
        mean,
        variance: if total > 0 {
            range_sum(squared_diff_at(gray, mean), a, b) / total
        } else {
            0
        },
        edges: hedges_in_rows(gray, w as int, bottom_start(h), h - bottom_start(h)),
        edge_total: if w >= 2 {
            (h - bottom_start(h)) * (w - 2)
        } else {
            0
        },
    }
}

impl CookingTextDetector {
    /// The verdict on the measurements: text needs more bright pixels than
    /// `MIN_TEXT_AREA_PERMILLE`, a standard deviation above
    /// `CONTRAST_THRESHOLD`, and horizontal edges on more than 2% of the interior.
    pub open spec fn verdict(s: BottomStats) -> TextDetectionResult {
        let has_text = s.total > 0 && s.bright * 1000 > MIN_TEXT_AREA_PERMILLE * s.total
            && s.variance > CONTRAST_THRESHOLD * CONTRAST_THRESHOLD && s.edge_total > 0 && s.edges
            * 50 > s.edge_total;
        if has_text {
            TextDetectionResult {
                has_text: true,
                confidence: Self::blend(s) as u32,
                text_region_count: 1,
            }
        } else {
            no_text()
        }
    }

    /// Confidence of a positive verdict, in per-mille: up to 400 for ten times
    /// the bright share, 300 for the contrast (a hundredth of the standard
    /// deviation, capped at 0.3, which every text frame reaches), up to 300
    /// for five times the edge share.
    pub open spec fn blend(s: BottomStats) -> int {
        min_int(s.bright * 10000 / s.total, 400) + 300 + min_int(s.edges * 5000 / s.edge_total, 300)
    }

    /// What the detector says of a luma plane; a plane that does not hold all
    /// its samples has no text.
    pub open spec fn bottom_region(gray: Seq<u8>, w: u32, h: u32) -> TextDetectionResult {
        if holds_plane(gray, w, h) {
            Self::verdict(bottom_stats(gray, w, h))
        } else {
            no_text()
        }
    }

    pub fn new() -> (detector: Self)
        ensures
            detector == (CookingTextDetector {  }),
    {
        CookingTextDetector {  }
    }

    /// Looks for the subtitle band in the bottom 40% of the plane.
    pub fn detect_subtitle_bands(&self, gray: &[u8], width: u32, height: u32) -> (band: SubtitleBand)
        ensures
            band == subtitle_band(gray@, width, height),
            band.found ==> band.height > 0 && band.y + band.height <= height,
    {
        let none = SubtitleBand { found: false, y: 0, height: 0 };
        proof {
            lemma_mul_bound(width as int, height as int, 0xFFFF_FFFF, 0xFFFF_FFFF);
        }
        if (gray.len() as u128) < (width as u128) * (height as u128) {
            return none;
        }
        let w: usize = width as usize;
        let h: usize = height as usize;
        let start_y: usize = (height as u64 * 6 / 10) as usize;
        let rows: usize = h - start_y;
        let ghost p = gray@;
        let mut best_height: usize = 0;
        let mut best_y: usize = 0;
        let mut run_height: usize = 0;
        let mut run_y: usize = 0;
        let mut i: usize = 0;
        proof {
            assert(start_y * w <= h * w) by (nonlinear_arith)
                requires
                    start_y <= h,
                    w >= 0,
            ;
        }
        let mut first: usize = start_y * w;
        while i < rows
            invariant
                p == gray@,
                w == width,
                h == height,
                start_y == h as int * 6 / 10,
                rows == h - start_y,
                i <= rows,
                first == (start_y + i) * w,
                h * w <= gray.len(),
                band_scan(p, w as int, start_y as int, i as int) == (BandScan {
                    best_height: best_height as int,
                    best_y: best_y as int,
                    run_height: run_height as int,
                    run_y: run_y as int,
                }),
                best_height <= i,
                run_height <= i,
                best_y <= i,
                run_y <= i,
                best_height > 0 ==> best_y + best_height <= i,
                run_height > 0 ==> run_y + run_height == i,
            decreases rows - i,
        {
            proof {
                assert((start_y + i + 1) * w == (start_y + i) * w + w) by (nonlinear_arith);
                assert((start_y + i + 1) * w <= h * w) by (nonlinear_arith)
                    requires
                        start_y + i + 1 <= h,
                        w >= 0,
                ;
            }
            let bright: usize = count_bright_in_row(gray, w, start_y + i, first);
            if (bright as u64) * 20 > 3 * (w as u64) {
                if run_height == 0 {
                    run_y = i;
                }
                run_height = run_height + 1;
            } else {
                if run_height > best_height {
                    best_height = run_height;
                    best_y = run_y;
                }
                run_height = 0;
            }
            i = i + 1;
            first = first + w;
        }
        if run_height > best_height {
            best_height = run_height;
            best_y = run_y;
        }
        let min_band: usize = (height as u64 * 3 / 100) as usize;
        let max_band: usize = (height as u64 * 15 / 100) as usize;
        let found = best_height >= min_band && best_height <= max_band && best_height > 0;
        SubtitleBand { found, y: start_y + best_y, height: best_height }
    }

    /// Looks for text in the bottom 30% of a luma plane.
    pub fn detect_bottom_region(&self, gray: &[u8], width: u32, height: u32) -> (result:
        TextDetectionResult)
        ensures
            result == Self::bottom_region(gray@, width, height),
            result.confidence <= 1000,
    {
        let none = TextDetectionResult { has_text: false, confidence: 0, text_region_count: 0 };
        proof {
            lemma_mul_bound(width as int, height as int, 0xFFFF_FFFF, 0xFFFF_FFFF);
        }
        if (gray.len() as u128) < (width as u128) * (height as u128) {
            return none;
        }
        let w: usize = width as usize;
        let h: usize = height as usize;
        let start_y: usize = h - (height as u64 * 3 / 10) as usize;
        proof {
            assert(start_y * w <= h * w) by (nonlinear_arith)
                requires
                    start_y <= h,
                    w >= 0,
            ;
            assert((h - start_y) * w == h * w - start_y * w) by (nonlinear_arith);
        }
        let a: usize = start_y * w;
        let b: usize = h * w;
        let total: usize = b - a;
        if total == 0 {
            return none;
        }
        let sum: u128 = sum_luma(gray, a, b);
        let mean_wide: u128 = sum / (total as u128);
        assert(mean_wide <= 255) by (nonlinear_arith)
            requires
                mean_wide == sum / (total as u128),
                0 <= sum <= 255 * total,
                total > 0,
        ;
        let mean: u8 = mean_wide as u8;
        let (bright, squares) = spread_of(gray, a, b, mean);
        let variance: u128 = squares / (total as u128);
        let edges: usize = count_horizontal_edges(gray, w, start_y, h);
        let edge_total: usize = if w >= 2 {
            proof {
                assert(0 <= (h - start_y) * (w - 2) <= (h - start_y) * w) by (nonlinear_arith)
                    requires
                        h - start_y >= 0,
                        w >= 2,
                ;
            }
            (h - start_y) * (w - 2)
        } else {
            0
        };
        let ghost stats = bottom_stats(gray@, width, height);
        proof {
            assert(stats.total == total);
            assert(stats.mean == mean);
            assert(stats.bright == bright);
            assert(stats.variance == variance);
            assert(stats.edges == edges);
            assert(stats.edge_total == edge_total);
            lemma_mul_bound(MIN_TEXT_AREA_PERMILLE as int, total as int, 5, usize::MAX as int);
            lemma_mul_bound(CONTRAST_THRESHOLD as int, CONTRAST_THRESHOLD as int, 40, 40);
        }
        let has_text = (bright as u128) * 1000 > (MIN_TEXT_AREA_PERMILLE as u128) * (total as u128)
            && variance > (CONTRAST_THRESHOLD * CONTRAST_THRESHOLD) as u128 && edge_total > 0
            && (edges as u128) * 50 > edge_total as u128;
        if !has_text {
            return none;
        }
        let bright_share: u128 = (bright as u128) * 10000 / (total as u128);
        let bright_score: u128 = if bright_share < 400 {
            bright_share
        } else {
            400
        };
        let edge_share: u128 = (edges as u128) * 5000 / (edge_total as u128);
        let edge_score: u128 = if edge_share < 300 {
            edge_share
        } else {
            300
        };
        TextDetectionResult {
            has_text: true,
            confidence: (bright_score + 300 + edge_score) as u32,
            text_region_count: 1,
        }
    }

    /// The hash of the rows `band_y .. band_y + band_height` of the plane.
    pub fn compute_band_hash(&self, gray: &[u8], width: u32, band_y: u32, band_height: u32) -> (hash:
        u64)
        requires
            band_y + band_height <= u32::MAX,
        ensures
            hash == band_hash_of(
                block_means(gray@, PixelFormat::Luma, band_area(width, band_y, band_height)),
            ),
    {
        let area = HashArea {
            img_w: width,
            x_limit: width,
            y_limit: band_y + band_height,
            x: 0,
            y: band_y,
            w: width,
            h: band_height,
        };
        let samples = compute_block_means(gray, PixelFormat::Luma, &area);
        let mean: u32 = mean_of_samples(&samples);
        threshold_hash(&samples, mean, 48)
    }

    /// The hash of the subtitle band with the band's first row and height,
    /// or `None` where the plane shows no band.
    pub fn subtitle_band_hash(&self, gray: &[u8], width: u32, height: u32) -> (found: Option<
        (u64, usize, usize),
    >)
        ensures
            found.is_some() == subtitle_band(gray@, width, height).found,
            found.is_some() ==> ({
                let band = subtitle_band(gray@, width, height);
                &&& found.unwrap().1 == band.y
                &&& found.unwrap().2 == band.height
                &&& found.unwrap().0 == band_hash_of(
                    block_means(
                        gray@,
                        PixelFormat::Luma,
                        band_area(width, band.y as u32, band.height as u32),
                    ),
                )
            }),
    {
        let band = self.detect_subtitle_bands(gray, width, height);
        if !band.found {
            return None;
        }
        let hash: u64 = self.compute_band_hash(gray, width, band.y as u32, band.height as u32);
        Some((hash, band.y, band.height))
    }
}


/// Sums the luminance over the samples `a .. b`.
fn sum_luma(gray: &[u8], a: usize, b: usize) -> (sum: u128)
    requires
        a <= b <= gray.len(),
    ensures
        sum == range_sum(luma_at(gray@), a as int, b as int),
        sum <= 255 * (b - a),
{
    let ghost f = luma_at(gray@);
    let mut sum: u128 = 0;
    let mut i: usize = a;
    while i < b
        invariant
            a <= i <= b <= gray.len(),
            f == luma_at(gray@),
            sum == range_sum(f, a as int, i as int),
            sum <= 255 * (i - a),
        decreases b - i,
    {
        sum = sum + gray[i] as u128;
        i = i + 1;
    }
    sum
}

/// Counts the bright samples among `a .. b` and sums their squared distances from `mean`.
fn spread_of(gray: &[u8], a: usize, b: usize, mean: u8) -> (spread: (usize, u128))
    requires
        a <= b <= gray.len(),
    ensures
        spread.0 == range_sum(bright_at(gray@), a as int, b as int),
        spread.0 <= b - a,
        spread.1 == range_sum(squared_diff_at(gray@, mean as int), a as int, b as int),
        spread.1 <= 65025 * (b - a),
{
    let ghost f = bright_at(gray@);
    let ghost g = squared_diff_at(gray@, mean as int);
    let mut bright: usize = 0;
    let mut squares: u128 = 0;
    let mut i: usize = a;
    while i < b
        invariant
            a <= i <= b <= gray.len(),
            f == bright_at(gray@),
            g == squared_diff_at(gray@, mean as int),
            bright == range_sum(f, a as int, i as int),
            bright <= i - a,
            squares == range_sum(g, a as int, i as int),
            squares <= 65025 * (i - a),
        decreases b - i,
    {
        let pixel: u8 = gray[i];
        if pixel > BRIGHTNESS_THRESHOLD {
            bright = bright + 1;
        }
        let diff: u128 = if pixel >= mean {
            (pixel - mean) as u128
        } else {
            (mean - pixel) as u128
        };
        proof {
            assert(diff * diff == (pixel - mean) * (pixel - mean)) by (nonlinear_arith)
                requires
                    diff == pixel - mean || diff == mean - pixel,
            ;
            assert(diff * diff <= 65025) by (nonlinear_arith)
                requires
                    0 <= diff <= 255,
            ;
        }
        squares = squares + diff * diff;
        i = i + 1;
    }
    (bright, squares)
}

/// Counts the horizontal edges among the interior pixels of the rows `y0 .. y1`.
fn count_horizontal_edges(gray: &[u8], w: usize, y0: usize, y1: usize) -> (edges: usize)
    requires
        y0 <= y1,
        y1 * w <= gray.len(),
    ensures
        edges == hedges_in_rows(gray@, w as int, y0 as int, y1 - y0),
        edges <= y1 * w - y0 * w,
{
    let ghost f = hedge_at(gray@);
    let mut edges: usize = 0;
    let mut y: usize = y0;
    proof {
        assert(y0 * w <= y1 * w) by (nonlinear_arith)
            requires
                y0 <= y1,
                w >= 0,
        ;
    }
    let base: usize = y0 * w;
    let mut first: usize = base;
    while y < y1
        invariant
            y0 <= y <= y1,
            y1 * w <= gray.len(),
            first == y * w,
            base == y0 * w,
            f == hedge_at(gray@),
            edges == hedges_in_rows(gray@, w as int, y0 as int, y - y0),
            edges + base <= first,
        decreases y1 - y,
    {
        proof {
            assert((y + 1) * w == y * w + w) by (nonlinear_arith);
            assert((y + 1) * w <= y1 * w) by (nonlinear_arith)
                requires
                    y + 1 <= y1,
                    w >= 0,
            ;
        }
        let mut row_edges: usize = 0;
        let mut x: usize = 1;
        while x + 1 < w
            invariant
                1 <= x,
                x + 1 <= w || x == 1,
                first + w <= gray.len(),
                f == hedge_at(gray@),
                row_edges == range_sum(f, first + 1, first + x),
                row_edges <= x - 1,
            decreases w - x,
        {
            let left: u8 = gray[first + x - 1];
            let right: u8 = gray[first + x + 1];
            let diff: u8 = if right >= left {
                right - left
            } else {
                left - right
            };
            if diff > HORIZONTAL_EDGE_MIN {
                row_edges = row_edges + 1;
            }
            x = x + 1;
        }
        proof {
            assert(y0 + (y + 1 - y0) - 1 == y);
            if w < 2 {
                assert(range_sum(f, first + 1, first + w - 1) == 0);
            }
        }
        edges = edges + row_edges;
        first = first + w;
        y = y + 1;
    }
    edges
}

// ---------------------------------------------------------------------------
// The detector interface
// ---------------------------------------------------------------------------

/// Something that judges whether a frame shows text.
///
/// An implementation says in `may_detect` and `may_detect_yuv` which
/// results it can give; a detector that always gives the same result for
/// the same frame names exactly that result there.
pub trait TextDetector {
    /// `result` is what the detector may say of the RGBA frame.
    spec fn may_detect(&self, frame: Frame, result: TextDetectionResult) -> bool;

    /// Judges an RGBA frame.
    fn detect(&self, frame: &Frame) -> (result: TextDetectionResult)
        ensures
            self.may_detect(*frame, result),
            result.confidence <= 1000,
    ;

    /// `result` is what the detector may say of the luma plane.
    spec fn may_detect_yuv(
        &self,
        width: u32,
        height: u32,
        y_plane: Seq<u8>,
        result: TextDetectionResult,
    ) -> bool;

    /// Judges a luma plane.
    fn detect_yuv(&self, width: u32, height: u32, y_plane: &[u8]) -> (result: TextDetectionResult)
        ensures
            self.may_detect_yuv(width, height, y_plane@, result),
            result.confidence <= 1000,
    ;
}

/// The gray RGBA frame that shows a luma plane, with timestamp and frame
/// number 0: how a detector without a way of its own looks at a plane.
pub fn gray_frame(width: u32, height: u32, y_plane: &[u8]) -> (frame: Frame)
    ensures
        frame.width == width,
        frame.height == height,
        frame.timestamp_ms == 0,
        frame.frame_number == 0,
        frame.data@.len() == 4 * y_plane@.len(),
        forall|k: int|
            0 <= k < frame.data@.len() ==> frame.data@[k] == (if k % 4 == 3 {
                255u8
            } else {
                y_plane@[k / 4]
            }),
{
    let mut rgba: Vec<u8> = Vec::new();
    let mut i: usize = 0;
    while i < y_plane.len()
        invariant
            i <= y_plane.len(),
            rgba@.len() == 4 * i,
            forall|k: int|
                0 <= k < rgba@.len() ==> rgba@[k] == (if k % 4 == 3 {
                    255u8
                } else {
                    y_plane@[k / 4]
                }),
        decreases y_plane.len() - i,
    {
        let luma: u8 = y_plane[i];
        rgba.push(luma);
        rgba.push(luma);
        rgba.push(luma);
        rgba.push(255);
        i = i + 1;
    }
    Frame::new(width, height, rgba, 0, 0)
}

impl TextDetector for CookingTextDetector {
    open spec fn may_detect(&self, frame: Frame, result: TextDetectionResult) -> bool {
        result == Self::bottom_region(luma_plane(frame.data@), frame.width, frame.height)
    }

    /// Looks at the luminance of the bottom 30% of the frame.
    fn detect(&self, frame: &Frame) -> (result: TextDetectionResult) {
        let gray = to_luma_plane(&frame.data);
        self.detect_bottom_region(gray.as_slice(), frame.width, frame.height)
    }

    open spec fn may_detect_yuv(
        &self,
        width: u32,
        height: u32,
        y_plane: Seq<u8>,
        result: TextDetectionResult,
    ) -> bool {
        result == Self::bottom_region(y_plane, width, height)
    }

    /// The luma plane is the gray image: no conversion is needed.
    fn detect_yuv(&self, width: u32, height: u32, y_plane: &[u8]) -> (result: TextDetectionResult) {
        self.detect_bottom_region(y_plane, width, height)
    }
}

impl Default for CookingTextDetector {
    fn default() -> (detector: Self)
        ensures
            detector == (CookingTextDetector {  }),
    {
        CookingTextDetector::new()
    }
}

} // verus!
