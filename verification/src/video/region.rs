//! Cropping a luma plane to a square tile and detecting subtitle-like rows in it.
//!
//! A row counts as a text row when it holds many bright pixels on a strong
//! horizontal gradient and enough of them start right after a flat stretch;
//! the second condition tells text strokes from the long smooth edges of
//! cookware. The edge pixels of the text rows, counted on a 4x4 grid, give a
//! 16-bit content hash.

use vstd::prelude::*;
use crate::arith::{abs_diff, lemma_mul_bound, min_int};
use crate::bits::{hamming, hamming_distance, pack_bits, pack_flags};

verus! {

/// Side of the square tile that every frame is resampled to.
pub const TILE_SIZE: u32 = 512;

/// Sample used where the source plane is too short to hold the pixel.
pub const MISSING_SAMPLE: u8 = 128;

/// A pixel brighter than this may belong to a subtitle.
pub const BRIGHT_MIN: u8 = 140;

/// Minimal left-right difference of an edge pixel.
pub const EDGE_MIN_DIFF: u8 = 25;

/// The pair of pixels before an edge is flat when it differs by less than this.
pub const FLAT_MAX_DIFF: u8 = 10;

/// A text row has more stroke starts than this.
pub const JUMP_THRESHOLD: u32 = 5;

/// Two text hashes further apart than this show different content.
pub const HASH_DISTANCE_THRESHOLD: u32 = 4;

/// What the analysis found in one tile.
#[derive(Debug, Clone, Copy, PartialEq, Eq, Structural)]
pub struct RegionState {
    pub has_text: bool,
    pub hash: u64,
}

/// A luma tile: empty, or `width * height` samples in row-major order.
#[derive(Debug, Clone)]
pub struct CroppedYPlane {
    pub data: Vec<u8>,
    pub width: u32,
    pub height: u32,
}

// ---------------------------------------------------------------------------
// Cropping
// ---------------------------------------------------------------------------

/// Rows that remain after `top_pct` percent are trimmed from the top and
/// `bottom_pct` percent from the bottom of `h` rows.
pub open spec fn crop_height(h: int, top_pct: int, bottom_pct: int) -> int {
    let rest = h - h * top_pct / 100 - h * bottom_pct / 100;
    if rest > 0 {
        rest
    } else {
        0
    }
}

/// Index into the source plane of the pixel shown at `(out_x, out_y)` of the tile:
/// nearest neighbour inside the centred square of the trimmed band, clamped
/// to the frame.
pub open spec fn tile_source(
    w: int,
    h: int,
    top_pct: int,
    bottom_pct: int,
    out_x: int,
    out_y: int,
) -> int {
    let band = crop_height(h, top_pct, bottom_pct);
    let side = min_int(band, w);
    let x_offset = (w - side) / 2;
    let y_offset = h * top_pct / 100 + (band - side) / 2;
    let src_x = min_int(x_offset + out_x * side / (TILE_SIZE as int), w - 1);
    let src_y = min_int(y_offset + out_y * side / (TILE_SIZE as int), h - 1);
    src_y * w + src_x
}

/// Sample `k` of the tile, in row-major order.
pub open spec fn tile_sample(
    plane: Seq<u8>,
    w: int,
    h: int,
    top_pct: int,
    bottom_pct: int,
    k: int,
) -> u8 {
    let idx = tile_source(
        w,
        h,
        top_pct,
        bottom_pct,
        k % (TILE_SIZE as int),
        k / (TILE_SIZE as int),
    );
    if 0 <= idx < plane.len() {
        plane[idx]
    } else {
        MISSING_SAMPLE
    }
}

/// The samples of the tile cut from `plane`; empty where nothing is left to cut from.
pub open spec fn cropped_samples(
    plane: Seq<u8>,
    width: u32,
    height: u32,
    top_pct: u32,
    bottom_pct: u32,
) -> Seq<u8> {
    if width == 0 || crop_height(height as int, top_pct as int, bottom_pct as int) == 0 {
        Seq::empty()
    } else {
        Seq::new(
            (TILE_SIZE * TILE_SIZE) as nat,
            |k: int| tile_sample(plane, width as int, height as int, top_pct as int, bottom_pct as int, k),
        )
    }
}

/// Side of the tile cut from a frame: 0 for an empty tile.
pub open spec fn cropped_side(width: u32, height: u32, top_pct: u32, bottom_pct: u32) -> u32 {
    if width == 0 || crop_height(height as int, top_pct as int, bottom_pct as int) == 0 {
        0
    } else {
        TILE_SIZE
    }
}

/// Trims `top_pct` percent of the rows from the top and `bottom_pct` percent
/// from the bottom, takes the centred square of what is left and resamples
/// it to `TILE_SIZE` x `TILE_SIZE` by nearest neighbour.
///
/// A plane shorter than `width * height` is read as if padded with
/// `MISSING_SAMPLE`.
pub fn crop_y_plane(y_plane: &[u8], width: u32, height: u32, top_pct: u32, bottom_pct: u32) -> (tile:
    CroppedYPlane)
    ensures
        tile.data@ == cropped_samples(y_plane@, width, height, top_pct, bottom_pct),
        tile.width == cropped_side(width, height, top_pct, bottom_pct),
        tile.height == tile.width,
{
    let w: u64 = width as u64;
    let h: u64 = height as u64;
    proof {
        lemma_mul_bound(h as int, top_pct as int, 0xFFFF_FFFF, 0xFFFF_FFFF);
        lemma_mul_bound(h as int, bottom_pct as int, 0xFFFF_FFFF, 0xFFFF_FFFF);
    }
    let top_crop: u64 = h * (top_pct as u64) / 100;
    let bottom_crop: u64 = h * (bottom_pct as u64) / 100;
    let band: u64 = h.saturating_sub(top_crop).saturating_sub(bottom_crop);
    if band == 0 || w == 0 {
        return CroppedYPlane { data: Vec::new(), width: 0, height: 0 };
    }
    let side: u64 = if band < w {
        band
    } else {
        w
    };
    let x_offset: u64 = (w - side) / 2;
    let y_offset: u64 = top_crop + (band - side) / 2;
    let size: u64 = TILE_SIZE as u64;
    let ghost wi = width as int;
    let ghost hi = height as int;
    let ghost tp = top_pct as int;
    let ghost bp = bottom_pct as int;

    let mut data: Vec<u8> = Vec::new();
    let mut out_y: u64 = 0;
    while out_y < size
        invariant
            size == TILE_SIZE,
            out_y <= size,
            w == width,
            h == height,
            wi == width,
            hi == height,
            tp == top_pct,
            bp == bottom_pct,
            0 < w <= 0xFFFF_FFFF,
            0 < h <= 0xFFFF_FFFF,
            band == crop_height(hi, tp, bp),
            0 < band <= h,
            side == min_int(band as int, w as int),
            x_offset == (w - side) / 2,
            y_offset == hi * tp / 100 + (band - side) / 2,
            y_offset <= h,
            data@.len() == out_y * size,
            forall|k: int| 0 <= k < data@.len() ==> data@[k] == tile_sample(y_plane@, wi, hi, tp, bp, k),
        decreases size - out_y,
    {
        proof {
            lemma_mul_bound(out_y as int, side as int, 511, 0xFFFF_FFFF);
        }
        let raw_y: u64 = y_offset + out_y * side / size;
        let src_y: u64 = if raw_y < h - 1 {
            raw_y
        } else {
            h - 1
        };
        proof {
            lemma_mul_bound(src_y as int, w as int, 0xFFFF_FFFE, 0xFFFF_FFFF);
        }
        let row_start: u64 = src_y * w;
        let mut out_x: u64 = 0;
        while out_x < size
            invariant
                size == TILE_SIZE,
                out_x <= size,
                out_y < size,
                wi == width,
                hi == height,
                tp == top_pct,
                bp == bottom_pct,
                w == width,
                h == height,
                0 < w <= 0xFFFF_FFFF,
                0 < h <= 0xFFFF_FFFF,
                band == crop_height(hi, tp, bp),
                side == min_int(band as int, w as int),
                x_offset == (w - side) / 2,
                y_offset == hi * tp / 100 + (band - side) / 2,
                src_y == min_int(y_offset + out_y * side / (TILE_SIZE as int), h - 1),
                row_start == src_y * w,
                row_start <= 0xFFFF_FFFE * 0xFFFF_FFFF,
                data@.len() == out_y * size + out_x,
                forall|k: int|
                    0 <= k < data@.len() ==> data@[k] == tile_sample(y_plane@, wi, hi, tp, bp, k),
            decreases size - out_x,
        {
            proof {
                lemma_mul_bound(out_x as int, side as int, 511, 0xFFFF_FFFF);
            }
            let raw_x: u64 = x_offset + out_x * side / size;
            let src_x: u64 = if raw_x < w - 1 {
                raw_x
            } else {
                w - 1
            };
            let idx: u64 = row_start + src_x;
            let sample: u8 = if idx < y_plane.len() as u64 {
                y_plane[idx as usize]
            } else {
                MISSING_SAMPLE
            };
            proof {
                let k = out_y * size + out_x;
                assert(k % (TILE_SIZE as int) == out_x);
                assert(k / (TILE_SIZE as int) == out_y);
                assert(idx == tile_source(wi, hi, tp, bp, out_x as int, out_y as int));
                assert(sample == tile_sample(y_plane@, wi, hi, tp, bp, k));
            }
            data.push(sample);
            out_x = out_x + 1;
        }
        out_y = out_y + 1;
    }
    proof {
        assert(data@ =~= cropped_samples(y_plane@, width, height, top_pct, bottom_pct));
    }
    CroppedYPlane { data, width: TILE_SIZE, height: TILE_SIZE }
}

// ---------------------------------------------------------------------------
// Row features
// ---------------------------------------------------------------------------

/// The sample at column `x` of row `y` in a plane of width `w`.
pub open spec fn luma(p: Seq<u8>, w: int, x: int, y: int) -> int {
    p[y * w + x] as int
}

/// A bright pixel whose left and right neighbours differ strongly.
pub open spec fn is_edge(p: Seq<u8>, w: int, x: int, y: int) -> bool {
    luma(p, w, x, y) > BRIGHT_MIN && abs_diff(luma(p, w, x + 1, y), luma(p, w, x - 1, y))
        > EDGE_MIN_DIFF
}

/// An edge pixel that follows a flat pair of pixels: the start of a stroke.
pub open spec fn is_jump(p: Seq<u8>, w: int, x: int, y: int) -> bool {
    is_edge(p, w, x, y) && x > 1 && abs_diff(luma(p, w, x - 1, y), luma(p, w, x - 2, y))
        < FLAT_MAX_DIFF
}

/// Number of edge pixels of row `y` in the columns `1 .. n`.
pub open spec fn edges_in_row(p: Seq<u8>, w: int, y: int, n: int) -> nat
    decreases n,
{
    if n <= 1 {
        0
    } else {
        edges_in_row(p, w, y, n - 1) + if is_edge(p, w, n - 1, y) {
            1nat
        } else {
            0nat
        }
    }
}

/// Number of stroke starts of row `y` in the columns `1 .. n`.
pub open spec fn jumps_in_row(p: Seq<u8>, w: int, y: int, n: int) -> nat
    decreases n,
{
    if n <= 1 {
        0
    } else {
        jumps_in_row(p, w, y, n - 1) + if is_jump(p, w, n - 1, y) {
            1nat
        } else {
            0nat
        }
    }
}

/// Row `y` is a text row: over its interior pixels, more edges than 5% of
/// the width and more stroke starts than `JUMP_THRESHOLD`.
pub open spec fn is_text_row(p: Seq<u8>, w: int, y: int) -> bool {
    edges_in_row(p, w, y, w - 1) > w / 20 && jumps_in_row(p, w, y, w - 1) > JUMP_THRESHOLD
}

/// Some row among the `rows` rows from `y0` on is a text row.
pub open spec fn any_text_row(p: Seq<u8>, w: int, y0: int, rows: int) -> bool
    decreases rows,
{
    rows > 0 && (any_text_row(p, w, y0, rows - 1) || is_text_row(p, w, y0 + rows - 1))
}

// ---------------------------------------------------------------------------
// Grid hash
// ---------------------------------------------------------------------------

/// Cell of the 4x4 grid, numbered row by row, that holds column `x` of the
/// `local_y`-th row of a region of `region_h` rows.
pub open spec fn cell_of(w: int, region_h: int, x: int, local_y: int) -> int {
    let block_w = if w / 4 >= 1 {
        w / 4
    } else {
        1
    };
    let block_h = if region_h / 4 >= 1 {
        region_h / 4
    } else {
        1
    };
    min_int(local_y / block_h, 3) * 4 + min_int(x / block_w, 3)
}

/// Edge pixels of row `y`, columns `1 .. n`, that fall into `cell`.
pub open spec fn row_cell_edges(
    p: Seq<u8>,
    w: int,
    y0: int,
    region_h: int,
    y: int,
    cell: int,
    n: int,
) -> nat
    decreases n,
{
    if n <= 1 {
        0
    } else {
        row_cell_edges(p, w, y0, region_h, y, cell, n - 1) + if is_edge(p, w, n - 1, y) && cell_of(
            w,
            region_h,
            n - 1,
            y - y0,
        ) == cell {
            1nat
        } else {
            0nat
        }
    }
}

/// Edge pixels of the text rows among the first `rows` rows of the region
/// that fall into `cell`.
pub open spec fn cell_edges(p: Seq<u8>, w: int, y0: int, region_h: int, cell: int, rows: int) -> nat
    decreases rows,
{
    if rows <= 0 {
        0
    } else {
        cell_edges(p, w, y0, region_h, cell, rows - 1) + if is_text_row(p, w, y0 + rows - 1) {
            row_cell_edges(p, w, y0, region_h, y0 + rows - 1, cell, w - 1)
        } else {
            0
        }
    }
}

/// The 16 cell counts of the region made of the rows `y0 .. y1`.
pub open spec fn cell_counts(p: Seq<u8>, w: int, y0: int, y1: int) -> Seq<nat> {
    Seq::new(16, |c: int| cell_edges(p, w, y0, y1 - y0, c, y1 - y0))
}

/// Sum of the first `n` counts.
pub open spec fn counts_total(counts: Seq<nat>, n: int) -> nat
    decreases n,
{
    if n <= 0 {
        0
    } else {
        counts_total(counts, n - 1) + counts[n - 1]
    }
}

/// Bit `i` is set where cell `i` holds more than the mean of the 16 cells.
pub open spec fn grid_hash(counts: Seq<nat>) -> nat {
    pack_bits(Seq::new(16, |i: int| counts[i] > counts_total(counts, 16) / 16))
}

/// First row of the region that starts at `pct` percent of `height` rows.
pub open spec fn pct_row(height: u32, pct: u32) -> int {
    (height as int) * (pct as int) / 100
}

/// The analysis of the rows from `start_pct` to `end_pct` percent of the plane.
///
/// An empty region, a plane of width 0 and a plane too short to hold the
/// region have no text.
pub open spec fn region_analysis(
    p: Seq<u8>,
    width: u32,
    height: u32,
    start_pct: u32,
    end_pct: u32,
) -> RegionState {
    let w = width as int;
    let y0 = pct_row(height, start_pct);
    let y1 = pct_row(height, end_pct);
    if y1 <= y0 || w == 0 || p.len() < y1 * w || !any_text_row(p, w, y0, y1 - y0) {
        RegionState { has_text: false, hash: 0 }
    } else {
        RegionState { has_text: true, hash: grid_hash(cell_counts(p, w, y0, y1)) as u64 }
    }
}

/// Counts the edges and stroke starts of one row.
fn scan_row(p: &[u8], w: usize, y: usize, row_offset: usize) -> (counts: (u32, u32))
    requires
        0 < w <= 0xFFFF_FFFF,
        row_offset == y * w,
        row_offset + w <= p.len(),
    ensures
        counts.0 == edges_in_row(p@, w as int, y as int, w - 1),
        counts.1 == jumps_in_row(p@, w as int, y as int, w - 1),
{
    let mut edges: u32 = 0;
    let mut jumps: u32 = 0;
    let mut x: usize = 1;
    while x + 1 < w
        invariant
            0 < w <= 0xFFFF_FFFF,
            row_offset == y * w,
            row_offset + w <= p.len(),
            1 <= x,
            x + 1 <= w || x == 1,
            edges == edges_in_row(p@, w as int, y as int, x as int),
            jumps == jumps_in_row(p@, w as int, y as int, x as int),
            edges <= x,
            jumps <= x,
        decreases w - x,
    {
        let idx: usize = row_offset + x;
        let val: u8 = p[idx];
        if val > BRIGHT_MIN {
            let left: u8 = p[idx - 1];
            let right: u8 = p[idx + 1];
            let diff: u8 = if right >= left {
                right - left
            } else {
                left - right
            };
            if diff > EDGE_MIN_DIFF {
                edges = edges + 1;
                if x > 1 {
                    let before: u8 = p[idx - 2];
                    let prev_diff: u8 = if left >= before {
                        left - before
                    } else {
                        before - left
                    };
                    if prev_diff < FLAT_MAX_DIFF {
                        jumps = jumps + 1;
                    }
                }
            }
        }
        x = x + 1;
    }
    (edges, jumps)
}

/// Adds the edge pixels of row `y` to their grid cells.
fn add_row_to_grid(
    p: &[u8],
    w: usize,
    y0: usize,
    region_h: usize,
    y: usize,
    row_offset: usize,
    grid: &mut Vec<u64>,
)
    requires
        0 < w <= 0xFFFF_FFFF,
        y0 <= y < y0 + region_h,
        row_offset == y * w,
        row_offset + w <= p.len(),
        old(grid).len() == 16,
        forall|c: int| 0 <= c < 16 ==> old(grid)@[c] <= row_offset,
    ensures
        final(grid).len() == 16,
        forall|c: int|
            0 <= c < 16 ==> final(grid)@[c] == old(grid)@[c] + row_cell_edges(
                p@,
                w as int,
                y0 as int,
                region_h as int,
                y as int,
                c,
                w - 1,
            ),
        forall|c: int| 0 <= c < 16 ==> final(grid)@[c] <= row_offset + w,
{
    let block_w: usize = if w / 4 >= 1 {
        w / 4
    } else {
        1
    };
    let block_h: usize = if region_h / 4 >= 1 {
        region_h / 4
    } else {
        1
    };
    let local_y: usize = y - y0;
    let by: usize = if local_y / block_h < 3 {
        local_y / block_h
    } else {
        3
    };
    let mut x: usize = 1;
    while x + 1 < w
        invariant
            0 < w <= 0xFFFF_FFFF,
            y0 <= y < y0 + region_h,
            local_y == y - y0,
            row_offset == y * w,
            row_offset + w <= p.len(),
            block_w == (if w / 4 >= 1 {
                w / 4
            } else {
                1
            }),
            block_h == (if region_h / 4 >= 1 {
                region_h / 4
            } else {
                1
            }),
            by == min_int(local_y as int / block_h as int, 3),
            1 <= x,
            x + 1 <= w || x == 1,
            grid.len() == 16,
            forall|c: int|
                0 <= c < 16 ==> grid@[c] == old(grid)@[c] + row_cell_edges(
                    p@,
                    w as int,
                    y0 as int,
                    region_h as int,
                    y as int,
                    c,
                    x as int,
                ),
            forall|c: int| 0 <= c < 16 ==> grid@[c] <= row_offset + x,
        decreases w - x,
    {
        let idx: usize = row_offset + x;
        let val: u8 = p[idx];
        if val > BRIGHT_MIN {
            let left: u8 = p[idx - 1];
            let right: u8 = p[idx + 1];
            let diff: u8 = if right >= left {
                right - left
            } else {
                left - right
            };
            if diff > EDGE_MIN_DIFF {
                let bx: usize = if x / block_w < 3 {
                    x / block_w
                } else {
                    3
                };
                let cell: usize = by * 4 + bx;
                assert(cell == cell_of(w as int, region_h as int, x as int, y - y0));
                let count: u64 = grid[cell];
                grid.set(cell, count + 1);
            }
        }
        x = x + 1;
    }
}

/// Sum of the 16 cell counts.
fn grid_total(grid: &Vec<u64>) -> (total: u128)
    requires
        grid.len() == 16,
    ensures
        total == counts_total(grid@.map_values(|v: u64| v as nat), 16),
{
    let ghost counts = grid@.map_values(|v: u64| v as nat);
    let mut total: u128 = 0;
    let mut i: usize = 0;
    while i < 16
        invariant
            i <= 16,
            grid.len() == 16,
            counts == grid@.map_values(|v: u64| v as nat),
            total == counts_total(counts, i as int),
            total <= i * 0xFFFF_FFFF_FFFF_FFFF,
        decreases 16 - i,
    {
        total = total + grid[i] as u128;
        i = i + 1;
    }
    total
}

/// Analyses the rows from `start_pct` to `end_pct` percent of a luma plane.
pub fn analyze_region(y_plane: &[u8], width: u32, height: u32, start_pct: u32, end_pct: u32) -> (state:
    RegionState)
    ensures
        state == region_analysis(y_plane@, width, height, start_pct, end_pct),
        state.hash < 65536,
        !state.has_text ==> state.hash == 0,
{
    let no_text = RegionState { has_text: false, hash: 0 };
    proof {
        lemma_mul_bound(height as int, start_pct as int, 0xFFFF_FFFF, 0xFFFF_FFFF);
        lemma_mul_bound(height as int, end_pct as int, 0xFFFF_FFFF, 0xFFFF_FFFF);
    }
    let y_start_wide: u64 = (height as u64) * (start_pct as u64) / 100;
    let y_end_wide: u64 = (height as u64) * (end_pct as u64) / 100;
    if y_end_wide <= y_start_wide || width == 0 {
        return no_text;
    }
    proof {
        lemma_mul_bound(y_end_wide as int, width as int, 0xFFFF_FFFF_FFFF_FFFF, 0xFFFF_FFFF);
    }
    if (y_plane.len() as u128) < (y_end_wide as u128) * (width as u128) {
        return no_text;
    }
    let ghost p = y_plane@;
    let ghost wi = width as int;
    proof {
        assert(y_end_wide * wi >= y_end_wide) by (nonlinear_arith)
            requires
                wi >= 1,
                y_end_wide >= 0,
        ;
    }
    let w: usize = width as usize;
    let y_start: usize = y_start_wide as usize;
    let y_end: usize = y_end_wide as usize;
    let region_h: usize = y_end - y_start;

    let mut grid: Vec<u64> = Vec::new();
    let mut c: usize = 0;
    while c < 16
        invariant
            c <= 16,
            grid.len() == c,
            forall|k: int| 0 <= k < c ==> grid@[k] == 0,
        decreases 16 - c,
    {
        grid.push(0);
        c = c + 1;
    }

    proof {
        assert(y_start * wi <= y_end * wi) by (nonlinear_arith)
            requires
                y_start <= y_end,
                wi >= 0,
        ;
    }
    let mut found: bool = false;
    let mut y: usize = y_start;
    let mut row_offset: usize = y_start * w;
    while y < y_end
        invariant
            p == y_plane@,
            wi == w,
            0 < w <= 0xFFFF_FFFF,
            y_start <= y <= y_end,
            region_h == y_end - y_start,
            row_offset == y * w,
            y_end * wi <= p.len(),
            p.len() == y_plane.len(),
            found == any_text_row(p, wi, y_start as int, y - y_start),
            grid.len() == 16,
            forall|k: int|
                0 <= k < 16 ==> grid@[k] == cell_edges(
                    p,
                    wi,
                    y_start as int,
                    region_h as int,
                    k,
                    y - y_start,
                ),
            forall|k: int| 0 <= k < 16 ==> grid@[k] <= row_offset,
        decreases y_end - y,
    {
        proof {
            assert((y + 1) * wi == y * wi + wi) by (nonlinear_arith);
            assert((y + 1) * wi <= y_end * wi) by (nonlinear_arith)
                requires
                    y + 1 <= y_end,
                    wi >= 0,
            ;
        }
        let (edges, jumps) = scan_row(y_plane, w, y, row_offset);
        if edges > (w / 20) as u32 && jumps > JUMP_THRESHOLD {
            found = true;
            add_row_to_grid(y_plane, w, y_start, region_h, y, row_offset, &mut grid);
        }
        y = y + 1;
        row_offset = row_offset + w;
    }
    if !found {
        return no_text;
    }
    let total: u128 = grid_total(&grid);
    let mean: u128 = total / 16;
    let ghost counts = grid@.map_values(|v: u64| v as nat);
    let mut flags: Vec<bool> = Vec::new();
    let mut i: usize = 0;
    while i < 16
        invariant
            i <= 16,
            grid.len() == 16,
            counts == grid@.map_values(|v: u64| v as nat),
            mean == counts_total(counts, 16) / 16,
            flags.len() == i,
            forall|k: int| 0 <= k < i ==> flags@[k] == (counts[k] > counts_total(counts, 16) / 16),
        decreases 16 - i,
    {
        flags.push(grid[i] as u128 > mean);
        i = i + 1;
    }
    let hash: u64 = pack_flags(&flags);
    proof {
        vstd::arithmetic::power2::lemma2_to64();
        assert(counts =~= cell_counts(p, wi, y_start as int, y_end as int));
        assert(flags@ =~= Seq::new(16, |i: int| counts[i] > counts_total(counts, 16) / 16));
    }
    RegionState { has_text: true, hash }
}

// ---------------------------------------------------------------------------
// Change detection
// ---------------------------------------------------------------------------

/// The content shown changed between the last kept analysis and `current`:
/// text appeared where nothing was kept yet, text came or went, or both
/// show text and their hashes differ in more than `HASH_DISTANCE_THRESHOLD` bits.
pub open spec fn content_changed(last: Option<RegionState>, current: RegionState) -> bool {
    match last {
        None => current.has_text,
        Some(prev) => prev.has_text != current.has_text || (prev.has_text && current.has_text
            && hamming(prev.hash, current.hash) > HASH_DISTANCE_THRESHOLD),
    }
}

pub fn has_region_changed(last: &Option<RegionState>, current: &RegionState) -> (changed: bool)
    ensures
        changed == content_changed(*last, *current),
{
    match last {
        None => current.has_text,
        Some(prev) => {
            if prev.has_text != current.has_text {
                true
            } else if prev.has_text && current.has_text {
                hamming_distance(prev.hash, current.hash) > HASH_DISTANCE_THRESHOLD
            } else {
                false
            }
        },
    }
}

} // verus!
