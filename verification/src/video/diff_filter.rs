//! The pre-filter of the single-frame pipeline: a frame is looked at more
//! closely only when it differs enough from the frame before it.
//!
//! A frame is reduced to 8x8 samples. Half of the difference score is the
//! share of differing bits of a hash of these samples, the other half is
//! what the intersection of the two luminance histograms leaves open.

use vstd::prelude::*;
use crate::arith::lemma_mul_bound;
use crate::bits::{hamming, hamming_distance, pack_bits, pack_flags};
use crate::video::frame::{resize_fits, resized_rgba, Frame};
use crate::video::phash::{
    as_ints,
    block_means,
    compute_block_means,
    mean_of_samples,
    samples_mean,
    HashArea,
    PixelFormat,
};
use crate::video::text_detector::{luma_plane, to_luma_plane};

verus! {

/// Side of the reduced image.
pub const SAMPLE_SIZE: u32 = 8;

/// Number of histogram bins: four luminance levels share a bin.
pub const BINS: usize = 64;

/// The threshold of a new filter, in per-mille of the score.
pub const DEFAULT_THRESHOLD_PERMILLE: u32 = 100;

/// What the filter remembers of a frame.
pub struct Signature {
    pub hash: u64,
    pub histogram: Seq<u32>,
}

/// What the filter remembers: its threshold, and the signatures of the last
/// RGBA frame and of the last luma plane.
pub struct FilterState {
    pub threshold_permille: u32,
    pub last: Option<Signature>,
    pub last_y: Option<Signature>,
}

pub struct FrameDiffFilter {
    threshold_permille: u32,
    last_hash: Option<u64>,
    last_histogram: Option<Vec<u32>>,
    last_y_hash: Option<u64>,
    last_y_histogram: Option<Vec<u32>>,
}

// ---------------------------------------------------------------------------
// Signatures
// ---------------------------------------------------------------------------

/// Sum of the first `n` samples.
pub open spec fn gray_total(gray: Seq<u8>, n: int) -> int
    decreases n,
{
    if n <= 0 {
        0
    } else {
        gray_total(gray, n - 1) + gray[n - 1]
    }
}

/// Mean of the samples, rounded down; 0 for no samples.
pub open spec fn gray_mean(gray: Seq<u8>) -> int {
    if gray.len() == 0 {
        0
    } else {
        gray_total(gray, gray.len() as int) / (gray.len() as int)
    }
}

/// The hash of the reduced image: bit `i`, for the first 56 samples, tells
/// whether sample `i` is brighter than `mean`; the top byte holds `mean`.
pub open spec fn diff_hash(gray: Seq<u8>, mean: int) -> int {
    pack_bits(
        Seq::new(
            (if gray.len() < 56 {
                gray.len()
            } else {
                56
            }),
            |i: int| gray[i] > mean,
        ),
    ) + mean * 0x100_0000_0000_0000
}

/// Number of the first `n` samples that fall into `bin`.
pub open spec fn bin_count(gray: Seq<u8>, bin: int, n: int) -> int
    decreases n,
{
    if n <= 0 {
        0
    } else {
        bin_count(gray, bin, n - 1) + if gray[n - 1] / 4 == bin {
            1int
        } else {
            0int
        }
    }
}

/// The luminance histogram of the samples.
pub open spec fn histogram_of(gray: Seq<u8>) -> Seq<u32> {
    Seq::new(BINS as nat, |bin: int| bin_count(gray, bin, gray.len() as int) as u32)
}

/// The signature of a reduced image.
pub open spec fn signature_of(gray: Seq<u8>, mean: int) -> Signature {
    Signature { hash: diff_hash(gray, mean) as u64, histogram: histogram_of(gray) }
}

/// The 8x8 block means of a luma plane, as samples.
pub open spec fn reduced_plane(y_plane: Seq<u8>, width: u32, height: u32) -> Seq<u8> {
    Seq::new(
        64,
        |i: int| block_means(y_plane, PixelFormat::Luma, HashArea::whole(width, height))[i] as u8,
    )
}

/// The signature of a luma plane.
pub open spec fn plane_signature(y_plane: Seq<u8>, width: u32, height: u32) -> Signature {
    signature_of(
        reduced_plane(y_plane, width, height),
        samples_mean(block_means(y_plane, PixelFormat::Luma, HashArea::whole(width, height))),
    )
}

/// The signature of an RGBA frame: that of the luminance of the frame resized to 8x8.
pub open spec fn frame_signature(frame: Frame) -> Signature {
    let gray = luma_plane(
        resized_rgba(frame.data@, frame.width, frame.height, SAMPLE_SIZE, SAMPLE_SIZE),
    );
    signature_of(gray, gray_mean(gray))
}

// ---------------------------------------------------------------------------
// Comparison
// ---------------------------------------------------------------------------

/// Sum of the first `n` bins.
pub open spec fn bins_total(h: Seq<u32>, n: int) -> int
    decreases n,
{
    if n <= 0 {
        0
    } else {
        bins_total(h, n - 1) + h[n - 1]
    }
}

/// What the first `n` bins of two histograms have in common.
pub open spec fn bins_overlap(h1: Seq<u32>, h2: Seq<u32>, n: int) -> int
    decreases n,
{
    if n <= 0 {
        0
    } else {
        bins_overlap(h1, h2, n - 1) + if h1[n - 1] <= h2[n - 1] {
            h1[n - 1]
        } else {
            h2[n - 1]
        }
    }
}

/// The larger of the two totals.
pub open spec fn larger_total(h1: Seq<u32>, h2: Seq<u32>) -> int {
    let (s1, s2) = (bins_total(h1, BINS as int), bins_total(h2, BINS as int));
    if s1 >= s2 {
        s1
    } else {
        s2
    }
}

/// Histogram intersection in per-mille, rounded down: the overlap over the
/// larger total; 0 where a histogram is empty.
pub open spec fn similarity_permille(h1: Seq<u32>, h2: Seq<u32>) -> int {
    if bins_total(h1, BINS as int) == 0 || bins_total(h2, BINS as int) == 0 {
        0
    } else {
        bins_overlap(h1, h2, BINS as int) * 1000 / larger_total(h1, h2)
    }
}

/// The score `hash share / 2 + (1 - intersection) / 2` exceeds the threshold.
/// The comparison is exact: it is made on cross products.
pub open spec fn differs(current: Signature, previous: Signature, threshold_permille: u32) -> bool {
    let distance = hamming(current.hash, previous.hash) as int;
    let overlap = bins_overlap(current.histogram, previous.histogram, BINS as int);
    let total = larger_total(current.histogram, previous.histogram);
    if bins_total(current.histogram, BINS as int) == 0 || bins_total(previous.histogram, BINS as int)
        == 0 {
        1000 * (distance + 64) > 128 * threshold_permille
    } else {
        1000 * (distance * total + 64 * (total - overlap)) > 128 * threshold_permille * total
    }
}

impl FilterState {
    /// Whether a frame with signature `current` passes, given the signature before it.
    pub open spec fn passes(previous: Option<Signature>, current: Signature, threshold_permille: u32) -> bool {
        match previous {
            None => true,
            Some(prev) => differs(current, prev, threshold_permille),
        }
    }
}

fn sum_bins(h: &Vec<u32>) -> (total: u64)
    requires
        h@.len() == BINS,
    ensures
        total == bins_total(h@, BINS as int),
        total <= 64 * 0xFFFF_FFFF,
{
    let mut total: u64 = 0;
    let mut i: usize = 0;
    while i < BINS
        invariant
            i <= BINS,
            h@.len() == BINS,
            total == bins_total(h@, i as int),
            total <= i * 0xFFFF_FFFF,
        decreases BINS - i,
    {
        total = total + h[i] as u64;
        i = i + 1;
    }
    total
}

fn overlap_of(h1: &Vec<u32>, h2: &Vec<u32>) -> (overlap: u64)
    requires
        h1@.len() == BINS,
        h2@.len() == BINS,
    ensures
        overlap == bins_overlap(h1@, h2@, BINS as int),
        overlap <= bins_total(h1@, BINS as int),
        overlap <= bins_total(h2@, BINS as int),
{
    let mut overlap: u64 = 0;
    let mut i: usize = 0;
    while i < BINS
        invariant
            i <= BINS,
            h1@.len() == BINS,
            h2@.len() == BINS,
            overlap == bins_overlap(h1@, h2@, i as int),
            overlap <= bins_total(h1@, i as int),
            overlap <= bins_total(h2@, i as int),
            overlap <= i * 0xFFFF_FFFF,
        decreases BINS - i,
    {
        let a: u32 = h1[i];
        let b: u32 = h2[i];
        overlap = overlap + (if a <= b {
            a
        } else {
            b
        }) as u64;
        i = i + 1;
    }
    overlap
}

impl FrameDiffFilter {
    /// The remembered histograms have `BINS` bins.
    pub closed spec fn wf(&self) -> bool {
        &&& self.last_hash.is_some() == self.last_histogram.is_some()
        &&& self.last_y_hash.is_some() == self.last_y_histogram.is_some()
        &&& self.last_histogram.is_some() ==> self.last_histogram.unwrap()@.len() == BINS
        &&& self.last_y_histogram.is_some() ==> self.last_y_histogram.unwrap()@.len() == BINS
    }

    pub closed spec fn view(&self) -> FilterState {
        FilterState {
            threshold_permille: self.threshold_permille,
            last: match (self.last_hash, self.last_histogram) {
                (Some(hash), Some(histogram)) => Some(Signature { hash, histogram: histogram@ }),
                _ => None,
            },
            last_y: match (self.last_y_hash, self.last_y_histogram) {
                (Some(hash), Some(histogram)) => Some(Signature { hash, histogram: histogram@ }),
                _ => None,
            },
        }
    }

    /// A filter with the threshold `DEFAULT_THRESHOLD_PERMILLE` that has seen nothing.
    pub fn new() -> (filter: Self)
        ensures
            filter.wf(),
            filter@ == (FilterState {
                threshold_permille: DEFAULT_THRESHOLD_PERMILLE,
                last: None,
                last_y: None,
            }),
    {
        Self::with_threshold(DEFAULT_THRESHOLD_PERMILLE)
    }

    /// A filter with the given threshold, in per-mille, that has seen nothing.
    pub fn with_threshold(threshold_permille: u32) -> (filter: Self)
        ensures
            filter.wf(),
            filter@ == (FilterState { threshold_permille, last: None, last_y: None }),
    {
        FrameDiffFilter {
            threshold_permille,
            last_hash: None,
            last_histogram: None,
            last_y_hash: None,
            last_y_histogram: None,
        }
    }

    /// Decides whether the signature `(hash, histogram)` differs enough from
    /// the one before it.
    fn decide(
        threshold_permille: u32,
        previous_hash: Option<u64>,
        previous_histogram: &Option<Vec<u32>>,
        hash: u64,
        histogram: &Vec<u32>,
    ) -> (pass: bool)
        requires
            histogram@.len() == BINS,
            previous_hash.is_some() == previous_histogram.is_some(),
            previous_histogram.is_some() ==> previous_histogram.unwrap()@.len() == BINS,
        ensures
            pass == FilterState::passes(
                match (previous_hash, *previous_histogram) {
                    (Some(h), Some(hist)) => Some(Signature { hash: h, histogram: hist@ }),
                    _ => None,
                },
                Signature { hash, histogram: histogram@ },
                threshold_permille,
            ),
    {
        match (previous_hash, previous_histogram) {
            (Some(last_hash), Some(last_hist)) => {
                let distance: u128 = hamming_distance(hash, last_hash) as u128;
                let sum1: u64 = sum_bins(histogram);
                let sum2: u64 = sum_bins(last_hist);
                let threshold: u128 = threshold_permille as u128;
                if sum1 == 0 || sum2 == 0 {
                    1000 * (distance + 64) > 128 * threshold
                } else {
                    let overlap: u128 = overlap_of(histogram, last_hist) as u128;
                    let total: u128 = if sum1 >= sum2 {
                        sum1 as u128
                    } else {
                        sum2 as u128
                    };
                    proof {
                        lemma_mul_bound(distance as int, total as int, 64, 274877906880);
                        lemma_mul_bound(
                            128 * threshold as int,
                            total as int,
                            549755813760,
                            274877906880,
                        );
                        assert(128 * threshold * total == (128 * threshold) * total);
                    }
                    1000 * (distance * total + 64 * (total - overlap)) > 128 * threshold * total
                }
            },
            _ => true,
        }
    }

    /// Judges an RGBA frame against the RGBA frame before it and remembers
    /// it. The first frame always passes.
    pub fn should_process(&mut self, frame: &Frame) -> (pass: bool)
        requires
            old(self).wf(),
            frame.is_complete(),
            resize_fits(frame.width, frame.height, SAMPLE_SIZE, SAMPLE_SIZE),
        ensures
            final(self).wf(),
            pass == FilterState::passes(
                old(self)@.last,
                frame_signature(*frame),
                old(self)@.threshold_permille,
            ),
            final(self)@ == (FilterState { last: Some(frame_signature(*frame)), ..old(self)@ }),
    {
        let resized = frame.resize_to(SAMPLE_SIZE, SAMPLE_SIZE);
        let (gray, mean) = Self::to_grayscale(&resized);
        let current_hash: u64 = Self::phash(&gray, mean);
        let current_histogram = Self::y_histogram(&gray);
        let pass = Self::decide(
            self.threshold_permille,
            self.last_hash,
            &self.last_histogram,
            current_hash,
            &current_histogram,
        );
        self.last_hash = Some(current_hash);
        self.last_histogram = Some(current_histogram);
        pass
    }

    /// Judges a luma plane against the luma plane before it and remembers it.
    /// The first plane always passes.
    pub fn should_process_y(&mut self, y_plane: &[u8], width: u32, height: u32) -> (pass: bool)
        requires
            old(self).wf(),
        ensures
            final(self).wf(),
            pass == FilterState::passes(
                old(self)@.last_y,
                plane_signature(y_plane@, width, height),
                old(self)@.threshold_permille,
            ),
            final(self)@ == (FilterState {
                last_y: Some(plane_signature(y_plane@, width, height)),
                ..old(self)@
            }),
    {
        let (gray, mean) = Self::downsample_y_plane(y_plane, width, height);
        let current_hash: u64 = Self::phash(&gray, mean);
        let current_histogram = Self::y_histogram(&gray);
        let pass = Self::decide(
            self.threshold_permille,
            self.last_y_hash,
            &self.last_y_histogram,
            current_hash,
            &current_histogram,
        );
        self.last_y_hash = Some(current_hash);
        self.last_y_histogram = Some(current_histogram);
        pass
    }

    /// The luminance of every pixel of a frame, and its mean.
    pub fn to_grayscale(frame: &Frame) -> (gray: (Vec<u8>, u8))
        ensures
            gray.0@ == luma_plane(frame.data@),
            gray.1 == gray_mean(gray.0@),
    {
        let gray = to_luma_plane(&frame.data);
        let mean: u8 = Self::mean_of(&gray);
        (gray, mean)
    }

    fn mean_of(gray: &Vec<u8>) -> (mean: u8)
        ensures
            mean == gray_mean(gray@),
    {
        let n: usize = gray.len();
        if n == 0 {
            return 0;
        }
        let mut sum: u128 = 0;
        let mut i: usize = 0;
        while i < n
            invariant
                i <= n,
                n == gray.len(),
                sum == gray_total(gray@, i as int),
                sum <= 255 * i,
            decreases n - i,
        {
            sum = sum + gray[i] as u128;
            i = i + 1;
        }
        let mean: u128 = sum / (n as u128);
        assert(mean <= 255) by (nonlinear_arith)
            requires
                mean == sum / (n as u128),
                0 <= sum <= 255 * n,
                n > 0,
        ;
        mean as u8
    }

    /// Reduces a luma plane to its 8x8 block means, and their mean.
    pub fn downsample_y_plane(y_plane: &[u8], width: u32, height: u32) -> (reduced: (Vec<u8>, u8))
        ensures
            reduced.0@ == reduced_plane(y_plane@, width, height),
            reduced.1 == samples_mean(
                block_means(y_plane@, PixelFormat::Luma, HashArea::whole(width, height)),
            ),
    {
        let area = HashArea {
            img_w: width,
            x_limit: width,
            y_limit: height,
            x: 0,
            y: 0,
            w: width,
            h: height,
        };
        let samples = compute_block_means(y_plane, PixelFormat::Luma, &area);
        let mean: u32 = mean_of_samples(&samples);
        let mut gray: Vec<u8> = Vec::new();
        let mut i: usize = 0;
        while i < 64
            invariant
                i <= 64,
                samples@.len() == 64,
                forall|k: int| 0 <= k < 64 ==> samples@[k] <= 255,
                gray@.len() == i,
                forall|k: int| 0 <= k < i ==> gray@[k] == samples@[k],
            decreases 64 - i,
        {
            gray.push(samples[i] as u8);
            i = i + 1;
        }
        proof {
            assert(forall|k: int| 0 <= k < 64 ==> as_ints(samples@)[k] == samples@[k]);
            assert(gray@ =~= reduced_plane(y_plane@, width, height));
        }
        (gray, mean as u8)
    }

    /// The hash of a reduced image.
    pub fn phash(gray: &Vec<u8>, mean: u8) -> (hash: u64)
        ensures
            hash == diff_hash(gray@, mean as int),
    {
        let bits: usize = if gray.len() < 56 {
            gray.len()
        } else {
            56
        };
        let mut flags: Vec<bool> = Vec::new();
        let mut i: usize = 0;
        while i < bits
            invariant
                i <= bits <= gray.len(),
                bits <= 56,
                flags@.len() == i,
                forall|k: int| 0 <= k < i ==> flags@[k] == (gray@[k] > mean),
            decreases bits - i,
        {
            flags.push(gray[i] > mean);
            i = i + 1;
        }
        let low: u64 = pack_flags(&flags);
        proof {
            assert(flags@ =~= Seq::new(bits as nat, |i: int| gray@[i] > mean as int));
            vstd::arithmetic::power2::lemma2_to64_rest();
            vstd::arithmetic::power2::lemma_pow2_strictly_increases(bits as nat, 57);
            if bits < 56 {
                vstd::arithmetic::power2::lemma_pow2_strictly_increases(bits as nat, 56);
            }
        }
        low + (mean as u64) * 0x100_0000_0000_0000
    }

    /// The luminance histogram of the samples.
    pub fn y_histogram(gray: &Vec<u8>) -> (hist: Vec<u32>)
        requires
            gray@.len() <= u32::MAX,
        ensures
            hist@ == histogram_of(gray@),
            hist@.len() == BINS,
    {
        let mut hist: Vec<u32> = Vec::new();
        let mut b: usize = 0;
        while b < BINS
            invariant
                b <= BINS,
                hist@.len() == b,
                forall|k: int| 0 <= k < b ==> hist@[k] == 0,
            decreases BINS - b,
        {
            hist.push(0);
            b = b + 1;
        }
        let mut i: usize = 0;
        while i < gray.len()
            invariant
                i <= gray.len() <= u32::MAX,
                hist@.len() == BINS,
                forall|k: int| 0 <= k < BINS ==> hist@[k] == bin_count(gray@, k, i as int),
                forall|k: int| 0 <= k < BINS ==> hist@[k] <= i,
            decreases gray.len() - i,
        {
            let bin: usize = (gray[i] / 4) as usize;
            let count: u32 = hist[bin];
            hist.set(bin, count + 1);
            i = i + 1;
        }
        proof {
            assert(hist@ =~= histogram_of(gray@));
        }
        hist
    }

    /// Histogram intersection in per-mille.
    pub fn histogram_similarity(h1: &Vec<u32>, h2: &Vec<u32>) -> (similarity: u32)
        requires
            h1@.len() == BINS,
            h2@.len() == BINS,
        ensures
            similarity == similarity_permille(h1@, h2@),
            similarity <= 1000,
    {
        let sum1: u64 = sum_bins(h1);
        let sum2: u64 = sum_bins(h2);
        if sum1 == 0 || sum2 == 0 {
            return 0;
        }
        let overlap: u64 = overlap_of(h1, h2);
        let total: u64 = if sum1 >= sum2 {
            sum1
        } else {
            sum2
        };
        let similarity: u64 = overlap * 1000 / total;
        assert(similarity <= 1000) by (nonlinear_arith)
            requires
                similarity == overlap * 1000 / (total as int),
                0 <= overlap <= total,
                total > 0,
        ;
        similarity as u32
    }

    pub fn hamming_distance(a: u64, b: u64) -> (d: u32)
        ensures
            d == hamming(a, b),
    {
        hamming_distance(a, b)
    }

    /// Forgets the frames seen; the threshold stays.
    pub fn reset(&mut self)
        ensures
            final(self).wf(),
            final(self)@ == (FilterState { last: None, last_y: None, ..old(self)@ }),
    {
        self.last_hash = None;
        self.last_histogram = None;
        self.last_y_hash = None;
        self.last_y_histogram = None;
    }
}

impl Default for FrameDiffFilter {
    fn default() -> (filter: Self)
        ensures
            filter.wf(),
    {
        FrameDiffFilter::new()
    }
}

} // verus!
