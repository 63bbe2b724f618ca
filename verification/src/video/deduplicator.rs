//! Region-aware deduplication for the single-frame pipeline.
//!
//! A frame is hashed in three horizontal thirds and over its subtitle band.
//! The decision to keep a frame compares its subtitle band with that of the
//! last kept frame; the last three kept frames are remembered.

use std::collections::VecDeque;
use vstd::prelude::*;
use crate::arith::elapsed;
use crate::bits::{hamming, hamming_distance};
use crate::video::frame::Frame;
use crate::video::phash::{
    band_hash_of,
    block_means,
    phash_area,
    phash_of,
    HashArea,
    PixelFormat,
};
use crate::video::text_detector::{
    band_area,
    luma_plane,
    subtitle_band,
    to_luma_plane,
    CookingTextDetector,
};

verus! {

/// Number of kept frames that are remembered.
pub const HISTORY_LEN: usize = 3;

/// Rows added above and below a locked subtitle band before hashing.
pub const REGION_FLEX: u32 = 10;

/// Distance reported where no comparison took place.
pub const NO_DISTANCE: u32 = 64;

/// The hashes of one frame.
#[derive(Debug, Clone, Copy, PartialEq, Eq, Structural)]
pub struct RegionHashes {
    /// Top third: titles and ingredients.
    pub top: u64,
    /// Middle third: the action.
    pub mid: u64,
    /// Bottom third: subtitles.
    pub bot: u64,
    /// The subtitle band, or the bottom third where no band was found.
    pub subtitle_band: u64,
    pub has_subtitle: bool,
    pub timestamp_ms: u64,
    pub width: u32,
    pub height: u32,
}

#[derive(Debug, Clone, Copy, PartialEq, Eq, Structural)]
pub enum DedupReason {
    /// Kept: nothing alike was seen.
    NewScene,
    /// Kept: the subtitle changed.
    TextChanged,
    /// Kept: the ingredients changed.
    IngredientChanged,
    /// Dropped: too similar to the last kept frame.
    TooSimilar,
    /// Kept: the minimal interval since the last kept frame has passed.
    ForceInterval,
}

/// A decision on one frame. `similarity` is the share of equal bits of the
/// two subtitle hashes in per-mille, rounded down; `text_distance` is their
/// Hamming distance.
#[derive(Debug, Clone, Copy, PartialEq, Eq, Structural)]
pub struct DedupDecision {
    pub is_duplicate: bool,
    pub reason: DedupReason,
    pub similarity: u32,
    pub text_distance: u32,
}

/// The state of a deduplicator that the decisions depend on.
pub struct DedupState {
    pub history: Seq<RegionHashes>,
    /// Hamming distance above which subtitles count as changed.
    pub text_threshold: u32,
    /// The same for the top third; it is kept, the decisions do not read it.
    pub ingredient_threshold: u32,
    /// The same for the middle third; it is kept, the decisions do not read it.
    pub action_threshold: u32,
    pub min_interval_ms: u64,
    pub last_keyframe_time_ms: u64,
    pub locked_subtitle_region: Option<(u32, u32)>,
}

pub struct FrameDeduplicator {
    history: VecDeque<RegionHashes>,
    text_threshold: u32,
    ingredient_threshold: u32,
    action_threshold: u32,
    min_interval_ms: u64,
    last_keyframe_time_ms: u64,
    locked_subtitle_region: Option<(u32, u32)>,
}

// ---------------------------------------------------------------------------
// Hashes
// ---------------------------------------------------------------------------

/// The hash of a rectangle of a luma plane or RGBA image.
pub open spec fn area_hash(data: Seq<u8>, format: PixelFormat, area: HashArea) -> u64 {
    phash_of(block_means(data, format, area)) as u64
}

/// The top, middle and bottom third of an image: the first two thirds are
/// `height / 3` rows high, the last takes the rest.
pub open spec fn third(width: u32, height: u32, i: int) -> HashArea {
    let third_h = (height / 3) as u32;
    if i == 0 {
        HashArea::rows(width, height, 0, third_h)
    } else if i == 1 {
        HashArea::rows(width, height, third_h, third_h)
    } else {
        HashArea::rows(width, height, (2 * third_h) as u32, (height - 2 * third_h) as u32)
    }
}

/// The hash of the subtitle band of a luma plane, if it shows one.
pub open spec fn band_hash(gray: Seq<u8>, width: u32, height: u32) -> Option<u64> {
    let band = subtitle_band(gray, width, height);
    if band.found {
        Some(
            band_hash_of(
                block_means(
                    gray,
                    PixelFormat::Luma,
                    band_area(width, band.y as u32, band.height as u32),
                ),
            ) as u64,
        )
    } else {
        None
    }
}

/// The hashes of an image whose luminance is `gray`: the three thirds of
/// `data`, and the subtitle band of `gray` or else the bottom third.
pub open spec fn region_hashes(
    data: Seq<u8>,
    format: PixelFormat,
    gray: Seq<u8>,
    width: u32,
    height: u32,
    timestamp_ms: u64,
) -> RegionHashes {
    let bot = area_hash(data, format, third(width, height, 2));
    RegionHashes {
        top: area_hash(data, format, third(width, height, 0)),
        mid: area_hash(data, format, third(width, height, 1)),
        bot,
        subtitle_band: match band_hash(gray, width, height) {
            Some(hash) => hash,
            None => bot,
        },
        has_subtitle: band_hash(gray, width, height).is_some(),
        timestamp_ms,
        width,
        height,
    }
}

/// The hashes of a luma plane.
pub open spec fn plane_hashes(y_plane: Seq<u8>, width: u32, height: u32, timestamp_ms: u64) -> RegionHashes {
    region_hashes(y_plane, PixelFormat::Luma, y_plane, width, height, timestamp_ms)
}

/// The hashes of an RGBA frame; the timestamp is left at 0.
pub open spec fn frame_hashes(frame: Frame) -> RegionHashes {
    region_hashes(
        frame.data@,
        PixelFormat::Rgba,
        luma_plane(frame.data@),
        frame.width,
        frame.height,
        0,
    )
}

/// The rows hashed for a subtitle band that is locked at `lock`, or, without
/// a lock, for the bottom 30%: the band widened by `REGION_FLEX` rows on
/// both sides and cut off at the frame.
pub open spec fn locked_area(lock: Option<(u32, u32)>, width: u32, height: u32) -> HashArea {
    let (y, band_h) = match lock {
        Some(region) => (region.0 as int, region.1 as int),
        None => (height as int * 7 / 10, height as int * 3 / 10),
    };
    let y_start = if y >= REGION_FLEX {
        y - REGION_FLEX
    } else {
        0
    };
    let y_end = if y + band_h + REGION_FLEX <= height {
        y + band_h + REGION_FLEX
    } else {
        height as int
    };
    HashArea::rows(
        width,
        height,
        y_start as u32,
        (if y_end >= y_start {
            y_end - y_start
        } else {
            0
        }) as u32,
    )
}

/// The lock after a look at a plane: a lock that is set stays; otherwise the
/// subtitle band of the plane, if it shows one, is locked.
pub open spec fn lock_after(lock: Option<(u32, u32)>, y_plane: Seq<u8>, width: u32, height: u32) -> Option<
    (u32, u32),
> {
    if lock.is_some() {
        lock
    } else if subtitle_band(y_plane, width, height).found {
        Some(
            (
                subtitle_band(y_plane, width, height).y as u32,
                subtitle_band(y_plane, width, height).height as u32,
            ),
        )
    } else {
        None
    }
}

/// The hashes of a luma plane when the subtitle band is read at the locked rows.
pub open spec fn locked_hashes(
    lock: Option<(u32, u32)>,
    y_plane: Seq<u8>,
    width: u32,
    height: u32,
    timestamp_ms: u64,
) -> RegionHashes {
    RegionHashes {
        top: area_hash(y_plane, PixelFormat::Luma, third(width, height, 0)),
        mid: area_hash(y_plane, PixelFormat::Luma, third(width, height, 1)),
        bot: area_hash(y_plane, PixelFormat::Luma, third(width, height, 2)),
        subtitle_band: area_hash(y_plane, PixelFormat::Luma, locked_area(lock, width, height)),
        has_subtitle: lock.is_some(),
        timestamp_ms,
        width,
        height,
    }
}

// ---------------------------------------------------------------------------
// Decisions
// ---------------------------------------------------------------------------

/// Share of equal bits at Hamming distance `distance`, in per-mille.
pub open spec fn similarity_permille(distance: int) -> int {
    (64 - distance) * 1000 / 64
}

/// The history after `regions` is kept: the oldest of three makes room.
pub open spec fn history_with(history: Seq<RegionHashes>, regions: RegionHashes) -> Seq<RegionHashes> {
    if history.len() >= HISTORY_LEN {
        history.drop_first().push(regions)
    } else {
        history.push(regions)
    }
}

impl DedupState {
    /// The state of a deduplicator that remembers nothing: the thresholds
    /// for the top and the middle third lie 4 and 10 above that for text.
    pub open spec fn empty(text_threshold: u32, min_interval_ms: u64) -> DedupState {
        DedupState {
            history: Seq::empty(),
            text_threshold,
            ingredient_threshold: (text_threshold + 4) as u32,
            action_threshold: (text_threshold + 10) as u32,
            min_interval_ms,
            last_keyframe_time_ms: 0,
            locked_subtitle_region: None,
        }
    }

    /// The decision on a frame with the hashes `regions`.
    ///
    /// The frame is kept when the minimal interval since the last kept frame
    /// has passed; else when its subtitle band differs from that of the last
    /// kept frame in more than `text_threshold` bits; else it is a duplicate
    /// when more than three quarters of the bits agree; else, and where no
    /// frame was kept yet, it is kept as a new scene.
    pub open spec fn decide(self, regions: RegionHashes) -> DedupDecision {
        let fresh = DedupDecision {
            is_duplicate: false,
            reason: DedupReason::NewScene,
            similarity: 0,
            text_distance: NO_DISTANCE,
        };
        if elapsed(regions.timestamp_ms, self.last_keyframe_time_ms) >= self.min_interval_ms {
            DedupDecision { reason: DedupReason::ForceInterval, ..fresh }
        } else if self.history.len() > 0 {
            let distance = hamming(regions.subtitle_band, self.history.last().subtitle_band);
            let compared = DedupDecision {
                is_duplicate: false,
                reason: DedupReason::TextChanged,
                similarity: similarity_permille(distance as int) as u32,
                text_distance: distance as u32,
            };
            if distance > self.text_threshold {
                compared
            } else if distance < 16 {
                DedupDecision { is_duplicate: true, reason: DedupReason::TooSimilar, ..compared }
            } else {
                fresh
            }
        } else {
            fresh
        }
    }

    /// The state after `regions` is kept.
    pub open spec fn keep(self, regions: RegionHashes) -> DedupState {
        DedupState {
            history: history_with(self.history, regions),
            last_keyframe_time_ms: regions.timestamp_ms,
            ..self
        }
    }

    /// The state after the decision on `regions`: a frame that is no duplicate is kept.
    pub open spec fn after(self, regions: RegionHashes) -> DedupState {
        if self.decide(regions).is_duplicate {
            self
        } else {
            self.keep(regions)
        }
    }
}

impl FrameDeduplicator {
    /// No more than `HISTORY_LEN` kept frames are remembered.
    pub open spec fn wf(&self) -> bool {
        self@.history.len() <= HISTORY_LEN
    }

    pub closed spec fn view(&self) -> DedupState {
        DedupState {
            history: self.history@,
            text_threshold: self.text_threshold,
            ingredient_threshold: self.ingredient_threshold,
            action_threshold: self.action_threshold,
            min_interval_ms: self.min_interval_ms,
            last_keyframe_time_ms: self.last_keyframe_time_ms,
            locked_subtitle_region: self.locked_subtitle_region,
        }
    }

    /// An empty deduplicator with text threshold 10 and a minimal interval of 400 ms.
    pub fn new() -> (dedup: Self)
        ensures
            dedup.wf(),
            dedup@ == DedupState::empty(10, 400),
    {
        FrameDeduplicator {
            history: VecDeque::with_capacity(HISTORY_LEN),
            text_threshold: 10,
            ingredient_threshold: 14,
            action_threshold: 20,
            min_interval_ms: 400,
            last_keyframe_time_ms: 0,
            locked_subtitle_region: None,
        }
    }

    /// An empty deduplicator with the given text threshold and a minimal interval of 250 ms.
    pub fn with_threshold(text_thresh: u32) -> (dedup: Self)
        requires
            text_thresh + 10 <= u32::MAX,
        ensures
            dedup.wf(),
            dedup@ == DedupState::empty(text_thresh, 250),
    {
        FrameDeduplicator {
            history: VecDeque::with_capacity(HISTORY_LEN),
            text_threshold: text_thresh,
            ingredient_threshold: text_thresh + 4,
            action_threshold: text_thresh + 10,
            min_interval_ms: 250,
            last_keyframe_time_ms: 0,
            locked_subtitle_region: None,
        }
    }

    /// Decides on a frame by its hashes and keeps it unless it is a duplicate.
    pub fn check_duplicate(&mut self, regions: &RegionHashes) -> (decision: DedupDecision)
        requires
            old(self).wf(),
        ensures
            final(self).wf(),
            decision == old(self)@.decide(*regions),
            final(self)@ == old(self)@.after(*regions),
    {
        let time_since_last: u64 = regions.timestamp_ms.saturating_sub(self.last_keyframe_time_ms);
        if time_since_last >= self.min_interval_ms {
            self.add_keyframe(*regions);
            return DedupDecision {
                is_duplicate: false,
                reason: DedupReason::ForceInterval,
                similarity: 0,
                text_distance: NO_DISTANCE,
            };
        }
        let len: usize = self.history.len();
        if len > 0 {
            let last: RegionHashes = self.history[len - 1];
            let text_dist: u32 = hamming_distance(regions.subtitle_band, last.subtitle_band);
            let text_sim: u32 = (64 - text_dist) * 1000 / 64;
            if text_dist > self.text_threshold {
                self.add_keyframe(*regions);
                return DedupDecision {
                    is_duplicate: false,
                    reason: DedupReason::TextChanged,
                    similarity: text_sim,
                    text_distance: text_dist,
                };
            }
            if text_dist < 16 {
                return DedupDecision {
                    is_duplicate: true,
                    reason: DedupReason::TooSimilar,
                    similarity: text_sim,
                    text_distance: text_dist,
                };
            }
        }
        self.add_keyframe(*regions);
        DedupDecision {
            is_duplicate: false,
            reason: DedupReason::NewScene,
            similarity: 0,
            text_distance: NO_DISTANCE,
        }
    }

    /// Decides on a luma plane. The subtitle band is looked for until one is
    /// found; from then on the rows of that band are hashed in every frame.
    pub fn check_duplicate_with_y_plane(
        &mut self,
        y_plane: &[u8],
        width: u32,
        height: u32,
        timestamp_ms: u64,
    ) -> (decision: DedupDecision)
        requires
            old(self).wf(),
        ensures
            final(self).wf(),
            ({
                let lock = lock_after(old(self)@.locked_subtitle_region, y_plane@, width, height);
                let regions = locked_hashes(lock, y_plane@, width, height, timestamp_ms);
                let locked = DedupState { locked_subtitle_region: lock, ..old(self)@ };
                &&& decision == locked.decide(regions)
                &&& final(self)@ == locked.after(regions)
            }),
    {
        let regions = self.compute_locked_region_hash(y_plane, width, height, timestamp_ms);
        self.check_duplicate(&regions)
    }

    /// Hashes a luma plane at the locked subtitle rows, locking them first
    /// where the plane is the first to show a band.
    fn compute_locked_region_hash(
        &mut self,
        y_plane: &[u8],
        width: u32,
        height: u32,
        timestamp_ms: u64,
    ) -> (regions: RegionHashes)
        requires
            old(self).wf(),
        ensures
            final(self).wf(),
            final(self)@ == (DedupState {
                locked_subtitle_region: lock_after(
                    old(self)@.locked_subtitle_region,
                    y_plane@,
                    width,
                    height,
                ),
                ..old(self)@
            }),
            regions == locked_hashes(
                final(self)@.locked_subtitle_region,
                y_plane@,
                width,
                height,
                timestamp_ms,
            ),
    {
        if self.locked_subtitle_region.is_none() {
            let detector = CookingTextDetector::new();
            let band = detector.detect_subtitle_bands(y_plane, width, height);
            if band.found {
                self.locked_subtitle_region = Some((band.y as u32, band.height as u32));
            }
        }
        let (y, band_h): (u64, u64) = match self.locked_subtitle_region {
            Some(region) => (region.0 as u64, region.1 as u64),
            None => (height as u64 * 7 / 10, height as u64 * 3 / 10),
        };
        let flex: u64 = REGION_FLEX as u64;
        let y_start: u64 = y.saturating_sub(flex);
        let y_end: u64 = if y + band_h + flex <= height as u64 {
            y + band_h + flex
        } else {
            height as u64
        };
        let actual_height: u64 = y_end.saturating_sub(y_start);
        let subtitle_area = HashArea {
            img_w: width,
            x_limit: width,
            y_limit: height,
            x: 0,
            y: y_start as u32,
            w: width,
            h: actual_height as u32,
        };
        let subtitle_hash: u64 = phash_area(y_plane, PixelFormat::Luma, &subtitle_area);
        let (top, mid, bot) = Self::third_hashes(y_plane, PixelFormat::Luma, width, height);
        RegionHashes {
            top,
            mid,
            bot,
            subtitle_band: subtitle_hash,
            has_subtitle: self.locked_subtitle_region.is_some(),
            timestamp_ms,
            width,
            height,
        }
    }

    /// Hashes the three thirds of an image.
    fn third_hashes(data: &[u8], format: PixelFormat, width: u32, height: u32) -> (hashes: (
        u64,
        u64,
        u64,
    ))
        ensures
            hashes.0 == area_hash(data@, format, third(width, height, 0)),
            hashes.1 == area_hash(data@, format, third(width, height, 1)),
            hashes.2 == area_hash(data@, format, third(width, height, 2)),
    {
        let third_h: u32 = height / 3;
        let top_area = HashArea {
            img_w: width,
            x_limit: width,
            y_limit: height,
            x: 0,
            y: 0,
            w: width,
            h: third_h,
        };
        let mid_area = HashArea { y: third_h, ..top_area };
        let bot_area = HashArea { y: 2 * third_h, h: height - 2 * third_h, ..top_area };
        (
            phash_area(data, format, &top_area),
            phash_area(data, format, &mid_area),
            phash_area(data, format, &bot_area),
        )
    }

    /// A hash is a duplicate when it is closer than the text threshold to
    /// the bottom third of a remembered frame.
    pub fn is_hash_duplicate(&self, hash: u64) -> (duplicate: bool)
        ensures
            duplicate == (exists|i: int|
                0 <= i < self@.history.len() && hamming(hash, #[trigger] self@.history[i].bot)
                    < self@.text_threshold),
    {
        let n: usize = self.history.len();
        let mut i: usize = 0;
        while i < n
            invariant
                i <= n,
                n == self.history@.len(),
                forall|k: int|
                    0 <= k < i ==> hamming(hash, #[trigger] self.history@[k].bot)
                        >= self.text_threshold,
            decreases n - i,
        {
            let prev: RegionHashes = self.history[i];
            if hamming_distance(hash, prev.bot) < self.text_threshold {
                assert(hamming(hash, self@.history[i as int].bot) < self@.text_threshold);
                return true;
            }
            i = i + 1;
        }
        false
    }

    /// Decides on an RGBA frame, hashed with timestamp 0, and keeps it unless it is a duplicate.
    pub fn is_duplicate(&mut self, frame: &Frame) -> (duplicate: bool)
        requires
            old(self).wf(),
        ensures
            final(self).wf(),
            duplicate == old(self)@.decide(frame_hashes(*frame)).is_duplicate,
            final(self)@ == old(self)@.after(frame_hashes(*frame)),
    {
        let regions = Self::compute_region_hashes(frame);
        let decision = self.check_duplicate(&regions);
        decision.is_duplicate
    }

    /// Remembers an RGBA frame as kept.
    pub fn add(&mut self, frame: &Frame)
        requires
            old(self).wf(),
        ensures
            final(self).wf(),
            final(self)@ == old(self)@.keep(frame_hashes(*frame)),
    {
        let regions = Self::compute_region_hashes(frame);
        self.add_keyframe(regions);
    }

    /// Remembers a frame of which only one hash is known.
    pub fn add_hash(&mut self, hash: u64)
        requires
            old(self).wf(),
        ensures
            final(self).wf(),
            final(self)@ == old(self)@.keep(
                RegionHashes {
                    top: hash,
                    mid: hash,
                    bot: hash,
                    subtitle_band: hash,
                    has_subtitle: false,
                    timestamp_ms: old(self)@.last_keyframe_time_ms,
                    width: 0,
                    height: 0,
                },
            ),
    {
        let regions = RegionHashes {
            top: hash,
            mid: hash,
            bot: hash,
            subtitle_band: hash,
            has_subtitle: false,
            timestamp_ms: self.last_keyframe_time_ms,
            width: 0,
            height: 0,
        };
        self.add_keyframe(regions);
    }

    /// Remembers `regions` as the last kept frame.
    pub fn add_keyframe(&mut self, regions: RegionHashes)
        requires
            old(self).wf(),
        ensures
            final(self).wf(),
            final(self)@ == old(self)@.keep(regions),
            final(self)@.history.len() > 0,
    {
        if self.history.len() >= HISTORY_LEN {
            let _ = self.history.pop_front();
        }
        self.history.push_back(regions);
        self.last_keyframe_time_ms = regions.timestamp_ms;
    }

    /// Forgets the kept frames and the locked subtitle band; the thresholds stay.
    pub fn clear(&mut self)
        ensures
            final(self).wf(),
            final(self)@ == (DedupState {
                history: Seq::empty(),
                last_keyframe_time_ms: 0,
                locked_subtitle_region: None,
                ..old(self)@
            }),
    {
        self.history.clear();
        self.last_keyframe_time_ms = 0;
        self.locked_subtitle_region = None;
    }

    pub fn len(&self) -> (n: usize)
        requires
            self.wf(),
        ensures
            n == self@.history.len(),
            n <= HISTORY_LEN,
    {
        self.history.len()
    }

    pub fn is_empty(&self) -> (empty: bool)
        ensures
            empty == (self@.history.len() == 0),
    {
        self.history.len() == 0
    }

    /// Hashes an RGBA frame. The subtitle band is looked for in the frame's luminance.
    pub fn compute_region_hashes(frame: &Frame) -> (regions: RegionHashes)
        ensures
            regions == frame_hashes(*frame),
    {
        let (top, mid, bot) = Self::third_hashes(
            frame.data.as_slice(),
            PixelFormat::Rgba,
            frame.width,
            frame.height,
        );
        let gray = to_luma_plane(&frame.data);
        let detector = CookingTextDetector::new();
        let (subtitle_band, has_subtitle) = match detector.subtitle_band_hash(
            gray.as_slice(),
            frame.width,
            frame.height,
        ) {
            Some(found) => (found.0, true),
            None => (bot, false),
        };
        RegionHashes {
            top,
            mid,
            bot,
            subtitle_band,
            has_subtitle,
            timestamp_ms: 0,
            width: frame.width,
            height: frame.height,
        }
    }

    /// Hashes a luma plane.
    pub fn region_hashes_from_y_plane(y_plane: &[u8], width: u32, height: u32, timestamp_ms: u64) -> (regions:
        RegionHashes)
        ensures
            regions == plane_hashes(y_plane@, width, height, timestamp_ms),
    {
        let (top, mid, bot) = Self::third_hashes(y_plane, PixelFormat::Luma, width, height);
        let detector = CookingTextDetector::new();
        let (subtitle_band, has_subtitle) = match detector.subtitle_band_hash(y_plane, width, height) {
            Some(found) => (found.0, true),
            None => (bot, false),
        };
        RegionHashes {
            top,
            mid,
            bot,
            subtitle_band,
            has_subtitle,
            timestamp_ms,
            width,
            height,
        }
    }

    pub fn hamming_distance(a: u64, b: u64) -> (d: u32)
        ensures
            d == hamming(a, b),
            d <= 64,
    {
        hamming_distance(a, b)
    }

    /// The hash of the bottom third of an RGBA frame.
    pub fn phash(frame: &Frame) -> (hash: u64)
        ensures
            hash == frame_hashes(*frame).bot,
    {
        Self::compute_region_hashes(frame).bot
    }

    /// The hash of the bottom third of a luma plane.
    pub fn phash_from_y_plane(y_plane: &[u8], width: u32, height: u32) -> (hash: u64)
        ensures
            hash == plane_hashes(y_plane@, width, height, 0).bot,
    {
        Self::region_hashes_from_y_plane(y_plane, width, height, 0).bot
    }
}

impl Default for FrameDeduplicator {
    fn default() -> (dedup: Self)
        ensures
            dedup.wf(),
            dedup@.history.len() == 0,
            dedup@.text_threshold == 10,
            dedup@.min_interval_ms == 400,
    {
        FrameDeduplicator::new()
    }
}

} // verus!
