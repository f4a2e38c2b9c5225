//! Sources of sound while they are heard: skipped silence, fades, and what is shown of a radio
//! stream.

use crate::grouping;
use crate::sorting;
use crate::sorting::SortKey;
use vstd::prelude::*;

verus! {

// ---------------------------------------------------------------------------
// Skipped silence
// ---------------------------------------------------------------------------

/// A range of frames: from its start up to its end.
pub type FrameRange = (u64, u64);

/// The range holds a frame.
pub open spec fn holds_frame(range: FrameRange, frame: u64) -> bool {
    range.0 <= frame < range.1
}

/// Some range holds a frame.
pub open spec fn is_silent(ranges: Seq<FrameRange>, frame: u64) -> bool {
    exists|i: int| 0 <= i < ranges.len() && holds_frame(#[trigger] ranges[i], frame)
}

/// The frame is the first one from another on that no range holds.
pub open spec fn is_first_heard(ranges: Seq<FrameRange>, from: u64, frame: u64) -> bool {
    &&& from <= frame
    &&& !is_silent(ranges, frame)
    &&& forall|before: u64| from <= before < frame ==> #[trigger] is_silent(ranges, before)
}

/// Ranges that hold some frame.
pub open spec fn is_filled() -> spec_fn(FrameRange) -> bool {
    |range: FrameRange| range.0 < range.1
}

/// Ranges are ordered by where they start.
pub open spec fn by_start() -> spec_fn(FrameRange, FrameRange) -> bool {
    |left: FrameRange, right: FrameRange| left.0 <= right.0
}

/// The ranges of a source: those that hold some frame, ordered by where they start.
pub open spec fn skipped_ranges(ranges: Seq<FrameRange>) -> Seq<FrameRange> {
    sorting::sorted(ranges.filter(is_filled()), by_start())
}

/// Where a range starts.
pub struct StartKey {
    pub start: u64,
}

impl SortKey for StartKey {
    open spec fn at_most(self, other: Self) -> bool {
        self.start <= other.start
    }

    proof fn at_most_total(left: Self, right: Self) {
    }

    proof fn at_most_transitive(first: Self, second: Self, third: Self) {
    }

    fn is_at_most(&self, other: &Self) -> (result: bool) {
        self.start <= other.start
    }
}

/// Keeps the ranges that hold some frame.
fn keep_filled(ranges: Vec<FrameRange>) -> (kept: Vec<FrameRange>)
    ensures
        kept@ == ranges@.filter(is_filled()),
{
    let ghost all = ranges@;
    let ghost keep = is_filled();
    let mut kept: Vec<FrameRange> = Vec::new();
    proof {
        grouping::filter_all_or_none(all.take(0), keep);
        assert(all.take(0).filter(keep) =~= Seq::empty());
    }
    for range in iter: ranges
        invariant
            all == iter.seq(),
            keep == is_filled(),
            kept@ == all.take(iter.index()).filter(keep),
    {
        proof {
            grouping::filter_next(all, keep, iter.index());
        }
        if range.0 < range.1 {
            kept.push(range);
        }
    }
    assert(all.take(all.len() as int) =~= all);
    kept
}

/// Puts the silent ranges of a source in order.
pub fn silence_frame_ranges(ranges: Vec<FrameRange>) -> (result: Vec<FrameRange>)
    ensures
        result@ == skipped_ranges(ranges@),
        forall|i: int| 0 <= i < result@.len() ==> (#[trigger] result@[i]).0 < result@[i].1,
        forall|i: int, j: int|
            0 <= i < j < result@.len() ==> (#[trigger] result@[i]).0 <= (#[trigger] result@[j]).0,
{
    let ghost given = ranges@;
    let kept = keep_filled(ranges);
    let ghost all = kept@;
    let mut keys: Vec<StartKey> = Vec::new();
    let mut index: usize = 0;
    while index < kept.len()
        invariant
            index <= kept@.len(),
            keys@.len() == index,
            forall|i: int| 0 <= i < index ==> (#[trigger] keys@[i]).start == kept@[i].0,
        decreases kept@.len() - index,
    {
        keys.push(StartKey { start: kept[index].0 });
        index += 1;
    }
    let (result, Ghost(order)) = sorting::sort_by_keys(kept, &keys);
    proof {
        grouping::filter_entries(given, is_filled());
        sorting::stable_order_by_keys(order, keys@, all, by_start());
        assert(sorting::is_stable_sort(result@, all, by_start()));
        sorting::sorted_unique(result@, all, by_start());
        assert forall|i: int| 0 <= i < result@.len() implies (#[trigger] result@[i]).0
            < result@[i].1 by {
            assert(result@[i] == all[order[i] as int]);
            assert(is_filled()(all[order[i] as int]));
        }
        assert forall|i: int, j: int| 0 <= i < j < result@.len() implies (#[trigger] result@[i]).0
            <= (#[trigger] result@[j]).0 by {
            assert(sorting::sorts_before(all, by_start(), order[i] as int, order[j] as int));
        }
    }
    result
}

/// Where a source stands among its silent ranges.
#[derive(Debug)]
pub struct SkipState {
    pub ranges: Vec<FrameRange>,
    /// The ranges before this one are behind the source.
    pub next: usize,
    pub frame: u64,
}

impl SkipState {
    /// The ranges are in order, and those that count as passed end before the frame.
    pub open spec fn well_formed(self) -> bool {
        &&& self.next <= self.ranges@.len()
        &&& forall|i: int|
            0 <= i < self.ranges@.len() ==> (#[trigger] self.ranges@[i]).0 < self.ranges@[i].1
        &&& forall|i: int, j: int|
            0 <= i < j < self.ranges@.len() ==> (#[trigger] self.ranges@[i]).0 <= (
            #[trigger] self.ranges@[j]).0
        &&& forall|i: int| 0 <= i < self.next ==> (#[trigger] self.ranges@[i]).1 <= self.frame
    }

    /// A source that begins at a frame.
    pub fn new(ranges: Vec<FrameRange>, frame: u64) -> (state: SkipState)
        ensures
            state.well_formed(),
            state.ranges@ == skipped_ranges(ranges@),
            state.frame == frame,
            state.next < state.ranges@.len() ==> state.ranges@[state.next as int].1 > frame,
    {
        let ordered = silence_frame_ranges(ranges);
        let mut next: usize = 0;
        while next < ordered.len() && ordered[next].1 <= frame
            invariant
                next <= ordered@.len(),
                forall|i: int| 0 <= i < next ==> (#[trigger] ordered@[i]).1 <= frame,
            decreases ordered@.len() - next,
        {
            next += 1;
        }
        SkipState { ranges: ordered, next, frame }
    }

    /// Passes over silence. Returns how many frames of the source are dropped before the next
    /// one is heard.
    pub fn skip_silent_frames(&mut self) -> (dropped: u64)
        requires
            old(self).well_formed(),
        ensures
            final(self).well_formed(),
            final(self).ranges@ == old(self).ranges@,
            is_first_heard(old(self).ranges@, old(self).frame, final(self).frame),
            dropped == final(self).frame - old(self).frame,
    {
        let start: u64 = self.frame;
        let ghost all = self.ranges@;
        let mut frame: u64 = self.frame;
        let mut next: usize = self.next;
        let mut ahead = true;
        while ahead && next < self.ranges.len()
            invariant
                self.ranges@ == all,
                start == old(self).frame,
                start <= frame,
                next <= all.len(),
                forall|i: int| 0 <= i < all.len() ==> (#[trigger] all[i]).0 < all[i].1,
                forall|i: int, j: int|
                    0 <= i < j < all.len() ==> (#[trigger] all[i]).0 <= (#[trigger] all[j]).0,
                forall|i: int| 0 <= i < next ==> (#[trigger] all[i]).1 <= frame,
                forall|before: u64| start <= before < frame ==> #[trigger] is_silent(all, before),
                !ahead ==> next < all.len() && frame < all[next as int].0,
            decreases
                all.len() - next,
                if ahead {
                    1int
                } else {
                    0int
                },
        {
            let (first, end) = self.ranges[next];
            if frame >= end {
                next += 1;
            } else if frame < first {
                ahead = false;
            } else {
                assert forall|before: u64| start <= before < end implies #[trigger] is_silent(
                    all,
                    before,
                ) by {
                    if before >= frame {
                        assert(holds_frame(all[next as int], before));
                    }
                }
                frame = end;
                next += 1;
            }
        }
        assert(!is_silent(all, frame)) by {
            if is_silent(all, frame) {
                let i = choose|i: int| 0 <= i < all.len() && holds_frame(#[trigger] all[i], frame);
                assert(i >= next);
                if i > next {
                    assert(all[next as int].0 <= all[i].0);
                }
            }
        }
        self.frame = frame;
        self.next = next;
        frame - start
    }

    /// Notes that a frame is heard.
    pub fn frame_heard(&mut self)
        requires
            old(self).well_formed(),
        ensures
            final(self).well_formed(),
            final(self).ranges@ == old(self).ranges@,
            final(self).next == old(self).next,
            final(self).frame == (if old(self).frame == u64::MAX {
                u64::MAX
            } else {
                (old(self).frame + 1) as u64
            }),
    {
        self.frame = self.frame.saturating_add(1);
    }
}

/// From a frame on there is one first frame that is heard.
pub proof fn first_heard_frame_is_unique(
    ranges: Seq<FrameRange>,
    from: u64,
    first: u64,
    second: u64,
)
    requires
        is_first_heard(ranges, from, first),
        is_first_heard(ranges, from, second),
    ensures
        first == second,
{
    if first < second {
        assert(is_silent(ranges, first));
    }
    if second < first {
        assert(is_silent(ranges, second));
    }
}

// ---------------------------------------------------------------------------
// Frames, fades and gains
// ---------------------------------------------------------------------------

/// After how many frames the gains of a source are computed anew.
pub const GAIN_UPDATE_FRAMES: u64 = 128;

/// Until which frame gains hold that were computed at a frame.
pub fn gains_hold_until(frame: u64) -> (until: u64)
    ensures
        until == (if frame + GAIN_UPDATE_FRAMES <= u64::MAX {
            (frame + GAIN_UPDATE_FRAMES) as u64
        } else {
            u64::MAX
        }),
{
    frame.saturating_add(GAIN_UPDATE_FRAMES)
}

/// The left and the right side of a frame, by the samples that were read for it: a single
/// sample is heard on both sides.
pub fn frame_sides(samples: &Vec<u32>) -> (sides: Option<(u32, u32)>)
    ensures
        sides == (if samples@.len() == 0 {
            None
        } else if samples@.len() == 1 {
            Some((samples@[0], samples@[0]))
        } else {
            Some((samples@[0], samples@[1]))
        }),
{
    if samples.len() == 0 {
        None
    } else if samples.len() == 1 {
        Some((samples[0], samples[0]))
    } else {
        Some((samples[0], samples[1]))
    }
}

/// How many samples are dropped from the front of a prepared track, two for each frame: none
/// where nothing would be left.
pub open spec fn trimmed_samples(frames: usize, count: nat) -> nat {
    let wanted = frames * 2;
    if wanted < count {
        wanted as nat
    } else {
        0
    }
}

/// How many samples are dropped from the front of a prepared track.
pub fn samples_to_trim(frames: usize, count: usize) -> (dropped: usize)
    ensures
        dropped == trimmed_samples(frames, count as nat),
{
    match frames.checked_mul(2) {
        Some(wanted) => if wanted < count {
            wanted
        } else {
            0
        },
        None => 0,
    }
}

/// How far a fade has come.
#[derive(Clone, Copy, Debug, PartialEq, Eq, Structural)]
pub struct FadeIn {
    pub total_samples: u64,
    pub emitted_samples: u64,
}

impl FadeIn {
    /// A fade over a number of samples.
    pub fn new(total_samples: u64) -> (fade: FadeIn)
        ensures
            fade == (FadeIn { total_samples, emitted_samples: 0 }),
    {
        FadeIn { total_samples, emitted_samples: 0 }
    }

    /// Goes on by a sample. Returns the share at which it is heard, as a fraction below one,
    /// while the fade lasts.
    pub fn next_share(&mut self) -> (share: Option<(u64, u64)>)
        ensures
            share == (if old(self).emitted_samples < old(self).total_samples {
                Some((old(self).emitted_samples, old(self).total_samples))
            } else {
                None
            }),
            final(self).total_samples == old(self).total_samples,
            final(self).emitted_samples == (if old(self).emitted_samples == u64::MAX {
                u64::MAX
            } else {
                (old(self).emitted_samples + 1) as u64
            }),
    {
        let emitted: u64 = self.emitted_samples;
        self.emitted_samples = emitted.saturating_add(1);
        if emitted < self.total_samples {
            Some((emitted, self.total_samples))
        } else {
            None
        }
    }
}

// ---------------------------------------------------------------------------
// Streams
// ---------------------------------------------------------------------------

/// Where a reader of a stream wants to go.
#[derive(Clone, Copy, Debug, PartialEq, Eq, Structural)]
pub enum StreamTarget {
    FromStart { position: u64 },
    FromCurrent { offset: i64 },
    FromEnd { offset: i64 },
}

/// How far a stream was read.
#[derive(Clone, Copy, Debug, PartialEq, Eq, Structural)]
pub struct StreamPosition {
    pub position: u64,
}

impl StreamPosition {
    /// A stream that was not read yet.
    pub fn new() -> (stream: StreamPosition)
        ensures
            stream.position == 0,
    {
        StreamPosition { position: 0 }
    }

    /// Notes that bytes were read.
    pub fn bytes_read(&mut self, count: u64)
        requires
            old(self).position + count <= u64::MAX,
        ensures
            final(self).position == old(self).position + count,
    {
        self.position = self.position + count;
    }

    /// Answers a wish to go elsewhere: a stream only stays where it is.
    pub fn seek(&self, target: StreamTarget) -> (position: Option<u64>)
        ensures
            position == (if target == (StreamTarget::FromCurrent { offset: 0 }) || target == (
            StreamTarget::FromStart { position: self.position }) {
                Some(self.position)
            } else {
                None
            }),
    {
        match target {
            StreamTarget::FromCurrent { offset } => if offset == 0 {
                Some(self.position)
            } else {
                None
            },
            StreamTarget::FromStart { position } => if position == self.position {
                Some(position)
            } else {
                None
            },
            StreamTarget::FromEnd { .. } => None,
        }
    }
}

// ---------------------------------------------------------------------------
// What is shown of a stream
// ---------------------------------------------------------------------------

/// How long what was heard is kept, in nanoseconds.
pub const HISTORY_NANOS: u64 = 180_000_000_000;

/// How many levels are taken in a second.
pub const BUCKETS_PER_SECOND: usize = 64;

/// How many levels are kept at most.
pub const MOST_BUCKETS: usize = 11_520;

/// Counts samples into buckets.
#[derive(Clone, Copy, Debug, PartialEq, Eq, Structural)]
pub struct BucketCounter {
    pub samples_per_bucket: usize,
    pub samples_in_bucket: usize,
}

impl BucketCounter {
    /// The bucket that is being filled is not full.
    pub open spec fn well_formed(self) -> bool {
        self.samples_in_bucket < self.samples_per_bucket
    }

    /// A counter for a sample rate: every bucket takes at least one sample.
    pub fn new(sample_rate: u32, buckets_per_second: usize) -> (counter: BucketCounter)
        ensures
            counter.well_formed(),
            counter.samples_in_bucket == 0,
            counter.samples_per_bucket == ({
                let rate = sample_rate as usize;
                let parts: usize = if buckets_per_second == 0 {
                    1
                } else {
                    buckets_per_second
                };
                if rate / parts == 0 {
                    1
                } else {
                    (rate / parts) as usize
                }
            }),
    {
        let rate: usize = sample_rate as usize;
        let parts: usize = if buckets_per_second == 0 {
            1
        } else {
            buckets_per_second
        };
        let share: usize = rate / parts;
        BucketCounter {
            samples_per_bucket: if share == 0 {
                1
            } else {
                share
            },
            samples_in_bucket: 0,
        }
    }

    /// Takes a sample. Returns whether it fills the bucket, and another one begins.
    pub fn push_sample(&mut self) -> (full: bool)
        requires
            old(self).well_formed(),
        ensures
            final(self).well_formed(),
            final(self).samples_per_bucket == old(self).samples_per_bucket,
            full == (old(self).samples_in_bucket + 1 == old(self).samples_per_bucket),
            final(self).samples_in_bucket == (if full {
                0
            } else {
                (old(self).samples_in_bucket + 1) as usize
            }),
    {
        self.samples_in_bucket = self.samples_in_bucket + 1;
        if self.samples_in_bucket < self.samples_per_bucket {
            false
        } else {
            self.samples_in_bucket = 0;
            true
        }
    }
}

/// A level that was heard at a time. The level is held as the bit pattern of a single precision
/// number.
#[derive(Clone, Copy, Debug, PartialEq, Eq, Structural)]
pub struct LevelBucket {
    pub at: u64,
    pub level_bits: u32,
}

/// The level is kept no longer.
pub open spec fn is_outdated(bucket: LevelBucket, now: u64, history: u64) -> bool {
    now >= bucket.at && now - bucket.at > history
}

/// How many levels are dropped from the front: as many as there are too many, and after them
/// those that are outdated, up to the first that is not.
pub open spec fn dropped_levels(levels: Seq<LevelBucket>, now: u64, history: u64, most: nat) -> nat
    decreases levels.len(),
{
    if levels.len() > most || (levels.len() > 0 && is_outdated(levels[0], now, history)) {
        1 + dropped_levels(levels.drop_first(), now, history, most)
    } else {
        0
    }
}

/// The levels that are kept.
pub open spec fn kept_levels(
    levels: Seq<LevelBucket>,
    now: u64,
    history: u64,
    most: nat,
) -> Seq<LevelBucket> {
    levels.skip(dropped_levels(levels, now, history, most) as int)
}

/// No more levels are dropped than there are.
proof fn dropped_at_most(levels: Seq<LevelBucket>, now: u64, history: u64, most: nat)
    ensures
        dropped_levels(levels, now, history, most) <= levels.len(),
    decreases levels.len(),
{
    if levels.len() > 0 {
        dropped_at_most(levels.drop_first(), now, history, most);
    }
}

/// Drops the levels that are too many or outdated.
pub fn trim_levels(levels: &mut Vec<LevelBucket>, now: u64, history: u64, most: usize)
    ensures
        final(levels)@ == kept_levels(old(levels)@, now, history, most as nat),
{
    let ghost all = levels@;
    let mut count: usize = 0;
    let total: usize = levels.len();
    assert(all.skip(0) =~= all);
    while total - count > most || (count < total && now >= levels[count].at && now
        - levels[count].at > history)
        invariant
            levels@ == all,
            count <= total,
            total == all.len(),
            dropped_levels(all, now, history, most as nat) == count + dropped_levels(
                all.skip(count as int),
                now,
                history,
                most as nat,
            ),
        decreases total - count,
    {
        assert(all.skip(count as int).drop_first() =~= all.skip(count + 1));
        count += 1;
    }
    proof {
        dropped_at_most(all, now, history, most as nat);
    }
    let kept = levels.split_off(count);
    assert(kept@ =~= kept_levels(all, now, history, most as nat));
    *levels = kept;
}

/// Takes over a level, and drops those that are too many or outdated.
pub fn record_level(levels: &mut Vec<LevelBucket>, level_bits: u32, now: u64)
    ensures
        final(levels)@ == kept_levels(
            old(levels)@.push(LevelBucket { at: now, level_bits }),
            now,
            HISTORY_NANOS,
            MOST_BUCKETS as nat,
        ),
{
    levels.push(LevelBucket { at: now, level_bits });
    trim_levels(levels, now, HISTORY_NANOS, MOST_BUCKETS);
}

/// No more levels are kept than there is room for, and the first of them is not outdated.
pub proof fn kept_levels_are_recent(levels: Seq<LevelBucket>, now: u64, history: u64, most: nat)
    ensures
        kept_levels(levels, now, history, most).len() <= most,
        kept_levels(levels, now, history, most).len() > 0 ==> !is_outdated(
            kept_levels(levels, now, history, most)[0],
            now,
            history,
        ),
    decreases levels.len(),
{
    if levels.len() > most || (levels.len() > 0 && is_outdated(levels[0], now, history)) {
        kept_levels_are_recent(levels.drop_first(), now, history, most);
        dropped_at_most(levels.drop_first(), now, history, most);
        assert(kept_levels(levels, now, history, most) =~= kept_levels(
            levels.drop_first(),
            now,
            history,
            most,
        ));
    } else {
        assert(kept_levels(levels, now, history, most) =~= levels);
    }
}

/// How many quiet places between two loud ones are filled at most.
pub const LONGEST_GAP: usize = 3;

/// The last loud place before another.
pub open spec fn last_loud(loud: Seq<bool>, before: nat) -> Option<usize>
    decreases before,
{
    if before == 0 {
        None
    } else if loud[before - 1] {
        Some((before - 1) as usize)
    } else {
        last_loud(loud, (before - 1) as nat)
    }
}

/// Whether a gap ends at a place that is to be filled.
pub open spec fn ends_gap(loud: Seq<bool>, index: int) -> bool {
    loud[index] && (last_loud(loud, index as nat) matches Some(previous) && 1 <= index - previous
        - 1 <= LONGEST_GAP)
}

/// The gaps that are filled among the first places: each between two loud places with few
/// quiet ones between them.
pub open spec fn filled_gaps(loud: Seq<bool>, count: nat) -> Seq<(usize, usize)>
    decreases count,
{
    if count == 0 {
        Seq::empty()
    } else {
        let before = filled_gaps(loud, (count - 1) as nat);
        if ends_gap(loud, count - 1) {
            before.push((last_loud(loud, (count - 1) as nat)->0, (count - 1) as usize))
        } else {
            before
        }
    }
}

/// The last loud place stands before the other.
proof fn last_loud_is_before(loud: Seq<bool>, before: nat)
    requires
        before <= usize::MAX,
    ensures
        last_loud(loud, before) matches Some(place) ==> place < before && loud[place as int],
    decreases before,
{
    if before > 0 {
        last_loud_is_before(loud, (before - 1) as nat);
    }
}

/// Finds the gaps that are to be filled.
pub fn gaps_to_fill(loud: &Vec<bool>) -> (gaps: Vec<(usize, usize)>)
    ensures
        gaps@ == filled_gaps(loud@, loud@.len()),
{
    let mut gaps: Vec<(usize, usize)> = Vec::new();
    let mut previous: Option<usize> = None;
    let mut index: usize = 0;
    while index < loud.len()
        invariant
            index <= loud@.len(),
            previous == last_loud(loud@, index as nat),
            gaps@ == filled_gaps(loud@, index as nat),
        decreases loud@.len() - index,
    {
        proof {
            last_loud_is_before(loud@, index as nat);
        }
        if loud[index] {
            if let Some(place) = previous {
                let gap: usize = index - place - 1;
                if gap >= 1 && gap <= LONGEST_GAP {
                    gaps.push((place, index));
                }
            }
            previous = Some(index);
        }
        index += 1;
    }
    gaps
}

/// A gap that is filled lies between two loud places, and has few places, all of them quiet.
pub proof fn filled_gaps_are_quiet(loud: Seq<bool>, count: nat)
    requires
        count <= loud.len() <= usize::MAX,
    ensures
        forall|i: int|
            0 <= i < filled_gaps(loud, count).len() ==> {
                let gap = #[trigger] filled_gaps(loud, count)[i];
                &&& gap.0 < gap.1 < count
                &&& loud[gap.0 as int] && loud[gap.1 as int]
                &&& 1 <= gap.1 - gap.0 - 1 <= LONGEST_GAP
                &&& forall|place: int| gap.0 < place < gap.1 ==> !#[trigger] loud[place]
            },
    decreases count,
{
    if count > 0 {
        filled_gaps_are_quiet(loud, (count - 1) as nat);
        last_loud_is_before(loud, (count - 1) as nat);
        after_last_loud(loud, (count - 1) as nat);
        let before = filled_gaps(loud, (count - 1) as nat);
        let gaps = filled_gaps(loud, count);
        assert forall|i: int| 0 <= i < gaps.len() implies ({
            let gap = #[trigger] gaps[i];
            &&& gap.0 < gap.1 < count
            &&& loud[gap.0 as int] && loud[gap.1 as int]
            &&& 1 <= gap.1 - gap.0 - 1 <= LONGEST_GAP
            &&& forall|place: int| gap.0 < place < gap.1 ==> !#[trigger] loud[place]
        }) by {
            if i < before.len() {
                assert(gaps[i] == before[i]);
            }
        }
    }
}

/// Behind the last loud place all are quiet.
proof fn after_last_loud(loud: Seq<bool>, before: nat)
    requires
        before <= loud.len() <= usize::MAX,
    ensures
        last_loud(loud, before) matches Some(place) ==> forall|i: int|
            place < i < before ==> !#[trigger] loud[i],
    decreases before,
{
    if before > 0 {
        after_last_loud(loud, (before - 1) as nat);
    }
}

} // verus!
