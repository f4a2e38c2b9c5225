//! What holds of the player: how long a source has been heard, which of it is skipped, and how
//! copies and recordings are named.

use crate::file_operations;
use crate::grouping;
use crate::live_source;
use crate::live_source::FrameRange;
use crate::player;
use crate::player::PlayerView;
use crate::settings::DspSettings;
use crate::sorting;
use crate::text;
use crate::text_laws;
use vstd::prelude::*;
use vstd::string::*;

verus! {

// ---------------------------------------------------------------------------
// What is heard
// ---------------------------------------------------------------------------

/// A source that has begun is heard from then on: as long as time passes without a pause, and no
/// longer than it is.
pub proof fn source_is_heard_as_time_passes(
    given: PlayerView,
    now: u64,
    later: u64,
    duration: u64,
    start: u32,
    path: Seq<char>,
    settings: DspSettings,
)
    requires
        now <= later,
    ensures
        ({
            let begun = given.with_source(
                now,
                Some(duration),
                start,
                Some(path),
                Some(settings),
                None,
            );
            &&& begun.played(now) == 0
            &&& later - now <= duration ==> begun.played(later) == later - now
            &&& later - now > duration ==> begun.played(later) == duration
            &&& begun.current_path == Some(path)
            &&& begun.current_start_offset_bits == start
            &&& begun.current_radio_url is None
            &&& begun.current_settings == Some(settings)
            &&& begun.status(false).playing && !begun.status(false).paused
            &&& begun.volume_percent == given.volume_percent
        }),
{
}

/// While a source is held no time passes for it, and once it goes on the pause does not count.
pub proof fn pauses_do_not_count(
    given: PlayerView,
    now: u64,
    held: u64,
    resumed: u64,
    later: u64,
)
    requires
        now <= held <= resumed <= later,
    ensures
        ({
            let begun = given.with_source(now, None, 0, None, None, None);
            let paused = begun.toggled(held);
            let again = paused.toggled(resumed);
            &&& paused.status(false).paused && !paused.status(false).playing
            &&& paused.played(later) == held - now
            &&& again.status(false).playing && !again.status(false).paused
            &&& again.played(later) == (held - now) + (later - resumed)
        }),
{
}

/// A player with a source either plays it, holds it, or has finished it, and never two of these;
/// without a source it does none of them.
pub proof fn player_does_one_thing(given: PlayerView, ran_out: bool)
    ensures
        ({
            let status = given.status(ran_out);
            &&& !given.loaded ==> !status.playing && !status.paused && !status.finished
            &&& given.loaded && ran_out ==> status.finished && !status.playing && !status.paused
            &&& given.loaded && !ran_out && given.held ==> status.paused && !status.playing
                && !status.finished
            &&& given.loaded && !ran_out && !given.held ==> status.playing && !status.paused
                && !status.finished
            &&& status.available
            &&& status.recording == (given.recording is Some)
        }),
{
}

// ---------------------------------------------------------------------------
// Silence that is skipped
// ---------------------------------------------------------------------------

/// A frame is skipped exactly where one of the silent passages that were found begins at it or
/// before it and ends behind it, in whatever order they were found.
pub proof fn silent_frames_are_skipped(ranges: Seq<FrameRange>, frame: u64)
    requires
        ranges.len() <= usize::MAX,
    ensures
        live_source::is_silent(live_source::skipped_ranges(ranges), frame) <==> exists|i: int|
            0 <= i < ranges.len() && (#[trigger] ranges[i]).0 <= frame < ranges[i].1,
{
    let filled = ranges.filter(live_source::is_filled());
    let kept = live_source::skipped_ranges(ranges);
    let at_most = live_source::by_start();
    grouping::filter_entries(ranges, live_source::is_filled());
    sorting::stable_sort_exists(filled, at_most);
    sorting::stable_sort_keeps_items(kept, filled, at_most);
    if live_source::is_silent(kept, frame) {
        let k = choose|k: int|
            0 <= k < kept.len() && live_source::holds_frame(#[trigger] kept[k], frame);
        assert(kept.contains(kept[k]));
        crate::sync_laws::contains_by_multiset(kept, filled, kept[k]);
        let m = filled.index_of(kept[k]);
        assert(ranges.contains(filled[m]));
        let i = ranges.index_of(filled[m]);
        assert(ranges[i].0 <= frame < ranges[i].1);
    }
    if exists|i: int| 0 <= i < ranges.len() && (#[trigger] ranges[i]).0 <= frame < ranges[i].1 {
        let i = choose|i: int|
            0 <= i < ranges.len() && (#[trigger] ranges[i]).0 <= frame < ranges[i].1;
        let keep = live_source::is_filled();
        assert(keep(ranges[i]));
        ranges.lemma_filter_contains(keep, i);
        crate::sync_laws::contains_by_multiset(kept, filled, ranges[i]);
        let k = kept.index_of(ranges[i]);
        assert(live_source::holds_frame(kept[k], frame));
    }
}

/// The frame that is heard next is no silent one, and nothing is skipped that is not silent.
pub proof fn only_silence_is_skipped(
    ranges: Seq<FrameRange>,
    from: u64,
    heard: u64,
    between: u64,
)
    requires
        live_source::is_first_heard(ranges, from, heard),
    ensures
        from <= heard,
        forall|i: int|
            0 <= i < ranges.len() ==> !((#[trigger] ranges[i]).0 <= heard < ranges[i].1),
        from <= between < heard ==> exists|i: int|
            0 <= i < ranges.len() && (#[trigger] ranges[i]).0 <= between < ranges[i].1,
{
    assert forall|i: int| 0 <= i < ranges.len() implies !((#[trigger] ranges[i]).0 <= heard
        < ranges[i].1) by {
        if ranges[i].0 <= heard < ranges[i].1 {
            assert(live_source::holds_frame(ranges[i], heard));
        }
    }
    if from <= between < heard {
        assert(live_source::is_silent(ranges, between));
        let i = choose|i: int|
            0 <= i < ranges.len() && live_source::holds_frame(#[trigger] ranges[i], between);
        assert(ranges[i].0 <= between < ranges[i].1);
    }
}

// ---------------------------------------------------------------------------
// Names of copies and recordings
// ---------------------------------------------------------------------------

/// The first attempt at a recording has its plain name, and no two attempts have the same one.
pub proof fn recording_names_differ(
    stem: Seq<char>,
    extension: Seq<char>,
    first: nat,
    second: nat,
)
    requires
        1 <= first < second,
    ensures
        player::recording_name(stem, extension, 1) == stem + "."@ + extension,
        player::recording_name(stem, extension, first) != player::recording_name(
            stem,
            extension,
            second,
        ),
{
    reveal_strlit("-");
    reveal_strlit(".");
    let left = player::recording_name(stem, extension, first);
    let right = player::recording_name(stem, extension, second);
    text_laws::written_number_reads_back(first);
    text_laws::written_number_reads_back(second);
    let n = stem.len() as int;
    if left == right {
        let b = text::decimal(second);
        assert(right.subrange(n + 1, n + 1 + b.len()) =~= b);
        if first == 1 {
            assert(left.len() == n + 1 + extension.len());
            assert(right.len() == n + 1 + b.len() + 1 + extension.len());
        } else {
            let a = text::decimal(first);
            assert(left.len() == n + 1 + a.len() + 1 + extension.len());
            assert(right.len() == n + 1 + b.len() + 1 + extension.len());
            assert(left.subrange(n + 1, n + 1 + a.len()) =~= a);
            assert(a == b);
        }
    }
}

/// The first attempt at the copy of a file has the name of the file; later ones keep its
/// extension and differ from each other.
pub proof fn copy_names_differ(stem: Seq<char>, extension: Seq<char>, first: nat, second: nat)
    requires
        stem.len() > 0,
        extension.len() > 0,
        !extension.contains('.'),
        1 <= first < second,
    ensures
        file_operations::copy_name(stem + "."@ + extension, 1) == stem + "."@ + extension,
        first > 1 ==> file_operations::copy_name(stem + "."@ + extension, first) == stem + " ("@
            + text::decimal(first) + ")"@ + "."@ + extension,
        file_operations::copy_name(stem + "."@ + extension, first) != file_operations::copy_name(
            stem + "."@ + extension,
            second,
        ),
{
    reveal_strlit(".");
    reveal_strlit(" (");
    reveal_strlit(")");
    let name = stem + "."@ + extension;
    crate::session_laws::dot_before_extension(stem, extension);
    assert(name.skip(stem.len() as int + 1) =~= extension);
    assert(name.take(stem.len() as int) =~= stem);
    let left = file_operations::copy_name(name, first);
    let right = file_operations::copy_name(name, second);
    text_laws::written_number_reads_back(first);
    text_laws::written_number_reads_back(second);
    let n = stem.len() as int;
    let b = text::decimal(second);
    assert(right == stem + " ("@ + b + ")"@ + "."@ + extension);
    assert(right.len() == n + 2 + b.len() + 2 + extension.len());
    assert(right.subrange(n + 2, n + 2 + b.len()) =~= b);
    if first > 1 {
        let a = text::decimal(first);
        assert(left == stem + " ("@ + a + ")"@ + "."@ + extension);
        assert(left.len() == n + 2 + a.len() + 2 + extension.len());
        assert(left.subrange(n + 2, n + 2 + a.len()) =~= a);
    }
}

} // verus!
