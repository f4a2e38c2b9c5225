//! What holds of the order of the favorites.

use crate::counting;
use crate::paths;
use crate::playlist;
use crate::playlist::{PlaylistKind, PlaylistView, FAVORITES_PLAYLIST_NAME};
use crate::sorting;
use crate::track;
use crate::track::{AudioFileView, TrackView};
use vstd::prelude::*;

verus! {

/// The favorites after files were added to none, one after the other.
pub open spec fn favorites_of(
    files: Seq<AudioFileView>,
    root: Option<Seq<char>>,
    depth: nat,
) -> PlaylistView {
    playlist::empty_playlist(FAVORITES_PLAYLIST_NAME@, 0, PlaylistKind::Favorites).with_files(
        files,
        root,
        depth,
    ).0
}

/// The favorites sorted by when they were added.
pub open spec fn sorted_by_added(list: PlaylistView) -> PlaylistView {
    PlaylistView {
        tracks: sorting::sorted(
            playlist::numbered_favorites(list.tracks),
            playlist::added_order(),
        ),
        ..list
    }
}

/// No two of the files have the same key.
pub open spec fn files_differ(files: Seq<AudioFileView>) -> bool {
    forall|i: int, j: int|
        0 <= i < j < files.len() ==> !paths::same_key(
            (#[trigger] files[i]).path,
            (#[trigger] files[j]).path,
        )
}

/// Tracks whose numbers fall by one from the count of the tracks to 1.
spec fn is_numbered_down(tracks: Seq<TrackView>) -> bool {
    forall|i: int|
        0 <= i < tracks.len() ==> (#[trigger] tracks[i]).favorite_added_sequence == Some(
            (tracks.len() - i) as u64,
        )
}

/// The greatest number is no greater than a bound that all numbers keep, and no less than any
/// number.
proof fn greatest_is_between(tracks: Seq<TrackView>, bound: u64, index: int)
    requires
        0 <= index < tracks.len(),
        forall|i: int|
            0 <= i < tracks.len() ==> track::added_sequence(#[trigger] tracks[i]) <= bound,
    ensures
        track::added_sequence(tracks[index]) <= playlist::greatest_sequence(tracks) <= bound,
    decreases tracks.len(),
{
    let rest = tracks.drop_last();
    assert forall|i: int| 0 <= i < rest.len() implies track::added_sequence(#[trigger] rest[i])
        <= bound by {
        assert(rest[i] == tracks[i]);
    }
    if index < rest.len() {
        assert(rest[index] == tracks[index]);
        greatest_is_between(rest, bound, index);
    } else if rest.len() > 0 {
        greatest_is_between(rest, bound, 0);
    }
}

/// Numbered tracks are not numbered anew.
proof fn numbers_stay(tracks: Seq<TrackView>)
    requires
        forall|i: int|
            0 <= i < tracks.len() ==> (#[trigger] tracks[i]).favorite_added_sequence is Some,
    ensures
        playlist::numbered_favorites(tracks) == tracks,
{
    if tracks.len() > 0 {
        assert(tracks[0].favorite_added_sequence is Some);
        assert(playlist::any_numbered(tracks));
    }
    assert(playlist::numbered_favorites(tracks) =~= tracks);
}

/// Files that are added one after the other stand newest first, and are numbered from the
/// oldest.
proof fn added_favorites(files: Seq<AudioFileView>, root: Option<Seq<char>>, depth: nat)
    requires
        files_differ(files),
        files.len() <= usize::MAX,
    ensures
        ({
            let tracks = favorites_of(files, root, depth).tracks;
            &&& favorites_of(files, root, depth).kind == PlaylistKind::Favorites
            &&& tracks.len() == files.len()
            &&& is_numbered_down(tracks)
            &&& forall|i: int|
                0 <= i < tracks.len() ==> (#[trigger] tracks[i]).path == files[files.len() - 1
                    - i].path
        }),
    decreases files.len(),
{
    if files.len() > 0 {
        let earlier = files.drop_last();
        let file = files.last();
        added_favorites(earlier, root, depth);
        let before = favorites_of(earlier, root, depth);
        let after = favorites_of(files, root, depth);
        assert(!playlist::has_path(before.tracks, file.path)) by {
            assert forall|i: int| 0 <= i < before.tracks.len() implies !paths::same_key(
                (#[trigger] before.tracks[i]).path,
                file.path,
            ) by {
                assert(before.tracks[i].path == earlier[earlier.len() - 1 - i].path);
                assert(earlier[earlier.len() - 1 - i] == files[earlier.len() - 1 - i]);
                assert(file == files[files.len() - 1]);
            }
        }
        numbers_stay(before.tracks);
        if before.tracks.len() > 0 {
            greatest_is_between(before.tracks, before.tracks.len() as u64, 0);
        }
        assert(playlist::greatest_sequence(before.tracks) == before.tracks.len());
        assert(after.tracks[0].favorite_added_sequence == Some(files.len() as u64));
        assert forall|i: int| 0 <= i < after.tracks.len() implies (
        #[trigger] after.tracks[i]).favorite_added_sequence == Some(
            (after.tracks.len() - i) as u64,
        ) && after.tracks[i].path == files[files.len() - 1 - i].path by {
            if i > 0 {
                assert(after.tracks[i] == before.tracks[i - 1]);
                assert(earlier[earlier.len() - i] == files[files.len() - 1 - i]);
            }
        }
    }
}

/// Different numbers that fall, all of them from 1 to their count, fall by one.
proof fn falling_numbers(tracks: Seq<TrackView>)
    requires
        forall|i: int|
            0 <= i < tracks.len() ==> 1 <= track::added_sequence(#[trigger] tracks[i])
                <= tracks.len(),
        forall|i: int, j: int|
            0 <= i < j < tracks.len() ==> track::added_sequence(#[trigger] tracks[i])
                > track::added_sequence(#[trigger] tracks[j]),
    ensures
        forall|i: int|
            0 <= i < tracks.len() ==> track::added_sequence(#[trigger] tracks[i])
                == tracks.len() - i,
{
    assert forall|i: int| 0 <= i < tracks.len() implies track::added_sequence(#[trigger] tracks[i])
        == tracks.len() - i by {
        falls_from_above(tracks, i);
        falls_from_below(tracks, i);
    }
}

/// A number that falls is no greater than the places that are left.
proof fn falls_from_above(tracks: Seq<TrackView>, index: int)
    requires
        0 <= index < tracks.len(),
        forall|i: int|
            0 <= i < tracks.len() ==> track::added_sequence(#[trigger] tracks[i]) <= tracks.len(),
        forall|i: int, j: int|
            0 <= i < j < tracks.len() ==> track::added_sequence(#[trigger] tracks[i])
                > track::added_sequence(#[trigger] tracks[j]),
    ensures
        track::added_sequence(tracks[index]) <= tracks.len() - index,
    decreases index,
{
    if index > 0 {
        falls_from_above(tracks, index - 1);
        assert(track::added_sequence(tracks[index - 1]) > track::added_sequence(tracks[index]));
    }
}

/// A number that falls is no less than the places that are left.
proof fn falls_from_below(tracks: Seq<TrackView>, index: int)
    requires
        0 <= index < tracks.len(),
        forall|i: int|
            0 <= i < tracks.len() ==> 1 <= track::added_sequence(#[trigger] tracks[i]),
        forall|i: int, j: int|
            0 <= i < j < tracks.len() ==> track::added_sequence(#[trigger] tracks[i])
                > track::added_sequence(#[trigger] tracks[j]),
    ensures
        track::added_sequence(tracks[index]) >= tracks.len() - index,
    decreases tracks.len() - index,
{
    if index + 1 < tracks.len() {
        falls_from_below(tracks, index + 1);
        assert(track::added_sequence(tracks[index]) > track::added_sequence(tracks[index + 1]));
    }
}

/// Every list of favorites has a stable sort by when they were added.
proof fn added_sort_holds(tracks: Seq<TrackView>)
    requires
        tracks.len() <= usize::MAX,
    ensures
        sorting::is_stable_sort(
            sorting::sorted(tracks, playlist::added_order()),
            tracks,
            playlist::added_order(),
        ),
{
    sorting::stable_sort_exists(tracks, playlist::added_order());
}

/// The favorites stand newest first once they are sorted by when they were added, in whatever
/// order they were before; none is lost and none is added.
pub proof fn favorites_stand_newest_first(
    files: Seq<AudioFileView>,
    root: Option<Seq<char>>,
    depth: nat,
    moved: PlaylistView,
)
    requires
        files_differ(files),
        files.len() <= usize::MAX,
        moved.tracks.to_multiset() == favorites_of(files, root, depth).tracks.to_multiset(),
    ensures
        sorted_by_added(moved).tracks == favorites_of(files, root, depth).tracks,
        sorted_by_added(moved).tracks.len() == files.len(),
        forall|i: int|
            0 <= i < files.len() ==> (#[trigger] sorted_by_added(moved).tracks[i]).path
                == files[files.len() - 1 - i].path,
{
    let added = favorites_of(files, root, depth).tracks;
    moved.tracks.to_multiset_ensures();
    added.to_multiset_ensures();
    added_favorites(files, root, depth);
    let order = playlist::added_order();
    assert(moved.tracks.len() == added.len());
    assert forall|i: int| 0 <= i < moved.tracks.len() implies (
    #[trigger] moved.tracks[i]).favorite_added_sequence is Some by {
        assert(moved.tracks.contains(moved.tracks[i]));
        assert(moved.tracks.to_multiset().count(moved.tracks[i]) > 0);
        assert(added.contains(moved.tracks[i]));
    }
    numbers_stay(moved.tracks);
    let sorted = sorting::sorted(moved.tracks, order);
    added_sort_holds(moved.tracks);
    sorted.to_multiset_ensures();
    sorting::stable_sort_keeps_items(sorted, moved.tracks, order);
    assert(added.no_duplicates());
    added.lemma_multiset_has_no_duplicates();
    assert(sorted.to_multiset() == added.to_multiset());
    sorted.lemma_multiset_has_no_duplicates_conv();
    assert forall|i: int| 0 <= i < sorted.len() implies added.contains(#[trigger] sorted[i]) by {
        assert(sorted.contains(sorted[i]));
        assert(sorted.to_multiset().count(sorted[i]) > 0);
    }
    let arrangement = choose|arrangement: Seq<usize>| #[trigger]
        sorting::is_stable_order(arrangement, moved.tracks, order) && sorted
            == sorting::arranged(moved.tracks, arrangement);
    assert forall|i: int, j: int| 0 <= i < j < sorted.len() implies track::added_sequence(
        #[trigger] sorted[i],
    ) > track::added_sequence(#[trigger] sorted[j]) by {
        assert(sorting::sorts_before(
            moved.tracks,
            order,
            arrangement[i] as int,
            arrangement[j] as int,
        ));
        let first = choose|at: int| 0 <= at < added.len() && added[at] == sorted[i];
        let second = choose|at: int| 0 <= at < added.len() && added[at] == sorted[j];
        assert(added[first].favorite_added_sequence == Some((added.len() - first) as u64));
        assert(added[second].favorite_added_sequence == Some((added.len() - second) as u64));
        assert(sorted[i] != sorted[j]);
    }
    assert forall|i: int| 0 <= i < sorted.len() implies 1 <= track::added_sequence(
        #[trigger] sorted[i],
    ) <= sorted.len() by {
        let at = choose|at: int| 0 <= at < added.len() && added[at] == sorted[i];
        assert(added[at].favorite_added_sequence == Some((added.len() - at) as u64));
    }
    falling_numbers(sorted);
    assert forall|i: int| 0 <= i < sorted.len() implies #[trigger] sorted[i] == added[i] by {
        let at = choose|at: int| 0 <= at < added.len() && added[at] == sorted[i];
        assert(added[at].favorite_added_sequence == Some((added.len() - at) as u64));
        assert(track::added_sequence(sorted[i]) == sorted.len() - i);
    }
    assert(sorted =~= added);
}

/// Favorites without numbers are numbered so that those in front are the newer ones; numbers that
/// are there stay, and those that are added are below all of them, or zero.
pub proof fn favorites_are_numbered_in_order(tracks: Seq<TrackView>, first: int, second: int)
    requires
        0 <= first < second < tracks.len() <= u64::MAX,
    ensures
        ({
            let after = playlist::numbered_favorites(tracks);
            &&& after.len() == tracks.len()
            &&& after[first].favorite_added_sequence is Some
            &&& after[second].favorite_added_sequence is Some
            &&& after[first].path == tracks[first].path
            &&& tracks[first].favorite_added_sequence is Some ==> after[first] == tracks[first]
            &&& (forall|i: int|
                0 <= i < tracks.len() ==> (#[trigger] tracks[i]).favorite_added_sequence is None)
                ==> after[first].favorite_added_sequence->0
                > after[second].favorite_added_sequence->0 > 0
            &&& tracks[first].favorite_added_sequence is None
                && tracks[second].favorite_added_sequence is Some
                ==> after[first].favorite_added_sequence->0
                < after[second].favorite_added_sequence->0
                || after[first].favorite_added_sequence->0 == 0
            &&& tracks[first].favorite_added_sequence is None
                && tracks[second].favorite_added_sequence is None
                ==> after[first].favorite_added_sequence->0
                > after[second].favorite_added_sequence->0
                || after[second].favorite_added_sequence->0 == 0
        }),
{
    if tracks[first].favorite_added_sequence is None {
        count_grows(
            first as nat,
            second as nat,
            |i: int| tracks[i].favorite_added_sequence is None,
        );
    }
    if tracks[second].favorite_added_sequence is Some {
        least_is_below(tracks, second);
    }
}

/// No sequence number is below the least one.
proof fn least_is_below(tracks: Seq<TrackView>, index: int)
    requires
        0 <= index < tracks.len(),
        tracks[index].favorite_added_sequence is Some,
    ensures
        playlist::least_sequence(tracks) <= tracks[index].favorite_added_sequence->0,
    decreases tracks.len(),
{
    if index < tracks.len() - 1 {
        least_is_below(tracks.drop_last(), index);
    }
}

/// Behind a position that satisfies a condition, more positions do.
proof fn count_grows(length: nat, larger: nat, holds: spec_fn(int) -> bool)
    requires
        length < larger,
        holds(length as int),
    ensures
        counting::count(larger, holds) > counting::count(length, holds),
    decreases larger,
{
    if larger - 1 > length {
        count_grows(length, (larger - 1) as nat, holds);
    }
}

} // verus!
