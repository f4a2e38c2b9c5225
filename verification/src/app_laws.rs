//! What holds of the application as a whole.

use crate::app::{AppView, OrderUndoView, PlayerStatus};
use crate::counting;
use crate::file_operations;
use crate::grouping;
use crate::index_set;
use crate::lookup;
use crate::membership;
use crate::moving;
use crate::ordering;
use crate::paths;
use crate::playback;
use crate::playback::ClockReading;
use crate::playlist;
use crate::playlist::{PlaylistKind, PlaylistView};
use crate::selection;
use crate::session;
use crate::settings::RepeatMode;
use crate::state;
use crate::state::StateView;
use crate::track::{AudioFileView, TrackView};
use vstd::prelude::*;

verus! {

// ---------------------------------------------------------------------------
// Undoing changes of order
// ---------------------------------------------------------------------------

/// However many changes are made, only the last ones can be undone.
pub proof fn undo_is_bounded(view: AppView, snapshot: OrderUndoView)
    ensures
        view.with_undo(snapshot).order_undo_stack.len() <= ordering::MAX_ORDER_UNDO_STEPS,
        view.with_undo(snapshot).order_undo_stack.last() == snapshot,
{
}

/// Saving keeps the tracks, the stations and what can be undone.
proof fn saving_keeps(view: AppView)
    ensures
        view.saved().state.radio_stations == view.state.radio_stations,
        view.saved().order_undo_stack == view.order_undo_stack,
        view.saved().state.selected_playlist_index == view.state.selected_playlist_index,
        view.saved().state.playlists.len() == view.state.playlists.len(),
        view.current() is Some ==> view.saved().current() is Some && view.saved().current()->0.tracks
            == view.current()->0.tracks,
{
}

/// A change in the order of the stations that is undone leaves the stations as they were.
pub proof fn undone_move_of_station(view: AppView, from: usize, to: usize)
    requires
        from < view.state.radio_stations.len(),
        to <= view.state.radio_stations.len(),
    ensures
        view.with_station_moved_to(from, to).undone().state.radio_stations
            == view.state.radio_stations,
{
    let pushed = view.with_undo(view.radio_snapshot());
    undo_is_bounded(view, view.radio_snapshot());
    let stations = moving::moved(view.state.radio_stations, from as int, to as int);
    let moved = pushed.with_stations_reordered(stations, "Moved radio station."@);
    assert(moved.order_undo_stack == pushed.order_undo_stack);
    assert(moved == view.with_station_moved_to(from, to));
    let popped = AppView { order_undo_stack: moved.order_undo_stack.drop_last(), ..moved };
    let restored = popped.with_snapshot(view.radio_snapshot()).without_drag();
    saving_keeps(restored);
}

/// A change in the order of the shown tracks that is undone leaves the tracks as they were.
pub proof fn undone_reordering(view: AppView, tracks: Seq<TrackView>, status: Seq<char>)
    requires
        view.current() is Some,
    ensures
        ({
            let undone = view.with_tracks_reordered(tracks, true, status).undone();
            undone.current() is Some && undone.current()->0.tracks == view.current()->0.tracks
        }),
{
    let kept = view.with_repeat_kept();
    assert(kept.current() is Some);
    let shown = kept.current()->0;
    let snapshot = kept.playlist_snapshot(shown);
    let pushed = kept.with_undo(snapshot);
    undo_is_bounded(kept, snapshot);
    assert(pushed.current() == Some(shown));
    let changed = pushed.with_current(PlaylistView { tracks, ..shown });
    let found = changed.with_selection_found(kept.selected_path()).with_status(status);
    saving_keeps(found);
    let reordered = found.saved();
    assert(reordered == view.with_tracks_reordered(tracks, true, status));
    assert(reordered.order_undo_stack == pushed.order_undo_stack);
    let popped = AppView { order_undo_stack: reordered.order_undo_stack.drop_last(), ..reordered };
    let restored = popped.with_snapshot(snapshot).without_drag();
    assert(restored.current() is Some && restored.current()->0.tracks == shown.tracks);
    saving_keeps(restored);
}

/// A track that is moved in the shown playlist can be moved back by undoing.
pub proof fn undone_move_of_track(view: AppView, from: usize, to: usize)
    requires
        view.current() is Some,
        from < view.current()->0.tracks.len(),
        to <= view.current()->0.tracks.len(),
    ensures
        ({
            let undone = view.with_track_moved_to(from, to).undone();
            undone.current() is Some && undone.current()->0.tracks == view.current()->0.tracks
        }),
{
    undone_reordering(
        view,
        moving::moved(view.current()->0.tracks, from as int, to as int),
        "Moved track in playlist order."@,
    );
}

// ---------------------------------------------------------------------------
// What reordering keeps
// ---------------------------------------------------------------------------

/// The groups in order are distinct, and each track is of one of them.
pub(crate) proof fn groups_cover(tracks: Seq<TrackView>)
    ensures
        forall|i: int, j: int|
            0 <= i < j < ordering::groups_in_order(tracks).len()
                ==> #[trigger] ordering::groups_in_order(tracks)[i]
                != #[trigger] ordering::groups_in_order(tracks)[j],
        forall|i: int|
            0 <= i < tracks.len() ==> ordering::groups_in_order(tracks).contains(
                #[trigger] tracks[i].group,
            ),
    decreases tracks.len(),
{
    if tracks.len() > 0 {
        let rest = tracks.drop_last();
        let before = ordering::groups_in_order(rest);
        let groups = ordering::groups_in_order(tracks);
        groups_cover(rest);
        assert forall|i: int| 0 <= i < tracks.len() implies groups.contains(
            #[trigger] tracks[i].group,
        ) by {
            if i < rest.len() {
                assert(rest[i] == tracks[i]);
                assert(before.contains(rest[i].group));
                let k = before.index_of(rest[i].group);
                assert(groups[k] == before[k]);
            } else if !before.contains(tracks.last().group) {
                assert(groups[before.len() as int] == tracks.last().group);
            }
        }
        assert forall|i: int, j: int| 0 <= i < j < groups.len() implies #[trigger] groups[i]
            != #[trigger] groups[j] by {
            assert(groups[i] == before[i]);
            if j < before.len() {
                assert(groups[j] == before[j]);
            } else {
                assert(before.contains(before[i]));
            }
        }
    }
}

/// The track is of one of the groups.
pub open spec fn is_in_groups(groups: Seq<Seq<char>>) -> spec_fn(TrackView) -> bool {
    |track: TrackView| groups.contains(track.group)
}

/// Tracks that are gathered group by group are those of the groups.
proof fn gathered_tracks(tracks: Seq<TrackView>, groups: Seq<Seq<char>>)
    requires
        forall|i: int, j: int|
            0 <= i < j < groups.len() ==> #[trigger] groups[i] != #[trigger] groups[j],
    ensures
        ordering::by_groups(tracks, groups).to_multiset() == tracks.filter(
            is_in_groups(groups),
        ).to_multiset(),
    decreases groups.len(),
{
    broadcast use vstd::seq_lib::group_to_multiset_ensures;

    if groups.len() == 0 {
        grouping::filter_all_or_none(tracks, is_in_groups(groups));
        assert(tracks.filter(is_in_groups(groups)) =~= Seq::empty());
        assert(ordering::by_groups(tracks, groups) =~= Seq::empty());
    } else {
        let rest = groups.drop_last();
        let last = groups.last();
        gathered_tracks(tracks, rest);
        let earlier = ordering::by_groups(tracks, rest);
        let own = grouping::in_group(tracks, last);
        vstd::seq_lib::lemma_multiset_commutative(earlier, own);
        one_group_more(tracks, groups);
    }
}

/// Of the tracks of some groups, those of the last group and those of the others are all.
proof fn one_group_more(tracks: Seq<TrackView>, groups: Seq<Seq<char>>)
    requires
        groups.len() > 0,
        forall|i: int, j: int|
            0 <= i < j < groups.len() ==> #[trigger] groups[i] != #[trigger] groups[j],
    ensures
        tracks.filter(is_in_groups(groups)).to_multiset() == tracks.filter(
            is_in_groups(groups.drop_last()),
        ).to_multiset().add(grouping::in_group(tracks, groups.last()).to_multiset()),
    decreases tracks.len(),
{
    broadcast use vstd::seq_lib::group_to_multiset_ensures;

    let rest = groups.drop_last();
    let last = groups.last();
    let all = is_in_groups(groups);
    let others = is_in_groups(rest);
    let own = |track: TrackView| track.group == last;
    reveal(Seq::filter);
    if tracks.len() == 0 {
        assert(tracks.filter(all) =~= Seq::empty());
        assert(tracks.filter(others) =~= Seq::empty());
        assert(tracks.filter(own) =~= Seq::empty());
        assert(tracks.filter(all).to_multiset() =~= tracks.filter(others).to_multiset().add(
            grouping::in_group(tracks, last).to_multiset(),
        ));
    } else {
        let fewer = tracks.drop_last();
        let track = tracks.last();
        one_group_more(fewer, groups);
        assert(all(track) == (others(track) || own(track))) by {
            if groups.contains(track.group) {
                let k = groups.index_of(track.group);
                if k < rest.len() {
                    assert(rest[k] == track.group);
                }
            }
            if rest.contains(track.group) {
                let k = rest.index_of(track.group);
                assert(groups[k] == track.group);
            }
            assert(groups[groups.len() - 1] == last);
        }
        assert(!(others(track) && own(track))) by {
            if rest.contains(last) {
                let k = rest.index_of(last);
                assert(groups[k] != groups[groups.len() - 1]);
            }
        }
        vstd::seq_lib::to_multiset_build(fewer.filter(all), track);
        vstd::seq_lib::to_multiset_build(fewer.filter(others), track);
        vstd::seq_lib::to_multiset_build(fewer.filter(own), track);
        assert(tracks.filter(all).to_multiset() =~= tracks.filter(others).to_multiset().add(
            grouping::in_group(tracks, last).to_multiset(),
        ));
    }
}

/// Moving a group of tracks moves tracks only: none is added, none is lost.
pub proof fn group_move_keeps_tracks(tracks: Seq<TrackView>, first: int, second: int)
    requires
        0 <= first < ordering::groups_in_order(tracks).len(),
        0 <= second < ordering::groups_in_order(tracks).len(),
    ensures
        ordering::by_groups(
            tracks,
            moving::swapped(ordering::groups_in_order(tracks), first, second),
        ).to_multiset() == tracks.to_multiset(),
{
    let groups = ordering::groups_in_order(tracks);
    let swapped = moving::swapped(groups, first, second);
    groups_cover(tracks);
    assert forall|i: int, j: int| 0 <= i < j < swapped.len() implies #[trigger] swapped[i]
        != #[trigger] swapped[j] by {
        let a = if i == first {
            second
        } else if i == second {
            first
        } else {
            i
        };
        let b = if j == first {
            second
        } else if j == second {
            first
        } else {
            j
        };
        assert(swapped[i] == groups[a] && swapped[j] == groups[b]);
        if a < b {
            assert(groups[a] != groups[b]);
        } else {
            assert(groups[b] != groups[a]);
        }
    }
    gathered_tracks(tracks, swapped);
    let keep = is_in_groups(swapped);
    assert forall|i: int| 0 <= i < tracks.len() implies keep(#[trigger] tracks[i]) by {
        assert(groups.contains(tracks[i].group));
        let k = groups.index_of(tracks[i].group);
        let m = if k == first {
            second
        } else if k == second {
            first
        } else {
            k
        };
        assert(swapped[m] == tracks[i].group);
    }
    grouping::filter_all_or_none(tracks, keep);
}

// ---------------------------------------------------------------------------
// What comes next
// ---------------------------------------------------------------------------

/// An ascending list holds a position in one place only.
proof fn place_in_ascending(indexes: Seq<usize>, place: int)
    requires
        index_set::ascending(indexes),
        0 <= place < indexes.len() <= usize::MAX,
    ensures
        index_set::position_of(indexes, indexes[place]) == Some(place as usize),
{
    let holds = index_set::holds_at(indexes, indexes[place]);
    assert(holds(place));
    assert forall|i: int| 0 <= i < place implies !#[trigger] holds(i) by {
        assert(indexes[i] < indexes[place]);
    }
    counting::first_where_is(indexes.len(), holds, place);
}

/// Without shuffling, the track before the next one is the current one again, wherever it
/// stands in the sequence.
pub proof fn next_then_previous(
    view: AppView,
    shown: PlaylistView,
    current: usize,
    clocks: ClockReading,
)
    requires
        view.current() == Some(shown),
        shown.tracks.len() <= usize::MAX,
        view.state.playback.repeat_mode != RepeatMode::Track,
        !view.state.playback.shuffle_enabled,
        view.current_track() == Some(current),
        view.sequence().contains(current),
    ensures
        view.next_position(clocks) is Some,
        (AppView {
            active_track_index: view.next_position(clocks),
            ..view
        }).previous_position() == Some(current),
{
    let sequence = view.sequence();
    playback::sequence_is_in_range(view, shown);
    counting::indexes_where_holds(shown.tracks.len(), view.is_in_sequence(shown));
    sequence_fits(view, shown);
    let place = sequence.index_of(current);
    place_in_ascending(sequence, place);
    let next = view.next_position(clocks);
    let at = if place + 1 < sequence.len() {
        place + 1
    } else {
        0
    };
    assert(next == Some(sequence[at]));
    place_in_ascending(sequence, at);
    let after = AppView { active_track_index: next, ..view };
    assert(after.current() == view.current());
    assert(after.is_in_sequence(shown) =~= view.is_in_sequence(shown));
    assert(after.sequence() == sequence);
    assert(after.current_track() == next);
}

/// The sequence is no longer than the list of tracks.
pub(crate) proof fn sequence_fits(view: AppView, shown: PlaylistView)
    requires
        view.current() == Some(shown),
        shown.tracks.len() <= usize::MAX,
    ensures
        view.sequence().len() <= shown.tracks.len(),
{
    indexes_fit(shown.tracks.len(), view.is_in_sequence(shown));
}

/// No more positions are listed than there are.
proof fn indexes_fit(length: nat, holds: spec_fn(int) -> bool)
    ensures
        counting::indexes_where(length, holds).len() <= length,
    decreases length,
{
    if length > 0 {
        indexes_fit((length - 1) as nat, holds);
    }
}

/// With one track repeated, that track comes next, and it came before.
pub proof fn repeated_track_stays(view: AppView, current: usize, clocks: ClockReading)
    requires
        view.state.playback.repeat_mode == RepeatMode::Track,
        view.current_track() == Some(current),
        view.sequence().contains(current),
    ensures
        view.next_position(clocks) == Some(current),
        view.previous_position() == Some(current),
{
}

// ---------------------------------------------------------------------------
// Favorites and selections
// ---------------------------------------------------------------------------

/// Playlists of the same kinds have the first one of a kind in the same place.
proof fn same_kinds(first: Seq<PlaylistView>, second: Seq<PlaylistView>, kind: PlaylistKind)
    requires
        first.len() == second.len() <= usize::MAX,
        forall|i: int| 0 <= i < first.len() ==> (#[trigger] first[i]).kind == second[i].kind,
    ensures
        state::first_of_kind(first, kind) == state::first_of_kind(second, kind),
{
    let here = |i: int| first[i].kind == kind;
    let there = |i: int| second[i].kind == kind;
    counting::first_where_holds(first.len(), here);
    match state::first_of_kind(first, kind) {
        Some(index) => {
            assert(here(index as int));
            assert forall|i: int| 0 <= i < index implies !#[trigger] there(i) by {
                assert(!here(i));
            }
            counting::first_where_is(second.len(), there, index as int);
        },
        None => {
            assert forall|i: int| 0 <= i < second.len() implies !#[trigger] there(i) by {
                assert(!here(i));
            }
            counting::first_where_none(second.len(), there);
        },
    }
}

/// The favorites with a file put in or taken out hold it exactly where they did not.
proof fn toggled_list(view: AppView, index: usize, file: AudioFileView)
    requires
        view.favorites() == Some(index),
        view.state.playlists[index as int].kind == PlaylistKind::Favorites,
    ensures
        playlist::has_path(view.toggled_favorites(index, file).tracks, file.path)
            == !view.has_favorite(file.path),
{
    let list = view.state.playlists[index as int];
    let after = view.toggled_favorites(index, file).tracks;
    if view.has_favorite(file.path) {
        let keep = membership::has_no_path_of(seq![file.path]);
        grouping::filter_entries(list.tracks, keep);
        if playlist::has_path(after, file.path) {
            let i = choose|i: int|
                0 <= i < after.len() && paths::same_key(#[trigger] after[i].path, file.path);
            assert(keep(after[i]));
            assert(paths::same_key(seq![file.path][0], after[i].path));
        }
    } else {
        assert(paths::same_key(after[0].path, file.path));
    }
}

/// A file that is put into the favorites is there, and one that is taken out is not.
pub proof fn favorite_toggles(view: AppView, file: AudioFileView)
    requires
        view.favorites() is Some,
        view.state.playlists.len() <= usize::MAX,
    ensures
        view.with_favorite_toggled(file).has_favorite(file.path) == !view.has_favorite(file.path),
{
    let index = view.favorites()->0;
    let lists = view.state.playlists;
    counting::first_where_holds(
        lists.len(),
        |i: int| lists[i].kind == PlaylistKind::Favorites,
    );
    toggled_list(view, index, file);
    let changed = lists.update(index as int, view.toggled_favorites(index, file));
    let after = view.with_favorite_toggled(file).state.playlists;
    assert(after.len() == lists.len());
    assert forall|i: int| 0 <= i < after.len() implies (#[trigger] after[i]).kind
        == lists[i].kind by {
        assert(after[i].kind == changed[i].kind);
    }
    same_kinds(after, lists, PlaylistKind::Favorites);
    assert(after[index as int].tracks == changed[index as int].tracks);
}

/// Clicks keep the selected positions in ascending order, each once.
pub proof fn clicked_selection_ascends(view: AppView, index: usize, shift: bool, additive: bool)
    requires
        index_set::ascending(view.multi_selected_track_indexes),
    ensures
        index_set::ascending(
            view.with_track_clicked(index, shift, additive).multi_selected_track_indexes,
        ),
{
    let selected = view.multi_selected_track_indexes;
    index_set::with_index_holds(selected, index);
    index_set::without_index_holds(selected, index);
    let anchor = match view.track_selection_anchor_index {
        Some(anchor) => anchor,
        None => index,
    };
    let from = index_set::position_of(view.visible(), anchor);
    let to = index_set::position_of(view.visible(), index);
    if from is Some && to is Some {
        let range = view.visible_range(from->0, to->0);
        index_set::with_indexes_holds(selected, range);
        index_set::with_indexes_holds(Seq::empty(), range);
    }
}

/// A track that is clicked with the key for adding held is selected, or is no longer.
pub proof fn additive_click_toggles(view: AppView, index: usize)
    requires
        index_set::ascending(view.multi_selected_track_indexes),
        view.has_track(index),
    ensures
        view.with_track_clicked(index, false, true).multi_selected_track_indexes.contains(index)
            == !view.multi_selected_track_indexes.contains(index),
{
    index_set::with_index_holds(view.multi_selected_track_indexes, index);
    index_set::without_index_holds(view.multi_selected_track_indexes, index);
}

/// The paths of some tracks list the path of a track exactly where the track is one of them.
proof fn paths_at_list(tracks: Seq<TrackView>, indexes: Seq<usize>, index: int)
    requires
        playlist::paths_distinct(tracks),
        0 <= index < tracks.len() <= usize::MAX,
        forall|i: int| 0 <= i < indexes.len() ==> #[trigger] indexes[i] < tracks.len(),
    ensures
        file_operations::lists_path(selection::paths_at(tracks, indexes), tracks[index].path)
            == indexes.contains(index as usize),
    decreases indexes.len(),
{
    let listed = selection::paths_at(tracks, indexes);
    if indexes.len() > 0 {
        let rest = indexes.drop_last();
        let before = selection::paths_at(tracks, rest);
        let last = indexes.last();
        paths_at_list(tracks, rest, index);
        assert(last < tracks.len());
        assert(listed == before.push(tracks[last as int].path));
        if file_operations::lists_path(listed, tracks[index].path) {
            let i = choose|i: int|
                0 <= i < listed.len() && paths::same_key(#[trigger] listed[i], tracks[index].path);
            if i < before.len() {
                assert(paths::same_key(before[i], tracks[index].path));
                assert(rest.contains(index as usize));
                let k = rest.index_of(index as usize);
                assert(indexes[k] == index as usize);
            } else {
                assert(paths::same_key(tracks[last as int].path, tracks[index].path));
                assert(last == index);
                assert(indexes[indexes.len() - 1] == index as usize);
            }
        }
        if indexes.contains(index as usize) {
            let k = indexes.index_of(index as usize);
            if k < rest.len() {
                assert(rest[k] == index as usize);
                assert(rest.contains(index as usize));
                let i = choose|i: int|
                    0 <= i < before.len() && paths::same_key(
                        #[trigger] before[i],
                        tracks[index].path,
                    );
                assert(paths::same_key(listed[i], tracks[index].path));
            } else {
                assert(paths::same_key(listed[before.len() as int], tracks[index].path));
            }
        }
    }
}

/// Two ascending lists with the same entries are the same.
proof fn ascending_lists_agree(first: Seq<usize>, second: Seq<usize>)
    requires
        index_set::ascending(first),
        index_set::ascending(second),
        forall|entry: usize| first.contains(entry) <==> second.contains(entry),
    ensures
        first == second,
    decreases first.len() + second.len(),
{
    if first.len() == 0 {
        if second.len() > 0 {
            assert(second.contains(second[0]));
        }
        assert(first =~= second);
    } else if second.len() == 0 {
        assert(first.contains(first[0]));
    } else {
        let a = first.last();
        let b = second.last();
        assert(first.contains(a) && second.contains(b));
        assert(a == b) by {
            let k = second.index_of(a);
            let m = first.index_of(b);
            assert(second[k] == a && first[m] == b);
            if k < second.len() - 1 {
                assert(second[k] < second[second.len() - 1]);
            }
            if m < first.len() - 1 {
                assert(first[m] < first[first.len() - 1]);
            }
        }
        let fewer = first.drop_last();
        let others = second.drop_last();
        assert forall|entry: usize| fewer.contains(entry) <==> others.contains(entry) by {
            if fewer.contains(entry) {
                let k = fewer.index_of(entry);
                assert(first[k] == entry && first[k] < first[first.len() - 1]);
                assert(second.contains(entry));
                let m = second.index_of(entry);
                assert(others[m] == entry);
            }
            if others.contains(entry) {
                let k = others.index_of(entry);
                assert(second[k] == entry && second[k] < second[second.len() - 1]);
                assert(first.contains(entry));
                let m = first.index_of(entry);
                assert(fewer[m] == entry);
            }
        }
        ascending_lists_agree(fewer, others);
        assert(first =~= fewer.push(a));
        assert(second =~= others.push(b));
    }
}

/// The tracks that are repeated are found again by their paths once they were kept.
pub proof fn kept_repeat_is_restored(view: AppView, shown: PlaylistView)
    requires
        view.current() == Some(shown),
        shown.tracks.len() <= usize::MAX,
        playlist::paths_distinct(shown.tracks),
        index_set::ascending(view.selected_track_indexes),
        forall|i: int|
            0 <= i < view.selected_track_indexes.len() ==> #[trigger] view.selected_track_indexes[i]
                < shown.tracks.len(),
    ensures
        view.with_repeat_kept().with_repeat_restored().selected_track_indexes
            == view.selected_track_indexes,
{
    let indexes = view.selected_track_indexes;
    let kept = view.with_repeat_kept();
    let list = kept.current()->0;
    assert(list.tracks == shown.tracks);
    let holds = selection::is_repeated(list);
    let found = counting::indexes_where(list.tracks.len(), holds);
    counting::indexes_where_holds(list.tracks.len(), holds);
    assert forall|entry: usize| indexes.contains(entry) <==> found.contains(entry) by {
        if indexes.contains(entry) {
            let k = indexes.index_of(entry);
            assert(indexes[k] < shown.tracks.len());
            paths_at_list(shown.tracks, indexes, entry as int);
            assert(holds(entry as int));
        }
        if found.contains(entry) {
            let k = found.index_of(entry);
            assert(found[k] == entry);
            assert(holds(entry as int));
            paths_at_list(shown.tracks, indexes, entry as int);
        }
    }
    ascending_lists_agree(indexes, found);
}

// ---------------------------------------------------------------------------
// Playback and what is kept of it
// ---------------------------------------------------------------------------

/// Once playback was stopped, nothing plays: neither a track nor a station.
pub proof fn stopping_leaves_nothing_playing(view: AppView)
    ensures
        view.stopped().active_track_path is None,
        view.stopped().active_playlist_index is None,
        view.stopped().radio.active_index is None,
        view.stopped().pending_track_switch is None,
        view.stopped().last_playback is None,
{
}

/// What is written to disk is what would be written of it again, where there is one list for
/// temporary playback at most.
pub proof fn persisting_is_idempotent(state: StateView)
    requires
        state.playlists.len() <= usize::MAX,
        forall|i: int, j: int|
            0 <= i < j < state.playlists.len() ==> !((#[trigger] state.playlists[i]).kind
                == PlaylistKind::Temporary && (#[trigger] state.playlists[j]).kind
                == PlaylistKind::Temporary),
    ensures
        state::persisted_view(state::persisted_view(state)) == state::persisted_view(state),
{
    let lists = state.playlists;
    let is_temporary = |i: int| lists[i].kind == PlaylistKind::Temporary;
    counting::first_where_holds(lists.len(), is_temporary);
    let after = state::persisted_view(state);
    let kept = after.playlists;
    let stays = |i: int| kept[i].kind == PlaylistKind::Temporary;
    assert forall|i: int| 0 <= i < kept.len() implies !#[trigger] stays(i) by {
        match state::first_of_kind(lists, PlaylistKind::Temporary) {
            Some(index) => {
                assert(is_temporary(index as int));
                if lists.len() > 1 {
                    let rest = lists.remove(index as int);
                    assert(kept == rest);
                    let j = if i < index {
                        i
                    } else {
                        i + 1
                    };
                    assert(kept[i] == lists[j]);
                    if j < index {
                        assert(!is_temporary(j));
                    }
                }
            },
            None => {
                if lists.len() > 0 {
                    assert(!is_temporary(i));
                }
            },
        }
    }
    counting::first_where_none(kept.len(), stays);
}

/// What played when the application was left plays on in the next run: the same track of the
/// same playlist, from where it stood.
pub proof fn session_is_resumed(
    view: AppView,
    status: PlayerStatus,
    position_bits: u32,
    list: usize,
    track: usize,
    next: AppView,
    player: PlayerStatus,
)
    requires
        status.active(),
        !status.paused,
        view.radio.active_index is None,
        view.active_track_path is Some,
        view.active_playlist_index == Some(list),
        list < view.state.playlists.len() <= usize::MAX,
        lookup::position_of_present_path(
            view.state.playlists[list as int].tracks,
            view.active_track_path->0,
        ) == Some(track),
        state::first_of_kind(view.state.playlists, PlaylistKind::Temporary) is None,
        view.state.selected_playlist_index < view.state.playlists.len(),
        next.state == state::persisted_view(view.with_session(status, position_bits).state),
    ensures
        next.with_session_restored(player) == next.with_track_in_view(
            list,
            track,
        ).with_path_requested(
            view.state.playlists[list as int].tracks[track as int].path,
            Some(track),
            selection::at_least_zero(position_bits),
            player,
        ),
{
    let left = view.with_session(status, position_bits);
    let path = view.active_track_path->0;
    assert(left.state.playlists == view.state.playlists);
    assert(next.state == left.state);
    let last = next.state.playback_session;
    assert(last.source == "track"@);
    reveal_strlit("track");
    reveal_strlit("radio");
    assert("track"@.len() == 5 && "track"@[0] == 't');
    assert("radio"@[0] == 'r');
    assert("track"@ != "radio"@);
    assert(last.track_path == Some(path));
    assert(last.playlist_index == Some(list));
    let found = session::has_present_path(next.state.playlists, path);
    assert(found(list as int));
    assert(session::located_track(next.state.playlists, Some(list), path) == Some((list, track)));
}

} // verus!
