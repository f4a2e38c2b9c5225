//! What holds of the order of tracks, stations and playlists that a user changes.

use crate::app::AppView;
use crate::lookup;
use crate::moving;
use crate::ordering;
use crate::playlist;
use crate::playlist::{PlaylistKind, PlaylistView};
use crate::settings::RadioStationView;
use crate::sorting;
use crate::text;
use crate::track;
use crate::track::{AudioFileView, TrackView};
use vstd::prelude::*;

verus! {

// ---------------------------------------------------------------------------
// Moving entries
// ---------------------------------------------------------------------------

/// An entry that is moved stands before the entry that it was dropped on, or at the end; the
/// others keep their order.
pub proof fn moved_entry_stands_at_target<T>(entries: Seq<T>, from: int, to: int)
    requires
        0 <= from < entries.len(),
        0 <= to <= entries.len(),
    ensures
        ({
            let after = moving::moved(entries, from, to);
            let place = if from < to {
                to - 1
            } else {
                to
            };
            &&& after.len() == entries.len()
            &&& after[place] == entries[from]
            &&& after.remove(place) == entries.remove(from)
            &&& to < entries.len() && to != from ==> after[place + 1] == entries[to]
        }),
{
    let after = moving::moved(entries, from, to);
    let place = if from < to {
        to - 1
    } else {
        to
    };
    assert(after.remove(place) =~= entries.remove(from));
}

/// The neighbor is the position before for a step up and the one after for a step down; at either
/// end there is none, and the position itself counts.
pub proof fn neighbor_is_one_step_away(index: usize, delta: isize, count: nat)
    requires
        index < count <= usize::MAX,
    ensures
        delta < 0 && index > 0 ==> moving::neighbor(index, delta, count) == index - 1,
        delta < 0 && index == 0 ==> moving::neighbor(index, delta, count) == 0,
        delta >= 0 && index + 1 < count ==> moving::neighbor(index, delta, count) == index + 1,
        delta >= 0 && index + 1 == count ==> moving::neighbor(index, delta, count) == index,
{
}

/// What the application is after the tracks of the shown playlist were put in another order.
proof fn reordered_tracks_are_shown(
    view: AppView,
    tracks: Seq<TrackView>,
    undo: bool,
    status: Seq<char>,
)
    requires
        view.state.selected_playlist_index < view.state.playlists.len(),
    ensures
        ({
            let after = view.with_tracks_reordered(tracks, undo, status);
            let at = view.state.selected_playlist_index as int;
            &&& after.state.selected_playlist_index == view.state.selected_playlist_index
            &&& after.state.playlists.len() == view.state.playlists.len()
            &&& after.state.playlists[at].tracks == tracks
            &&& forall|other: int|
                0 <= other < view.state.playlists.len() && other != at ==> (
                #[trigger] after.state.playlists[other]).tracks
                    == view.state.playlists[other].tracks
            &&& after.active_track_path == view.active_track_path
        }),
{
    let kept = view.with_repeat_kept();
    assert(kept.current() is Some);
    let pushed = if undo {
        kept.with_playlist_undo()
    } else {
        kept
    };
    assert(pushed.state == kept.state);
    let shown = pushed.current()->0;
    let changed = pushed.with_current(PlaylistView { tracks, ..shown });
    let found = changed.with_selection_found(kept.selected_path());
    assert(found.state == changed.state);
}

/// A track that is moved in the shown playlist stands before the track that it was dropped on, or
/// at the end; the others keep their order, and the other playlists their tracks.
pub proof fn moved_track_stands_at_target(view: AppView, from: usize, to: usize)
    requires
        view.state.selected_playlist_index < view.state.playlists.len(),
        from < view.state.playlists[view.state.selected_playlist_index as int].tracks.len(),
        to <= view.state.playlists[view.state.selected_playlist_index as int].tracks.len(),
    ensures
        ({
            let at = view.state.selected_playlist_index as int;
            let was = view.state.playlists[at].tracks;
            let after = view.with_track_moved_to(from, to);
            let kept = after.state.playlists[at].tracks;
            let place = if from < to {
                to - 1
            } else {
                to as int
            };
            &&& kept.len() == was.len()
            &&& kept[place] == was[from as int]
            &&& kept.remove(place) == was.remove(from as int)
            &&& forall|other: int|
                0 <= other < view.state.playlists.len() && other != at ==> (
                #[trigger] after.state.playlists[other]).tracks
                    == view.state.playlists[other].tracks
            &&& after.active_track_path == view.active_track_path
        }),
{
    let was = view.state.playlists[view.state.selected_playlist_index as int].tracks;
    moved_entry_stands_at_target(was, from as int, to as int);
    reordered_tracks_are_shown(
        view,
        moving::moved(was, from as int, to as int),
        true,
        "Moved track in playlist order."@,
    );
}

/// A track that is moved by one step changes places with the track before or after it; at either
/// end of the playlist nothing moves.
pub proof fn stepped_track_changes_places(view: AppView, index: usize, delta: isize)
    requires
        view.state.selected_playlist_index < view.state.playlists.len(),
        view.state.playlists[view.state.selected_playlist_index as int].tracks.len() <= usize::MAX,
        index < view.state.playlists[view.state.selected_playlist_index as int].tracks.len(),
    ensures
        ({
            let at = view.state.selected_playlist_index as int;
            let was = view.state.playlists[at].tracks;
            let after = view.with_track_moved(index, delta);
            let kept = after.state.playlists[at].tracks;
            let place = if delta < 0 {
                index - 1
            } else {
                index + 1
            };
            &&& kept.len() == was.len()
            &&& 0 <= place < was.len() ==> kept[place] == was[index as int] && kept[index as int]
                == was[place]
            &&& !(0 <= place < was.len()) ==> kept == was
            &&& forall|i: int|
                0 <= i < was.len() && i != index && i != place ==> #[trigger] kept[i] == was[i]
        }),
{
    let was = view.state.playlists[view.state.selected_playlist_index as int].tracks;
    neighbor_is_one_step_away(index, delta, was.len());
    let to = moving::neighbor(index, delta, was.len());
    reordered_tracks_are_shown(
        view,
        moving::swapped(was, index as int, to as int),
        true,
        "Moved track in playlist order."@,
    );
}

/// After the shown tracks were put in another order the selected track is found again by its
/// path, and so is the playing one.
pub proof fn selection_follows_its_track(view: AppView, shown: PlaylistView, path: Seq<char>)
    requires
        view.state.selected_playlist_index < view.state.playlists.len(),
        view.state.playlists[view.state.selected_playlist_index as int] == shown,
        shown.tracks.len() <= usize::MAX,
        playlist::has_path(shown.tracks, path),
    ensures
        ({
            let after = view.with_selection_found(Some(path));
            &&& after.selected_track_index matches Some(index)
            &&& index < shown.tracks.len()
            &&& text::lowercase(shown.tracks[index as int].path) == text::lowercase(path)
            &&& after.state == view.state
        }),
        view.active_playlist_index == Some(view.state.selected_playlist_index)
            && view.active_track_path == Some(path) ==> {
            let after = view.with_selection_found(Some(path));
            &&& after.active_track_index matches Some(index)
            &&& index < shown.tracks.len()
            &&& text::lowercase(shown.tracks[index as int].path) == text::lowercase(path)
        },
{
    lookup::path_is_found(shown.tracks, path);
}

// ---------------------------------------------------------------------------
// Sorting
// ---------------------------------------------------------------------------

/// What a stable sort is made of: the same entries, each once, in order.
proof fn sorted_is_arranged<V>(result: Seq<V>, items: Seq<V>, at_most: spec_fn(V, V) -> bool)
    requires
        sorting::is_stable_sort(result, items, at_most),
    ensures
        result.len() == items.len(),
        result.to_multiset() == items.to_multiset(),
        forall|i: int, j: int|
            0 <= i < j < result.len() ==> at_most(#[trigger] result[i], #[trigger] result[j]),
{
    sorting::stable_sort_keeps_items(result, items, at_most);
    let order = choose|order: Seq<usize>| #[trigger]
        sorting::is_stable_order(order, items, at_most) && result == sorting::arranged(
            items,
            order,
        );
    assert forall|i: int, j: int| 0 <= i < j < result.len() implies at_most(
        #[trigger] result[i],
        #[trigger] result[j],
    ) by {
        assert(sorting::sorts_before(items, at_most, order[i] as int, order[j] as int));
    }
}

/// Every list of tracks has a stable sort in reversed order.
proof fn reversed_sort_holds(tracks: Seq<TrackView>)
    requires
        tracks.len() <= usize::MAX,
    ensures
        sorting::is_stable_sort(
            sorting::sorted(tracks, playlist::reversed_track_order()),
            tracks,
            playlist::reversed_track_order(),
        ),
{
    let at_most = playlist::reversed_track_order();
    assert forall|left: TrackView, right: TrackView| #[trigger]
        at_most(left, right) || at_most(right, left) by {
        track::rank_order_total(track::track_rank(left), track::track_rank(right));
    }
    assert forall|first: TrackView, second: TrackView, third: TrackView| #[trigger]
        at_most(first, second) && #[trigger] at_most(second, third) implies at_most(
        first,
        third,
    ) by {
        track::rank_order_transitive(
            track::track_rank(third),
            track::track_rank(second),
            track::track_rank(first),
        );
    }
    sorting::stable_sort_exists(tracks, at_most);
}

/// Sorting the shown playlist keeps its tracks, each once, and puts them in the order of their
/// groups, and within a group of their titles, whatever the case of letters: from A to Z, or from
/// Z to A.
pub proof fn sorted_playlist_is_in_order(view: AppView, ascending: bool)
    requires
        view.state.selected_playlist_index < view.state.playlists.len(),
        view.state.playlists[view.state.selected_playlist_index as int].tracks.len() <= usize::MAX,
    ensures
        ({
            let at = view.state.selected_playlist_index as int;
            let was = view.state.playlists[at].tracks;
            let after = view.with_tracks_sorted(ascending);
            let kept = after.state.playlists[at].tracks;
            &&& kept.to_multiset() == was.to_multiset()
            &&& kept.len() == was.len()
            &&& forall|i: int, j: int|
                #![trigger kept[i], kept[j]]
                0 <= i < j < kept.len() ==> {
                    let first = if ascending {
                        kept[i]
                    } else {
                        kept[j]
                    };
                    let second = if ascending {
                        kept[j]
                    } else {
                        kept[i]
                    };
                    &&& !text::text_before(
                        text::lowercase(second.group),
                        text::lowercase(first.group),
                    )
                    &&& text::lowercase(second.group) == text::lowercase(first.group)
                        ==> !text::text_before(
                        text::lowercase(second.title),
                        text::lowercase(first.title),
                    )
                }
            &&& forall|other: int|
                0 <= other < view.state.playlists.len() && other != at ==> (
                #[trigger] after.state.playlists[other]).tracks
                    == view.state.playlists[other].tracks
        }),
{
    let at = view.state.selected_playlist_index as int;
    let was = view.state.playlists[at].tracks;
    let chosen = if ascending {
        playlist::track_order()
    } else {
        playlist::reversed_track_order()
    };
    let kept = sorting::sorted(was, chosen);
    playlist::sorted_tracks_hold(was);
    reversed_sort_holds(was);
    sorted_is_arranged(kept, was, chosen);
    reordered_tracks_are_shown(
        view,
        kept,
        was.len() > 1,
        if ascending {
            "Sorted current playlist A to Z."@
        } else {
            "Sorted current playlist Z to A."@
        },
    );
    assert forall|i: int, j: int|
        #![trigger kept[i], kept[j]]
        0 <= i < j < kept.len() implies {
        let first = if ascending {
            kept[i]
        } else {
            kept[j]
        };
        let second = if ascending {
            kept[j]
        } else {
            kept[i]
        };
        &&& !text::text_before(text::lowercase(second.group), text::lowercase(first.group))
        &&& text::lowercase(second.group) == text::lowercase(first.group) ==> !text::text_before(
            text::lowercase(second.title),
            text::lowercase(first.title),
        )
    } by {
        assert(chosen(kept[i], kept[j]));
        let first = if ascending {
            kept[i]
        } else {
            kept[j]
        };
        let second = if ascending {
            kept[j]
        } else {
            kept[i]
        };
        assert(track::track_at_most(first, second));
        text::text_order_total(text::lowercase(first.group), text::lowercase(second.group));
        text::text_order_total(text::lowercase(first.title), text::lowercase(second.title));
    }
}

/// Every list of stations has a stable sort, in either order.
proof fn station_sort_holds(stations: Seq<RadioStationView>)
    requires
        stations.len() <= usize::MAX,
    ensures
        sorting::is_stable_sort(
            sorting::sorted(stations, ordering::station_order()),
            stations,
            ordering::station_order(),
        ),
        sorting::is_stable_sort(
            sorting::sorted(stations, ordering::reversed_station_order()),
            stations,
            ordering::reversed_station_order(),
        ),
{
    let at_most = ordering::station_order();
    let reversed = ordering::reversed_station_order();
    assert forall|left: RadioStationView, right: RadioStationView| #[trigger]
        at_most(left, right) || at_most(right, left) by {
        text::text_order_total(text::lowercase(left.name), text::lowercase(right.name));
        text::text_order_total(left.url, right.url);
    }
    assert forall|left: RadioStationView, right: RadioStationView| #[trigger]
        reversed(left, right) || reversed(right, left) by {
        assert(at_most(left, right) || at_most(right, left));
    }
    assert forall|first: RadioStationView, second: RadioStationView, third: RadioStationView|
        #[trigger]
        at_most(first, second) && #[trigger] at_most(second, third) implies at_most(
        first,
        third,
    ) by {
        stations_in_order(first, second, third);
    }
    assert forall|first: RadioStationView, second: RadioStationView, third: RadioStationView|
        #[trigger]
        reversed(first, second) && #[trigger] reversed(second, third) implies reversed(
        first,
        third,
    ) by {
        stations_in_order(third, second, first);
    }
    sorting::stable_sort_exists(stations, at_most);
    sorting::stable_sort_exists(stations, reversed);
}

/// The order of stations is transitive.
proof fn stations_in_order(
    first: RadioStationView,
    second: RadioStationView,
    third: RadioStationView,
)
    requires
        ordering::station_at_most(first, second),
        ordering::station_at_most(second, third),
    ensures
        ordering::station_at_most(first, third),
{
    let a = text::lowercase(first.name);
    let b = text::lowercase(second.name);
    let c = text::lowercase(third.name);
    text::text_order_total(a, b);
    text::text_order_total(b, c);
    text::text_order_total(a, c);
    text::text_order_total(first.url, second.url);
    text::text_order_total(second.url, third.url);
    text::text_order_total(first.url, third.url);
    if text::text_before(a, b) && text::text_before(b, c) {
        text::text_order_transitive(a, b, c);
    }
    if text::text_before(first.url, second.url) && text::text_before(second.url, third.url) {
        text::text_order_transitive(first.url, second.url, third.url);
    }
}

/// Sorting the stations keeps them, each once, and puts them in the order of their names, whatever
/// the case of letters; the playing station is found again by its address.
pub proof fn sorted_stations_are_in_order(view: AppView, ascending: bool)
    requires
        view.state.radio_stations.len() <= usize::MAX,
    ensures
        ({
            let was = view.state.radio_stations;
            let after = view.with_stations_sorted(ascending);
            let kept = after.state.radio_stations;
            &&& kept.to_multiset() == was.to_multiset()
            &&& forall|i: int, j: int|
                #![trigger kept[i], kept[j]]
                0 <= i < j < kept.len() ==> if ascending {
                    !text::text_before(
                        text::lowercase(kept[j].name),
                        text::lowercase(kept[i].name),
                    )
                } else {
                    !text::text_before(
                        text::lowercase(kept[i].name),
                        text::lowercase(kept[j].name),
                    )
                }
            &&& view.radio.active_index matches Some(index) ==> index < was.len() ==> {
                &&& after.radio.active_index matches Some(place)
                &&& place < kept.len()
                &&& text::lowercase(kept[place as int].url) == text::lowercase(
                    was[index as int].url,
                )
            }
        }),
{
    let was = view.state.radio_stations;
    let chosen = if ascending {
        ordering::station_order()
    } else {
        ordering::reversed_station_order()
    };
    let kept = sorting::sorted(was, chosen);
    station_sort_holds(was);
    sorted_is_arranged(kept, was, chosen);
    assert forall|i: int, j: int|
        #![trigger kept[i], kept[j]]
        0 <= i < j < kept.len() implies if ascending {
        !text::text_before(text::lowercase(kept[j].name), text::lowercase(kept[i].name))
    } else {
        !text::text_before(text::lowercase(kept[i].name), text::lowercase(kept[j].name))
    } by {
        assert(chosen(kept[i], kept[j]));
        text::text_order_total(text::lowercase(kept[i].name), text::lowercase(kept[j].name));
    }
    if let Some(index) = view.radio.active_index {
        if index < was.len() {
            station_is_found_again(was, kept, index as int);
        }
    }
}

/// Among stations with the same entries a station is found by its address.
proof fn station_is_found_again(
    was: Seq<RadioStationView>,
    kept: Seq<RadioStationView>,
    index: int,
)
    requires
        was.to_multiset() == kept.to_multiset(),
        0 <= index < was.len(),
        kept.len() <= usize::MAX,
    ensures
        lookup::position_of_url(kept, was[index].url) matches Some(place) && place < kept.len()
            && text::lowercase(kept[place as int].url) == text::lowercase(was[index].url),
{
    assert(was.contains(was[index]));
    crate::sync_laws::contains_by_multiset(was, kept, was[index]);
    let k = kept.index_of(was[index]);
    let holds = |i: int| text::lowercase(kept[i].url) == text::lowercase(was[index].url);
    assert(holds(k));
    crate::counting::first_where_holds(kept.len(), holds);
}

/// A station that is moved stands before the station that it was dropped on, or at the end; the
/// others keep their order.
pub proof fn moved_station_stands_at_target(view: AppView, from: usize, to: usize)
    requires
        from < view.state.radio_stations.len(),
        to <= view.state.radio_stations.len(),
    ensures
        ({
            let was = view.state.radio_stations;
            let kept = view.with_station_moved_to(from, to).state.radio_stations;
            let place = if from < to {
                to - 1
            } else {
                to as int
            };
            &&& kept.len() == was.len()
            &&& kept[place] == was[from as int]
            &&& kept.remove(place) == was.remove(from as int)
        }),
{
    moved_entry_stands_at_target(view.state.radio_stations, from as int, to as int);
}

/// A playlist that is moved by one step changes places with the one before or after it, and the
/// shown playlist is still the shown one.
pub proof fn stepped_playlist_changes_places(view: AppView, from: usize, delta: isize)
    requires
        from < view.state.playlists.len() <= usize::MAX,
        view.state.selected_playlist_index < view.state.playlists.len(),
    ensures
        ({
            let was = view.state.playlists;
            let after = view.with_playlist_moved(from, delta);
            let kept = after.state.playlists;
            let place = if delta < 0 {
                from - 1
            } else {
                from + 1
            };
            &&& kept.len() == was.len()
            &&& 0 <= place < was.len() ==> kept[place].tracks == was[from as int].tracks
                && kept[place].name == was[from as int].name && kept[from as int].tracks
                == was[place].tracks && kept[from as int].name == was[place].name
            &&& !(0 <= place < was.len()) ==> after == view
            &&& forall|i: int|
                0 <= i < was.len() && i != from && i != place ==> (#[trigger] kept[i]).tracks
                    == was[i].tracks && kept[i].name == was[i].name
            &&& after.state.selected_playlist_index < kept.len()
            &&& kept[after.state.selected_playlist_index as int].name
                == was[view.state.selected_playlist_index as int].name
        }),
{
    neighbor_is_one_step_away(from, delta, view.state.playlists.len());
}

/// A change of order that was undone is forgotten, so that the one before it is undone next; where
/// there is none, nothing changes.
pub proof fn undone_change_is_forgotten(view: AppView)
    ensures
        view.order_undo_stack.len() > 0 ==> view.undone().order_undo_stack
            == view.order_undo_stack.drop_last(),
        view.order_undo_stack.len() == 0 ==> view.undone().state == view.state
            && view.undone().order_undo_stack == view.order_undo_stack,
{
}

/// A file that is added to a playlist other than the favorites takes its place in the order of
/// groups, and within a group of titles; among the favorites it comes first.
pub proof fn added_file_takes_its_place(
    list: PlaylistView,
    file: AudioFileView,
    root: Option<Seq<char>>,
    depth: nat,
    i: int,
    j: int,
)
    requires
        list.tracks.len() < usize::MAX,
        !playlist::has_path(list.tracks, file.path),
        0 <= i < j < list.with_file(file, root, depth).tracks.len(),
    ensures
        ({
            let after = list.with_file(file, root, depth).tracks;
            &&& after.len() == list.tracks.len() + 1
            &&& list.kind == PlaylistKind::Favorites ==> after[0].path == file.path
            &&& list.kind != PlaylistKind::Favorites ==> !text::text_before(
                text::lowercase(after[j].group),
                text::lowercase(after[i].group),
            ) && (text::lowercase(after[j].group) == text::lowercase(after[i].group)
                ==> !text::text_before(
                text::lowercase(after[j].title),
                text::lowercase(after[i].title),
            ))
        }),
{
    let after = list.with_file(file, root, depth).tracks;
    if list.kind != PlaylistKind::Favorites {
        let grown = list.tracks.push(track::new_track(file, root, depth));
        let at_most = playlist::track_order();
        playlist::sorted_tracks_hold(grown);
        sorted_is_arranged(after, grown, at_most);
        assert(at_most(after[i], after[j]));
        text::text_order_total(
            text::lowercase(after[i].group),
            text::lowercase(after[j].group),
        );
        text::text_order_total(
            text::lowercase(after[i].title),
            text::lowercase(after[j].title),
        );
    }
}

} // verus!
