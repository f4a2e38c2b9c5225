//! What holds of the lists that are shown: rows, headings, menus, search results and drags.

use crate::app::AppView;
use crate::browsing_laws;
use crate::counting;
use crate::grouping;
use crate::index_set;
use crate::listing;
use crate::listing::EntryView;
use crate::lookup;
use crate::lookup::SyncTargetView;
use crate::paths;
use crate::playlist;
use crate::playlist::{PlaylistKind, PlaylistView};
use crate::selection;
use crate::submenu;
use crate::submenu::{SubmenuRequest, SubmenuView};
use crate::text;
use crate::track::TrackView;
use crate::track_list::HoveredRow;
use crate::track_menu;
use vstd::prelude::*;

verus! {

// ---------------------------------------------------------------------------
// Rows and headings
// ---------------------------------------------------------------------------

/// A row stands below the heading of its group, with only rows of that group between them; no row
/// is that of a hidden group.
pub proof fn row_stands_below_its_heading(
    tracks: Seq<TrackView>,
    visible: Seq<usize>,
    hidden: Seq<Seq<char>>,
    at: int,
)
    requires
        0 <= at < listing::list_entries(tracks, visible, true, hidden).len(),
        listing::list_entries(tracks, visible, true, hidden)[at] is TrackRow,
    ensures
        ({
            let entries = listing::list_entries(tracks, visible, true, hidden);
            let group = entries[at]->group;
            &&& entries[at]->index < tracks.len()
            &&& tracks[entries[at]->index as int].group == group
            &&& !hidden.contains(group)
            &&& exists|heading: int|
                0 <= heading < at && (#[trigger] entries[heading]) == (EntryView::GroupHeader {
                    heading: group,
                }) && forall|i: int|
                    heading < i <= at ==> (#[trigger] entries[i]) is TrackRow
                        && entries[i]->group == group
        }),
    decreases visible.len(),
{
    let entries = listing::list_entries(tracks, visible, true, hidden);
    let before = listing::list_entries(tracks, visible.drop_last(), true, hidden);
    if at < before.len() {
        row_stands_below_its_heading(tracks, visible.drop_last(), hidden, at);
        let group = before[at]->group;
        let heading = choose|heading: int|
            0 <= heading < at && (#[trigger] before[heading]) == (EntryView::GroupHeader {
                heading: group,
            }) && forall|i: int|
                heading < i <= at ==> (#[trigger] before[i]) is TrackRow && before[i]->group
                    == group;
        assert(entries[heading] == before[heading]);
        assert forall|i: int| heading < i <= at implies (#[trigger] entries[i]) is TrackRow
            && entries[i]->group == group by {
            assert(entries[i] == before[i]);
        }
    } else {
        let index = visible.last();
        let group = tracks[index as int].group;
        if listing::last_group(tracks, visible.drop_last()) != Some(group) {
            assert(entries[before.len() as int] == (EntryView::GroupHeader { heading: group }));
            assert(at == before.len() + 1);
        } else {
            assert(at == before.len());
            open_heading_is_last(tracks, visible.drop_last(), hidden, group);
            let heading = choose|heading: int|
                0 <= heading < before.len() && (#[trigger] before[heading]) == (
                EntryView::GroupHeader { heading: group }) && forall|i: int|
                    heading < i < before.len() ==> (#[trigger] before[i]) is TrackRow
                        && before[i]->group == group;
            assert(entries[heading] == before[heading]);
            assert forall|i: int| heading < i <= at implies (#[trigger] entries[i]) is TrackRow
                && entries[i]->group == group by {
                if i < at {
                    assert(entries[i] == before[i]);
                }
            }
        }
    }
}

/// Where the last visible track is of a group, the list ends with the heading of that group and
/// its rows.
proof fn open_heading_is_last(
    tracks: Seq<TrackView>,
    visible: Seq<usize>,
    hidden: Seq<Seq<char>>,
    group: Seq<char>,
)
    requires
        listing::last_group(tracks, visible) == Some(group),
    ensures
        ({
            let entries = listing::list_entries(tracks, visible, true, hidden);
            exists|heading: int|
                0 <= heading < entries.len() && (#[trigger] entries[heading]) == (
                EntryView::GroupHeader { heading: group }) && forall|i: int|
                    heading < i < entries.len() ==> (#[trigger] entries[i]) is TrackRow
                        && entries[i]->group == group
        }),
    decreases visible.len(),
{
    let entries = listing::list_entries(tracks, visible, true, hidden);
    let before = listing::list_entries(tracks, visible.drop_last(), true, hidden);
    let index = visible.last();
    if index >= tracks.len() {
        open_heading_is_last(tracks, visible.drop_last(), hidden, group);
    } else if listing::last_group(tracks, visible.drop_last()) != Some(group) {
        assert(entries[before.len() as int] == (EntryView::GroupHeader { heading: group }));
    } else {
        open_heading_is_last(tracks, visible.drop_last(), hidden, group);
        let heading = choose|heading: int|
            0 <= heading < before.len() && (#[trigger] before[heading]) == (
            EntryView::GroupHeader { heading: group }) && forall|i: int|
                heading < i < before.len() ==> (#[trigger] before[i]) is TrackRow
                    && before[i]->group == group;
        assert(entries[heading] == before[heading]);
        assert forall|i: int| heading < i < entries.len() implies (#[trigger] entries[i])
            is TrackRow && entries[i]->group == group by {
            if i < before.len() {
                assert(entries[i] == before[i]);
            }
        }
    }
}

/// A list without groups has a row for each visible track, and nothing else.
pub proof fn plain_list_has_rows_only(
    tracks: Seq<TrackView>,
    visible: Seq<usize>,
    hidden: Seq<Seq<char>>,
)
    requires
        forall|i: int| 0 <= i < visible.len() ==> (#[trigger] visible[i]) < tracks.len(),
    ensures
        ({
            let entries = listing::list_entries(tracks, visible, false, hidden);
            &&& entries.len() == visible.len()
            &&& forall|i: int|
                0 <= i < visible.len() ==> (#[trigger] entries[i]) == (EntryView::TrackRow {
                    index: visible[i],
                    group: tracks[visible[i] as int].group,
                })
        }),
    decreases visible.len(),
{
    if visible.len() > 0 {
        let rest = visible.drop_last();
        assert forall|i: int| 0 <= i < rest.len() implies (#[trigger] rest[i]) < tracks.len() by {
            assert(rest[i] == visible[i]);
        }
        plain_list_has_rows_only(tracks, rest, hidden);
        let entries = listing::list_entries(tracks, visible, false, hidden);
        let before = listing::list_entries(tracks, rest, false, hidden);
        assert forall|i: int| 0 <= i < visible.len() implies (#[trigger] entries[i]) == (
        EntryView::TrackRow { index: visible[i], group: tracks[visible[i] as int].group }) by {
            if i < rest.len() {
                assert(before[i] == entries[i]);
                assert(rest[i] == visible[i]);
            }
        }
    }
}

/// The entries lie one below the other without a gap, and each has some height.
pub proof fn entries_touch(entries: Seq<EntryView>, at: int)
    requires
        0 <= at,
        at + 1 < entries.len(),
    ensures
        listing::entry_top(entries, 0) == 0,
        listing::entry_top(entries, at) < listing::entry_top(entries, at + 1),
        entries.len() < 0x1_0000_0000 ==> listing::place_of_entry(entries, at).bottom
            == listing::place_of_entry(entries, at + 1).top,
{
}

/// A row shows a track as playing where its path is the one that plays, whatever the case of
/// letters; as selected where it is; and as a favorite where the favorites have its path.
pub proof fn row_shows_its_track(view: AppView, index: usize)
    requires
        view.state.selected_playlist_index < view.state.playlists.len(),
        index < view.state.playlists[view.state.selected_playlist_index as int].tracks.len(),
    ensures
        ({
            let shown = view.state.playlists[view.state.selected_playlist_index as int];
            let track = shown.tracks[index as int];
            let row = view.row_state(index);
            &&& row.playing <==> view.active_track_path is Some && text::lowercase(
                view.active_track_path->0,
            ) == text::lowercase(track.path)
            &&& row.missing == track.missing
            &&& row.repeated <==> view.selected_track_indexes.contains(index)
            &&& view.multi_selected_track_indexes.contains(index) ==> row.selected
            &&& view.multi_selected_track_indexes.len() == 0 ==> (row.selected
                <==> view.selected_track_index == Some(index))
            &&& view.multi_selected_track_indexes.len() > 0
                && !view.multi_selected_track_indexes.contains(index) ==> !row.selected
        }),
{
}

/// A row of the library stands for the playlist at its place: it counts its tracks, and offers to
/// remove it only where a user may.
pub proof fn library_row_shows_playlist(view: AppView, index: int)
    requires
        0 <= index < view.state.playlists.len() <= usize::MAX,
    ensures
        view.library_rows().len() == view.state.playlists.len(),
        ({
            let list = view.state.playlists[index];
            let row = view.library_rows()[index];
            &&& row.count_text == text::decimal(list.tracks.len()) + " track(s)"@
            &&& row.selected <==> view.state.selected_playlist_index == index
            &&& row.edited <==> view.browsing.editing_playlist_index == Some(index as usize)
            &&& row.has_actions <==> row.selected && list.kind != PlaylistKind::Favorites
                && list.kind != PlaylistKind::Temporary
            &&& row.label.len() == list.name.len() + 1 + " "@.len()
            &&& row.label.subrange(row.label.len() - list.name.len(), row.label.len() as int)
                == list.name
        }),
{
    let list = view.state.playlists[index];
    let row = view.library_rows()[index];
    assert(row.label.subrange(row.label.len() - list.name.len(), row.label.len() as int)
        =~= list.name);
}

// ---------------------------------------------------------------------------
// Repetition
// ---------------------------------------------------------------------------

/// Tracks that are repeated are so from then on, and all others as before; tracks that are no
/// longer repeated are not, and all others as before.
pub proof fn repetition_is_as_set(view: AppView, indexes: Seq<usize>, index: usize)
    requires
        index_set::ascending(view.selected_track_indexes),
    ensures
        view.with_repeated(indexes, true).selected_track_indexes.contains(index) <==> (
        indexes.contains(index) || view.selected_track_indexes.contains(index)),
        view.with_repeated(indexes, false).selected_track_indexes.contains(index) <==> (
        !indexes.contains(index) && view.selected_track_indexes.contains(index)),
        view.with_repeated(indexes, true).state.radio_stations == view.state.radio_stations,
{
    index_set::with_indexes_holds(view.selected_track_indexes, indexes);
    index_set::without_indexes_holds(view.selected_track_indexes, indexes);
}

/// The tracks of a group are the visible ones that are of it.
pub proof fn group_holds_its_tracks(view: AppView, group: Seq<char>, index: usize)
    requires
        view.state.selected_playlist_index < view.state.playlists.len(),
    ensures
        ({
            let shown = view.state.playlists[view.state.selected_playlist_index as int];
            view.visible_of_group(group).contains(index) <==> view.visible().contains(index)
                && index < shown.tracks.len() && shown.tracks[index as int].group == group
        }),
{
    let shown = view.state.playlists[view.state.selected_playlist_index as int];
    let keep = crate::track_list::is_of_group(shown.tracks, group);
    let visible = view.visible();
    let kept = visible.filter(keep);
    grouping::filter_entries(visible, keep);
    if visible.contains(index) && keep(index) {
        let k = visible.index_of(index);
        assert(keep(visible[k]));
        visible.lemma_filter_contains(keep, k);
    }
    if kept.contains(index) {
        let k = kept.index_of(index);
        assert(keep(kept[k]));
        assert(visible.contains(kept[k]));
    }
}

// ---------------------------------------------------------------------------
// Search results and drags
// ---------------------------------------------------------------------------

/// Search results are selected one after the other, and after the last the first again.
pub proof fn results_follow_each_other(view: AppView)
    requires
        view.state.selected_playlist_index < view.state.playlists.len(),
        view.state.playlists[view.state.selected_playlist_index as int].tracks.len() <= usize::MAX,
        view.browsing.search_cursor < view.visible().len(),
        !text::is_blank_text(view.browsing.track_search_query),
    ensures
        ({
            let once = view.with_next_result();
            let results = view.visible();
            let at = view.browsing.search_cursor as int;
            &&& once.selected_track_index == Some(results[at])
            &&& once.state == view.state
            &&& at + 1 < results.len() ==> once.browsing.search_cursor == at + 1
            &&& at + 1 == results.len() ==> once.browsing.search_cursor == 0
        }),
{
    let at = view.browsing.search_cursor as int;
    let count = view.visible().len() as int;
    let shown = view.state.playlists[view.state.selected_playlist_index as int];
    let holds = selection::is_visible(shown, text::trimmed(view.browsing.track_search_query));
    counting::indexes_where_holds(shown.tracks.len(), holds);
    browsing_laws::visible_fits(shown.tracks.len(), holds);
    assert(view.visible()[at] < shown.tracks.len());
    assert(at % count == at) by (nonlinear_arith)
        requires
            0 <= at < count,
    ;
    if at + 1 < count {
        assert((at + 1) % count == at + 1) by (nonlinear_arith)
            requires
                0 <= at + 1 < count,
        ;
    } else {
        assert((at + 1) % count == 0) by (nonlinear_arith)
            requires
                at + 1 == count,
                count > 0,
        ;
    }
}

/// A track that is let go over the upper half of a row is moved before it, and over the lower half
/// behind it; let go over itself it stays, and the drag ends in any case.
pub proof fn dragged_track_is_dropped(view: AppView, row: HoveredRow, from: usize)
    requires
        view.state.selected_playlist_index < view.state.playlists.len(),
        view.state.playlists[view.state.selected_playlist_index as int].tracks.len() <= usize::MAX,
        view.browsing.dragging_track_index == Some(from),
    ensures
        ({
            let shown = view.state.playlists[view.state.selected_playlist_index as int];
            let place = if !row.lower_half {
                row.index
            } else {
                match row.next_track {
                    Some(next) => next,
                    None => shown.tracks.len() as usize,
                }
            };
            let after = view.with_track_dragged(Some(row), true, false);
            let idle = view.with_drag(None, None);
            &&& place == from || place == from + 1 ==> after == idle && after.state == view.state
            &&& place != from && place != from + 1 ==> after == idle.with_track_moved_to(
                from,
                place,
            )
            &&& idle.browsing.dragging_track_index is None
            &&& idle.browsing.track_drop_target_index is None
            &&& view.with_track_dragged(Some(row), false, true).browsing.track_drop_target_index
                == Some(place)
            &&& view.with_track_dragged(Some(row), false, true).state == view.state
            &&& view.with_track_dragged(None, true, false) == idle
        }),
{
}

// ---------------------------------------------------------------------------
// Menus
// ---------------------------------------------------------------------------

/// A track can be moved by a place where there is one: the first not up, and the last not down.
pub proof fn track_moves_within_list(view: AppView, index: usize, up: isize, down: isize)
    requires
        view.state.selected_playlist_index < view.state.playlists.len(),
        view.state.playlists[view.state.selected_playlist_index as int].tracks.len()
            <= isize::MAX,
        index < view.state.playlists[view.state.selected_playlist_index as int].tracks.len(),
        up == -1,
        down == 1,
    ensures
        view.track_can_move(index, up) <==> index > 0,
        view.track_can_move(index, down) <==> index + 1
            < view.state.playlists[view.state.selected_playlist_index as int].tracks.len(),
{
}

/// The menu of a playlist offers what can be done with it: to remove it and to add files to it by
/// its kind, and to use its files while nothing else is done with files.
pub proof fn menu_fits_playlist(view: AppView, available: usize)
    requires
        view.state.selected_playlist_index < view.state.playlists.len(),
    ensures
        ({
            let shown = view.state.playlists[view.state.selected_playlist_index as int];
            let menu = view.playlist_menu(available);
            let busy = view.jobs.track_file_operation || view.jobs.folder_scan
                || view.jobs.library_sync;
            &&& menu.can_remove <==> shown.kind == PlaylistKind::Manual || shown.kind
                == PlaylistKind::Folder
            &&& menu.can_add_files <==> shown.kind == PlaylistKind::Manual || shown.kind
                == PlaylistKind::Favorites
            &&& menu.is_temporary <==> shown.kind == PlaylistKind::Temporary
            &&& shown.kind == PlaylistKind::Temporary ==> !menu.can_use_files && !menu.can_mix
                && !menu.can_sync
            &&& shown.kind != PlaylistKind::Temporary ==> (menu.can_sync <==> !busy)
            &&& shown.kind != PlaylistKind::Temporary ==> (menu.can_use_files <==> !busy
                && shown.tracks.len() > 0)
            &&& shown.kind != PlaylistKind::Temporary ==> (menu.can_mix <==> available >= 2
                && !view.jobs.dj_mix)
        }),
{
}

/// Tracks can be added to the favorites and to playlists that are made by hand, and to no others.
pub proof fn tracks_are_added_by_hand(playlists: Seq<PlaylistView>, count: nat, index: usize)
    requires
        count <= playlists.len() <= usize::MAX,
    ensures
        track_menu::playlists_to_add_to(playlists, count).contains(index) <==> index < count && (
        playlists[index as int].kind == PlaylistKind::Favorites || playlists[index as int].kind
            == PlaylistKind::Manual),
    decreases count,
{
    let all = track_menu::playlists_to_add_to(playlists, count);
    if count > 0 {
        let before = track_menu::playlists_to_add_to(playlists, (count - 1) as nat);
        tracks_are_added_by_hand(playlists, (count - 1) as nat, index);
        if before.contains(index) {
            let k = before.index_of(index);
            assert(all[k] == index);
        }
        if index == count - 1 && playlists[index as int].kind.takes_manual_tracks() {
            assert(all.last() == index);
        }
        if all.contains(index) {
            let k = all.index_of(index);
            if k < before.len() {
                assert(before[k] == index);
            }
        }
    }
}

/// Another playlist that has the path of a track is among those in which it is found, and every
/// one in which it is found has a track with the path that is named, by the same path or the same
/// file name.
pub proof fn track_is_found_elsewhere(
    playlists: Seq<PlaylistView>,
    shown: usize,
    path: Seq<char>,
    count: nat,
    index: usize,
    at: int,
)
    requires
        count <= playlists.len() <= usize::MAX,
        forall|i: int|
            0 <= i < playlists.len() ==> (#[trigger] playlists[i]).tracks.len() <= usize::MAX,
    ensures
        ({
            let found = track_menu::other_playlists_with(playlists, shown, path, count);
            &&& index < count && index != shown && playlist::has_path(
                playlists[index as int].tracks,
                path,
            ) ==> exists|i: int|
                0 <= i < found.len() && (#[trigger] found[i]).playlist_index == index
            &&& 0 <= at < found.len() ==> found[at].playlist_index < count
                && found[at].playlist_index != shown && found[at].playlist_name
                == playlists[found[at].playlist_index as int].name && playlist::has_path(
                playlists[found[at].playlist_index as int].tracks,
                found[at].track_path,
            ) && (text::lowercase(found[at].track_path) == text::lowercase(path)
                || lookup::same_file_name(found[at].track_path, path))
        }),
    decreases count,
{
    let found = track_menu::other_playlists_with(playlists, shown, path, count);
    if count > 0 {
        let before = track_menu::other_playlists_with(playlists, shown, path, (count - 1) as nat);
        track_is_found_elsewhere(playlists, shown, path, (count - 1) as nat, index, at);
        let list = playlists[count - 1];
        lookup::path_is_found(list.tracks, path);
        name_is_found(list.tracks, path);
        if index < count && index != shown && playlist::has_path(
            playlists[index as int].tracks,
            path,
        ) {
            if index < count - 1 {
                let i = choose|i: int|
                    0 <= i < before.len() && (#[trigger] before[i]).playlist_index == index;
                assert(found[i] == before[i]);
            } else {
                assert(found[before.len() as int].playlist_index == index);
            }
        }
        if 0 <= at < found.len() {
            if at < before.len() {
                assert(found[at] == before[at]);
            } else {
                let position = lookup::position_of_path_or_name(list.tracks, path)->0;
                assert(list.tracks[position as int].path == found[at].track_path);
            }
        }
    }
}

/// A track that is found by its path or its file name is there, and has the one or the other.
proof fn name_is_found(tracks: Seq<TrackView>, path: Seq<char>)
    requires
        tracks.len() <= usize::MAX,
    ensures
        lookup::position_of_path_or_name(tracks, path) matches Some(position) ==> position
            < tracks.len() && (paths::same_key(tracks[position as int].path, path)
            || lookup::same_file_name(tracks[position as int].path, path)),
{
    lookup::path_is_found(tracks, path);
    counting::first_where_holds(
        tracks.len(),
        |i: int| lookup::same_file_name(tracks[i].path, path),
    );
}

/// The playlist that is looked at again is made from the folder that was looked at, and has its
/// name where one with that name is left.
pub proof fn looked_at_playlist_is_found_again(
    playlists: Seq<PlaylistView>,
    target: SyncTargetView,
    index: int,
)
    requires
        playlists.len() <= usize::MAX,
        0 <= index < playlists.len(),
    ensures
        lookup::resolved_target(playlists, target) matches Some(found) ==> found
            < playlists.len() && playlists[found as int].kind == PlaylistKind::Folder && (
        playlists[found as int].source_folder matches Some(source) && text::lowercase(source)
            == text::lowercase(target.source_folder)),
        playlists[index].kind == PlaylistKind::Folder && playlists[index].name
            == target.playlist_name && playlists[index].source_folder == Some(
            target.source_folder,
        ) ==> (lookup::resolved_target(playlists, target) matches Some(found)
            && playlists[found as int].name == target.playlist_name),
        playlists[index].kind == PlaylistKind::Folder && playlists[index].name
            == target.playlist_name && playlists[index].source_folder == Some(
            target.source_folder,
        ) && target.playlist_index == index ==> lookup::resolved_target(playlists, target)
            == Some(target.playlist_index),
{
    let matches = |i: int| lookup::is_target(playlists[i], target);
    let same_folder = |i: int| lookup::has_source(playlists[i], target.source_folder);
    counting::first_where_holds(playlists.len(), matches);
    counting::first_where_holds(playlists.len(), same_folder);
    if lookup::is_target(playlists[index], target) {
        assert(matches(index));
    }
    if target.playlist_index < playlists.len() {
        assert(matches(target.playlist_index as int) == lookup::is_target(
            playlists[target.playlist_index as int],
            target,
        ));
    }
}

/// After tracks were taken out, the same place is selected, or the last where there is no such
/// place any more.
pub proof fn selection_stays_in_list(index: usize, length: nat)
    requires
        length <= usize::MAX,
    ensures
        lookup::next_valid(index, length) is None <==> length == 0,
        lookup::next_valid(index, length) matches Some(next) ==> next < length && next <= index
            && (index < length ==> next == index) && (index >= length ==> next + 1 == length),
{
}

/// A menu of playlists closes where there is nothing left to choose in it, and another one stays;
/// the pointer over its entry opens it with what can be chosen.
pub proof fn menu_opens_with_choices(
    open: Option<SubmenuView>,
    request: SubmenuRequest,
    now: u64,
)
    ensures
        ({
            let after = submenu::shown_menu(open, request, now);
            let same = open is Some && paths::compared_parts(open->0.owner_path)
                == paths::compared_parts(request.owner_path@) && open->0.kind == request.kind;
            &&& request.entries@.len() == 0 && same ==> after is None
            &&& !same && !(request.hovered && request.entries@.len() > 0) ==> after == open
            &&& request.hovered && request.entries@.len() > 0 ==> (after matches Some(menu)
                && menu.entries == request.entries@ && menu.owner_path == request.owner_path@
                && menu.kind == request.kind && menu.last_hovered_at == now)
            &&& same && request.in_menu && request.entries@.len() > 0 ==> (after matches Some(menu)
                && menu.last_hovered_at == now && menu.entries == request.entries@)
        }),
{
}

} // verus!
