//! What holds of the tracks and the playlists that a user adds, removes and deletes.

use crate::app::AppView;
use crate::counting;
use crate::file_operations;
use crate::grouping;
use crate::membership;
use crate::paths;
use crate::playlist;
use crate::playlist::{PlaylistKind, PlaylistView};
use crate::sorting;
use crate::sync_laws;
use crate::text;
use crate::text_laws;
use crate::track;
use crate::track::{AudioFileView, TrackView};
use crate::track_files;
use vstd::prelude::*;
use vstd::string::*;

verus! {

// ---------------------------------------------------------------------------
// Lemmas
// ---------------------------------------------------------------------------

/// What is kept of the tracks without those of some paths: exactly the tracks of other paths,
/// in order.
proof fn kept_without_paths(tracks: Seq<TrackView>, removed: Seq<Seq<char>>)
    ensures
        ({
            let kept = tracks.filter(membership::has_no_path_of(removed));
            &&& forall|j: int, k: int|
                #![trigger kept[j], removed[k]]
                0 <= j < kept.len() && 0 <= k < removed.len() ==> text::lowercase(kept[j].path)
                    != text::lowercase(removed[k])
            &&& forall|j: int| 0 <= j < kept.len() ==> tracks.contains(#[trigger] kept[j])
            &&& forall|i: int|
                0 <= i < tracks.len() && (forall|k: int|
                    0 <= k < removed.len() ==> text::lowercase(#[trigger] removed[k])
                        != text::lowercase(tracks[i].path)) ==> kept.contains(#[trigger] tracks[i])
        }),
{
    let keep = membership::has_no_path_of(removed);
    let kept = tracks.filter(keep);
    grouping::filter_entries(tracks, keep);
    assert forall|j: int, k: int|
        #![trigger kept[j], removed[k]]
        0 <= j < kept.len() && 0 <= k < removed.len() implies text::lowercase(kept[j].path)
        != text::lowercase(removed[k]) by {
        assert(keep(kept[j]));
        if text::lowercase(kept[j].path) == text::lowercase(removed[k]) {
            assert(paths::same_key(removed[k], kept[j].path));
        }
    }
    assert forall|i: int|
        0 <= i < tracks.len() && (forall|k: int|
            0 <= k < removed.len() ==> text::lowercase(#[trigger] removed[k]) != text::lowercase(
                tracks[i].path,
            )) implies kept.contains(#[trigger] tracks[i]) by {
        assert(keep(tracks[i]));
        tracks.lemma_filter_contains(keep, i);
    }
}

/// Adding a file keeps the paths that were there and adds that of the file.
proof fn file_adds_its_path(
    before: PlaylistView,
    file: AudioFileView,
    root: Option<Seq<char>>,
    depth: nat,
    path: Seq<char>,
)
    requires
        before.tracks.len() < usize::MAX,
    ensures
        playlist::has_path(before.with_file(file, root, depth).tracks, path)
            <==> playlist::has_path(before.tracks, path) || text::lowercase(path)
            == text::lowercase(file.path),
        before.with_file(file, root, depth).tracks.len() <= before.tracks.len() + 1,
        before.with_file(file, root, depth).kind == before.kind,
{
    let after = before.with_file(file, root, depth).tracks;
    if playlist::has_path(before.tracks, file.path) {
        if text::lowercase(path) == text::lowercase(file.path) {
            let i = choose|i: int|
                0 <= i < before.tracks.len() && paths::same_key(
                    #[trigger] before.tracks[i].path,
                    file.path,
                );
            assert(paths::same_key(before.tracks[i].path, path));
        }
    } else if before.kind == PlaylistKind::Favorites {
        let numbered = playlist::numbered_favorites(before.tracks);
        assert(after.len() == numbered.len() + 1);
        if playlist::has_path(after, path) {
            let i = choose|i: int|
                0 <= i < after.len() && paths::same_key(#[trigger] after[i].path, path);
            if i > 0 {
                assert(after[i] == numbered[i - 1]);
                assert(paths::same_key(before.tracks[i - 1].path, path));
            }
        }
        if playlist::has_path(before.tracks, path) {
            let i = choose|i: int|
                0 <= i < before.tracks.len() && paths::same_key(
                    #[trigger] before.tracks[i].path,
                    path,
                );
            assert(after[i + 1] == numbered[i]);
            assert(paths::same_key(after[i + 1].path, path));
        }
        if text::lowercase(path) == text::lowercase(file.path) {
            assert(paths::same_key(after[0].path, path));
        }
    } else {
        let added = track::new_track(file, root, depth);
        let grown = before.tracks.push(added);
        playlist::sorted_tracks_hold(grown);
        sorting::stable_sort_keeps_items(after, grown, playlist::track_order());
        let order = choose|order: Seq<usize>| #[trigger]
            sorting::is_stable_order(order, grown, playlist::track_order()) && after
                == sorting::arranged(grown, order);
        assert(after.len() == grown.len());
        if playlist::has_path(after, path) {
            let i = choose|i: int|
                0 <= i < after.len() && paths::same_key(#[trigger] after[i].path, path);
            assert(after.contains(after[i]));
            sync_laws::contains_by_multiset(after, grown, after[i]);
            let k = grown.index_of(after[i]);
            if k < before.tracks.len() {
                assert(paths::same_key(before.tracks[k].path, path));
            }
        }
        if playlist::has_path(before.tracks, path) {
            let i = choose|i: int|
                0 <= i < before.tracks.len() && paths::same_key(
                    #[trigger] before.tracks[i].path,
                    path,
                );
            assert(grown[i] == before.tracks[i]);
            assert(grown.contains(grown[i]));
            sync_laws::contains_by_multiset(after, grown, grown[i]);
            let k = after.index_of(grown[i]);
            assert(paths::same_key(after[k].path, path));
        }
        if text::lowercase(path) == text::lowercase(file.path) {
            assert(grown[grown.len() - 1] == added);
            assert(grown.contains(added));
            sync_laws::contains_by_multiset(after, grown, added);
            let k = after.index_of(added);
            assert(paths::same_key(after[k].path, path));
        }
    }
}

/// Adding files keeps the paths that were there and adds those of the files.
pub(crate) proof fn files_add_their_paths(
    before: PlaylistView,
    files: Seq<AudioFileView>,
    root: Option<Seq<char>>,
    depth: nat,
    path: Seq<char>,
)
    requires
        before.tracks.len() + files.len() <= usize::MAX,
    ensures
        playlist::has_path(before.with_files(files, root, depth).0.tracks, path)
            <==> playlist::has_path(before.tracks, path) || exists|k: int|
            0 <= k < files.len() && text::lowercase(#[trigger] files[k].path) == text::lowercase(
                path,
            ),
        before.with_files(files, root, depth).0.tracks.len() <= before.tracks.len() + files.len(),
        before.with_files(files, root, depth).0.kind == before.kind,
    decreases files.len(),
{
    if files.len() > 0 {
        let rest = files.drop_last();
        let file = files.last();
        files_add_their_paths(before, rest, root, depth, path);
        let middle = before.with_files(rest, root, depth).0;
        file_adds_its_path(middle, file, root, depth, path);
        if exists|k: int|
            0 <= k < files.len() && text::lowercase(#[trigger] files[k].path) == text::lowercase(
                path,
            ) {
            let k = choose|k: int|
                0 <= k < files.len() && text::lowercase(#[trigger] files[k].path)
                    == text::lowercase(path);
            if k < rest.len() {
                assert(rest[k] == files[k]);
            }
        }
        if exists|k: int|
            0 <= k < rest.len() && text::lowercase(#[trigger] rest[k].path) == text::lowercase(
                path,
            ) {
            let k = choose|k: int|
                0 <= k < rest.len() && text::lowercase(#[trigger] rest[k].path)
                    == text::lowercase(path);
            assert(files[k] == rest[k]);
        }
        if text::lowercase(path) == text::lowercase(file.path) {
            assert(text::lowercase(files[files.len() - 1].path) == text::lowercase(path));
        }
    }
}

/// As many files are said to be added as the playlist has grown by.
proof fn files_are_counted(
    before: PlaylistView,
    files: Seq<AudioFileView>,
    root: Option<Seq<char>>,
    depth: nat,
)
    requires
        before.tracks.len() + files.len() <= usize::MAX,
    ensures
        ({
            let result = before.with_files(files, root, depth);
            result.0.tracks.len() == before.tracks.len() + result.1.len()
        }),
    decreases files.len(),
{
    if files.len() > 0 {
        let rest = files.drop_last();
        files_are_counted(before, rest, root, depth);
        files_add_their_paths(before, rest, root, depth, files.last().path);
        let middle = before.with_files(rest, root, depth).0;
        if !playlist::has_path(middle.tracks, files.last().path) && middle.kind
            != PlaylistKind::Favorites {
            let grown = middle.tracks.push(track::new_track(files.last(), root, depth));
            playlist::sorted_tracks_hold(grown);
        }
    }
}

// ---------------------------------------------------------------------------
// Favorites
// ---------------------------------------------------------------------------

/// A file that is put into the favorites is there, and one that is taken out is not, whatever the
/// case of its path; each other favorite stays, and the other playlists keep their tracks.
pub proof fn favorite_toggle_touches_one_file(view: AppView, index: usize, file: AudioFileView)
    requires
        index < view.state.playlists.len() <= usize::MAX,
        view.state.playlists[index as int].kind == PlaylistKind::Favorites,
        forall|i: int|
            0 <= i < index ==> (#[trigger] view.state.playlists[i]).kind
                != PlaylistKind::Favorites,
        view.state.playlists[index as int].tracks.len() < usize::MAX,
    ensures
        ({
            let after = view.with_favorite_toggled(file);
            let was = view.state.playlists[index as int].tracks;
            let kept = after.state.playlists[index as int].tracks;
            &&& (exists|i: int|
                0 <= i < kept.len() && text::lowercase(#[trigger] kept[i].path)
                    == text::lowercase(file.path)) <==> !(exists|i: int|
                0 <= i < was.len() && text::lowercase(#[trigger] was[i].path) == text::lowercase(
                    file.path,
                ))
            &&& forall|path: Seq<char>|
                #![trigger text::lowercase(path)]
                text::lowercase(path) != text::lowercase(file.path) ==> (playlist::has_path(
                    kept,
                    path,
                ) <==> playlist::has_path(was, path))
            &&& after.state.playlists.len() == view.state.playlists.len()
            &&& forall|other: int|
                0 <= other < view.state.playlists.len() && other != index ==> (
                #[trigger] after.state.playlists[other]).tracks
                    == view.state.playlists[other].tracks
        }),
{
    let lists = view.state.playlists;
    let is_favorites = |i: int| lists[i].kind == PlaylistKind::Favorites;
    counting::first_where_is(lists.len(), is_favorites, index as int);
    assert(view.favorites() == Some(index));
    let was = lists[index as int].tracks;
    let list = view.toggled_favorites(index, file);
    let after = view.with_favorite_toggled(file);
    let kept = after.state.playlists[index as int].tracks;
    assert(kept == list.tracks);
    assert(playlist::has_path(was, file.path) == exists|i: int|
        0 <= i < was.len() && text::lowercase(#[trigger] was[i].path) == text::lowercase(
            file.path,
        )) by {
        same_by_key(was, file.path);
    }
    same_by_key(kept, file.path);
    if playlist::has_path(was, file.path) {
        kept_without_paths(was, seq![file.path]);
        assert(!playlist::has_path(kept, file.path)) by {
            if playlist::has_path(kept, file.path) {
                let i = choose|i: int|
                    0 <= i < kept.len() && paths::same_key(#[trigger] kept[i].path, file.path);
                assert(seq![file.path][0] == file.path);
            }
        }
        assert forall|path: Seq<char>|
            #![trigger text::lowercase(path)]
            text::lowercase(path) != text::lowercase(file.path) implies (playlist::has_path(
            kept,
            path,
        ) <==> playlist::has_path(was, path)) by {
            if playlist::has_path(kept, path) {
                let i = choose|i: int|
                    0 <= i < kept.len() && paths::same_key(#[trigger] kept[i].path, path);
                let k = was.index_of(kept[i]);
                assert(paths::same_key(was[k].path, path));
            }
            if playlist::has_path(was, path) {
                let i = choose|i: int|
                    0 <= i < was.len() && paths::same_key(#[trigger] was[i].path, path);
                assert(kept.contains(was[i]));
                let k = kept.index_of(was[i]);
                assert(paths::same_key(kept[k].path, path));
            }
        }
    } else {
        assert forall|path: Seq<char>|
            #![trigger text::lowercase(path)]
            playlist::has_path(kept, path) <==> playlist::has_path(was, path) || text::lowercase(
            path,
        ) == text::lowercase(file.path) by {
            file_adds_its_path(lists[index as int], file, None, 0, path);
        }
        let key = text::lowercase(file.path);
    }
}

/// A list holds a path where one of its tracks has the key of the path.
proof fn same_by_key(tracks: Seq<TrackView>, path: Seq<char>)
    ensures
        playlist::has_path(tracks, path) <==> exists|i: int|
            0 <= i < tracks.len() && text::lowercase(#[trigger] tracks[i].path)
                == text::lowercase(path),
{
    if playlist::has_path(tracks, path) {
        let i = choose|i: int|
            0 <= i < tracks.len() && paths::same_key(#[trigger] tracks[i].path, path);
        assert(text::lowercase(tracks[i].path) == text::lowercase(path));
    }
    if exists|i: int|
        0 <= i < tracks.len() && text::lowercase(#[trigger] tracks[i].path) == text::lowercase(
            path,
        ) {
        let i = choose|i: int|
            0 <= i < tracks.len() && text::lowercase(#[trigger] tracks[i].path)
                == text::lowercase(path);
        assert(paths::same_key(tracks[i].path, path));
    }
}

// ---------------------------------------------------------------------------
// Adding and removing tracks
// ---------------------------------------------------------------------------

/// Files that are added to a playlist that takes them are there then, next to what was there; no
/// other playlist changes its tracks. A playlist that is kept by a scan, or for temporary
/// playback, takes none: it stays as it is, and an error says so.
pub proof fn added_tracks_are_there(
    view: AppView,
    files: Seq<AudioFileView>,
    index: usize,
    path: Seq<char>,
)
    requires
        index < view.state.playlists.len(),
        view.state.playlists[index as int].tracks.len() + files.len() <= usize::MAX,
    ensures
        ({
            let after = view.with_tracks_added(files, index);
            let list = view.state.playlists[index as int];
            let kept = after.state.playlists[index as int];
            &&& after.state.playlists.len() == view.state.playlists.len()
            &&& if list.kind == PlaylistKind::Manual || list.kind == PlaylistKind::Favorites {
                &&& playlist::has_path(kept.tracks, path) <==> playlist::has_path(
                    list.tracks,
                    path,
                ) || exists|k: int|
                    0 <= k < files.len() && text::lowercase(#[trigger] files[k].path)
                        == text::lowercase(path)
                &&& kept.name == list.name && kept.kind == list.kind
                &&& kept.tracks.len() == list.tracks.len() ==> after.messages.status
                    == "Selected track(s) are already in "@ + list.name + "."@
                &&& kept.tracks.len() > list.tracks.len() && files.len() > 1
                    ==> after.messages.status == "Added "@ + text::decimal(
                    (kept.tracks.len() - list.tracks.len()) as nat,
                ) + " of "@ + text::decimal(files.len()) + " selected track(s) to "@ + list.name
                    + "."@
            } else {
                after.state == view.state && after.messages.error is Some
            }
            &&& forall|other: int|
                0 <= other < view.state.playlists.len() && other != index ==> (
                #[trigger] after.state.playlists[other]).tracks
                    == view.state.playlists[other].tracks
        }),
{
    let list = view.state.playlists[index as int];
    files_add_their_paths(list, files, None, 0, path);
    files_are_counted(list, files, None, 0);
    files_keep_name(list, files);
}

/// Adding files keeps the name of a playlist.
proof fn files_keep_name(before: PlaylistView, files: Seq<AudioFileView>)
    ensures
        before.with_files(files, None, 0).0.name == before.name,
        before.with_files(files, None, 0).0.kind == before.kind,
    decreases files.len(),
{
    if files.len() > 0 {
        files_keep_name(before, files.drop_last());
    }
}

/// Removing a track of the shown playlist takes out that track alone; the others keep their
/// order, and the other playlists their tracks. What a scan keeps, or what is there for temporary
/// playback, is not removed.
pub proof fn removed_track_is_gone(view: AppView, index: usize)
    requires
        view.state.selected_playlist_index < view.state.playlists.len(),
        index < view.state.playlists[view.state.selected_playlist_index as int].tracks.len(),
    ensures
        ({
            let at = view.state.selected_playlist_index as int;
            let after = view.with_track_removed(index);
            let was = view.state.playlists[at];
            let kept = after.state.playlists[at];
            &&& after.state.selected_playlist_index == view.state.selected_playlist_index
            &&& after.state.playlists.len() == view.state.playlists.len()
            &&& if was.kind == PlaylistKind::Manual || was.kind == PlaylistKind::Favorites {
                &&& kept.tracks.len() == was.tracks.len() - 1
                &&& forall|i: int| 0 <= i < index ==> #[trigger] kept.tracks[i] == was.tracks[i]
                &&& forall|i: int|
                    index <= i < kept.tracks.len() ==> #[trigger] kept.tracks[i] == was.tracks[i
                        + 1]
            } else {
                after.state == view.state && after.messages.error is Some
            }
            &&& forall|other: int|
                0 <= other < view.state.playlists.len() && other != at ==> (
                #[trigger] after.state.playlists[other]).tracks
                    == view.state.playlists[other].tracks
        }),
{
}

/// A file that was deleted is in no playlist any more, whatever the case of its path, and every
/// other track still is where it was. Where the deletion failed nothing changes, and the error
/// is shown.
pub proof fn deleted_file_is_gone(view: AppView, path: Seq<char>, error: Seq<char>, list: int)
    requires
        0 <= list < view.state.playlists.len(),
    ensures
        ({
            let after = view.with_track_deleted(path, None);
            let was = view.state.playlists[list].tracks;
            let kept = after.state.playlists[list].tracks;
            &&& after.state.playlists.len() == view.state.playlists.len()
            &&& forall|i: int|
                0 <= i < kept.len() ==> text::lowercase((#[trigger] kept[i]).path)
                    != text::lowercase(path) && was.contains(kept[i])
            &&& forall|i: int|
                0 <= i < was.len() && text::lowercase(was[i].path) != text::lowercase(path)
                    ==> kept.contains(#[trigger] was[i])
            &&& after.messages.error is None
        }),
        view.with_track_deleted(path, Some(error)).state == view.state,
        view.with_track_deleted(path, Some(error)).messages.error == Some(
            "Failed to delete file: "@ + error,
        ),
{
    let was = view.state.playlists[list].tracks;
    let after = view.with_track_deleted(path, None);
    let kept = after.state.playlists[list].tracks;
    assert(kept == was.filter(membership::has_no_path_of(seq![path])));
    kept_without_paths(was, seq![path]);
    assert(seq![path][0] == path);
    assert forall|i: int|
        0 <= i < was.len() && text::lowercase(was[i].path) != text::lowercase(
            path,
        ) implies kept.contains(#[trigger] was[i]) by {
        assert forall|k: int| 0 <= k < seq![path].len() implies text::lowercase(
            #[trigger] seq![path][k],
        ) != text::lowercase(was[i].path) by {}
    }
}

/// Removed files are in no playlist any more, and every other track still is.
pub proof fn removed_files_are_gone(view: AppView, removed: Seq<Seq<char>>, list: int)
    requires
        0 <= list < view.state.playlists.len(),
    ensures
        ({
            let after = view.without_files_anywhere(removed);
            let was = view.state.playlists[list].tracks;
            let kept = after.state.playlists[list].tracks;
            &&& after.state.playlists.len() == view.state.playlists.len()
            &&& forall|i: int, k: int|
                #![trigger kept[i], removed[k]]
                0 <= i < kept.len() && 0 <= k < removed.len() ==> text::lowercase(kept[i].path)
                    != text::lowercase(removed[k])
            &&& forall|i: int| 0 <= i < kept.len() ==> was.contains(#[trigger] kept[i])
            &&& forall|i: int|
                0 <= i < was.len() && (forall|k: int|
                    0 <= k < removed.len() ==> text::lowercase(#[trigger] removed[k])
                        != text::lowercase(was[i].path)) ==> kept.contains(#[trigger] was[i])
        }),
{
    kept_without_paths(view.state.playlists[list].tracks, removed);
}

/// A file that is played stops playing before it is deleted; other playback goes on.
pub proof fn deletion_stops_its_playback(view: AppView, path: Seq<char>)
    ensures
        view.active_track_path matches Some(playing) ==> text::lowercase(playing)
            == text::lowercase(path) ==> {
            let after = view.without_playback_of(path);
            &&& after.active_track_path is None
            &&& after.effects.contains(crate::app::EffectView::StopPlayer)
        },
        view.active_track_path matches Some(playing) ==> text::lowercase(playing)
            != text::lowercase(path) ==> view.without_playback_of(path) == view,
        view.active_track_path is None ==> view.without_playback_of(path) == view,
{
    let after = view.without_playback_of(path);
    if view.active_track_path is Some && paths::same_key(view.active_track_path->0, path) {
        assert(after.effects[view.effects.len() as int] == crate::app::EffectView::StopPlayer);
    }
}

/// A deletion is confirmed by the word for it, with nothing but white space around it, and only
/// where one was asked for.
pub proof fn deletion_is_confirmed_by_the_word(view: AppView)
    ensures
        view.deletion_is_confirmed() ==> text::trimmed(
            view.dialogs.pending_track_delete_confirmation_text,
        ) == "DELETE"@ && view.dialogs.pending_track_delete_confirmation is Some,
        view.dialogs.pending_track_delete_confirmation is Some
            && view.dialogs.pending_track_delete_confirmation_text == "DELETE"@
            ==> view.deletion_is_confirmed(),
{
    reveal_strlit("DELETE");
    text_laws::trimmed_text_stays("DELETE"@);
}

/// Files are deleted only while no other work on files is running; then each of them is, once.
pub proof fn chosen_files_are_deleted(view: AppView, list: Seq<Seq<char>>)
    requires
        list.len() > 0,
    ensures
        view.jobs.track_file_operation || view.jobs.folder_scan || view.jobs.library_sync
            ==> view.files_to_delete(list) is None,
        !(view.jobs.track_file_operation || view.jobs.folder_scan || view.jobs.library_sync)
            ==> view.files_to_delete(list) is Some,
        view.files_to_delete(list) matches Some(files) ==> {
            &&& forall|i: int| 0 <= i < files.len() ==> list.contains(#[trigger] files[i])
            &&& forall|i: int, j: int|
                0 <= i < j < files.len() ==> text::lowercase(#[trigger] files[i])
                    != text::lowercase(#[trigger] files[j])
            &&& forall|k: int|
                0 <= k < list.len() ==> file_operations::lists_path(files, #[trigger] list[k])
        },
{
    let distinct = file_operations::distinct_paths(list);
    file_operations::distinct_paths_differ(list);
    assert forall|k: int| 0 <= k < list.len() implies file_operations::lists_path(
        distinct,
        #[trigger] list[k],
    ) by {
        file_operations::distinct_paths_cover(list, k);
    }
    assert(file_operations::lists_path(distinct, list[0]));
    assert forall|i: int, j: int| 0 <= i < j < distinct.len() implies text::lowercase(
        #[trigger] distinct[i],
    ) != text::lowercase(#[trigger] distinct[j]) by {
        assert(!paths::same_key(distinct[i], distinct[j]));
    }
}

// ---------------------------------------------------------------------------
// Playlists
// ---------------------------------------------------------------------------

/// A new playlist comes last, is empty, takes tracks of the user, and is shown; the others keep
/// their tracks.
pub proof fn new_playlist_comes_last(view: AppView)
    requires
        view.state.playlists.len() < usize::MAX,
    ensures
        ({
            let after = view.with_playlist_added();
            &&& after.state.playlists.len() == view.state.playlists.len() + 1
            &&& after.state.selected_playlist_index == view.state.playlists.len()
            &&& after.state.playlists.last().tracks.len() == 0
            &&& after.state.playlists.last().kind == PlaylistKind::Manual
            &&& after.state.playlists.last().name == "Playlist "@ + text::decimal(
                view.state.playlists.len() + 1,
            )
            &&& after.selected_track_index is None
            &&& forall|other: int|
                0 <= other < view.state.playlists.len() ==> (
                #[trigger] after.state.playlists[other]).tracks
                    == view.state.playlists[other].tracks && after.state.playlists[other].name
                    == view.state.playlists[other].name
        }),
{
}

/// The shown playlist is removed, and no other, where a user may remove it and it is not the only
/// one; playback stops exactly where it comes from that playlist. The favorites and the last
/// playlist stay, and an error says so.
pub proof fn removed_playlist_is_gone(view: AppView)
    requires
        view.state.selected_playlist_index < view.state.playlists.len() <= usize::MAX,
    ensures
        ({
            let at = view.state.selected_playlist_index as int;
            let kind = view.state.playlists[at].kind;
            let after = view.with_playlist_removed();
            if (kind == PlaylistKind::Manual || kind == PlaylistKind::Folder)
                && view.state.playlists.len() > 1 {
                &&& after.state.playlists.len() == view.state.playlists.len() - 1
                &&& forall|i: int|
                    0 <= i < at ==> (#[trigger] after.state.playlists[i]).tracks
                        == view.state.playlists[i].tracks && after.state.playlists[i].name
                        == view.state.playlists[i].name
                &&& forall|i: int|
                    at <= i < after.state.playlists.len() ==> (
                    #[trigger] after.state.playlists[i]).tracks == view.state.playlists[i
                        + 1].tracks && after.state.playlists[i].name == view.state.playlists[i
                        + 1].name
                &&& after.state.selected_playlist_index < after.state.playlists.len()
                &&& view.active_playlist_index == Some(view.state.selected_playlist_index)
                    ==> after.active_track_path is None
                &&& view.active_playlist_index != Some(view.state.selected_playlist_index)
                    ==> after.active_track_path == view.active_track_path
                    && after.active_track_index == view.active_track_index && (
                view.active_playlist_index matches Some(playing) ==> after.active_playlist_index
                    == Some(
                    if playing > at {
                        (playing - 1) as usize
                    } else {
                        playing
                    },
                ))
            } else {
                after.state == view.state && after.messages.error is Some
                    && after.active_track_path == view.active_track_path
            }
        }),
{
    let at = view.state.selected_playlist_index;
    let silent = view.with_playlist_silenced(at);
    assert(silent.state.playlists.len() == view.state.playlists.len());
    assert forall|i: int| 0 <= i < view.state.playlists.len() implies (
    #[trigger] silent.state.playlists[i]).tracks == view.state.playlists[i].tracks
        && silent.state.playlists[i].name == view.state.playlists[i].name by {}
    let kind = view.state.playlists[at as int].kind;
    if (kind == PlaylistKind::Manual || kind == PlaylistKind::Folder)
        && view.state.playlists.len() > 1 {
        let dropped = silent.without_playlist(at);
        assert(dropped.state.playlists.len() == view.state.playlists.len() - 1);
        assert forall|i: int| 0 <= i < dropped.state.playlists.len() implies (
        #[trigger] dropped.state.playlists[i]) == silent.state.playlists[if i < at {
            i
        } else {
            i + 1
        }] by {}
        let shown = view.with_shown_playlist_dropped();
        assert(shown.state.playlists == dropped.state.playlists);
        assert(shown.state.selected_playlist_index == dropped.state.selected_playlist_index);
    }
}

/// A playlist is made of chosen files under a name that no other playlist has, but for the case
/// of ASCII letters; it comes last and holds exactly these files. Without a name, or under a name
/// that is taken, none is made, and an error says so.
pub proof fn named_playlist_is_made(view: AppView, sizes: Seq<Option<u64>>, path: Seq<char>)
    requires
        view.dialogs.pending_new_playlist_tracks.len() <= usize::MAX,
    ensures
        ({
            let name = text::trimmed(view.dialogs.pending_new_playlist_name);
            let wanted = view.dialogs.pending_new_playlist_tracks;
            let after = view.with_new_playlist(sizes);
            if name.len() > 0 && (forall|i: int|
                0 <= i < view.state.playlists.len() ==> !text::same_ignoring_ascii_case(
                    #[trigger] view.state.playlists[i].name,
                    name,
                )) {
                let made = after.state.playlists.last();
                &&& after.state.playlists.len() == view.state.playlists.len() + 1
                &&& made.name == name
                &&& made.kind == PlaylistKind::Manual
                &&& playlist::has_path(made.tracks, path) <==> exists|k: int|
                    0 <= k < wanted.len() && text::lowercase(#[trigger] wanted[k])
                        == text::lowercase(path)
                &&& forall|other: int|
                    0 <= other < view.state.playlists.len() ==> (
                    #[trigger] after.state.playlists[other]).tracks
                        == view.state.playlists[other].tracks
            } else {
                after.state == view.state && after.messages.error is Some
            }
        }),
{
    let name = text::trimmed(view.dialogs.pending_new_playlist_name);
    let wanted = view.dialogs.pending_new_playlist_tracks;
    let files = track_files::sized_files(wanted, sizes);
    let empty = playlist::empty_playlist(name, 2, PlaylistKind::Manual);
    if track_files::name_is_taken(view.state.playlists, name) {
        let i = choose|i: int|
            0 <= i < view.state.playlists.len() && text::same_ignoring_ascii_case(
                #[trigger] view.state.playlists[i].name,
                name,
            );
        assert(text::same_ignoring_ascii_case(view.state.playlists[i].name, name));
    }
    files_add_their_paths(empty, files, None, 0, path);
    files_keep_name(empty, files);
    assert(!playlist::has_path(empty.tracks, path));
    if exists|k: int|
        0 <= k < wanted.len() && text::lowercase(#[trigger] wanted[k]) == text::lowercase(path) {
        let k = choose|k: int|
            0 <= k < wanted.len() && text::lowercase(#[trigger] wanted[k]) == text::lowercase(
                path,
            );
        assert(text::lowercase(files[k].path) == text::lowercase(path));
    }
    if exists|k: int|
        0 <= k < files.len() && text::lowercase(#[trigger] files[k].path) == text::lowercase(
            path,
        ) {
        let k = choose|k: int|
            0 <= k < files.len() && text::lowercase(#[trigger] files[k].path)
                == text::lowercase(path);
        assert(text::lowercase(wanted[k]) == text::lowercase(path));
    }
}

/// Files that were removed are no longer repeated in any playlist, and what else is repeated
/// still is.
pub proof fn removed_files_are_not_repeated(
    view: AppView,
    removed: Seq<Seq<char>>,
    list: int,
    path: Seq<char>,
)
    requires
        0 <= list < view.state.playlists.len(),
    ensures
        ({
            let was = view.state.playlists[list].repeat_selection;
            let kept = view.without_files_anywhere(removed).state.playlists[list].repeat_selection;
            kept.contains(path) <==> was.contains(path) && forall|k: int|
                0 <= k < removed.len() ==> text::lowercase(#[trigger] removed[k])
                    != text::lowercase(path)
        }),
{
    let was = view.state.playlists[list].repeat_selection;
    let keep = membership::is_no_path_of(removed);
    let kept = was.filter(keep);
    grouping::filter_entries(was, keep);
    assert(keep(path) <==> forall|k: int|
        0 <= k < removed.len() ==> text::lowercase(#[trigger] removed[k]) != text::lowercase(
            path,
        )) by {
        if file_operations::lists_path(removed, path) {
            let k = choose|k: int|
                0 <= k < removed.len() && paths::same_key(#[trigger] removed[k], path);
            assert(text::lowercase(removed[k]) == text::lowercase(path));
        }
        if exists|k: int|
            0 <= k < removed.len() && text::lowercase(#[trigger] removed[k]) == text::lowercase(
                path,
            ) {
            let k = choose|k: int|
                0 <= k < removed.len() && text::lowercase(#[trigger] removed[k])
                    == text::lowercase(path);
            assert(paths::same_key(removed[k], path));
        }
    }
    if was.contains(path) && keep(path) {
        let k = was.index_of(path);
        assert(keep(was[k]));
        was.lemma_filter_contains(keep, k);
    }
    if kept.contains(path) {
        let k = kept.index_of(path);
        assert(keep(kept[k]));
        assert(was.contains(kept[k]));
    }
}

} // verus!
