//! What holds of the library as a whole: searching it, checking it against the disk, and taking
//! it over from a backup.

use crate::app::{AppView, EffectView};
use crate::counting;
use crate::folder_sync;
use crate::folder_sync::FileAvailability;
use crate::index_set;
use crate::library;
use crate::library::LibrarySyncTrigger;
use crate::library_sync;
use crate::library_sync::{AppliedLibrarySyncStats, FolderListing, SyncProgress};
use crate::lookup;
use crate::lookup::SyncTargetView;
use crate::paths;
use crate::playlist;
use crate::playlist::{PlaylistKind, PlaylistView};
use crate::scan_laws;
use crate::selection;
use crate::state;
use crate::state::StateView;
use crate::sync_laws;
use crate::text;
use crate::track::{AudioFileView, TrackView};
use vstd::prelude::*;
use vstd::string::*;

verus! {

// ---------------------------------------------------------------------------
// Searching
// ---------------------------------------------------------------------------

/// A text occurs in another exactly where a run of the other is that text.
pub proof fn occurrence_is_a_run(part: Seq<char>, whole: Seq<char>)
    ensures
        text::occurs_in(part, whole) <==> exists|start: int|
            0 <= start && start + part.len() <= whole.len() && #[trigger] whole.subrange(
                start,
                start + part.len(),
            ) == part,
{
    if text::occurs_in(part, whole) {
        let start = choose|start: int|
            0 <= start <= whole.len() && text::has_prefix(#[trigger] whole.skip(start), part);
        assert(whole.skip(start).take(part.len() as int) =~= whole.subrange(
            start,
            start + part.len(),
        ));
    }
    if exists|start: int|
        0 <= start && start + part.len() <= whole.len() && #[trigger] whole.subrange(
            start,
            start + part.len(),
        ) == part {
        let start = choose|start: int|
            0 <= start && start + part.len() <= whole.len() && #[trigger] whole.subrange(
                start,
                start + part.len(),
            ) == part;
        assert(whole.skip(start).take(part.len() as int) =~= part);
    }
}

/// A track stays visible exactly where it is of the selected group and its title, its group or
/// its path holds what is searched for, whatever the case of letters; without anything to search
/// for every track of the group does. The visible tracks stay in order.
pub proof fn visible_tracks_match(view: AppView, shown: PlaylistView, index: int)
    requires
        view.state.selected_playlist_index < view.state.playlists.len(),
        view.state.playlists[view.state.selected_playlist_index as int] == shown,
        0 <= index < shown.tracks.len() <= usize::MAX,
    ensures
        ({
            let track = shown.tracks[index];
            let query = text::trimmed(view.browsing.track_search_query);
            let wanted = text::lowercase(query);
            view.visible().contains(index as usize) <==> {
                &&& shown.selected_group matches Some(group) ==> track.group == group
                &&& {
                    ||| query.len() == 0
                    ||| text::occurs_in(wanted, text::lowercase(track.title))
                    ||| text::occurs_in(wanted, text::lowercase(track.group))
                    ||| text::occurs_in(wanted, text::lowercase(track.path))
                }
            }
        }),
        forall|i: int, j: int|
            0 <= i < j < view.visible().len() ==> #[trigger] view.visible()[i]
                < #[trigger] view.visible()[j],
{
    let holds = selection::is_visible(shown, text::trimmed(view.browsing.track_search_query));
    counting::indexes_where_holds(shown.tracks.len(), holds);
    let visible = view.visible();
    if visible.contains(index as usize) {
        let k = visible.index_of(index as usize);
        assert(visible[k] == index as usize);
        assert(holds(index));
    }
    if holds(index) {
        assert(visible.contains(index as usize));
    }
}

// ---------------------------------------------------------------------------
// Finding tracks again
// ---------------------------------------------------------------------------

/// Once playlists have changed, the selected track is found again by its path, where it is still
/// there and of the selected group; and the playing track is where its path is in the playlist
/// that it is played from, or nowhere.
pub proof fn tracks_are_found_again(view: AppView, shown: PlaylistView, path: Seq<char>, at: int)
    requires
        view.state.selected_playlist_index < view.state.playlists.len(),
        view.state.playlists[view.state.selected_playlist_index as int] == shown,
        shown.tracks.len() <= usize::MAX,
        shown.selected_group is None,
        0 <= at < shown.tracks.len(),
        text::lowercase(shown.tracks[at].path) == text::lowercase(path),
    ensures
        ({
            let after = view.with_tracks_found_again(Some(path));
            &&& after.selected_track_index matches Some(index)
            &&& index < shown.tracks.len()
            &&& text::lowercase(shown.tracks[index as int].path) == text::lowercase(path)
            &&& after.state == view.state
        }),
{
    assert(paths::same_key(shown.tracks[at].path, path));
    assert(playlist::has_path(shown.tracks, path));
    lookup::path_is_found(shown.tracks, path);
}

/// The playing track is found again where its path stands in the playlist that it is played
/// from.
pub proof fn playing_track_is_found_again(
    view: AppView,
    selected: Option<Seq<char>>,
    list: usize,
    path: Seq<char>,
)
    requires
        list < view.state.playlists.len(),
        view.state.playlists[list as int].tracks.len() <= usize::MAX,
        view.active_playlist_index == Some(list),
        view.active_track_path == Some(path),
    ensures
        ({
            let tracks = view.state.playlists[list as int].tracks;
            let after = view.with_tracks_found_again(selected);
            &&& after.active_track_path == Some(path)
            &&& match after.active_track_index {
                Some(index) => index < tracks.len() && text::lowercase(
                    tracks[index as int].path,
                ) == text::lowercase(path),
                None => forall|i: int|
                    0 <= i < tracks.len() ==> text::lowercase(#[trigger] tracks[i].path)
                        != text::lowercase(path),
            }
        }),
{
    let tracks = view.state.playlists[list as int].tracks;
    lookup::path_is_found(tracks, path);
    if lookup::position_of_path(tracks, path) is None {
        assert forall|i: int| 0 <= i < tracks.len() implies text::lowercase(
            #[trigger] tracks[i].path,
        ) != text::lowercase(path) by {
            if text::lowercase(tracks[i].path) == text::lowercase(path) {
                assert(paths::same_key(tracks[i].path, path));
            }
        }
    }
}

// ---------------------------------------------------------------------------
// Checking the library
// ---------------------------------------------------------------------------

/// A check of its own accord is due exactly where it is switched on and the interval since the
/// last check is over.
pub proof fn automatic_check_is_due(view: AppView, now: u64, interval: u64)
    requires
        view.jobs.last_library_sync_at <= now,
    ensures
        view.auto_sync_is_due(now, interval) <==> view.state.library.auto_sync_selected_playlist
            && now - view.jobs.last_library_sync_at >= interval,
{
}

/// The paths of a list of playlists name each of their tracks, but for those that are scanned.
proof fn paths_name_tracks(lists: Seq<PlaylistView>, scans: bool, list: int, index: int)
    requires
        0 <= list < lists.len(),
        0 <= index < lists[list].tracks.len(),
        !(scans && lists[list].kind == PlaylistKind::Folder),
    ensures
        library::paths_anywhere(lists, scans).contains(lists[list].tracks[index].path),
    decreases lists.len(),
{
    let all = library::paths_anywhere(lists, scans);
    let rest = lists.drop_last();
    let before = library::paths_anywhere(rest, scans);
    if list < rest.len() {
        paths_name_tracks(rest, scans, list, index);
        let k = before.index_of(lists[list].tracks[index].path);
        assert(all[k] == before[k]);
    } else {
        let own = library::paths_of(lists[list].tracks);
        assert(own[index] == lists[list].tracks[index].path);
        assert(all[before.len() + index] == own[index]);
    }
}

/// The targets below a number name the folder playlists below it.
proof fn targets_name_lists(lists: Seq<PlaylistView>, count: nat, list: int)
    requires
        0 <= list < count <= lists.len() <= usize::MAX,
        lists[list].kind == PlaylistKind::Folder,
        lists[list].source_folder is Some,
    ensures
        library::targets_below(lists, count).contains(
            SyncTargetView {
                playlist_index: list as usize,
                playlist_name: lists[list].name,
                source_folder: lists[list].source_folder->0,
            },
        ),
    decreases count,
{
    let all = library::targets_below(lists, count);
    let wanted = SyncTargetView {
        playlist_index: list as usize,
        playlist_name: lists[list].name,
        source_folder: lists[list].source_folder->0,
    };
    let before = library::targets_below(lists, (count - 1) as nat);
    if list < count - 1 {
        targets_name_lists(lists, (count - 1) as nat, list);
        let k = before.index_of(wanted);
        assert(all[k] == wanted);
    } else {
        assert(all[before.len() as int] == wanted);
    }
}

/// A check of the library looks at the file of every track, once, but for the playlists whose
/// folders are scanned; every folder playlist is scanned where folders are. Nothing is looked at
/// while a scan is running.
pub proof fn check_looks_at_everything(
    view: AppView,
    trigger: library::LibrarySyncTrigger,
    scans: bool,
    list: int,
    index: int,
)
    requires
        0 <= list < view.state.playlists.len() <= usize::MAX,
        0 <= index < view.state.playlists[list].tracks.len(),
    ensures
        view.jobs.folder_scan || view.jobs.library_sync ==> view.library_request(
            trigger,
            scans,
        ) is None,
        !view.jobs.folder_scan && !view.jobs.library_sync && !(scans
            && view.state.playlists[list].kind == PlaylistKind::Folder) ==> {
            let request = view.library_request(trigger, scans)->0;
            let path = view.state.playlists[list].tracks[index].path;
            &&& view.library_request(trigger, scans) is Some
            &&& exists|k: int|
                0 <= k < request.files.len() && text::lowercase(#[trigger] request.files[k])
                    == text::lowercase(path)
        },
        !view.jobs.folder_scan && !view.jobs.library_sync && scans
            && view.state.playlists[list].kind == PlaylistKind::Folder
            && view.state.playlists[list].source_folder is Some ==> {
            let request = view.library_request(trigger, scans)->0;
            let folder = view.state.playlists[list].source_folder->0;
            &&& view.library_request(trigger, scans) is Some
            &&& request.targets.contains(
                SyncTargetView {
                    playlist_index: list as usize,
                    playlist_name: view.state.playlists[list].name,
                    source_folder: folder,
                },
            )
            &&& exists|k: int|
                0 <= k < request.folders.len() && text::lowercase(#[trigger] request.folders[k])
                    == text::lowercase(folder)
        },
{
    let lists = view.state.playlists;
    let request = library::sync_request(lists, trigger, scans);
    if !(scans && lists[list].kind == PlaylistKind::Folder) {
        let path = lists[list].tracks[index].path;
        let all = library::paths_anywhere(lists, scans);
        paths_name_tracks(lists, scans, list, index);
        let k = all.index_of(path);
        crate::file_operations::distinct_paths_cover(all, k);
        let m = choose|m: int|
            0 <= m < request.files.len() && paths::same_key(#[trigger] request.files[m], path);
        assert(text::lowercase(request.files[m]) == text::lowercase(path));
    } else if lists[list].source_folder is Some {
        let folder = lists[list].source_folder->0;
        targets_name_lists(lists, lists.len(), list);
        let target = SyncTargetView {
            playlist_index: list as usize,
            playlist_name: lists[list].name,
            source_folder: folder,
        };
        let folders = library::folders_of(request.targets);
        let k = request.targets.index_of(target);
        assert(folders[k] == folder);
        crate::file_operations::distinct_paths_cover(folders, k);
        let m = choose|m: int|
            0 <= m < request.folders.len() && paths::same_key(
                #[trigger] request.folders[m],
                folder,
            );
        assert(text::lowercase(request.folders[m]) == text::lowercase(folder));
    }
}

/// The playlists after the first `count` of them were checked file by file.
proof fn checks_mark_lists(
    progress: SyncProgress,
    count: nat,
    entries: Seq<FileAvailability>,
    list: int,
)
    requires
        0 <= list < progress.playlists.len() <= usize::MAX,
        count <= progress.playlists.len(),
    ensures
        ({
            let after = progress.with_checks(count, entries);
            &&& after.playlists.len() == progress.playlists.len()
            &&& after.playlists[list] == if list < count && !progress.scanned.contains(
                list as usize,
            ) {
                PlaylistView {
                    tracks: folder_sync::marked_by_check(progress.playlists[list].tracks, entries),
                    ..progress.playlists[list]
                }
            } else {
                progress.playlists[list]
            }
        }),
    decreases count,
{
    if count > 0 {
        checks_mark_lists(progress, (count - 1) as nat, entries, list);
        checks_mark_lists(progress, (count - 1) as nat, entries, count - 1);
    }
}

/// What the folders that were listed make of a playlist: nothing where none of them is its own.
proof fn targets_scan_lists(
    playlists: Seq<PlaylistView>,
    targets: Seq<SyncTargetView>,
    listings: Seq<FolderListing>,
    list: int,
) -> (found: (PlaylistView, Seq<AudioFileView>))
    requires
        0 <= list < playlists.len() <= usize::MAX,
        playlist::paths_distinct(playlists[list].tracks),
    ensures
        ({
            let after = library_sync::unsynced(playlists).with_targets(targets, listings);
            &&& after.playlists.len() == playlists.len()
            &&& playlist::paths_distinct(after.playlists[list].tracks)
            &&& index_set::ascending(after.scanned)
            &&& !after.scanned.contains(list as usize) ==> after.playlists[list]
                == playlists[list]
            &&& after.scanned.contains(list as usize) ==> {
                &&& playlist::paths_distinct(found.0.tracks)
                &&& after.playlists[list] == found.0.after_scan(found.1)
                &&& found.0.kind == PlaylistKind::Folder
                &&& found.0.source_folder == playlists[list].source_folder
                &&& found.0.source_folder is Some
                &&& library_sync::found_below(listings, found.0.source_folder->0) == Some(
                    Ok::<Seq<AudioFileView>, Seq<char>>(found.1),
                )
            }
            &&& after.playlists[list].name == playlists[list].name
            &&& after.playlists[list].kind == playlists[list].kind
            &&& after.playlists[list].source_folder == playlists[list].source_folder
        }),
    decreases targets.len(),
{
    let start = library_sync::unsynced(playlists);
    if targets.len() == 0 {
        (playlists[list], Seq::empty())
    } else {
        let rest = targets.drop_last();
        let target = targets.last();
        let before = start.with_targets(rest, listings);
        let found = targets_scan_lists(playlists, rest, listings, list);
        let resolved = lookup::resolved_target(before.playlists, target);
        let files = library_sync::found_below(listings, target.source_folder);
        if resolved is Some && files matches Some(Ok(_)) {
            let at = resolved->0;
            resolved_has_source(before.playlists, target);
            let listed = match files {
                Some(Ok(listed)) => listed,
                _ => Seq::empty(),
            };
            index_set::with_index_holds(before.scanned, at);
            sync_laws::scan_keeps_paths_distinct(before.playlists[list], listed);
            if at == list {
                same_folder_is_listed(
                    listings,
                    target.source_folder,
                    before.playlists[list].source_folder->0,
                );
                (before.playlists[list], listed)
            } else {
                found
            }
        } else {
            found
        }
    }
}

/// A playlist that a target stands for is of its folder.
proof fn resolved_has_source(lists: Seq<PlaylistView>, target: SyncTargetView)
    requires
        lists.len() <= usize::MAX,
        lookup::resolved_target(lists, target) is Some,
    ensures
        lookup::resolved_target(lists, target)->0 < lists.len(),
        lookup::has_source(
            lists[lookup::resolved_target(lists, target)->0 as int],
            target.source_folder,
        ),
{
    let matches = |i: int| lookup::is_target(lists[i], target);
    let same_folder = |i: int| lookup::has_source(lists[i], target.source_folder);
    counting::first_where_holds(lists.len(), matches);
    counting::first_where_holds(lists.len(), same_folder);
}

/// What was found below a folder does not depend on the case of its path.
proof fn same_folder_is_listed(
    listings: Seq<FolderListing>,
    first: Seq<char>,
    second: Seq<char>,
)
    requires
        paths::same_key(second, first),
    ensures
        library_sync::found_below(listings, first) == library_sync::found_below(listings, second),
{
    assert(library_sync::lists_folder(listings, first) =~= library_sync::lists_folder(
        listings,
        second,
    ));
}

/// After a check of the library each playlist is either in step with the listing of its own
/// folder: every file that was listed has a track that is there, and every track that was there
/// still is; or each of its tracks is marked by what was found out of its file, and stays as it
/// was where nothing was. No playlist is added, removed, renamed or moved.
pub proof fn checked_library_is_in_step(
    playlists: Seq<PlaylistView>,
    targets: Seq<SyncTargetView>,
    listings: Seq<FolderListing>,
    entries: Seq<FileAvailability>,
    list: int,
)
    requires
        0 <= list < playlists.len() <= usize::MAX,
        forall|i: int, j: int|
            0 <= i < j < playlists[list].tracks.len() ==> text::lowercase(
                (#[trigger] playlists[list].tracks[i]).path,
            ) != text::lowercase((#[trigger] playlists[list].tracks[j]).path),
    ensures
        ({
            let synced = library_sync::synced_library(playlists, targets, listings, entries);
            let was = playlists[list];
            let kept = synced.playlists[list];
            &&& synced.playlists.len() == playlists.len()
            &&& kept.name == was.name && kept.kind == was.kind && kept.source_folder
                == was.source_folder
            &&& {
                ||| {
                    &&& kept.tracks.len() == was.tracks.len()
                    &&& forall|i: int|
                        0 <= i < kept.tracks.len() ==> {
                            &&& (#[trigger] kept.tracks[i]) == (TrackView {
                                missing: kept.tracks[i].missing,
                                ..was.tracks[i]
                            })
                            &&& folder_sync::availability_of(
                                entries,
                                text::lowercase(was.tracks[i].path),
                            ) matches Some(present) ==> kept.tracks[i].missing == !present
                            &&& folder_sync::availability_of(
                                entries,
                                text::lowercase(was.tracks[i].path),
                            ) is None ==> kept.tracks[i].missing == was.tracks[i].missing
                        }
                }
                ||| exists|files: Seq<AudioFileView>|
                    {
                        &&& was.kind == PlaylistKind::Folder
                        &&& was.source_folder is Some
                        &&& library_sync::found_below(listings, was.source_folder->0) == Some(
                            Ok::<Seq<AudioFileView>, Seq<char>>(files),
                        )
                        &&& #[trigger] holds_files(kept.tracks, files)
                    }
            }
        }),
{
    let started = library_sync::unsynced(playlists).with_targets(targets, listings);
    assert(playlist::paths_distinct(playlists[list].tracks));
    let found = targets_scan_lists(playlists, targets, listings, list);
    checks_mark_lists(started, playlists.len(), entries, list);
    let synced = library_sync::synced_library(playlists, targets, listings, entries);
    if started.scanned.contains(list as usize) {
        assert forall|i: int, j: int| 0 <= i < j < found.0.tracks.len() implies text::lowercase(
            (#[trigger] found.0.tracks[i]).path,
        ) != text::lowercase((#[trigger] found.0.tracks[j]).path) by {
            assert(!paths::same_key(found.0.tracks[i].path, found.0.tracks[j].path));
        }
        scan_laws::scan_marks_what_is_there(found.0, found.1);
        assert(holds_files(synced.playlists[list].tracks, found.1));
    }
}

/// Every file has a track that is there.
pub open spec fn holds_files(tracks: Seq<TrackView>, files: Seq<AudioFileView>) -> bool {
    forall|k: int|
        0 <= k < files.len() ==> exists|j: int|
            {
                &&& 0 <= j < tracks.len()
                &&& text::lowercase((#[trigger] tracks[j]).path) == text::lowercase(
                    (#[trigger] files[k]).path,
                )
                &&& !tracks[j].missing
            }
}

/// A folder playlist that is still where the target says is scanned where its folder was listed.
pub proof fn listed_folder_is_scanned(
    playlists: Seq<PlaylistView>,
    target: SyncTargetView,
    listings: Seq<FolderListing>,
    entries: Seq<FileAvailability>,
    files: Seq<AudioFileView>,
)
    requires
        playlists.len() <= usize::MAX,
        target.playlist_index < playlists.len(),
        playlists[target.playlist_index as int].name == target.playlist_name,
        playlists[target.playlist_index as int].kind == PlaylistKind::Folder,
        playlists[target.playlist_index as int].source_folder == Some(target.source_folder),
        library_sync::found_below(listings, target.source_folder) == Some(
            Ok::<Seq<AudioFileView>, Seq<char>>(files),
        ),
        forall|i: int, j: int|
            0 <= i < j < playlists[target.playlist_index as int].tracks.len() ==> text::lowercase(
                (#[trigger] playlists[target.playlist_index as int].tracks[i]).path,
            ) != text::lowercase(
                (#[trigger] playlists[target.playlist_index as int].tracks[j]).path,
            ),
    ensures
        holds_files(
            library_sync::synced_library(
                playlists,
                seq![target],
                listings,
                entries,
            ).playlists[target.playlist_index as int].tracks,
            files,
        ),
        library_sync::synced_library(playlists, seq![target], listings, entries).errors.len() == 0,
{
    let at = target.playlist_index;
    let start = library_sync::unsynced(playlists);
    assert(seq![target].drop_last() =~= Seq::empty());
    assert(start.with_targets(seq![target].drop_last(), listings) == start);
    let started = start.with_targets(seq![target], listings);
    assert(started == start.with_target(target, listings));
    assert(lookup::is_target(playlists[at as int], target));
    assert(lookup::resolved_target(playlists, target) == Some(at));
    assert(started == start.with_scan(at, files));
    index_set::with_index_holds(start.scanned, at);
    checks_mark_lists(started, playlists.len(), entries, at as int);
    checks_keep_errors(started, playlists.len(), entries);
    scan_laws::scan_marks_what_is_there(playlists[at as int], files);
}

/// Checking files one by one adds no error.
proof fn checks_keep_errors(progress: SyncProgress, count: nat, entries: Seq<FileAvailability>)
    ensures
        progress.with_checks(count, entries).errors == progress.errors,
    decreases count,
{
    if count > 0 {
        checks_keep_errors(progress, (count - 1) as nat, entries);
    }
}

/// What a check of the library has found is taken over by the application: the tracks of its
/// playlists are those of the checked library, and the check is no longer running. A check that
/// got lost changes no playlist.
pub proof fn check_is_taken_over(
    view: AppView,
    trigger: library::LibrarySyncTrigger,
    targets: Vec<lookup::FolderLibrarySyncTarget>,
    listings: Vec<FolderListing>,
    availability: Vec<FileAvailability>,
    now: u64,
    interval: u64,
    list: int,
)
    requires
        0 <= list < view.state.playlists.len() <= usize::MAX,
    ensures
        ({
            let event = library::LibrarySyncEvent::Found {
                trigger,
                targets,
                listings,
                availability,
            };
            let after = view.with_sync_ended(event, now, interval);
            let synced = library_sync::synced_library(
                view.state.playlists,
                library_sync::target_views(targets@),
                listings@,
                availability@,
            );
            &&& after.state.playlists.len() == synced.playlists.len()
            &&& list < synced.playlists.len() ==> after.state.playlists[list].tracks
                == synced.playlists[list].tracks
            &&& !after.jobs.library_sync
            &&& after.active_track_path == view.active_track_path
            &&& trigger == library::LibrarySyncTrigger::Manual ==> (after.messages.error is Some
                <==> synced.errors.len() > 0)
        }),
        view.with_sync_ended(library::LibrarySyncEvent::Lost, now, interval).state == view.state,
        !view.with_sync_ended(library::LibrarySyncEvent::Lost, now, interval).jobs.library_sync,
        view.with_sync_ended(
            library::LibrarySyncEvent::Lost,
            now,
            interval,
        ).messages.error is Some,
{
}

// ---------------------------------------------------------------------------
// Backups
// ---------------------------------------------------------------------------

/// With a backup its playlists, stations, profiles and settings are taken over, and nothing plays
/// any more; what was there before is gone.
pub proof fn backup_is_taken_over(view: AppView, given: StateView, path: Seq<char>)
    requires
        given.playlists.len() > 0,
    ensures
        ({
            let after = view.with_backup_imported(given, path);
            &&& after.state.playlists.len() == given.playlists.len()
            &&& forall|i: int|
                0 <= i < given.playlists.len() ==> {
                    &&& (#[trigger] after.state.playlists[i]).name == given.playlists[i].name
                    &&& after.state.playlists[i].kind == given.playlists[i].kind
                    &&& after.state.playlists[i].source_folder == given.playlists[i].source_folder
                    &&& after.state.playlists[i].tracks.len() == given.playlists[i].tracks.len()
                    &&& forall|j: int|
                        0 <= j < given.playlists[i].tracks.len() ==> (
                        #[trigger] after.state.playlists[i].tracks[j]).path
                            == given.playlists[i].tracks[j].path
                }
            &&& after.state.radio_stations == given.radio_stations
            &&& after.state.profiles == given.profiles
            &&& after.state.playback == given.playback
            &&& after.state.playback_session == given.playback_session
            &&& given.selected_playlist_index < given.playlists.len()
                ==> after.state.selected_playlist_index == given.selected_playlist_index
            &&& after.active_track_path is None
            &&& after.radio.active_index is None
            &&& after.effects.contains(EffectView::StopPlayer)
            &&& after.messages.error is None
        }),
{
    let after = view.with_backup_imported(given, path);
    assert(after.effects[view.effects.len() as int] == EffectView::StopPlayer);
    let valid = state::valid_view(given);
    assert forall|i: int| 0 <= i < given.playlists.len() implies {
        &&& (#[trigger] after.state.playlists[i]).name == given.playlists[i].name
        &&& after.state.playlists[i].kind == given.playlists[i].kind
        &&& after.state.playlists[i].source_folder == given.playlists[i].source_folder
        &&& after.state.playlists[i].tracks.len() == given.playlists[i].tracks.len()
        &&& forall|j: int|
            0 <= j < given.playlists[i].tracks.len() ==> (
            #[trigger] after.state.playlists[i].tracks[j]).path
                == given.playlists[i].tracks[j].path
    } by {
        assert(after.state.playlists[i].tracks == valid.playlists[i].tracks);
        assert(valid.playlists[i] == given.playlists[i].with_sequences());
    }
}

/// A check that a user has asked for is always reported with its counts; one of its own accord
/// only where it has changed something, and the one at the start only where tracks got lost.
pub proof fn check_is_reported(
    view: AppView,
    stats: AppliedLibrarySyncStats,
    now: u64,
    interval: u64,
)
    ensures
        view.with_sync_reported(
            LibrarySyncTrigger::Manual,
            stats,
            Seq::empty(),
            now,
            interval,
        ).messages.status == "Library synced: "@ + text::decimal(stats.added as nat) + " added, "@
            + text::decimal(stats.restored as nat) + " restored, "@ + text::decimal(
            stats.newly_missing as nat,
        ) + " newly missing, "@ + text::decimal(stats.missing_total as nat) + " missing total."@,
        ({
            let after = view.with_sync_reported(
                LibrarySyncTrigger::Automatic,
                stats,
                Seq::empty(),
                now,
                interval,
            );
            if stats.added > 0 || stats.restored > 0 || stats.newly_missing > 0 {
                after.messages.status == "Library updated: "@ + text::decimal(stats.added as nat)
                    + " added, "@ + text::decimal(stats.restored as nat) + " restored, "@
                    + text::decimal(stats.newly_missing as nat) + " newly missing."@
            } else {
                after == view
            }
        }),
        ({
            let after = view.with_sync_reported(
                LibrarySyncTrigger::Startup,
                stats,
                Seq::empty(),
                now,
                interval,
            );
            &&& stats.newly_missing > 0 ==> after.messages.status == "Library check found "@
                + text::decimal(stats.missing_total as nat) + " missing track(s)."@
            &&& stats.newly_missing == 0 ==> after.messages == view.messages
        }),
{
}

/// Folders that could not be listed are said with the first of the errors, and how many there are.
pub proof fn check_errors_are_said(errors: Seq<Seq<char>>)
    ensures
        library::sync_errors(errors) is None <==> errors.len() == 0,
        errors.len() == 1 ==> library::sync_errors(errors) == Some(
            "One folder could not be synced: "@ + errors[0],
        ),
        errors.len() > 1 ==> library::sync_errors(errors) == Some(
            text::decimal(errors.len()) + " folders could not be synced. First error: "@
                + errors[0],
        ),
{
}

/// The playlists that are made from a folder are checked with it, each at its place, and no others
/// are.
pub proof fn folder_playlists_are_checked(
    playlists: Seq<PlaylistView>,
    count: nat,
    index: int,
    at: int,
)
    requires
        count <= playlists.len() <= usize::MAX,
        0 <= index < count,
    ensures
        ({
            let targets = library::targets_below(playlists, count);
            &&& (exists|k: int|
                0 <= k < targets.len() && (#[trigger] targets[k]).playlist_index == index) <==> (
            playlists[index].kind == PlaylistKind::Folder && playlists[index].source_folder
                is Some)
            &&& 0 <= at < targets.len() ==> targets[at].playlist_index < count && targets[at].playlist_name
                == playlists[targets[at].playlist_index as int].name
                && playlists[targets[at].playlist_index as int].source_folder == Some(
                targets[at].source_folder,
            )
        }),
    decreases count,
{
    let targets = library::targets_below(playlists, count);
    let before = library::targets_below(playlists, (count - 1) as nat);
    let last = playlists[count - 1];
    let taken = last.kind == PlaylistKind::Folder && last.source_folder is Some;
    if count > 1 {
        let other = if index < count - 1 {
            index
        } else {
            0
        };
        folder_playlists_are_checked(playlists, (count - 1) as nat, other, at);
    }
    targets_are_below(playlists, (count - 1) as nat);
    if index == count - 1 {
        if taken {
            assert(targets[before.len() as int].playlist_index == index);
        }
    } else {
        if exists|k: int| 0 <= k < before.len() && (#[trigger] before[k]).playlist_index == index {
            let k = choose|k: int|
                0 <= k < before.len() && (#[trigger] before[k]).playlist_index == index;
            assert(targets[k] == before[k]);
        }
        if exists|k: int|
            0 <= k < targets.len() && (#[trigger] targets[k]).playlist_index == index {
            let k = choose|k: int|
                0 <= k < targets.len() && (#[trigger] targets[k]).playlist_index == index;
            assert(k < before.len());
            assert(before[k] == targets[k]);
        }
    }
    if 0 <= at < targets.len() && at < before.len() {
        assert(targets[at] == before[at]);
    }
}

/// The playlists that are checked are among the first ones.
proof fn targets_are_below(playlists: Seq<PlaylistView>, count: nat)
    requires
        count <= playlists.len() <= usize::MAX,
    ensures
        forall|k: int|
            0 <= k < library::targets_below(playlists, count).len() ==> (
            #[trigger] library::targets_below(playlists, count)[k]).playlist_index < count,
    decreases count,
{
    if count > 0 {
        targets_are_below(playlists, (count - 1) as nat);
        let before = library::targets_below(playlists, (count - 1) as nat);
        let targets = library::targets_below(playlists, count);
        assert forall|k: int| 0 <= k < targets.len() implies (#[trigger] targets[k]).playlist_index
            < count by {
            if k < before.len() {
                assert(targets[k] == before[k]);
            }
        }
    }
}

} // verus!
