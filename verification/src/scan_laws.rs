//! What holds of folder playlists: what an import makes of a folder, and what a rescan changes.

use crate::app::AppView;
use crate::counting;
use crate::folder_sync;
use crate::grouping;
use crate::library;
use crate::library_sync;
use crate::library::{FolderScanEvent, FolderScanView, PendingFolderScanKind};
use crate::paths;
use crate::playlist;
use crate::playlist::{PlaylistKind, PlaylistView};
use crate::selection;
use crate::sorting;
use crate::sync_laws;
use crate::text;
use crate::text_set;
use crate::track;
use crate::track::{AudioFile, AudioFileView, TrackView};
use vstd::prelude::*;
use vstd::string::*;

verus! {

// ---------------------------------------------------------------------------
// Lemmas: order and numbers of what a filter keeps
// ---------------------------------------------------------------------------

/// Two entries that a filter keeps stand in what it keeps, in the same order.
proof fn kept_in_order<V>(entries: Seq<V>, keep: spec_fn(V) -> bool, i: int, j: int) -> (places: (
    int,
    int,
))
    requires
        0 <= i < j < entries.len(),
        keep(entries[i]),
        keep(entries[j]),
    ensures
        0 <= places.0 < places.1 < entries.filter(keep).len(),
        entries.filter(keep)[places.0] == entries[i],
        entries.filter(keep)[places.1] == entries[j],
{
    let first = entries.take(i + 1);
    let second = entries.subrange(i + 1, j + 1);
    let rest = entries.skip(j + 1);
    assert(entries =~= first + second + rest);
    Seq::filter_distributes_over_add(first + second, rest, keep);
    Seq::filter_distributes_over_add(first, second, keep);
    reveal(Seq::filter);
    assert(first.last() == entries[i]);
    assert(second.last() == entries[j]);
    let a = first.filter(keep);
    let b = second.filter(keep);
    assert(a.last() == entries[i]);
    assert(b.last() == entries[j]);
    let all = entries.filter(keep);
    assert(all =~= a + b + rest.filter(keep));
    assert(all[a.len() - 1] == a.last());
    assert(all[a.len() + b.len() - 1] == b.last());
    (a.len() - 1, a.len() + b.len() - 1)
}

/// Two entries that a filter has kept come from two entries in the same order.
proof fn kept_from_order<V>(entries: Seq<V>, keep: spec_fn(V) -> bool, x: int, y: int) -> (places: (
    int,
    int,
))
    requires
        0 <= x < y < entries.filter(keep).len(),
    ensures
        0 <= places.0 < places.1 < entries.len(),
        entries[places.0] == entries.filter(keep)[x],
        entries[places.1] == entries.filter(keep)[y],
    decreases entries.len(),
{
    reveal(Seq::filter);
    let rest = entries.drop_last();
    let kept = rest.filter(keep);
    if y < kept.len() {
        let places = kept_from_order(rest, keep, x, y);
        places
    } else {
        grouping::filter_entries(rest, keep);
        assert(rest.contains(kept[x]));
        let k = rest.index_of(kept[x]);
        assert(entries[k] == kept[x]);
        (k, entries.len() - 1)
    }
}

/// As many positions satisfy a condition on their entries as a filter keeps entries.
pub(crate) proof fn count_is_filter<V>(entries: Seq<V>, keep: spec_fn(V) -> bool, holds: spec_fn(int) -> bool)
    requires
        forall|i: int| 0 <= i < entries.len() ==> #[trigger] holds(i) == keep(entries[i]),
    ensures
        counting::count(entries.len(), holds) == entries.filter(keep).len(),
    decreases entries.len(),
{
    reveal(Seq::filter);
    if entries.len() > 0 {
        let rest = entries.drop_last();
        assert forall|i: int| 0 <= i < rest.len() implies #[trigger] holds(i) == keep(rest[i]) by {
            assert(rest[i] == entries[i]);
        }
        count_is_filter(rest, keep, holds);
        assert(holds(entries.len() - 1) == keep(entries.last()));
    }
}

/// Lists with the same entries keep as many of them through a filter.
proof fn filter_len_of_merged(
    tracks: Seq<TrackView>,
    added: Seq<TrackView>,
    keep: spec_fn(TrackView) -> bool,
)
    ensures
        grouping::merged(tracks, added).filter(keep).len() == tracks.filter(keep).len()
            + added.filter(keep).len(),
{
    broadcast use vstd::seq_lib::group_to_multiset_ensures;
    broadcast use vstd::multiset::group_multiset_axioms;

    grouping::merged_keeps_tracks(tracks, added);
    vstd::seq_lib::lemma_multiset_commutative(tracks, added);
    sync_laws::filter_len_by_multiset(grouping::merged(tracks, added), tracks + added, keep);
    Seq::filter_distributes_over_add(tracks, added, keep);
}

// ---------------------------------------------------------------------------
// What a scan does to the tracks of a playlist
// ---------------------------------------------------------------------------

/// Among tracks with different keys, one is found by a scan exactly where a file with its key
/// was found.
proof fn found_by_key(tracks: Seq<TrackView>, files: Seq<AudioFileView>, index: int)
    requires
        playlist::paths_distinct(tracks),
        0 <= index < tracks.len(),
    ensures
        folder_sync::found_by_scan(tracks, files, index) <==> exists|k: int|
            0 <= k < files.len() && text::lowercase(#[trigger] files[k].path) == text::lowercase(
                tracks[index].path,
            ),
{
    let key = text::lowercase(tracks[index].path);
    let keys = folder_sync::file_keys(files);
    let earlier = folder_sync::track_keys(tracks.take(index));
    if earlier.contains(key) {
        let j = earlier.index_of(key);
        assert(!paths::same_key(tracks[j].path, tracks[index].path));
    }
    if keys.contains(key) {
        let k = keys.index_of(key);
        assert(text::lowercase(files[k].path) == key);
    }
    if exists|k: int|
        0 <= k < files.len() && text::lowercase(#[trigger] files[k].path) == key {
        let k = choose|k: int|
            0 <= k < files.len() && text::lowercase(#[trigger] files[k].path) == key;
        assert(keys[k] == key);
    }
}

/// After a scan of its folder a playlist without two tracks for one file has a track that is
/// not missing for every file that was found. Every track that was there still is, with all that
/// is known of it, and is missing exactly where no file with its key was found. Every other
/// track stands for a file that was found, and is grouped by the folders of the playlist.
pub proof fn scan_marks_what_is_there(before: PlaylistView, files: Seq<AudioFileView>)
    requires
        forall|i: int, j: int|
            0 <= i < j < before.tracks.len() ==> text::lowercase(
                (#[trigger] before.tracks[i]).path,
            ) != text::lowercase((#[trigger] before.tracks[j]).path),
    ensures
        ({
            let after = before.after_scan(files).tracks;
            &&& forall|k: int|
                0 <= k < files.len() ==> exists|j: int|
                    {
                        &&& 0 <= j < after.len()
                        &&& text::lowercase((#[trigger] after[j]).path) == text::lowercase(
                            (#[trigger] files[k]).path,
                        )
                        &&& !after[j].missing
                    }
            &&& forall|i: int|
                0 <= i < before.tracks.len() ==> after.contains(
                    TrackView {
                        missing: !exists|k: int|
                            0 <= k < files.len() && text::lowercase(#[trigger] files[k].path)
                                == text::lowercase(before.tracks[i].path),
                        ..#[trigger] before.tracks[i]
                    },
                )
            &&& forall|j: int|
                0 <= j < after.len() ==> {
                    ||| exists|i: int|
                        0 <= i < before.tracks.len() && (#[trigger] before.tracks[i]).path
                            == after[j].path
                    ||| exists|k: int|
                        {
                            &&& 0 <= k < files.len()
                            &&& (#[trigger] files[k]).path == (#[trigger] after[j]).path
                            &&& after[j].group == paths::folder_group(
                                files[k].path,
                                before.source_folder,
                                before.folder_depth as nat,
                            )
                        }
                }
        }),
{
    let after = before.after_scan(files).tracks;
    let tracks = before.tracks;
    let marked = folder_sync::marked_by_scan(tracks, files);
    let kept = before.contiguous_tracks(marked);
    let root = before.source_folder;
    let depth = before.folder_depth as nat;
    let added = folder_sync::additions(tracks, files, root, depth);
    let keys = folder_sync::new_keys(tracks, files);
    assert(playlist::paths_distinct(tracks));
    sync_laws::additions_are_new(tracks, files, root, depth);
    assert forall|i: int| 0 <= i < tracks.len() implies after.contains(#[trigger] marked[i]) by {
        assert(marked.contains(marked[i]));
        sync_laws::grouped_contains(marked, marked[i]);
        sync_laws::merged_contains(kept, added, marked[i]);
    }
    assert forall|i: int| 0 <= i < tracks.len() implies after.contains(
        TrackView {
            missing: !exists|k: int|
                0 <= k < files.len() && text::lowercase(#[trigger] files[k].path)
                    == text::lowercase(tracks[i].path),
            ..#[trigger] tracks[i]
        },
    ) by {
        found_by_key(tracks, files, i);
        assert(after.contains(marked[i]));
    }
    assert forall|k: int| 0 <= k < files.len() implies exists|j: int|
        {
            &&& 0 <= j < after.len()
            &&& text::lowercase((#[trigger] after[j]).path) == text::lowercase(
                (#[trigger] files[k]).path,
            )
            &&& !after[j].missing
        } by {
        let key = text::lowercase(files[k].path);
        assert(folder_sync::file_keys(files)[k] == key);
        if folder_sync::track_keys(tracks).contains(key) {
            let i = folder_sync::track_keys(tracks).index_of(key);
            found_by_key(tracks, files, i);
            assert(after.contains(marked[i]));
            let j = after.index_of(marked[i]);
            assert(after[j] == marked[i]);
        } else {
            let all = text_set::sorted_distinct(folder_sync::file_keys(files));
            let is_new = |key: Seq<char>| !folder_sync::track_keys(tracks).contains(key);
            text_set::sorted_distinct_holds(folder_sync::file_keys(files));
            assert(folder_sync::file_keys(files).contains(key));
            assert(all.contains(key));
            assert(is_new(all[all.index_of(key)]));
            all.lemma_filter_contains(is_new, all.index_of(key));
            assert(keys.contains(key));
            let m = keys.index_of(key);
            assert(added.contains(added[m]));
            sync_laws::merged_contains(kept, added, added[m]);
            let j = after.index_of(added[m]);
            assert(after[j] == added[m]);
        }
    }
    assert forall|j: int| 0 <= j < after.len() implies {
        ||| exists|i: int|
            0 <= i < tracks.len() && (#[trigger] tracks[i]).path == after[j].path
        ||| exists|k: int|
            {
                &&& 0 <= k < files.len()
                &&& (#[trigger] files[k]).path == (#[trigger] after[j]).path
                &&& after[j].group == paths::folder_group(files[k].path, root, depth)
            }
    } by {
        assert(after.contains(after[j]));
        sync_laws::merged_contains(kept, added, after[j]);
        if kept.contains(after[j]) {
            sync_laws::grouped_contains(marked, after[j]);
            let i = marked.index_of(after[j]);
            assert(tracks[i].path == after[j].path);
        } else {
            let m = added.index_of(after[j]);
            assert(added[m] == after[j]);
            sync_laws::first_with_key_has_key(files, keys[m]);
            let file = folder_sync::first_with_key(files, keys[m]);
            let k = files.index_of(file);
            assert(files[k].path == after[j].path);
        }
    }
}

/// A scan keeps the order of the user: two tracks that were there keep their order, in a folder
/// playlist where they are of one group.
pub proof fn scan_keeps_order_of_user(
    before: PlaylistView,
    files: Seq<AudioFileView>,
    i: int,
    j: int,
    a: int,
    b: int,
)
    requires
        forall|m: int, n: int|
            0 <= m < n < before.tracks.len() ==> text::lowercase(
                (#[trigger] before.tracks[m]).path,
            ) != text::lowercase((#[trigger] before.tracks[n]).path),
        0 <= i < j < before.tracks.len(),
        before.kind == PlaylistKind::Folder ==> before.tracks[i].group == before.tracks[j].group,
        0 <= a < before.after_scan(files).tracks.len(),
        0 <= b < before.after_scan(files).tracks.len(),
        before.after_scan(files).tracks[a].path == before.tracks[i].path,
        before.after_scan(files).tracks[b].path == before.tracks[j].path,
    ensures
        a < b,
{
    let tracks = before.tracks;
    let after = before.after_scan(files).tracks;
    let marked = folder_sync::marked_by_scan(tracks, files);
    let group = tracks[i].group;
    let folder = before.kind == PlaylistKind::Folder;
    let known = |track: TrackView| playlist::has_path(tracks, track.path);
    let same = |track: TrackView| !folder || track.group == group;
    let both = |track: TrackView| known(track) && same(track);
    assert(playlist::paths_distinct(tracks));
    sync_laws::scan_keeps_tracks_in_order(before, files);
    assert(after.filter(known) == before.contiguous_tracks(marked));
    grouping::filter_twice(after, known, same, both);
    let of_group = |track: TrackView| track.group == group;
    if folder {
        grouping::grouped_keeps_group_order(marked, group);
        assert(same =~= of_group);
        assert(after.filter(both) == marked.filter(same));
    } else {
        assert(after.filter(both) == marked.filter(same));
    }
    in_one_group(before, files, i, a);
    in_one_group(before, files, j, b);
    assert(known(after[a])) by {
        assert(paths::same_key(tracks[i].path, after[a].path));
    }
    assert(known(after[b])) by {
        assert(paths::same_key(tracks[j].path, after[b].path));
    }
    assert(both(after[a]) && both(after[b]));
    if a == b {
        assert(text::lowercase(tracks[i].path) != text::lowercase(tracks[j].path));
    } else if b < a {
        let places = kept_in_order(after, both, b, a);
        let from = kept_from_order(marked, same, places.0, places.1);
        assert(marked[from.0].path == tracks[j].path);
        assert(marked[from.1].path == tracks[i].path);
        if from.0 < j {
            assert(text::lowercase(tracks[from.0].path) != text::lowercase(tracks[j].path));
        } else if j < from.0 {
            assert(text::lowercase(tracks[j].path) != text::lowercase(tracks[from.0].path));
        }
        if from.1 < i {
            assert(text::lowercase(tracks[from.1].path) != text::lowercase(tracks[i].path));
        } else if i < from.1 {
            assert(text::lowercase(tracks[i].path) != text::lowercase(tracks[from.1].path));
        }
    }
}

/// A track that was there stays in its group.
proof fn in_one_group(before: PlaylistView, files: Seq<AudioFileView>, i: int, a: int)
    requires
        playlist::paths_distinct(before.tracks),
        0 <= i < before.tracks.len(),
        0 <= a < before.after_scan(files).tracks.len(),
        before.after_scan(files).tracks[a].path == before.tracks[i].path,
    ensures
        before.after_scan(files).tracks[a].group == before.tracks[i].group,
{
    let tracks = before.tracks;
    let after = before.after_scan(files).tracks;
    let marked = folder_sync::marked_by_scan(tracks, files);
    let kept = before.contiguous_tracks(marked);
    let root = before.source_folder;
    let depth = before.folder_depth as nat;
    let added = folder_sync::additions(tracks, files, root, depth);
    sync_laws::additions_are_new(tracks, files, root, depth);
    assert(after.contains(after[a]));
    sync_laws::merged_contains(kept, added, after[a]);
    if kept.contains(after[a]) {
        sync_laws::grouped_contains(marked, after[a]);
        let m = marked.index_of(after[a]);
        assert(marked[m] == after[a]);
        if m < i {
            assert(!paths::same_key(tracks[m].path, tracks[i].path));
        } else if i < m {
            assert(!paths::same_key(tracks[i].path, tracks[m].path));
        }
    } else {
        let m = added.index_of(after[a]);
        assert(added[m] == after[a]);
        assert(folder_sync::track_keys(tracks)[i] == text::lowercase(after[a].path));
    }
}

/// After a scan the tracks of each group of a folder playlist stand together.
pub proof fn scan_keeps_groups_together(
    before: PlaylistView,
    files: Seq<AudioFileView>,
    i: int,
    j: int,
    k: int,
)
    requires
        before.kind == PlaylistKind::Folder,
        0 <= i < j < k < before.after_scan(files).tracks.len(),
        before.after_scan(files).tracks[i].group == before.after_scan(files).tracks[k].group,
    ensures
        before.after_scan(files).tracks[j].group == before.after_scan(files).tracks[i].group,
{
    let marked = folder_sync::marked_by_scan(before.tracks, files);
    let added = folder_sync::additions(
        before.tracks,
        files,
        before.source_folder,
        before.folder_depth as nat,
    );
    grouping::grouped_is_grouped(marked);
    sync_laws::merged_is_grouped(grouping::grouped(marked), added);
    assert(grouping::stays_together(before.after_scan(files).tracks, i, j, k));
}

// ---------------------------------------------------------------------------
// What noticed changes do to the tracks of a playlist
// ---------------------------------------------------------------------------

/// A path lies within a root exactly where it is the root, or where it goes on behind the root
/// with a separator, whatever the case of letters.
pub proof fn within_goes_on_behind_root(path: Seq<char>, root: Seq<char>)
    requires
        text::lowercase(root).len() > 0,
        text::lowercase(root).last() != '/',
        text::lowercase(root).last() != '\\',
    ensures
        paths::is_within(path, root) <==> {
            let key = text::lowercase(path);
            let base = text::lowercase(root);
            ||| key == base
            ||| key.len() > base.len() && key.take(base.len() as int) == base && (key[base.len() as int]
                == '/' || key[base.len() as int] == '\\')
        },
{
}

/// After changes in its folder every file that was found has a track that is not missing. Every
/// track that was there still is: it is there where its file was found, missing where it lies
/// below what is gone, and as it was where nothing is known of it. A file that was not found, and
/// has no track, gets none.
pub proof fn changes_mark_what_is_named(
    before: PlaylistView,
    files: Seq<AudioFileView>,
    missing_roots: Seq<Seq<char>>,
)
    ensures
        ({
            let after = before.after_changes(files, missing_roots).tracks;
            &&& forall|k: int|
                0 <= k < files.len() ==> exists|j: int|
                    {
                        &&& 0 <= j < after.len()
                        &&& text::lowercase((#[trigger] after[j]).path) == text::lowercase(
                            (#[trigger] files[k]).path,
                        )
                        &&& !after[j].missing
                    }
            &&& forall|i: int|
                0 <= i < before.tracks.len() ==> after.contains(
                    TrackView {
                        missing: if exists|k: int|
                            0 <= k < files.len() && text::lowercase(#[trigger] files[k].path)
                                == text::lowercase(before.tracks[i].path) {
                            false
                        } else if exists|k: int|
                            0 <= k < missing_roots.len() && paths::is_within(
                                before.tracks[i].path,
                                #[trigger] missing_roots[k],
                            ) {
                            true
                        } else {
                            before.tracks[i].missing
                        },
                        ..#[trigger] before.tracks[i]
                    },
                )
            &&& forall|j: int|
                #![trigger after[j]]
                0 <= j < after.len() ==> {
                    ||| exists|i: int|
                        0 <= i < before.tracks.len() && (#[trigger] before.tracks[i]).path
                            == after[j].path
                    ||| exists|k: int|
                        0 <= k < files.len() && (#[trigger] files[k]).path == after[j].path
                }
        }),
{
    let tracks = before.tracks;
    let after = before.after_changes(files, missing_roots).tracks;
    let marked = folder_sync::marked_by_changes(tracks, files, missing_roots);
    let kept = before.contiguous_tracks(marked);
    let root = before.source_folder;
    let depth = before.folder_depth as nat;
    let added = folder_sync::additions(tracks, files, root, depth);
    let keys = folder_sync::new_keys(tracks, files);
    sync_laws::additions_are_new(tracks, files, root, depth);
    assert forall|wanted: TrackView| #[trigger]
        after.contains(wanted) <==> marked.contains(wanted) || added.contains(wanted) by {
        if added.len() == 0 {
            assert(!added.contains(wanted));
        } else {
            sync_laws::grouped_contains(marked, wanted);
            sync_laws::merged_contains(kept, added, wanted);
        }
    }
    assert forall|path: Seq<char>| #[trigger]
        folder_sync::file_keys(files).contains(text::lowercase(path)) <==> exists|k: int|
            0 <= k < files.len() && text::lowercase(#[trigger] files[k].path) == text::lowercase(
                path,
            ) by {
        let all = folder_sync::file_keys(files);
        if all.contains(text::lowercase(path)) {
            let k = all.index_of(text::lowercase(path));
            assert(text::lowercase(files[k].path) == text::lowercase(path));
        }
        if exists|k: int|
            0 <= k < files.len() && text::lowercase(#[trigger] files[k].path) == text::lowercase(
                path,
            ) {
            let k = choose|k: int|
                0 <= k < files.len() && text::lowercase(#[trigger] files[k].path)
                    == text::lowercase(path);
            assert(all[k] == text::lowercase(path));
        }
    }
    assert forall|i: int| 0 <= i < tracks.len() implies after.contains(
        TrackView {
            missing: if exists|k: int|
                0 <= k < files.len() && text::lowercase(#[trigger] files[k].path)
                    == text::lowercase(tracks[i].path) {
                false
            } else if exists|k: int|
                0 <= k < missing_roots.len() && paths::is_within(
                    tracks[i].path,
                    #[trigger] missing_roots[k],
                ) {
                true
            } else {
                tracks[i].missing
            },
            ..#[trigger] tracks[i]
        },
    ) by {
        assert(folder_sync::file_keys(files).contains(text::lowercase(tracks[i].path))
            || !folder_sync::file_keys(files).contains(text::lowercase(tracks[i].path)));
        assert(marked.contains(marked[i]));
        assert(after.contains(marked[i]));
    }
    assert forall|k: int| 0 <= k < files.len() implies exists|j: int|
        {
            &&& 0 <= j < after.len()
            &&& text::lowercase((#[trigger] after[j]).path) == text::lowercase(
                (#[trigger] files[k]).path,
            )
            &&& !after[j].missing
        } by {
        let key = text::lowercase(files[k].path);
        assert(folder_sync::file_keys(files)[k] == key);
        assert(folder_sync::file_keys(files).contains(key));
        if folder_sync::track_keys(tracks).contains(key) {
            let i = folder_sync::track_keys(tracks).index_of(key);
            assert(text::lowercase(tracks[i].path) == key);
            assert(!marked[i].missing);
            assert(marked.contains(marked[i]));
            assert(after.contains(marked[i]));
            let j = after.index_of(marked[i]);
            assert(after[j] == marked[i]);
        } else {
            let all = text_set::sorted_distinct(folder_sync::file_keys(files));
            let is_new = |key: Seq<char>| !folder_sync::track_keys(tracks).contains(key);
            text_set::sorted_distinct_holds(folder_sync::file_keys(files));
            assert(all.contains(key));
            assert(is_new(all[all.index_of(key)]));
            all.lemma_filter_contains(is_new, all.index_of(key));
            assert(keys.contains(key));
            let m = keys.index_of(key);
            assert(added.contains(added[m]));
            assert(after.contains(added[m]));
            let j = after.index_of(added[m]);
            assert(after[j] == added[m]);
        }
    }
    assert forall|j: int| #![trigger after[j]] 0 <= j < after.len() implies {
        ||| exists|i: int| 0 <= i < tracks.len() && (#[trigger] tracks[i]).path == after[j].path
        ||| exists|k: int| 0 <= k < files.len() && (#[trigger] files[k]).path == after[j].path
    } by {
        assert(after.contains(after[j]));
        if marked.contains(after[j]) {
            let i = marked.index_of(after[j]);
            assert(tracks[i].path == after[j].path);
        } else {
            let m = added.index_of(after[j]);
            assert(added[m] == after[j]);
            sync_laws::first_with_key_has_key(files, keys[m]);
            let k = files.index_of(folder_sync::first_with_key(files, keys[m]));
            assert(files[k].path == after[j].path);
        }
    }
}

// ---------------------------------------------------------------------------
// A rescan that the application takes over
// ---------------------------------------------------------------------------

/// How many tracks are there and how many are missing after a scan, by what the scan counts.
proof fn counted_after_scan(before: PlaylistView, files: Seq<AudioFileView>)
    ensures
        ({
            let after = before.after_scan(files).tracks;
            let added = folder_sync::new_files(before.tracks, files).len();
            &&& after.len() == before.tracks.len() + added
            &&& after.filter(|track: TrackView| !track.missing).len() == library::found_count(
                before.tracks,
                files,
            ) + added
            &&& after.filter(|track: TrackView| track.missing).len() == library::unfound_count(
                before.tracks,
                files,
            )
        }),
{
    let tracks = before.tracks;
    let after = before.after_scan(files).tracks;
    let marked = folder_sync::marked_by_scan(tracks, files);
    let kept = before.contiguous_tracks(marked);
    let root = before.source_folder;
    let depth = before.folder_depth as nat;
    let added = folder_sync::additions(tracks, files, root, depth);
    let here = |track: TrackView| !track.missing;
    let gone = |track: TrackView| track.missing;
    sync_laws::additions_are_new(tracks, files, root, depth);
    assert(added.len() == folder_sync::new_files(tracks, files).len());
    grouping::grouped_keeps_tracks(marked);
    sync_laws::filter_len_by_multiset(kept, marked, here);
    sync_laws::filter_len_by_multiset(kept, marked, gone);
    filter_len_of_merged(kept, added, here);
    filter_len_of_merged(kept, added, gone);
    grouping::filter_all_or_none(added, here);
    grouping::filter_all_or_none(added, gone);
    count_is_filter(marked, here, |i: int| folder_sync::found_by_scan(tracks, files, i));
    count_is_filter(marked, gone, |i: int| !folder_sync::found_by_scan(tracks, files, i));
    grouping::grouped_entries(marked);
    grouping::merged_keeps_tracks(kept, added);
}

/// A path has the key of a file that was found exactly where it has that of its model.
proof fn found_files_by_key(files: Seq<AudioFile>, path: Seq<char>)
    ensures
        (exists|k: int|
            0 <= k < files.len() && text::lowercase(#[trigger] files[k].path@) == text::lowercase(
                path,
            )) == (exists|k: int|
            0 <= k < track::file_views(files).len() && text::lowercase(
                #[trigger] track::file_views(files)[k].path,
            ) == text::lowercase(path)),
{
    let found = track::file_views(files);
    if exists|k: int|
        0 <= k < files.len() && text::lowercase(#[trigger] files[k].path@) == text::lowercase(
            path,
        ) {
        let k = choose|k: int|
            0 <= k < files.len() && text::lowercase(#[trigger] files[k].path@)
                == text::lowercase(path);
        assert(text::lowercase(found[k].path) == text::lowercase(path));
    }
    if exists|k: int|
        0 <= k < found.len() && text::lowercase(#[trigger] found[k].path) == text::lowercase(
            path,
        ) {
        let k = choose|k: int|
            0 <= k < found.len() && text::lowercase(#[trigger] found[k].path)
                == text::lowercase(path);
        assert(text::lowercase(files[k].path@) == text::lowercase(path));
    }
}

/// The tracks of a playlist after a scan of its folder, by the files that were found.
proof fn rescanned_tracks(list: PlaylistView, files: Seq<AudioFile>)
    requires
        playlist::paths_distinct(list.tracks),
    ensures
        ({
            let before = list.tracks;
            let after = list.after_scan(track::file_views(files)).tracks;
            &&& forall|k: int|
                0 <= k < files.len() ==> exists|j: int|
                    {
                        &&& 0 <= j < after.len()
                        &&& text::lowercase((#[trigger] after[j]).path) == text::lowercase(
                            (#[trigger] files[k]).path@,
                        )
                        &&& !after[j].missing
                    }
            &&& forall|i: int|
                0 <= i < before.len() ==> after.contains(
                    TrackView {
                        missing: !exists|k: int|
                            0 <= k < files.len() && text::lowercase(
                                #[trigger] files[k].path@,
                            ) == text::lowercase(before[i].path),
                        ..#[trigger] before[i]
                    },
                )
            &&& forall|j: int|
                #![trigger after[j]]
                0 <= j < after.len() ==> {
                    ||| exists|i: int|
                        0 <= i < before.len() && (#[trigger] before[i]).path == after[j].path
                    ||| exists|k: int|
                        0 <= k < files.len() && (#[trigger] files[k]).path@ == after[j].path
                }
        }),
{
    let found = track::file_views(files);
    let before = list.tracks;
    let after = list.after_scan(found).tracks;
    scan_marks_what_is_there(list, found);
    assert forall|k: int| 0 <= k < files.len() implies exists|j: int|
        {
            &&& 0 <= j < after.len()
            &&& text::lowercase((#[trigger] after[j]).path) == text::lowercase(
                (#[trigger] files[k]).path@,
            )
            &&& !after[j].missing
        } by {
        assert(found[k].path == files[k].path@);
    }
    assert forall|i: int| 0 <= i < before.len() implies after.contains(
        TrackView {
            missing: !exists|k: int|
                0 <= k < files.len() && text::lowercase(#[trigger] files[k].path@)
                    == text::lowercase(before[i].path),
            ..#[trigger] before[i]
        },
    ) by {
        found_files_by_key(files, before[i].path);
    }
    assert forall|j: int| #![trigger after[j]] 0 <= j < after.len() implies {
        ||| exists|i: int| 0 <= i < before.len() && (#[trigger] before[i]).path == after[j].path
        ||| exists|k: int| 0 <= k < files.len() && (#[trigger] files[k]).path@ == after[j].path
    } by {
        if !exists|i: int| 0 <= i < before.len() && (#[trigger] before[i]).path == after[j].path {
            let k = choose|k: int|
                0 <= k < found.len() && (#[trigger] found[k]).path == after[j].path;
            assert(files[k].path@ == after[j].path);
        }
    }
}

/// How many tracks a scan has found again, by the files that were found.
proof fn restored_tracks(before: Seq<TrackView>, files: Seq<AudioFile>)
    requires
        playlist::paths_distinct(before),
    ensures
        library_sync::restored_by_scan(before, track::file_views(files)) == before.filter(
            |track: TrackView|
                track.missing && exists|k: int|
                    0 <= k < files.len() && text::lowercase(#[trigger] files[k].path@)
                        == text::lowercase(track.path),
        ).len(),
{
    let found = track::file_views(files);
    let again = |track: TrackView|
        track.missing && exists|k: int|
            0 <= k < files.len() && text::lowercase(#[trigger] files[k].path@)
                == text::lowercase(track.path);
    let holds = |i: int| folder_sync::found_by_scan(before, found, i) && before[i].missing;
    assert forall|i: int| 0 <= i < before.len() implies #[trigger] holds(i) == again(
        before[i],
    ) by {
        found_by_key(before, found, i);
        found_files_by_key(files, before[i].path);
    }
    count_is_filter(before, again, holds);
}

/// A rescan of the folder of a playlist that is still there, and still has that folder, is taken
/// over: every file that was found has a track that is not missing, and every track that was
/// there still is, and is missing exactly where no file with its key was found. The status line
/// counts what is there now, what was added, what was found again and what is missing. The other
/// playlists keep their tracks.
pub proof fn rescan_is_taken_over(
    view: AppView,
    kind: PendingFolderScanKind,
    files: Vec<AudioFile>,
    index: usize,
    name: Seq<char>,
    folder: Seq<char>,
    depth: usize,
)
    requires
        kind@ == (FolderScanView::Rescan { playlist_index: index, name, folder, depth }),
        index < view.state.playlists.len(),
        view.state.playlists[index as int].source_folder is Some,
        text::lowercase(view.state.playlists[index as int].source_folder->0) == text::lowercase(
            folder,
        ),
        forall|i: int, j: int|
            0 <= i < j < view.state.playlists[index as int].tracks.len() ==> text::lowercase(
                (#[trigger] view.state.playlists[index as int].tracks[i]).path,
            ) != text::lowercase((#[trigger] view.state.playlists[index as int].tracks[j]).path),
    ensures
        ({
            let ended = view.with_scan_ended(FolderScanEvent::Found { kind, files });
            let before = view.state.playlists[index as int].tracks;
            let after = ended.state.playlists[index as int].tracks;
            &&& forall|k: int|
                0 <= k < files@.len() ==> exists|j: int|
                    {
                        &&& 0 <= j < after.len()
                        &&& text::lowercase((#[trigger] after[j]).path) == text::lowercase(
                            (#[trigger] files@[k]).path@,
                        )
                        &&& !after[j].missing
                    }
            &&& forall|i: int|
                0 <= i < before.len() ==> after.contains(
                    TrackView {
                        missing: !exists|k: int|
                            0 <= k < files@.len() && text::lowercase(
                                #[trigger] files@[k].path@,
                            ) == text::lowercase(before[i].path),
                        ..#[trigger] before[i]
                    },
                )
            &&& forall|j: int|
                #![trigger after[j]]
                0 <= j < after.len() ==> {
                    ||| exists|i: int|
                        0 <= i < before.len() && (#[trigger] before[i]).path == after[j].path
                    ||| exists|k: int|
                        0 <= k < files@.len() && (#[trigger] files@[k]).path@ == after[j].path
                }
            &&& ended.messages.error is None
            &&& ended.messages.status == "Synced "@ + name + ": "@ + text::decimal(
                after.filter(|track: TrackView| !track.missing).len(),
            ) + " available, "@ + text::decimal((after.len() - before.len()) as nat)
                + " added, "@ + text::decimal(
                before.filter(
                    |track: TrackView|
                        track.missing && exists|k: int|
                            0 <= k < files@.len() && text::lowercase(
                                #[trigger] files@[k].path@,
                            ) == text::lowercase(track.path),
                ).len(),
            ) + " restored, "@ + text::decimal(
                after.filter(|track: TrackView| track.missing).len(),
            ) + " missing."@
        }),
        ({
            let ended = view.with_scan_ended(FolderScanEvent::Found { kind, files });
            &&& !ended.jobs.folder_scan
            &&& ended.state.playlists.len() == view.state.playlists.len()
            &&& ended.state.playlists[index as int].name == view.state.playlists[index as int].name
            &&& ended.state.playlists[index as int].kind == view.state.playlists[index as int].kind
            &&& ended.state.playlists[index as int].source_folder
                == view.state.playlists[index as int].source_folder
            &&& ended.state.playlists[index as int].folder_depth == depth
            &&& forall|other: int|
                0 <= other < view.state.playlists.len() && other != index ==> (
                #[trigger] ended.state.playlists[other]).tracks
                    == view.state.playlists[other].tracks && ended.state.playlists[other].name
                    == view.state.playlists[other].name
            &&& ended.state.selected_playlist_index == view.state.selected_playlist_index
            &&& ended.state.radio_stations == view.state.radio_stations
        }),
{
    let found = track::file_views(files@);
    let list = view.state.playlists[index as int];
    let freed = AppView {
        jobs: crate::app::Jobs { folder_scan: false, ..view.jobs },
        ..view
    };
    taken_over(freed, index, name, folder, depth, found);
    rescanned_tracks(PlaylistView { folder_depth: depth, ..list }, files@);
    restored_tracks(list.tracks, files@);
    counted_after_scan(PlaylistView { folder_depth: depth, ..list }, found);
    assert(view.with_scan_ended(FolderScanEvent::Found { kind, files })
        == freed.with_folder_rescanned(index, name, folder, depth, found));
}

/// What the application takes over of a scan.
proof fn taken_over(
    view: AppView,
    index: usize,
    name: Seq<char>,
    folder: Seq<char>,
    depth: usize,
    files: Seq<AudioFileView>,
)
    requires
        index < view.state.playlists.len(),
        view.state.playlists[index as int].source_folder is Some,
        paths::same_key(view.state.playlists[index as int].source_folder->0, folder),
    ensures
        ({
            let ended = view.with_folder_rescanned(index, name, folder, depth, files);
            let list = view.state.playlists[index as int];
            let scanned = (PlaylistView { folder_depth: depth, ..list }).after_scan(files);
            &&& ended.state.playlists.len() == view.state.playlists.len()
            &&& ended.state.playlists[index as int].tracks == scanned.tracks
            &&& ended.state.playlists[index as int].name == list.name
            &&& ended.state.playlists[index as int].kind == list.kind
            &&& ended.state.playlists[index as int].source_folder == list.source_folder
            &&& ended.state.playlists[index as int].folder_depth == depth
            &&& forall|other: int|
                0 <= other < view.state.playlists.len() && other != index ==> (
                #[trigger] ended.state.playlists[other]).tracks
                    == view.state.playlists[other].tracks && ended.state.playlists[other].name
                    == view.state.playlists[other].name
            &&& ended.state.selected_playlist_index == view.state.selected_playlist_index
            &&& ended.state.radio_stations == view.state.radio_stations
            &&& ended.messages.error is None
            &&& ended.messages.status == library::rescan_status(name, list.tracks, files)
            &&& ended.jobs == view.jobs
        }),
{
}

/// A scan of a playlist that is gone, or that has another folder by now, changes no playlist,
/// and an error says so. So does a scan that has failed or got lost.
#[verifier::rlimit(30)]
pub proof fn stale_rescan_is_ignored(
    view: AppView,
    kind: PendingFolderScanKind,
    files: Vec<AudioFile>,
    index: usize,
    name: Seq<char>,
    folder: Seq<char>,
    depth: usize,
    error: String,
)
    requires
        kind@ == (FolderScanView::Rescan { playlist_index: index, name, folder, depth }),
        index >= view.state.playlists.len() || view.state.playlists[index as int].source_folder is None
            || text::lowercase(view.state.playlists[index as int].source_folder->0)
            != text::lowercase(folder),
    ensures
        view.with_scan_ended(FolderScanEvent::Found { kind, files }).state == view.state,
        view.with_scan_ended(FolderScanEvent::Found { kind, files }).messages.error is Some,
        view.with_scan_ended(FolderScanEvent::Failed { error }).state == view.state,
        view.with_scan_ended(FolderScanEvent::Failed { error }).messages.error == Some(error@),
        view.with_scan_ended(FolderScanEvent::Lost).state == view.state,
        view.with_scan_ended(FolderScanEvent::Lost).messages.error is Some,
        !view.with_scan_ended(FolderScanEvent::Found { kind, files }).jobs.folder_scan,
        !view.with_scan_ended(FolderScanEvent::Failed { error }).jobs.folder_scan,
        !view.with_scan_ended(FolderScanEvent::Lost).jobs.folder_scan,
{
}

/// The folder that is scanned for the shown playlist is its own, and what is found is for that
/// playlist; a playlist without a folder is not scanned, and an error says so.
pub proof fn rescan_is_of_shown_playlist(view: AppView)
    requires
        view.state.selected_playlist_index < view.state.playlists.len(),
    ensures
        ({
            let shown = view.state.playlists[view.state.selected_playlist_index as int];
            match shown.source_folder {
                Some(source) => {
                    &&& view.rescan() matches Some(FolderScanView::Rescan {
                        playlist_index,
                        name,
                        folder,
                        depth,
                    })
                    &&& playlist_index == view.state.selected_playlist_index
                    &&& name == shown.name
                    &&& folder == source
                    &&& depth == shown.folder_depth
                    &&& !view.jobs.folder_scan && !view.jobs.library_sync
                        ==> view.with_rescan_started().jobs.folder_scan
                        && view.with_rescan_started().messages.error is None
                    &&& view.jobs.folder_scan || view.jobs.library_sync
                        ==> view.with_rescan_started().messages.error is Some
                        && view.with_rescan_started().jobs == view.jobs
                },
                None => view.rescan() is None && view.with_rescan_started().messages.error is Some
                    && view.with_rescan_started().jobs == view.jobs,
            }
        }),
        view.with_rescan_started().state == view.state,
{
}

// ---------------------------------------------------------------------------
// The import of a folder
// ---------------------------------------------------------------------------

/// The playlist of an imported folder comes last and is shown. It has one track for each file,
/// none of them missing, each grouped by the folders below the imported one to the chosen depth,
/// and the groups are in the order of their names. The other playlists keep their tracks.
pub proof fn imported_folder_becomes_playlist(
    view: AppView,
    kind: PendingFolderScanKind,
    files: Vec<AudioFile>,
    name: Seq<char>,
    folder: Seq<char>,
    depth: usize,
)
    requires
        kind@ == (FolderScanView::Import { name, folder, depth }),
        0 < files@.len() <= usize::MAX,
        view.state.playlists.len() < usize::MAX,
    ensures
        ({
            let ended = view.with_scan_ended(FolderScanEvent::Found { kind, files });
            let imported = ended.state.playlists.last();
            &&& ended.state.playlists.len() == view.state.playlists.len() + 1
            &&& ended.state.selected_playlist_index == view.state.playlists.len()
            &&& imported.name == name
            &&& imported.source_folder == Some(folder)
            &&& imported.folder_depth == depth
            &&& imported.kind == PlaylistKind::Folder
            &&& imported.selected_group is None
            &&& imported.tracks.len() == files@.len()
            &&& forall|k: int|
                0 <= k < files@.len() ==> exists|j: int|
                    {
                        &&& 0 <= j < imported.tracks.len()
                        &&& (#[trigger] imported.tracks[j]).path == (#[trigger] files@[k]).path@
                        &&& imported.tracks[j].metadata.size_bytes == files@[k].size_bytes
                    }
            &&& forall|j: int|
                0 <= j < imported.tracks.len() ==> {
                    &&& !(#[trigger] imported.tracks[j]).missing
                    &&& imported.tracks[j].group == paths::folder_group(
                        imported.tracks[j].path,
                        Some(folder),
                        depth as nat,
                    )
                    &&& exists|k: int|
                        0 <= k < files@.len() && (#[trigger] files@[k]).path@
                            == imported.tracks[j].path
                }
            &&& forall|i: int, j: int|
                0 <= i < j < imported.tracks.len() ==> !text::text_before(
                    text::lowercase((#[trigger] imported.tracks[j]).group),
                    text::lowercase((#[trigger] imported.tracks[i]).group),
                )
            &&& ended.selected_track_index == Some(0usize)
            &&& forall|other: int|
                0 <= other < view.state.playlists.len() ==> (
                #[trigger] ended.state.playlists[other]) == view.state.playlists[other]
            &&& ended.messages.error is None
            &&& ended.messages.status == "Imported "@ + text::decimal(files@.len())
                + " track(s) from "@ + folder + " as "@ + name + "."@
            &&& !ended.jobs.folder_scan
        }),
{
    let found = track::file_views(files@);
    let made = folder_sync::folder_playlist(name, folder, depth, found);
    let freed = AppView {
        jobs: crate::app::Jobs { folder_scan: false, ..view.jobs },
        ..view
    };
    imported_state(freed, name, folder, depth, found);
    imported_tracks(files@, name, folder, depth);
    imported_is_eligible(made);
    assert(view.with_scan_ended(FolderScanEvent::Found { kind, files })
        == freed.with_folder_imported(name, folder, depth, found));
}

/// The tracks of the playlist of an imported folder.
proof fn imported_tracks(
    files: Seq<AudioFile>,
    name: Seq<char>,
    folder: Seq<char>,
    depth: usize,
)
    requires
        files.len() <= usize::MAX,
    ensures
        ({
            let tracks = folder_sync::folder_playlist(
                name,
                folder,
                depth,
                track::file_views(files),
            ).tracks;
            &&& tracks.len() == files.len()
            &&& forall|k: int|
                0 <= k < files.len() ==> exists|j: int|
                    {
                        &&& 0 <= j < tracks.len()
                        &&& (#[trigger] tracks[j]).path == (#[trigger] files[k]).path@
                        &&& tracks[j].metadata.size_bytes == files[k].size_bytes
                    }
            &&& forall|j: int|
                0 <= j < tracks.len() ==> {
                    &&& !(#[trigger] tracks[j]).missing
                    &&& tracks[j].group == paths::folder_group(
                        tracks[j].path,
                        Some(folder),
                        depth as nat,
                    )
                    &&& exists|k: int|
                        0 <= k < files.len() && (#[trigger] files[k]).path@ == tracks[j].path
                }
            &&& forall|i: int, j: int|
                0 <= i < j < tracks.len() ==> !text::text_before(
                    text::lowercase((#[trigger] tracks[j]).group),
                    text::lowercase((#[trigger] tracks[i]).group),
                )
        }),
{
    let found = track::file_views(files);
    let made = folder_sync::folder_playlist(name, folder, depth, found);
    let into = folder_sync::scanned_below(Some(folder), depth as nat);
    let plain = found.map_values(into);
    let tracks = made.tracks;
    playlist::sorted_tracks_hold(plain);
    let order = choose|order: Seq<usize>| #[trigger]
        sorting::is_stable_order(order, plain, playlist::track_order()) && tracks
            == sorting::arranged(plain, order);
    sorting::stable_order_distinct(order, plain, playlist::track_order());
    assert forall|k: int| 0 <= k < files.len() implies exists|j: int|
        {
            &&& 0 <= j < tracks.len()
            &&& (#[trigger] tracks[j]).path == (#[trigger] files[k]).path@
            &&& tracks[j].metadata.size_bytes == files[k].size_bytes
        } by {
        sorting::distinct_positions_cover(order, k);
        let j = choose|j: int| 0 <= j < order.len() && #[trigger] order[j] == k;
        assert(tracks[j] == plain[k]);
        assert(plain[k] == into(found[k]));
        assert(found[k] == files[k]@);
    }
    assert forall|j: int| 0 <= j < tracks.len() implies {
        &&& !(#[trigger] tracks[j]).missing
        &&& tracks[j].group == paths::folder_group(tracks[j].path, Some(folder), depth as nat)
        &&& exists|k: int|
            0 <= k < files.len() && (#[trigger] files[k]).path@ == tracks[j].path
    } by {
        let k = order[j] as int;
        assert(tracks[j] == plain[k]);
        assert(plain[k] == into(found[k]));
        assert(files[k].path@ == tracks[j].path);
    }
    assert forall|i: int, j: int| 0 <= i < j < tracks.len() implies !text::text_before(
        text::lowercase((#[trigger] tracks[j]).group),
        text::lowercase((#[trigger] tracks[i]).group),
    ) by {
        assert(sorting::sorts_before(
            plain,
            playlist::track_order(),
            order[i] as int,
            order[j] as int,
        ));
        text::text_order_total(
            text::lowercase(tracks[i].group),
            text::lowercase(tracks[j].group),
        );
    }
}

/// In a playlist without a selected group, whose first track is there, that track is the first
/// that can be played.
proof fn imported_is_eligible(made: PlaylistView)
    requires
        0 < made.tracks.len() <= usize::MAX,
        made.selected_group is None,
        !made.tracks[0].missing,
    ensures
        selection::first_of(
            counting::indexes_where(made.tracks.len(), selection::is_eligible(made)),
        ) == Some(0usize),
{
    let tracks = made.tracks;
    let holds = selection::is_eligible(made);
    counting::indexes_where_holds(tracks.len(), holds);
    let eligible = counting::indexes_where(tracks.len(), holds);
    assert(holds(0));
    assert(eligible.contains(0usize));
    let k = eligible.index_of(0usize);
    if k > 0 {
        assert(eligible[0] < eligible[k]);
    }
    assert(selection::first_of(eligible) == Some(0usize));
}

/// What the application is after a folder was imported.
proof fn imported_state(
    view: AppView,
    name: Seq<char>,
    folder: Seq<char>,
    depth: usize,
    files: Seq<AudioFileView>,
)
    requires
        files.len() > 0,
        view.state.playlists.len() < usize::MAX,
    ensures
        ({
            let ended = view.with_folder_imported(name, folder, depth, files);
            let made = folder_sync::folder_playlist(name, folder, depth, files);
            let imported = ended.state.playlists.last();
            &&& ended.state.playlists.len() == view.state.playlists.len() + 1
            &&& ended.state.selected_playlist_index == view.state.playlists.len()
            &&& imported.name == made.name
            &&& imported.source_folder == made.source_folder
            &&& imported.folder_depth == made.folder_depth
            &&& imported.kind == made.kind
            &&& imported.selected_group == made.selected_group
            &&& imported.tracks == made.tracks
            &&& ended.selected_track_index == selection::first_of(
                counting::indexes_where(made.tracks.len(), selection::is_eligible(made)),
            )
            &&& forall|other: int|
                0 <= other < view.state.playlists.len() ==> (
                #[trigger] ended.state.playlists[other]) == view.state.playlists[other]
            &&& ended.messages.error is None
            &&& ended.messages.status == "Imported "@ + text::decimal(files.len())
                + " track(s) from "@ + folder + " as "@ + name + "."@
            &&& ended.jobs == view.jobs
        }),
{
}

/// A folder in which nothing was found makes no playlist, and an error says so.
pub proof fn empty_folder_is_not_imported(
    view: AppView,
    kind: PendingFolderScanKind,
    files: Vec<AudioFile>,
    name: Seq<char>,
    folder: Seq<char>,
    depth: usize,
)
    requires
        kind@ == (FolderScanView::Import { name, folder, depth }),
        files@.len() == 0,
    ensures
        view.with_scan_ended(FolderScanEvent::Found { kind, files }).state == view.state,
        view.with_scan_ended(FolderScanEvent::Found { kind, files }).messages.error == Some(
            "No supported audio files were found under "@ + folder + "."@,
        ),
        !view.with_scan_ended(FolderScanEvent::Found { kind, files }).jobs.folder_scan,
{
}

/// The import scans the folder that was chosen, to the depth that was chosen; the playlist gets
/// the name that was typed in, without the white space around it.
pub proof fn import_is_of_chosen_folder(view: AppView, folder: Seq<char>)
    requires
        view.dialogs.pending_folder_path == Some(folder),
    ensures
        view.import_scan() matches Some(FolderScanView::Import { name, folder: scanned, depth })
            && scanned == folder && depth == view.dialogs.pending_folder_depth && ((
        exists|i: int|
            0 <= i < view.dialogs.pending_playlist_name.len() && !text::is_white_space(
                #[trigger] view.dialogs.pending_playlist_name[i],
            )) ==> name == text::trimmed(view.dialogs.pending_playlist_name)),
        !view.jobs.folder_scan && !view.jobs.library_sync
            ==> view.with_import_started().jobs.folder_scan,
        view.with_import_started().state == view.state,
        (AppView {
            dialogs: crate::app::DialogsView { pending_folder_path: None, ..view.dialogs },
            ..view
        }).import_scan() is None,
{
    crate::text_laws::blank_is_white(view.dialogs.pending_playlist_name);
}

} // verus!
