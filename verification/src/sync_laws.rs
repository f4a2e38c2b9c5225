//! What holds of folder synchronisation, availability checks and favorites as a whole.

use crate::counting;
use crate::folder_sync;
use crate::folder_sync::{FileAvailability, FolderSyncStats};
use crate::grouping;
use crate::paths;
use crate::playlist;
use crate::playlist::{PlaylistKind, PlaylistView};
use crate::sorting;
use crate::state;
use crate::state::StateView;
use crate::text;
use crate::text_set;
use crate::track;
use crate::track::{AudioFileView, TrackView};
use vstd::prelude::*;

verus! {

// ---------------------------------------------------------------------------
// Lemmas: entries and keys
// ---------------------------------------------------------------------------

/// Lists with the same entries keep as many of them through a filter.
pub(crate) proof fn filter_len_by_multiset<V>(first: Seq<V>, second: Seq<V>, keep: spec_fn(V) -> bool)
    requires
        first.to_multiset() == second.to_multiset(),
    ensures
        first.filter(keep).len() == second.filter(keep).len(),
{
    broadcast use vstd::seq_lib::group_to_multiset_ensures;

    filter_multiset(first, keep);
    filter_multiset(second, keep);
    assert(first.filter(keep).to_multiset().len() == second.filter(keep).to_multiset().len());
}

/// The entries that a filter keeps of a list are those that it keeps of the multiset.
proof fn filter_multiset<V>(entries: Seq<V>, keep: spec_fn(V) -> bool)
    ensures
        entries.filter(keep).to_multiset() == entries.to_multiset().filter(keep),
    decreases entries.len(),
{
    broadcast use vstd::seq_lib::group_to_multiset_ensures;
    broadcast use vstd::multiset::group_multiset_axioms;

    reveal(Seq::filter);
    if entries.len() > 0 {
        let rest = entries.drop_last();
        filter_multiset(rest, keep);
        assert(entries =~= rest.push(entries.last()));
        vstd::seq_lib::to_multiset_build(rest, entries.last());
        vstd::seq_lib::to_multiset_build(rest.filter(keep), entries.last());
        assert(entries.filter(keep).to_multiset() =~= entries.to_multiset().filter(keep));
    } else {
        assert(entries.filter(keep).to_multiset() =~= entries.to_multiset().filter(keep));
    }
}

/// Lists with the same entries hold the same entries.
pub(crate) proof fn contains_by_multiset<V>(first: Seq<V>, second: Seq<V>, wanted: V)
    requires
        first.to_multiset() == second.to_multiset(),
    ensures
        first.contains(wanted) == second.contains(wanted),
{
    broadcast use vstd::seq_lib::group_to_multiset_ensures;

    assert(first.contains(wanted) <==> first.to_multiset().count(wanted) > 0);
    assert(second.contains(wanted) <==> second.to_multiset().count(wanted) > 0);
}

/// The tracks with a given key.
spec fn with_key(tracks: Seq<TrackView>, key: Seq<char>) -> Seq<TrackView> {
    tracks.filter(|track: TrackView| text::lowercase(track.path) == key)
}

/// In a list without two tracks for one file, at most one track has a key.
proof fn distinct_has_one(tracks: Seq<TrackView>, key: Seq<char>)
    requires
        playlist::paths_distinct(tracks),
    ensures
        with_key(tracks, key).len() <= 1,
        !folder_sync::track_keys(tracks).contains(key) ==> with_key(tracks, key).len() == 0,
    decreases tracks.len(),
{
    let keep = |track: TrackView| text::lowercase(track.path) == key;
    if !folder_sync::track_keys(tracks).contains(key) {
        assert forall|i: int| 0 <= i < tracks.len() implies !keep(#[trigger] tracks[i]) by {
            assert(folder_sync::track_keys(tracks)[i] == text::lowercase(tracks[i].path));
        }
        grouping::filter_all_or_none(tracks, keep);
    } else {
        let last = tracks.len() - 1;
        let rest = tracks.drop_last();
        assert(playlist::paths_distinct(rest)) by {
            assert forall|i: int, j: int| 0 <= i < j < rest.len() implies !paths::same_key(
                (#[trigger] rest[i]).path,
                (#[trigger] rest[j]).path,
            ) by {
                assert(rest[i] == tracks[i] && rest[j] == tracks[j]);
            }
        }
        distinct_has_one(rest, key);
        reveal(Seq::filter);
        if keep(tracks.last()) {
            assert forall|i: int| 0 <= i < rest.len() implies folder_sync::track_keys(rest)[i]
                != key by {
                assert(!paths::same_key(tracks[i].path, tracks[last].path));
            }
        }
    }
}

/// A list of which each key has at most one track has no two tracks for one file.
proof fn one_each_is_distinct(tracks: Seq<TrackView>)
    requires
        forall|key: Seq<char>| #[trigger] with_key(tracks, key).len() <= 1,
    ensures
        playlist::paths_distinct(tracks),
{
    assert forall|i: int, j: int| 0 <= i < j < tracks.len() implies !paths::same_key(
        (#[trigger] tracks[i]).path,
        (#[trigger] tracks[j]).path,
    ) by {
        if paths::same_key(tracks[i].path, tracks[j].path) {
            let key = text::lowercase(tracks[i].path);
            let keep = |track: TrackView| text::lowercase(track.path) == key;
            kept_at_least(tracks, keep, i, j);
            assert(with_key(tracks, key).len() >= 2);
        }
    }
}

/// A filter keeps at least the entries at two positions that satisfy it.
proof fn kept_at_least<V>(entries: Seq<V>, keep: spec_fn(V) -> bool, i: int, j: int)
    requires
        0 <= i < j < entries.len(),
        keep(entries[i]),
        keep(entries[j]),
    ensures
        entries.filter(keep).len() >= 2,
{
    let first = entries.take(i + 1);
    let second = entries.subrange(i + 1, j + 1);
    let rest = entries.skip(j + 1);
    assert(entries =~= first + second + rest);
    Seq::filter_distributes_over_add(first + second, rest, keep);
    Seq::filter_distributes_over_add(first, second, keep);
    reveal(Seq::filter);
    assert(first.last() == entries[i]);
    assert(second.last() == entries[j]);
}

/// The tracks of a merged list are the tracks and the additions.
pub(crate) proof fn merged_contains(tracks: Seq<TrackView>, added: Seq<TrackView>, wanted: TrackView)
    ensures
        grouping::merged(tracks, added).contains(wanted) <==> tracks.contains(wanted)
            || added.contains(wanted),
{
    broadcast use vstd::seq_lib::group_to_multiset_ensures;
    broadcast use vstd::multiset::group_multiset_axioms;

    grouping::merged_keeps_tracks(tracks, added);
    let all = grouping::merged(tracks, added);
    assert(all.contains(wanted) <==> all.to_multiset().count(wanted) > 0);
    assert(tracks.contains(wanted) <==> tracks.to_multiset().count(wanted) > 0);
    assert(added.contains(wanted) <==> added.to_multiset().count(wanted) > 0);
}

/// The tracks of a grouped list are the tracks.
pub(crate) proof fn grouped_contains(tracks: Seq<TrackView>, wanted: TrackView)
    ensures
        grouping::grouped(tracks).contains(wanted) <==> tracks.contains(wanted),
{
    grouping::grouped_keeps_tracks(tracks);
    contains_by_multiset(grouping::grouped(tracks), tracks, wanted);
}

/// The first file with a key that the files have has that key.
pub(crate) proof fn first_with_key_has_key(files: Seq<AudioFileView>, key: Seq<char>)
    requires
        folder_sync::file_keys(files).contains(key),
    ensures
        text::lowercase(folder_sync::first_with_key(files, key).path) == key,
        files.contains(folder_sync::first_with_key(files, key)),
{
    let keys = folder_sync::file_keys(files);
    let at = keys.index_of(key);
    let first = earliest(files, key, at);
    assert(text::lowercase(files[first].path) == key);
}

/// A first position with the key, at `at` or before it.
proof fn earliest(files: Seq<AudioFileView>, key: Seq<char>, at: int) -> (first: int)
    requires
        0 <= at < files.len(),
        text::lowercase(files[at].path) == key,
    ensures
        0 <= first <= at,
        text::lowercase(files[first].path) == key,
        forall|j: int| 0 <= j < first ==> text::lowercase(#[trigger] files[j].path) != key,
    decreases at,
{
    if exists|j: int| 0 <= j < at && text::lowercase(#[trigger] files[j].path) == key {
        let j = choose|j: int| 0 <= j < at && text::lowercase(#[trigger] files[j].path) == key;
        earliest(files, key, j)
    } else {
        at
    }
}

/// What is known of each of the additions: its file was found, and no track had its key.
pub(crate) proof fn additions_are_new(
    tracks: Seq<TrackView>,
    files: Seq<AudioFileView>,
    root: Option<Seq<char>>,
    depth: nat,
)
    ensures
        forall|i: int|
            #![trigger folder_sync::additions(tracks, files, root, depth)[i]]
            0 <= i < folder_sync::additions(tracks, files, root, depth).len() ==> {
                let key = folder_sync::new_keys(tracks, files)[i];
                let added = folder_sync::additions(tracks, files, root, depth)[i];
                &&& text::lowercase(added.path) == key
                &&& folder_sync::file_keys(files).contains(key)
                &&& !folder_sync::track_keys(tracks).contains(key)
                &&& !added.missing
            },
{
    let keys = folder_sync::new_keys(tracks, files);
    let all = text_set::sorted_distinct(folder_sync::file_keys(files));
    let is_new = |key: Seq<char>| !folder_sync::track_keys(tracks).contains(key);
    text_set::sorted_distinct_holds(folder_sync::file_keys(files));
    grouping::filter_entries(all, is_new);
    let added = folder_sync::additions(tracks, files, root, depth);
    assert forall|i: int| 0 <= i < added.len() implies text::lowercase(
        (#[trigger] added[i]).path,
    ) == keys[i] && folder_sync::file_keys(files).contains(keys[i])
        && !folder_sync::track_keys(tracks).contains(keys[i]) && !added[i].missing by {
        assert(is_new(all.filter(is_new)[i]));
        assert(all.contains(keys[i]));
        first_with_key_has_key(files, keys[i]);
    }
}

/// Marking by a scan keeps the paths.
pub(crate) proof fn marking_keeps_keys(tracks: Seq<TrackView>, files: Seq<AudioFileView>)
    ensures
        folder_sync::track_keys(folder_sync::marked_by_scan(tracks, files))
            == folder_sync::track_keys(tracks),
        playlist::paths_distinct(tracks) ==> playlist::paths_distinct(
            folder_sync::marked_by_scan(tracks, files),
        ),
        grouping::is_grouped(tracks) ==> grouping::is_grouped(
            folder_sync::marked_by_scan(tracks, files),
        ),
{
    let marked = folder_sync::marked_by_scan(tracks, files);
    assert(folder_sync::track_keys(marked) =~= folder_sync::track_keys(tracks));
    if playlist::paths_distinct(tracks) {
        assert forall|i: int, j: int| 0 <= i < j < marked.len() implies !paths::same_key(
            (#[trigger] marked[i]).path,
            (#[trigger] marked[j]).path,
        ) by {
            assert(!paths::same_key(tracks[i].path, tracks[j].path));
        }
    }
    if grouping::is_grouped(tracks) {
        assert forall|i: int, j: int, k: int|
            0 <= i < j < k < marked.len() implies #[trigger] grouping::stays_together(
            marked,
            i,
            j,
            k,
        ) by {
            assert(grouping::stays_together(tracks, i, j, k));
        }
    }
}

/// Grouping keeps a list without two tracks for one file so.
proof fn grouped_distinct(tracks: Seq<TrackView>)
    requires
        playlist::paths_distinct(tracks),
    ensures
        playlist::paths_distinct(grouping::grouped(tracks)),
{
    grouping::grouped_keeps_tracks(tracks);
    let result = grouping::grouped(tracks);
    assert forall|key: Seq<char>| #[trigger] with_key(result, key).len() <= 1 by {
        distinct_has_one(tracks, key);
        filter_len_by_multiset(
            result,
            tracks,
            |track: TrackView| text::lowercase(track.path) == key,
        );
    }
    one_each_is_distinct(result);
}

/// Putting a track before a list that starts with its group keeps the groups together.
proof fn prepend_same_group(first: TrackView, rest: Seq<TrackView>)
    requires
        grouping::is_grouped(rest),
        rest.len() > 0,
        rest[0].group == first.group,
    ensures
        grouping::is_grouped(seq![first] + rest),
{
    let result = seq![first] + rest;
    assert forall|i: int, j: int, k: int|
        0 <= i < j < k < result.len() implies #[trigger] grouping::stays_together(
        result,
        i,
        j,
        k,
    ) by {
        if i == 0 {
            if j > 1 {
                assert(grouping::stays_together(rest, 0, j - 1, k - 1));
            }
        } else {
            assert(grouping::stays_together(rest, i - 1, j - 1, k - 1));
        }
    }
}

/// Merging into groups that stand together keeps them together.
pub(crate) proof fn merged_is_grouped(tracks: Seq<TrackView>, added: Seq<TrackView>)
    requires
        grouping::is_grouped(tracks),
    ensures
        grouping::is_grouped(grouping::merged(tracks, added)),
    decreases tracks.len(),
{
    if tracks.len() == 0 {
        grouping::grouped_is_grouped(added);
    } else {
        let rest = tracks.drop_first();
        assert(grouping::is_grouped(rest)) by {
            assert forall|i: int, j: int, k: int|
                0 <= i < j < k < rest.len() implies #[trigger] grouping::stays_together(
                rest,
                i,
                j,
                k,
            ) by {
                assert(grouping::stays_together(tracks, i + 1, j + 1, k + 1));
            }
        }
        let group = tracks[0].group;
        if rest.len() > 0 && rest[0].group == group {
            merged_is_grouped(rest, added);
            merged_starts(rest, added);
            prepend_same_group(tracks[0], grouping::merged(rest, added));
        } else {
            let run = grouping::in_group(added, group);
            let others = grouping::outside_group(added, group);
            merged_is_grouped(rest, others);
            let tail = grouping::merged(rest, others);
            let head = seq![tracks[0]] + run;
            grouping::filter_entries(added, |track: TrackView| track.group == group);
            grouping::filter_entries(added, |track: TrackView| track.group != group);
            assert forall|i: int| 0 <= i < head.len() implies (#[trigger] head[i]).group == group by {
                if i > 0 {
                    assert(head[i] == run[i - 1]);
                }
            }
            assert forall|i: int| 0 <= i < tail.len() implies (#[trigger] tail[i]).group != group by {
                let entry = tail[i];
                assert(tail.contains(entry));
                merged_contains(rest, others, entry);
                if rest.contains(entry) {
                    let k = rest.index_of(entry);
                    if entry.group == group {
                        assert(tracks[k + 1] == entry);
                        if k > 0 {
                            assert(grouping::stays_together(tracks, 0, 1, k + 1));
                        }
                    }
                } else {
                    let k = others.index_of(entry);
                    assert(others[k] == entry);
                }
            }
            join_groups(head, tail, group);
            assert(grouping::merged(tracks, added) =~= head + tail);
        }
    }
}

/// A merged list starts with the first track.
proof fn merged_starts(tracks: Seq<TrackView>, added: Seq<TrackView>)
    requires
        tracks.len() > 0,
    ensures
        grouping::merged(tracks, added).len() > 0,
        grouping::merged(tracks, added)[0] == tracks[0],
{
}

/// A run of one group before a list without it keeps the groups together.
proof fn join_groups(head: Seq<TrackView>, tail: Seq<TrackView>, group: Seq<char>)
    requires
        forall|i: int| 0 <= i < head.len() ==> (#[trigger] head[i]).group == group,
        forall|i: int| 0 <= i < tail.len() ==> (#[trigger] tail[i]).group != group,
        grouping::is_grouped(tail),
    ensures
        grouping::is_grouped(head + tail),
{
    let result = head + tail;
    let n = head.len() as int;
    assert forall|i: int, j: int, k: int|
        0 <= i < j < k < result.len() implies #[trigger] grouping::stays_together(
        result,
        i,
        j,
        k,
    ) by {
        if i < n {
            assert(result[i] == head[i]);
            if k < n {
                assert(result[j] == head[j]);
            } else {
                assert(result[k] == tail[k - n]);
            }
        } else {
            assert(grouping::stays_together(tail, i - n, j - n, k - n));
            assert(result[i] == tail[i - n]);
            assert(result[j] == tail[j - n]);
            assert(result[k] == tail[k - n]);
        }
    }
}

// ---------------------------------------------------------------------------
// Laws of folder scans
// ---------------------------------------------------------------------------

/// A folder scan drops no track and keeps the order of the tracks: without the new ones the
/// list is the old list, marked, with its groups together.
pub proof fn scan_keeps_tracks_in_order(before: PlaylistView, files: Seq<AudioFileView>)
    ensures
        before.after_scan(files).tracks.filter(
            |track: TrackView| playlist::has_path(before.tracks, track.path),
        ) == before.contiguous_tracks(folder_sync::marked_by_scan(before.tracks, files)),
{
    let known = |track: TrackView| playlist::has_path(before.tracks, track.path);
    let marked = folder_sync::marked_by_scan(before.tracks, files);
    let kept = before.contiguous_tracks(marked);
    let root = before.source_folder;
    let depth = before.folder_depth as nat;
    let added = folder_sync::additions(before.tracks, files, root, depth);
    additions_are_new(before.tracks, files, root, depth);
    assert forall|i: int| 0 <= i < added.len() implies !known(#[trigger] added[i]) by {
        folder_sync::has_path_by_key(before.tracks, added[i].path);
    }
    assert forall|i: int| 0 <= i < kept.len() implies known(#[trigger] kept[i]) by {
        assert(kept.contains(kept[i]));
        grouped_contains(marked, kept[i]);
        let k = marked.index_of(kept[i]);
        assert(paths::same_key(before.tracks[k].path, kept[i].path));
    }
    grouping::merged_keeps_order(kept, added, known);
}

/// After a folder scan every file that was found has a track, and every track that was there
/// still is.
pub proof fn scan_covers_files(before: PlaylistView, files: Seq<AudioFileView>, path: Seq<char>)
    ensures
        playlist::has_path(before.after_scan(files).tracks, path) <==> playlist::has_path(
            before.tracks,
            path,
        ) || folder_sync::file_keys(files).contains(text::lowercase(path)),
{
    let after = before.after_scan(files).tracks;
    let key = text::lowercase(path);
    let marked = folder_sync::marked_by_scan(before.tracks, files);
    let kept = before.contiguous_tracks(marked);
    let root = before.source_folder;
    let depth = before.folder_depth as nat;
    let added = folder_sync::additions(before.tracks, files, root, depth);
    let keys = folder_sync::new_keys(before.tracks, files);
    additions_are_new(before.tracks, files, root, depth);
    marking_keeps_keys(before.tracks, files);
    folder_sync::has_path_by_key(after, path);
    folder_sync::has_path_by_key(before.tracks, path);
    if playlist::has_path(after, path) {
        let i = choose|i: int|
            0 <= i < after.len() && paths::same_key(#[trigger] after[i].path, path);
        assert(after.contains(after[i]));
        merged_contains(kept, added, after[i]);
        if kept.contains(after[i]) {
            grouped_contains(marked, after[i]);
            let k = marked.index_of(after[i]);
            assert(folder_sync::track_keys(marked)[k] == key);
        } else {
            let k = added.index_of(after[i]);
            assert(added[k] == after[i]);
        }
    }
    if playlist::has_path(before.tracks, path) {
        let k = choose|k: int|
            0 <= k < before.tracks.len() && paths::same_key(
                #[trigger] before.tracks[k].path,
                path,
            );
        assert(marked.contains(marked[k]));
        grouped_contains(marked, marked[k]);
        merged_contains(kept, added, marked[k]);
        let i = after.index_of(marked[k]);
        assert(paths::same_key(after[i].path, path));
    } else if folder_sync::file_keys(files).contains(key) {
        let all = text_set::sorted_distinct(folder_sync::file_keys(files));
        let is_new = |key: Seq<char>| !folder_sync::track_keys(before.tracks).contains(key);
        text_set::sorted_distinct_holds(folder_sync::file_keys(files));
        all.lemma_filter_contains(is_new, all.index_of(key));
        let k = keys.index_of(key);
        assert(added.contains(added[k]));
        merged_contains(kept, added, added[k]);
        let i = after.index_of(added[k]);
        assert(paths::same_key(after[i].path, path));
    }
}

/// A folder scan makes no second track for a file.
pub proof fn scan_keeps_paths_distinct(before: PlaylistView, files: Seq<AudioFileView>)
    requires
        playlist::paths_distinct(before.tracks),
    ensures
        playlist::paths_distinct(before.after_scan(files).tracks),
{
    broadcast use vstd::seq_lib::group_to_multiset_ensures;
    broadcast use vstd::multiset::group_multiset_axioms;

    let marked = folder_sync::marked_by_scan(before.tracks, files);
    let kept = before.contiguous_tracks(marked);
    let root = before.source_folder;
    let depth = before.folder_depth as nat;
    let added = folder_sync::additions(before.tracks, files, root, depth);
    let after = before.after_scan(files).tracks;
    marking_keeps_keys(before.tracks, files);
    grouped_distinct(marked);
    additions_are_new(before.tracks, files, root, depth);
    new_keys_ascend(before.tracks, files);
    let keys = folder_sync::new_keys(before.tracks, files);
    assert(playlist::paths_distinct(added)) by {
        assert forall|i: int, j: int| 0 <= i < j < added.len() implies !paths::same_key(
            (#[trigger] added[i]).path,
            (#[trigger] added[j]).path,
        ) by {
            text::text_order_total(keys[i], keys[j]);
        }
    }
    grouping::merged_keeps_tracks(kept, added);
    vstd::seq_lib::lemma_multiset_commutative(kept, added);
    assert forall|key: Seq<char>| #[trigger] with_key(after, key).len() <= 1 by {
        let keep = |track: TrackView| text::lowercase(track.path) == key;
        filter_len_by_multiset(after, kept + added, keep);
        Seq::filter_distributes_over_add(kept, added, keep);
        distinct_has_one(kept, key);
        distinct_has_one(added, key);
        if folder_sync::track_keys(added).contains(key) {
            let k = folder_sync::track_keys(added).index_of(key);
            assert(added[k] == added[k]);
            assert(!folder_sync::track_keys(before.tracks).contains(key));
            if folder_sync::track_keys(kept).contains(key) {
                let i = folder_sync::track_keys(kept).index_of(key);
                assert(kept.contains(kept[i]));
                grouped_contains(marked, kept[i]);
                let m = marked.index_of(kept[i]);
                assert(folder_sync::track_keys(marked)[m] == key);
            }
        }
    }
    one_each_is_distinct(after);
}

/// The keys of the new files ascend.
proof fn new_keys_ascend(tracks: Seq<TrackView>, files: Seq<AudioFileView>)
    ensures
        text_set::ascends(folder_sync::new_keys(tracks, files)),
{
    let all = text_set::sorted_distinct(folder_sync::file_keys(files));
    text_set::sorted_distinct_holds(folder_sync::file_keys(files));
    filter_ascends(all, |key: Seq<char>| !folder_sync::track_keys(tracks).contains(key));
}

/// What a filter keeps of an ascending list ascends.
proof fn filter_ascends(texts: Seq<Seq<char>>, keep: spec_fn(Seq<char>) -> bool)
    requires
        text_set::ascends(texts),
    ensures
        text_set::ascends(texts.filter(keep)),
    decreases texts.len(),
{
    reveal(Seq::filter);
    if texts.len() > 0 {
        let rest = texts.drop_last();
        let last = texts.len() - 1;
        filter_ascends(rest, keep);
        grouping::filter_entries(rest, keep);
        let result = texts.filter(keep);
        assert forall|i: int, j: int| 0 <= i < j < result.len() implies text::text_before(
            #[trigger] result[i],
            #[trigger] result[j],
        ) by {
            let kept = rest.filter(keep);
            assert(result[i] == kept[i]);
            if j < kept.len() {
                assert(result[j] == kept[j]);
            } else {
                assert(rest.contains(kept[i]));
                let k = rest.index_of(kept[i]);
                assert(texts[k] == kept[i]);
                assert(text::text_before(texts[k], texts[last]));
            }
        }
    }
}

/// A second scan that finds the same files changes nothing.
pub proof fn scan_is_idempotent(before: PlaylistView, files: Seq<AudioFileView>)
    requires
        playlist::paths_distinct(before.tracks),
    ensures
        before.after_scan(files).after_scan(files) == before.after_scan(files),
        folder_sync::new_files(before.after_scan(files).tracks, files).len() == 0,
{
    let after = before.after_scan(files);
    let marked = folder_sync::marked_by_scan(before.tracks, files);
    let kept = before.contiguous_tracks(marked);
    let root = before.source_folder;
    let depth = before.folder_depth as nat;
    let added = folder_sync::additions(before.tracks, files, root, depth);
    scan_keeps_paths_distinct(before, files);
    additions_are_new(before.tracks, files, root, depth);

    // Every file that was found has a track now.
    let all = text_set::sorted_distinct(folder_sync::file_keys(files));
    let is_new = |key: Seq<char>| !folder_sync::track_keys(after.tracks).contains(key);
    text_set::sorted_distinct_holds(folder_sync::file_keys(files));
    assert forall|i: int| 0 <= i < all.len() implies !is_new(#[trigger] all[i]) by {
        assert(all.contains(all[i]));
        let keys = folder_sync::file_keys(files);
        assert(keys.contains(all[i]));
        let k = keys.index_of(all[i]);
        scan_covers_files(before, files, files[k].path);
        folder_sync::has_path_by_key(after.tracks, files[k].path);
    }
    grouping::filter_all_or_none(all, is_new);
    assert(folder_sync::new_keys(after.tracks, files) =~= Seq::empty());
    assert(folder_sync::additions(after.tracks, files, root, depth) =~= Seq::empty());

    // Every track is marked as it was.
    let again = folder_sync::marked_by_scan(after.tracks, files);
    assert forall|i: int| 0 <= i < after.tracks.len() implies again[i] == after.tracks[i] by {
        let entry = after.tracks[i];
        let key = text::lowercase(entry.path);
        assert(!folder_sync::track_keys(after.tracks.take(i)).contains(key)) by {
            let earlier = folder_sync::track_keys(after.tracks.take(i));
            if earlier.contains(key) {
                let j = earlier.index_of(key);
                assert(!paths::same_key(after.tracks[j].path, after.tracks[i].path));
            }
        }
        assert(after.tracks.contains(entry));
        merged_contains(kept, added, entry);
        if kept.contains(entry) {
            grouped_contains(marked, entry);
            let k = marked.index_of(entry);
            let earlier = folder_sync::track_keys(before.tracks.take(k));
            if earlier.contains(key) {
                let j = earlier.index_of(key);
                assert(!paths::same_key(before.tracks[j].path, before.tracks[k].path));
            }
        } else {
            let k = added.index_of(entry);
            assert(added[k] == entry);
        }
    }
    assert(again =~= after.tracks);

    // The groups stand together already.
    if before.kind == PlaylistKind::Folder {
        grouping::grouped_is_grouped(marked);
        merged_is_grouped(kept, added);
        grouping::grouped_of_grouped(after.tracks);
    }
    grouping::merged_with_nothing(after.tracks);
    assert(before.after_scan(files).after_scan(files) =~= after);
}

/// After a scan each track is either present or missing, and the report counts each once.
pub proof fn scan_stats_add_up(
    stats: FolderSyncStats,
    before: PlaylistView,
    files: Seq<AudioFileView>,
)
    requires
        folder_sync::are_scan_stats(stats, before.tracks, files),
    ensures
        stats.present_total + stats.missing_total == before.after_scan(files).tracks.len(),
        stats.added + before.tracks.len() == before.after_scan(files).tracks.len(),
        stats.newly_missing <= stats.missing_total,
        stats.restored + stats.added <= stats.present_total,
{
    let tracks = before.tracks;
    let found = |i: int| folder_sync::found_by_scan(tracks, files, i);
    let missing = |i: int| !found(i);
    let all = |i: int| true;
    let restored = |i: int| found(i) && tracks[i].missing;
    let stayed = |i: int| found(i) && !tracks[i].missing;
    let newly_missing = |i: int| !found(i) && !tracks[i].missing;
    let still_missing = |i: int| !found(i) && tracks[i].missing;
    counting::count_splits(tracks.len(), all, found, missing);
    counting::count_of_prefix(tracks.len(), tracks.len(), all);
    counting::count_splits(tracks.len(), found, restored, stayed);
    counting::count_splits(tracks.len(), missing, newly_missing, still_missing);
    let marked = folder_sync::marked_by_scan(tracks, files);
    let kept = before.contiguous_tracks(marked);
    let added = folder_sync::additions(
        tracks,
        files,
        before.source_folder,
        before.folder_depth as nat,
    );
    grouping::grouped_entries(marked);
    grouping::merged_keeps_tracks(kept, added);
}

// ---------------------------------------------------------------------------
// Laws of changes and availability checks
// ---------------------------------------------------------------------------

/// Changes that name no file of a track and no folder above it leave the track as it is.
pub proof fn changes_touch_only_named_paths(
    before: PlaylistView,
    files: Seq<AudioFileView>,
    missing_roots: Seq<Seq<char>>,
    index: int,
)
    requires
        0 <= index < before.tracks.len(),
        !folder_sync::file_keys(files).contains(text::lowercase(before.tracks[index].path)),
        !folder_sync::below_missing_root(before.tracks[index].path, missing_roots),
    ensures
        folder_sync::marked_by_changes(before.tracks, files, missing_roots)[index]
            == before.tracks[index],
        before.after_changes(files, missing_roots).tracks.contains(before.tracks[index]),
{
    let marked = folder_sync::marked_by_changes(before.tracks, files, missing_roots);
    let added = folder_sync::additions(
        before.tracks,
        files,
        before.source_folder,
        before.folder_depth as nat,
    );
    let entry = before.tracks[index];
    assert(marked[index] == entry);
    assert(marked.contains(entry));
    grouped_contains(marked, entry);
    merged_contains(before.contiguous_tracks(marked), added, entry);
}

/// Changes drop no track and keep the order of the tracks: without the new ones the list is
/// the old list, marked; the groups are brought together only where tracks are added.
pub proof fn changes_keep_tracks_in_order(
    before: PlaylistView,
    files: Seq<AudioFileView>,
    missing_roots: Seq<Seq<char>>,
)
    ensures
        ({
            let after = before.after_changes(files, missing_roots).tracks;
            let marked = folder_sync::marked_by_changes(before.tracks, files, missing_roots);
            let known = |track: TrackView| playlist::has_path(before.tracks, track.path);
            if folder_sync::new_files(before.tracks, files).len() == 0 {
                after == marked
            } else {
                after.filter(known) == before.contiguous_tracks(marked)
            }
        }),
{
    let known = |track: TrackView| playlist::has_path(before.tracks, track.path);
    let marked = folder_sync::marked_by_changes(before.tracks, files, missing_roots);
    let kept = before.contiguous_tracks(marked);
    let root = before.source_folder;
    let depth = before.folder_depth as nat;
    let added = folder_sync::additions(before.tracks, files, root, depth);
    additions_are_new(before.tracks, files, root, depth);
    assert forall|i: int| 0 <= i < added.len() implies !known(#[trigger] added[i]) by {
        folder_sync::has_path_by_key(before.tracks, added[i].path);
    }
    assert forall|i: int| 0 <= i < kept.len() implies known(#[trigger] kept[i]) by {
        assert(kept.contains(kept[i]));
        grouped_contains(marked, kept[i]);
        let k = marked.index_of(kept[i]);
        assert(paths::same_key(before.tracks[k].path, kept[i].path));
    }
    grouping::merged_keeps_order(kept, added, known);
}

/// An availability check changes nothing of a track but whether it is missing, and moves none.
pub proof fn check_only_marks(tracks: Seq<TrackView>, entries: Seq<FileAvailability>, index: int)
    requires
        0 <= index < tracks.len(),
    ensures
        folder_sync::marked_by_check(tracks, entries).len() == tracks.len(),
        folder_sync::marked_by_check(tracks, entries)[index] == (TrackView {
            missing: folder_sync::missing_after_check(tracks[index], entries),
            ..tracks[index]
        }),
{
}

/// A second check with the same findings changes nothing, and a check that finds a file again
/// restores its track, whatever an earlier check has found.
pub proof fn check_again(
    tracks: Seq<TrackView>,
    first: Seq<FileAvailability>,
    second: Seq<FileAvailability>,
    index: int,
)
    requires
        0 <= index < tracks.len(),
    ensures
        folder_sync::marked_by_check(folder_sync::marked_by_check(tracks, first), first)
            == folder_sync::marked_by_check(tracks, first),
        folder_sync::availability_of(second, text::lowercase(tracks[index].path)) is Some
            ==> folder_sync::marked_by_check(
            folder_sync::marked_by_check(tracks, first),
            second,
        )[index] == folder_sync::marked_by_check(tracks, second)[index],
{
    let once = folder_sync::marked_by_check(tracks, first);
    assert(folder_sync::marked_by_check(once, first) =~= once);
    assert(folder_sync::marked_by_check(once, second)[index]
        =~= folder_sync::marked_by_check(tracks, second)[index]
        || folder_sync::availability_of(second, text::lowercase(tracks[index].path)) is None);
}

// ---------------------------------------------------------------------------
// Laws of favorites and of adding files
// ---------------------------------------------------------------------------

/// Numbering numbered favorites changes nothing.
pub proof fn numbering_is_idempotent(tracks: Seq<TrackView>)
    ensures
        playlist::numbered_favorites(playlist::numbered_favorites(tracks))
            == playlist::numbered_favorites(tracks),
        forall|i: int|
            0 <= i < tracks.len() ==> (#[trigger] playlist::numbered_favorites(
                tracks,
            )[i]).favorite_added_sequence is Some,
{
    let once = playlist::numbered_favorites(tracks);
    assert forall|i: int| 0 <= i < tracks.len() implies (
    #[trigger] once[i]).favorite_added_sequence is Some by {}
    if tracks.len() > 0 {
        assert(once[0].favorite_added_sequence is Some);
        assert(playlist::any_numbered(once));
    }
    assert(playlist::numbered_favorites(once) =~= once);
}

/// The greatest sequence number is at least that of each track.
proof fn greatest_bounds(tracks: Seq<TrackView>, index: int)
    requires
        0 <= index < tracks.len(),
    ensures
        track::added_sequence(tracks[index]) <= playlist::greatest_sequence(tracks),
    decreases tracks.len(),
{
    if index < tracks.len() - 1 {
        greatest_bounds(tracks.drop_last(), index);
        assert(tracks.drop_last()[index] == tracks[index]);
    }
}

/// A new favorite comes first, is numbered above all others, and stays first when the
/// favorites are sorted by when they were added.
pub proof fn new_favorite_is_newest(
    before: PlaylistView,
    file: AudioFileView,
    root: Option<Seq<char>>,
    depth: nat,
)
    requires
        before.kind == PlaylistKind::Favorites,
        !playlist::has_path(before.tracks, file.path),
        playlist::greatest_sequence(playlist::numbered_favorites(before.tracks)) < u64::MAX,
        before.tracks.len() < usize::MAX,
    ensures
        ({
            let after = before.with_file(file, root, depth).tracks;
            &&& after.len() == before.tracks.len() + 1
            &&& after[0].path == file.path
            &&& forall|i: int|
                1 <= i < after.len() ==> track::added_sequence(#[trigger] after[i])
                    < track::added_sequence(after[0])
            &&& after.drop_first() == playlist::numbered_favorites(before.tracks)
            &&& forall|sorted: Seq<TrackView>|
                sorting::is_stable_sort(sorted, after, playlist::added_order()) ==> sorted[0]
                    == after[0]
        }),
{
    let numbered = playlist::numbered_favorites(before.tracks);
    let after = before.with_file(file, root, depth).tracks;
    assert(after.drop_first() =~= numbered);
    assert forall|i: int| 1 <= i < after.len() implies track::added_sequence(#[trigger] after[i])
        < track::added_sequence(after[0]) by {
        greatest_bounds(numbered, i - 1);
        assert(after[i] == numbered[i - 1]);
    }
    assert forall|sorted: Seq<TrackView>|
        sorting::is_stable_sort(sorted, after, playlist::added_order()) implies sorted[0]
        == after[0] by {
        let order = choose|order: Seq<usize>| #[trigger]
            sorting::is_stable_order(order, after, playlist::added_order()) && sorted
                == sorting::arranged(after, order);
        sorting::stable_order_distinct(order, after, playlist::added_order());
        sorting::distinct_positions_cover(order, 0);
        let at = choose|at: int| 0 <= at < order.len() && #[trigger] order[at] == 0;
        if at > 0 {
            assert(sorting::sorts_before(
                after,
                playlist::added_order(),
                order[0] as int,
                order[at] as int,
            ));
        }
    }
}

/// A file that was added is there, and adding it again changes nothing.
pub proof fn added_file_is_there(
    before: PlaylistView,
    file: AudioFileView,
    root: Option<Seq<char>>,
    depth: nat,
)
    requires
        before.tracks.len() < usize::MAX,
    ensures
        playlist::has_path(before.with_file(file, root, depth).tracks, file.path),
        before.with_file(file, root, depth).with_file(file, root, depth) == before.with_file(
            file,
            root,
            depth,
        ),
{
    let after = before.with_file(file, root, depth).tracks;
    if !playlist::has_path(before.tracks, file.path) {
        if before.kind == PlaylistKind::Favorites {
            assert(paths::same_key(after[0].path, file.path));
        } else {
            let added = track::new_track(file, root, depth);
            let grown = before.tracks.push(added);
            playlist::sorted_tracks_hold(grown);
            sorting::stable_sort_keeps_items(after, grown, playlist::track_order());
            assert(grown[grown.len() - 1] == added);
            assert(grown.contains(added));
            contains_by_multiset(after, grown, added);
            let i = after.index_of(added);
            assert(paths::same_key(after[i].path, file.path));
        }
    }
}

// ---------------------------------------------------------------------------
// Validity of a state
// ---------------------------------------------------------------------------

/// A state that was made valid has a playlist, what it selects is there, the favorites are
/// numbered, and making it valid again changes nothing.
pub proof fn valid_state_stays(given: StateView)
    ensures
        ({
            let valid = state::valid_view(given);
            &&& valid.selected_playlist_index < valid.playlists.len()
            &&& valid.profiles.len() > 0 ==> valid.selected_profile_index < valid.profiles.len()
            &&& valid.selected_radio_index matches Some(index) ==> index
                < valid.radio_stations.len()
            &&& forall|i: int, j: int|
                0 <= i < valid.playlists.len() && 0 <= j < valid.playlists[i].tracks.len() ==> (
                #[trigger] valid.playlists[i].tracks[j]).favorite_added_sequence is Some == (
                valid.playlists[i].kind == PlaylistKind::Favorites)
            &&& state::valid_view(valid) == valid
        }),
{
    let valid = state::valid_view(given);
    let before = state::with_valid_selection(given).playlists;
    assert forall|i: int| 0 <= i < before.len() implies (
    #[trigger] valid.playlists[i]).with_sequences() == valid.playlists[i] && forall|j: int|
        0 <= j < valid.playlists[i].tracks.len() ==> (
        #[trigger] valid.playlists[i].tracks[j]).favorite_added_sequence is Some == (
        valid.playlists[i].kind == PlaylistKind::Favorites) by {
        let list = before[i];
        let numbered = valid.playlists[i];
        assert(numbered == list.with_sequences());
        if list.kind == PlaylistKind::Favorites {
            numbering_is_idempotent(list.tracks);
        } else {
            assert(playlist::unnumbered(numbered.tracks) =~= numbered.tracks);
        }
        assert(numbered.with_sequences() =~= numbered);
    }
    assert(state::valid_view(valid).playlists =~= valid.playlists);
    assert(state::valid_view(valid) =~= valid);
}

} // verus!
