//! What a check of the whole library does to the playlists.

use crate::counting;
use crate::folder_sync;
use crate::folder_sync::FileAvailability;
use crate::index_set;
use crate::lookup;
use crate::lookup::{FolderLibrarySyncTarget, SyncTargetView};
use crate::paths;
use crate::playlist;
use crate::playlist::{Playlist, PlaylistView};
use crate::text;
use crate::track;
use crate::track::{AudioFile, AudioFileView, TrackView};
use vstd::prelude::*;
use vstd::string::*;

verus! {

// ---------------------------------------------------------------------------
// Numbers
// ---------------------------------------------------------------------------

/// The number itself, or the greatest that can be held.
pub open spec fn capped(number: nat) -> usize {
    if number <= usize::MAX {
        number as usize
    } else {
        usize::MAX
    }
}

/// How many tracks a scan finds again.
pub open spec fn restored_by_scan(tracks: Seq<TrackView>, files: Seq<AudioFileView>) -> nat {
    counting::count(
        tracks.len(),
        |i: int| folder_sync::found_by_scan(tracks, files, i) && tracks[i].missing,
    )
}

/// How many tracks a scan is the first to miss.
pub open spec fn lost_by_scan(tracks: Seq<TrackView>, files: Seq<AudioFileView>) -> nat {
    counting::count(
        tracks.len(),
        |i: int| !folder_sync::found_by_scan(tracks, files, i) && !tracks[i].missing,
    )
}

/// How many tracks a check finds again.
pub open spec fn restored_by_check(tracks: Seq<TrackView>, entries: Seq<FileAvailability>) -> nat {
    counting::count(
        tracks.len(),
        |i: int| !folder_sync::missing_after_check(tracks[i], entries) && tracks[i].missing,
    )
}

/// How many tracks a check is the first to miss.
pub open spec fn lost_by_check(tracks: Seq<TrackView>, entries: Seq<FileAvailability>) -> nat {
    counting::count(
        tracks.len(),
        |i: int| folder_sync::missing_after_check(tracks[i], entries) && !tracks[i].missing,
    )
}

/// How many of the tracks are missing.
pub open spec fn missing_count(tracks: Seq<TrackView>) -> nat {
    counting::count(tracks.len(), |i: int| tracks[i].missing)
}

/// How many tracks of all playlists are missing.
pub open spec fn missing_anywhere(playlists: Seq<PlaylistView>) -> nat
    decreases playlists.len(),
{
    if playlists.len() == 0 {
        0
    } else {
        missing_anywhere(playlists.drop_last()) + missing_count(playlists.last().tracks)
    }
}

/// The numbers of a scan, one by one.
proof fn scan_numbers(
    stats: folder_sync::FolderSyncStats,
    tracks: Seq<TrackView>,
    files: Seq<AudioFileView>,
)
    requires
        folder_sync::are_scan_stats(stats, tracks, files),
    ensures
        stats.added == folder_sync::new_files(tracks, files).len(),
        stats.restored == restored_by_scan(tracks, files),
        stats.newly_missing == lost_by_scan(tracks, files),
{
    let found = |i: int| folder_sync::found_by_scan(tracks, files, i);
    counting::count_agrees(
        tracks.len(),
        |i: int| found(i) && tracks[i].missing,
        |i: int| folder_sync::found_by_scan(tracks, files, i) && tracks[i].missing,
    );
    counting::count_agrees(
        tracks.len(),
        |i: int| !found(i) && !tracks[i].missing,
        |i: int| !folder_sync::found_by_scan(tracks, files, i) && !tracks[i].missing,
    );
}

/// The numbers of a check, one by one.
proof fn check_numbers(
    stats: folder_sync::TrackAvailabilityStats,
    tracks: Seq<TrackView>,
    entries: Seq<FileAvailability>,
)
    requires
        folder_sync::are_check_stats(stats, tracks, entries),
    ensures
        stats.restored == restored_by_check(tracks, entries),
        stats.newly_missing == lost_by_check(tracks, entries),
{
    let missing = |i: int| folder_sync::missing_after_check(tracks[i], entries);
    counting::count_agrees(
        tracks.len(),
        |i: int| !missing(i) && tracks[i].missing,
        |i: int| !folder_sync::missing_after_check(tracks[i], entries) && tracks[i].missing,
    );
    counting::count_agrees(
        tracks.len(),
        |i: int| missing(i) && !tracks[i].missing,
        |i: int| folder_sync::missing_after_check(tracks[i], entries) && !tracks[i].missing,
    );
}

/// What a check of the library has changed. Each number is capped at the greatest that can be
/// held.
#[derive(Clone, Copy, Debug, PartialEq, Eq, Structural)]
pub struct AppliedLibrarySyncStats {
    pub added: usize,
    pub restored: usize,
    pub newly_missing: usize,
    pub missing_total: usize,
}

impl Default for AppliedLibrarySyncStats {
    fn default() -> (stats: AppliedLibrarySyncStats)
        ensures
            stats == (AppliedLibrarySyncStats {
                added: 0,
                restored: 0,
                newly_missing: 0,
                missing_total: 0,
            }),
    {
        AppliedLibrarySyncStats { added: 0, restored: 0, newly_missing: 0, missing_total: 0 }
    }
}

impl AppliedLibrarySyncStats {
    /// Whether a track was added, found again or lost.
    pub open spec fn any_change(self) -> bool {
        self.added > 0 || self.restored > 0 || self.newly_missing > 0
    }

    /// Whether a track was added, found again or lost.
    pub fn changed(self) -> (changed: bool)
        ensures
            changed == self.any_change(),
    {
        self.added > 0 || self.restored > 0 || self.newly_missing > 0
    }
}

// ---------------------------------------------------------------------------
// What was found on disk
// ---------------------------------------------------------------------------

impl FileAvailability {
    /// What was found out about the file at a path.
    pub fn of(path: &str, present: bool) -> (entry: FileAvailability)
        ensures
            entry@ == (text::lowercase(path@), present),
    {
        FileAvailability { key: paths::path_key(path), present }
    }
}

/// The audio files below a folder, or why they could not be listed.
#[derive(Debug)]
pub struct FolderListing {
    pub folder: String,
    pub files: Result<Vec<AudioFile>, String>,
}

/// The model of what was found below a folder.
pub type FilesFound = Result<Seq<AudioFileView>, Seq<char>>;

impl View for FolderListing {
    type V = (Seq<char>, FilesFound);

    open spec fn view(&self) -> (Seq<char>, FilesFound) {
        (
            self.folder@,
            match self.files {
                Ok(files) => Ok(track::file_views(files@)),
                Err(error) => Err(error@),
            },
        )
    }
}

/// The condition that a listing is of the given folder.
pub open spec fn lists_folder(
    listings: Seq<FolderListing>,
    folder: Seq<char>,
) -> spec_fn(int) -> bool {
    |i: int| paths::same_key(listings[i].folder@, folder)
}

/// What was found below the given folder.
pub open spec fn found_below(listings: Seq<FolderListing>, folder: Seq<char>) -> Option<
    FilesFound,
> {
    match counting::first_where(listings.len(), lists_folder(listings, folder)) {
        Some(index) => Some(listings[index as int]@.1),
        None => None,
    }
}

/// Where the listing of the given folder stands.
fn find_listing(listings: &Vec<FolderListing>, folder: &str) -> (position: Option<usize>)
    ensures
        position == counting::first_where(listings@.len(), lists_folder(listings@, folder@)),
        position matches Some(index) ==> index < listings@.len(),
{
    let ghost wanted = lists_folder(listings@, folder@);
    let mut index: usize = 0;
    while index < listings.len()
        invariant
            index <= listings@.len(),
            wanted == lists_folder(listings@, folder@),
            forall|i: int| 0 <= i < index ==> !#[trigger] wanted(i),
        decreases listings@.len() - index,
    {
        if paths::same_path(listings[index].folder.as_str(), folder) {
            proof {
                assert(wanted(index as int));
                assert(listings.len() == listings@.len());
                counting::first_where_is(listings@.len(), wanted, index as int);
            }
            return Some(index);
        }
        index += 1;
    }
    proof {
        assert(listings.len() == listings@.len());
        counting::first_where_none(listings@.len(), wanted);
    }
    None
}

// ---------------------------------------------------------------------------
// Taking over what was found
// ---------------------------------------------------------------------------

/// The models of playlists that are to be synchronised.
pub open spec fn target_views(targets: Seq<FolderLibrarySyncTarget>) -> Seq<SyncTargetView> {
    targets.map_values(|target: FolderLibrarySyncTarget| target@)
}

/// How far a check of the library has come: the playlists, the changes, which playlists were
/// scanned, and what went wrong.
#[verifier::ext_equal]
pub struct SyncProgress {
    pub playlists: Seq<PlaylistView>,
    pub added: nat,
    pub restored: nat,
    pub newly_missing: nat,
    pub scanned: Seq<usize>,
    pub errors: Seq<Seq<char>>,
}

/// A check that has not begun.
pub open spec fn unsynced(playlists: Seq<PlaylistView>) -> SyncProgress {
    SyncProgress {
        playlists,
        added: 0,
        restored: 0,
        newly_missing: 0,
        scanned: Seq::empty(),
        errors: Seq::empty(),
    }
}

impl SyncProgress {
    /// The check with the scan of one folder taken over.
    pub open spec fn with_scan(self, index: usize, files: Seq<AudioFileView>) -> SyncProgress {
        let list = self.playlists[index as int];
        SyncProgress {
            playlists: self.playlists.update(index as int, list.after_scan(files)),
            added: self.added + folder_sync::new_files(list.tracks, files).len(),
            restored: self.restored + restored_by_scan(list.tracks, files),
            newly_missing: self.newly_missing + lost_by_scan(list.tracks, files),
            scanned: index_set::with_index(self.scanned, index),
            ..self
        }
    }

    /// The check with one target done: nothing changes where its playlist is gone, or where
    /// its folder was not listed.
    pub open spec fn with_target(
        self,
        target: SyncTargetView,
        listings: Seq<FolderListing>,
    ) -> SyncProgress {
        match lookup::resolved_target(self.playlists, target) {
            Some(index) => match found_below(listings, target.source_folder) {
                Some(Ok(files)) => self.with_scan(index, files),
                Some(Err(error)) => SyncProgress {
                    errors: self.errors.push(target.playlist_name + ": "@ + error),
                    ..self
                },
                None => self,
            },
            None => self,
        }
    }

    /// The check with all targets done, one after the other.
    pub open spec fn with_targets(
        self,
        targets: Seq<SyncTargetView>,
        listings: Seq<FolderListing>,
    ) -> SyncProgress
        decreases targets.len(),
    {
        if targets.len() == 0 {
            self
        } else {
            self.with_targets(targets.drop_last(), listings).with_target(targets.last(), listings)
        }
    }

    /// The check with the first `count` playlists that were not scanned checked file by file.
    pub open spec fn with_checks(
        self,
        count: nat,
        entries: Seq<FileAvailability>,
    ) -> SyncProgress
        decreases count,
    {
        if count == 0 {
            self
        } else {
            let before = self.with_checks((count - 1) as nat, entries);
            let index = (count - 1) as usize;
            let list = before.playlists[index as int];
            if self.scanned.contains(index) {
                before
            } else {
                SyncProgress {
                    playlists: before.playlists.update(
                        index as int,
                        PlaylistView {
                            tracks: folder_sync::marked_by_check(list.tracks, entries),
                            ..list
                        },
                    ),
                    restored: before.restored + restored_by_check(list.tracks, entries),
                    newly_missing: before.newly_missing + lost_by_check(list.tracks, entries),
                    ..before
                }
            }
        }
    }

    /// The numbers that are reported in the end.
    pub open spec fn stats(self) -> AppliedLibrarySyncStats {
        AppliedLibrarySyncStats {
            added: capped(self.added),
            restored: capped(self.restored),
            newly_missing: capped(self.newly_missing),
            missing_total: capped(missing_anywhere(self.playlists)),
        }
    }
}

/// A whole check of the library: first the folders that were listed, then the files of all
/// other playlists.
pub open spec fn synced_library(
    playlists: Seq<PlaylistView>,
    targets: Seq<SyncTargetView>,
    listings: Seq<FolderListing>,
    entries: Seq<FileAvailability>,
) -> SyncProgress {
    unsynced(playlists).with_targets(targets, listings).with_checks(playlists.len(), entries)
}

/// The numbers, the scanned playlists and the errors of a check.
struct Tally {
    stats: AppliedLibrarySyncStats,
    scanned: Vec<usize>,
    errors: Vec<String>,
}

impl Tally {
    /// This is what `progress` has come to.
    spec fn holds(&self, progress: SyncProgress) -> bool {
        &&& self.stats.added == capped(progress.added)
        &&& self.stats.restored == capped(progress.restored)
        &&& self.stats.newly_missing == capped(progress.newly_missing)
        &&& self.scanned@ == progress.scanned
        &&& text::texts(self.errors@) == progress.errors
    }
}

/// Takes over what was found for one target.
fn apply_target(
    playlists: &mut Vec<Playlist>,
    tally: &mut Tally,
    target: &FolderLibrarySyncTarget,
    listings: &Vec<FolderListing>,
    Ghost(progress): Ghost<SyncProgress>,
)
    requires
        playlist::playlist_views(old(playlists)@) == progress.playlists,
        old(tally).holds(progress),
    ensures
        playlist::playlist_views(final(playlists)@) == progress.with_target(
            target@,
            listings@,
        ).playlists,
        final(tally).holds(progress.with_target(target@, listings@)),
{
    let index: usize = match lookup::resolve_folder_sync_target(playlists, target) {
        Some(index) => index,
        None => return,
    };
    let place: usize = match find_listing(listings, target.source_folder.as_str()) {
        Some(place) => place,
        None => return,
    };
    match &listings[place].files {
        Ok(files) => {
            let ghost before = playlists@;
            let ghost found = track::file_views(files@);
            let ghost list = progress.playlists[index as int];
            assert(list == before[index as int]@);
            let stats = playlists[index].merge_tracks_from_folder_scan(files);
            proof {
                scan_numbers(stats, list.tracks, found);
                assert(playlist::playlist_views(playlists@) =~= progress.playlists.update(
                    index as int,
                    list.after_scan(found),
                ));
                assert(progress.with_target(target@, listings@) == progress.with_scan(
                    index,
                    found,
                ));
            }
            tally.stats.added = tally.stats.added.saturating_add(stats.added);
            tally.stats.restored = tally.stats.restored.saturating_add(stats.restored);
            tally.stats.newly_missing = tally.stats.newly_missing.saturating_add(
                stats.newly_missing,
            );
            index_set::insert_index(&mut tally.scanned, index);
        },
        Err(error) => {
            let ghost before = tally.errors@;
            let mut message = target.playlist_name.clone();
            message.append(": ");
            message.append(error.as_str());
            tally.errors.push(message);
            proof {
                assert(text::texts(tally.errors@) =~= text::texts(before).push(message@));
                assert(message@ == target@.playlist_name + ": "@ + error@);
            }
        },
    }
}

/// No target changes how many playlists there are.
proof fn targets_keep_playlists(
    progress: SyncProgress,
    targets: Seq<SyncTargetView>,
    listings: Seq<FolderListing>,
)
    requires
        progress.playlists.len() <= usize::MAX,
    ensures
        progress.with_targets(targets, listings).playlists.len() == progress.playlists.len(),
    decreases targets.len(),
{
    if targets.len() > 0 {
        targets_keep_playlists(progress, targets.drop_last(), listings);
        lookup::resolved_target_has_source(
            progress.with_targets(targets.drop_last(), listings).playlists,
            targets.last(),
        );
    }
}

/// No check changes how many playlists there are, nor which were scanned.
proof fn checks_keep_playlists(
    progress: SyncProgress,
    count: nat,
    entries: Seq<FileAvailability>,
)
    requires
        count <= progress.playlists.len() <= usize::MAX,
    ensures
        progress.with_checks(count, entries).playlists.len() == progress.playlists.len(),
        progress.with_checks(count, entries).scanned == progress.scanned,
        progress.with_checks(count, entries).errors == progress.errors,
    decreases count,
{
    if count > 0 {
        checks_keep_playlists(progress, (count - 1) as nat, entries);
    }
}

/// Checks the playlist at a position file by file, unless it was scanned.
fn apply_check(
    playlists: &mut Vec<Playlist>,
    tally: &mut Tally,
    index: usize,
    availability: &Vec<FileAvailability>,
    Ghost(progress): Ghost<SyncProgress>,
)
    requires
        index < old(playlists)@.len() == progress.playlists.len(),
        playlist::playlist_views(old(playlists)@) == progress.with_checks(
            index as nat,
            availability@,
        ).playlists,
        old(tally).holds(progress.with_checks(index as nat, availability@)),
    ensures
        playlist::playlist_views(final(playlists)@) == progress.with_checks(
            (index + 1) as nat,
            availability@,
        ).playlists,
        final(playlists)@.len() == progress.playlists.len(),
        final(tally).holds(progress.with_checks((index + 1) as nat, availability@)),
{
    let ghost before = progress.with_checks(index as nat, availability@);
    let ghost after = progress.with_checks((index + 1) as nat, availability@);
    proof {
        assert(playlists.len() == progress.playlists.len());
        checks_keep_playlists(progress, index as nat, availability@);
    }
    if index_set::contains_index(&tally.scanned, index) {
        return;
    }
    let ghost start = playlists@;
    let ghost list = before.playlists[index as int];
    assert(list == start[index as int]@);
    let stats = playlists[index].apply_track_availability(availability);
    proof {
        check_numbers(stats, list.tracks, availability@);
        assert(playlist::playlist_views(playlists@) =~= before.playlists.update(
            index as int,
            PlaylistView {
                tracks: folder_sync::marked_by_check(list.tracks, availability@),
                ..list
            },
        ));
        assert(after.restored == before.restored + restored_by_check(list.tracks, availability@));
    }
    tally.stats.restored = tally.stats.restored.saturating_add(stats.restored);
    tally.stats.newly_missing = tally.stats.newly_missing.saturating_add(stats.newly_missing);
}

/// How many tracks of a playlist are missing.
fn count_missing(list: &Playlist) -> (count: usize)
    ensures
        count == missing_count(list@.tracks),
{
    let ghost tracks = list@.tracks;
    let ghost missing = |i: int| tracks[i].missing;
    let mut count: usize = 0;
    let mut index: usize = 0;
    while index < list.tracks.len()
        invariant
            index <= list.tracks@.len() == tracks.len(),
            tracks == list@.tracks,
            missing == (|i: int| tracks[i].missing),
            count <= index,
            count == counting::count(index as nat, missing),
        decreases list.tracks@.len() - index,
    {
        assert(tracks[index as int] == list.tracks@[index as int]@);
        if list.tracks[index].missing {
            count += 1;
        }
        index += 1;
    }
    count
}

/// How many tracks of all playlists are missing, capped at the greatest number that can be
/// held.
pub fn count_missing_anywhere(playlists: &Vec<Playlist>) -> (count: usize)
    ensures
        count == capped(missing_anywhere(playlist::playlist_views(playlists@))),
{
    let ghost views = playlist::playlist_views(playlists@);
    let mut count: usize = 0;
    let mut index: usize = 0;
    assert(views.take(0) =~= Seq::empty());
    while index < playlists.len()
        invariant
            index <= playlists@.len(),
            views == playlist::playlist_views(playlists@),
            count == capped(missing_anywhere(views.take(index as int))),
        decreases playlists@.len() - index,
    {
        assert(views.take(index + 1).drop_last() =~= views.take(index as int));
        assert(views.take(index + 1).last() == playlists@[index as int]@);
        let missing: usize = count_missing(&playlists[index]);
        count = count.saturating_add(missing);
        index += 1;
    }
    assert(views.take(views.len() as int) =~= views);
    count
}

/// Takes over a whole check of the library; returns what has changed and what went wrong.
pub fn sync_library(
    playlists: &mut Vec<Playlist>,
    targets: &Vec<FolderLibrarySyncTarget>,
    listings: &Vec<FolderListing>,
    availability: &Vec<FileAvailability>,
) -> (result: (AppliedLibrarySyncStats, Vec<String>))
    ensures
        ({
            let synced = synced_library(
                playlist::playlist_views(old(playlists)@),
                target_views(targets@),
                listings@,
                availability@,
            );
            &&& playlist::playlist_views(final(playlists)@) == synced.playlists
            &&& result.0 == synced.stats()
            &&& text::texts(result.1@) == synced.errors
        }),
{
    let ghost start = unsynced(playlist::playlist_views(playlists@));
    let ghost all = target_views(targets@);
    let mut tally = Tally {
        stats: AppliedLibrarySyncStats::default(),
        scanned: Vec::new(),
        errors: Vec::new(),
    };
    let mut at: usize = 0;
    proof {
        assert(playlists.len() == start.playlists.len());
        assert(all.take(0) =~= Seq::empty());
        assert(text::texts(tally.errors@) =~= Seq::empty());
        assert(tally.scanned@ =~= Seq::empty());
    }
    while at < targets.len()
        invariant
            at <= targets@.len(),
            all == target_views(targets@),
            playlist::playlist_views(playlists@) == start.with_targets(
                all.take(at as int),
                listings@,
            ).playlists,
            tally.holds(start.with_targets(all.take(at as int), listings@)),
        decreases targets@.len() - at,
    {
        let ghost progress = start.with_targets(all.take(at as int), listings@);
        assert(all.take(at + 1).drop_last() =~= all.take(at as int));
        assert(all.take(at + 1).last() == targets@[at as int]@);
        apply_target(playlists, &mut tally, &targets[at], listings, Ghost(progress));
        at += 1;
    }
    let ghost scanned = start.with_targets(all, listings@);
    proof {
        assert(all.take(all.len() as int) =~= all);
        targets_keep_playlists(start, all, listings@);
        assert(playlists@.len() == scanned.playlists.len());
    }
    let mut index: usize = 0;
    while index < playlists.len()
        invariant
            index <= playlists@.len() == scanned.playlists.len(),
            playlist::playlist_views(playlists@) == scanned.with_checks(
                index as nat,
                availability@,
            ).playlists,
            tally.holds(scanned.with_checks(index as nat, availability@)),
        decreases playlists@.len() - index,
    {
        apply_check(playlists, &mut tally, index, availability, Ghost(scanned));
        index += 1;
    }
    let mut stats = tally.stats;
    stats.missing_total = count_missing_anywhere(playlists);
    (stats, tally.errors)
}

// ---------------------------------------------------------------------------
// Laws
// ---------------------------------------------------------------------------

/// A check neither adds nor drops a playlist, and a playlist keeps its name, its kind and its
/// folder.
pub proof fn sync_keeps_playlists(
    playlists: Seq<PlaylistView>,
    targets: Seq<SyncTargetView>,
    listings: Seq<FolderListing>,
    entries: Seq<FileAvailability>,
    index: int,
)
    requires
        0 <= index < playlists.len() <= usize::MAX,
    ensures
        ({
            let synced = synced_library(playlists, targets, listings, entries).playlists;
            &&& synced.len() == playlists.len()
            &&& synced[index].name == playlists[index].name
            &&& synced[index].kind == playlists[index].kind
            &&& synced[index].source_folder == playlists[index].source_folder
        }),
{
    let start = unsynced(playlists);
    let scanned = start.with_targets(targets, listings);
    targets_keep_playlists(start, targets, listings);
    checks_keep_playlists(scanned, playlists.len(), entries);
    targets_keep_identity(start, targets, listings, index);
    checks_keep_identity(scanned, playlists.len(), entries, index);
}

/// No target changes the name, the kind or the folder of a playlist.
proof fn targets_keep_identity(
    progress: SyncProgress,
    targets: Seq<SyncTargetView>,
    listings: Seq<FolderListing>,
    index: int,
)
    requires
        0 <= index < progress.playlists.len() <= usize::MAX,
    ensures
        ({
            let before = progress.playlists[index];
            let after = progress.with_targets(targets, listings).playlists[index];
            after.name == before.name && after.kind == before.kind && after.source_folder
                == before.source_folder
        }),
    decreases targets.len(),
{
    if targets.len() > 0 {
        targets_keep_identity(progress, targets.drop_last(), listings, index);
        targets_keep_playlists(progress, targets.drop_last(), listings);
        let before = progress.with_targets(targets.drop_last(), listings);
        let target = targets.last();
        if let Some(at) = lookup::resolved_target(before.playlists, target) {
            lookup::resolved_target_has_source(before.playlists, target);
            if let Some(Ok(files)) = found_below(listings, target.source_folder) {
                let scanned = before.playlists[at as int].after_scan(files);
                assert(scanned.name == before.playlists[at as int].name);
            }
        }
    }
}

/// No check changes the name, the kind or the folder of a playlist.
proof fn checks_keep_identity(
    progress: SyncProgress,
    count: nat,
    entries: Seq<FileAvailability>,
    index: int,
)
    requires
        0 <= index < progress.playlists.len() <= usize::MAX,
        count <= progress.playlists.len(),
    ensures
        ({
            let before = progress.playlists[index];
            let after = progress.with_checks(count, entries).playlists[index];
            after.name == before.name && after.kind == before.kind && after.source_folder
                == before.source_folder
        }),
    decreases count,
{
    if count > 0 {
        checks_keep_identity(progress, (count - 1) as nat, entries, index);
        checks_keep_playlists(progress, (count - 1) as nat, entries);
    }
}

} // verus!
