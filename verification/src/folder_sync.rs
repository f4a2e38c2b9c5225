//! Keeping playlists in step with the disk: folder scans, changes and availability.

use crate::counting;
use crate::grouping;
use crate::paths;
use crate::playlist;
use crate::playlist::{Playlist, PlaylistKind, PlaylistView};
use crate::sorting;
use crate::text;
use crate::text_set;
use crate::track;
use crate::track::{AudioFile, AudioFileView, Track, TrackView};
use vstd::prelude::*;
use vstd::string::*;

verus! {

/// What a check of saved files has found.
#[derive(Clone, Copy, Debug, PartialEq, Eq, Structural)]
pub struct TrackAvailabilityStats {
    pub restored: usize,
    pub newly_missing: usize,
    pub missing_total: usize,
}

impl Default for TrackAvailabilityStats {
    fn default() -> (stats: TrackAvailabilityStats)
        ensures
            stats == (TrackAvailabilityStats { restored: 0, newly_missing: 0, missing_total: 0 }),
    {
        TrackAvailabilityStats { restored: 0, newly_missing: 0, missing_total: 0 }
    }
}

/// What a folder scan has found.
#[derive(Clone, Copy, Debug, PartialEq, Eq, Structural)]
pub struct FolderSyncStats {
    pub added: usize,
    pub restored: usize,
    pub newly_missing: usize,
    pub missing_total: usize,
    pub present_total: usize,
}

impl Default for FolderSyncStats {
    fn default() -> (stats: FolderSyncStats)
        ensures
            stats == (FolderSyncStats {
                added: 0,
                restored: 0,
                newly_missing: 0,
                missing_total: 0,
                present_total: 0,
            }),
    {
        FolderSyncStats {
            added: 0,
            restored: 0,
            newly_missing: 0,
            missing_total: 0,
            present_total: 0,
        }
    }
}

/// Whether the file with a path key is there.
#[derive(Debug)]
pub struct FileAvailability {
    pub key: String,
    pub present: bool,
}

impl View for FileAvailability {
    type V = (Seq<char>, bool);

    open spec fn view(&self) -> (Seq<char>, bool) {
        (self.key@, self.present)
    }
}

/// What the last entry for `key` says.
pub open spec fn availability_of(entries: Seq<FileAvailability>, key: Seq<char>) -> Option<bool>
    decreases entries.len(),
{
    if entries.len() == 0 {
        None
    } else if entries.last().key@ == key {
        Some(entries.last().present)
    } else {
        availability_of(entries.drop_last(), key)
    }
}

// ---------------------------------------------------------------------------
// The files that a scan has found, by key
// ---------------------------------------------------------------------------

/// The path keys of files.
pub open spec fn file_keys(files: Seq<AudioFileView>) -> Seq<Seq<char>> {
    files.map_values(|file: AudioFileView| text::lowercase(file.path))
}

/// The path keys of tracks.
pub open spec fn track_keys(tracks: Seq<TrackView>) -> Seq<Seq<char>> {
    tracks.map_values(|track: TrackView| text::lowercase(track.path))
}

/// The first file with the given key.
pub open spec fn first_with_key(files: Seq<AudioFileView>, key: Seq<char>) -> AudioFileView {
    let first = choose|i: int|
        0 <= i < files.len() && text::lowercase(#[trigger] files[i].path) == key && forall|j: int|
            0 <= j < i ==> text::lowercase(#[trigger] files[j].path) != key;
    files[first]
}

/// The keys of the files that no track has, in ascending order.
pub open spec fn new_keys(tracks: Seq<TrackView>, files: Seq<AudioFileView>) -> Seq<Seq<char>> {
    text_set::sorted_distinct(file_keys(files)).filter(
        |key: Seq<char>| !track_keys(tracks).contains(key),
    )
}

/// The files that no track stands for, one for each key, in ascending order of their keys.
pub open spec fn new_files(tracks: Seq<TrackView>, files: Seq<AudioFileView>) -> Seq<
    AudioFileView,
> {
    new_keys(tracks, files).map_values(|key: Seq<char>| first_with_key(files, key))
}

/// The tracks for the files that no track stands for.
pub open spec fn additions(
    tracks: Seq<TrackView>,
    files: Seq<AudioFileView>,
    root: Option<Seq<char>>,
    depth: nat,
) -> Seq<TrackView> {
    new_files(tracks, files).map_values(
        |file: AudioFileView| track::scanned_track(file, root, depth),
    )
}

/// What a file that a scan has found becomes.
pub open spec fn scanned_below(
    root: Option<Seq<char>>,
    depth: nat,
) -> spec_fn(AudioFileView) -> TrackView {
    |file: AudioFileView| track::scanned_track(file, root, depth)
}

/// The playlist of the audio files of a folder.
pub open spec fn folder_playlist(
    name: Seq<char>,
    folder: Seq<char>,
    folder_depth: usize,
    files: Seq<AudioFileView>,
) -> PlaylistView {
    PlaylistView {
        name,
        tracks: sorting::sorted(
            files.map_values(scanned_below(Some(folder), folder_depth as nat)),
            playlist::track_order(),
        ),
        source_folder: Some(folder),
        folder_depth,
        selected_group: None,
        repeat_selection: Seq::empty(),
        kind: PlaylistKind::Folder,
    }
}

/// A track with the key of a path is there exactly where the key is among those of the tracks.
pub proof fn has_path_by_key(tracks: Seq<TrackView>, path: Seq<char>)
    ensures
        playlist::has_path(tracks, path) == track_keys(tracks).contains(text::lowercase(path)),
{
    let keys = track_keys(tracks);
    if playlist::has_path(tracks, path) {
        let i = choose|i: int|
            0 <= i < tracks.len() && paths::same_key(#[trigger] tracks[i].path, path);
        assert(keys[i] == text::lowercase(path));
    }
    if keys.contains(text::lowercase(path)) {
        let i = keys.index_of(text::lowercase(path));
        assert(paths::same_key(tracks[i].path, path));
    }
}

// ---------------------------------------------------------------------------
// The model of a full scan
// ---------------------------------------------------------------------------

/// Whether the track at `index` is present after a scan: its file was found, and no track
/// before it stands for the same file.
pub open spec fn found_by_scan(
    tracks: Seq<TrackView>,
    files: Seq<AudioFileView>,
    index: int,
) -> bool {
    let key = text::lowercase(tracks[index].path);
    file_keys(files).contains(key) && !track_keys(tracks.take(index)).contains(key)
}

/// The tracks, marked by a scan.
pub open spec fn marked_by_scan(
    tracks: Seq<TrackView>,
    files: Seq<AudioFileView>,
) -> Seq<TrackView> {
    Seq::new(
        tracks.len(),
        |i: int| TrackView { missing: !found_by_scan(tracks, files, i), ..tracks[i] },
    )
}

/// The numbers that a scan reports.
pub open spec fn are_scan_stats(
    stats: FolderSyncStats,
    tracks: Seq<TrackView>,
    files: Seq<AudioFileView>,
) -> bool {
    let found = |i: int| found_by_scan(tracks, files, i);
    &&& stats.added == new_files(tracks, files).len()
    &&& stats.restored == counting::count(tracks.len(), |i: int| found(i) && tracks[i].missing)
    &&& stats.newly_missing == counting::count(
        tracks.len(),
        |i: int| !found(i) && !tracks[i].missing,
    )
    &&& stats.missing_total == counting::count(tracks.len(), |i: int| !found(i))
    &&& stats.present_total == counting::count(tracks.len(), found) + stats.added
}

// ---------------------------------------------------------------------------
// The model of a set of changes
// ---------------------------------------------------------------------------

/// Whether `path` is one of the missing roots or lies below one.
pub open spec fn below_missing_root(path: Seq<char>, missing_roots: Seq<Seq<char>>) -> bool {
    exists|i: int|
        0 <= i < missing_roots.len() && paths::is_within(path, #[trigger] missing_roots[i])
}

/// Whether the track is missing after the changes: not where its file was found, but where it
/// lies below a missing root; else as before.
pub open spec fn missing_after_changes(
    track: TrackView,
    files: Seq<AudioFileView>,
    missing_roots: Seq<Seq<char>>,
) -> bool {
    if file_keys(files).contains(text::lowercase(track.path)) {
        false
    } else if below_missing_root(track.path, missing_roots) {
        true
    } else {
        track.missing
    }
}

/// The tracks, marked by a set of changes.
pub open spec fn marked_by_changes(
    tracks: Seq<TrackView>,
    files: Seq<AudioFileView>,
    missing_roots: Seq<Seq<char>>,
) -> Seq<TrackView> {
    tracks.map_values(
        |track: TrackView|
            TrackView { missing: missing_after_changes(track, files, missing_roots), ..track },
    )
}

/// The numbers that a set of changes reports.
pub open spec fn are_change_stats(
    stats: FolderSyncStats,
    tracks: Seq<TrackView>,
    files: Seq<AudioFileView>,
    missing_roots: Seq<Seq<char>>,
) -> bool {
    let missing = |i: int| missing_after_changes(tracks[i], files, missing_roots);
    &&& stats.added == new_files(tracks, files).len()
    &&& stats.restored == counting::count(tracks.len(), |i: int| !missing(i) && tracks[i].missing)
    &&& stats.newly_missing == counting::count(
        tracks.len(),
        |i: int| missing(i) && !tracks[i].missing,
    )
    &&& stats.missing_total == counting::count(tracks.len(), missing)
    &&& stats.present_total == counting::count(tracks.len(), |i: int| !missing(i)) + stats.added
}

// ---------------------------------------------------------------------------
// The model of an availability check
// ---------------------------------------------------------------------------

/// Whether the track is missing after a check; as before where nothing is known of its file.
pub open spec fn missing_after_check(track: TrackView, entries: Seq<FileAvailability>) -> bool {
    match availability_of(entries, text::lowercase(track.path)) {
        Some(present) => !present,
        None => track.missing,
    }
}

/// The tracks, marked by an availability check.
pub open spec fn marked_by_check(
    tracks: Seq<TrackView>,
    entries: Seq<FileAvailability>,
) -> Seq<TrackView> {
    tracks.map_values(
        |track: TrackView| TrackView { missing: missing_after_check(track, entries), ..track },
    )
}

/// The numbers that an availability check reports.
pub open spec fn are_check_stats(
    stats: TrackAvailabilityStats,
    tracks: Seq<TrackView>,
    entries: Seq<FileAvailability>,
) -> bool {
    let missing = |i: int| missing_after_check(tracks[i], entries);
    &&& stats.restored == counting::count(tracks.len(), |i: int| !missing(i) && tracks[i].missing)
    &&& stats.newly_missing == counting::count(
        tracks.len(),
        |i: int| missing(i) && !tracks[i].missing,
    )
    &&& stats.missing_total == counting::count(tracks.len(), missing)
}

impl PlaylistView {
    /// The tracks of a folder playlist with those of each group together.
    pub open spec fn contiguous_tracks(self, tracks: Seq<TrackView>) -> Seq<TrackView> {
        if self.kind == PlaylistKind::Folder {
            grouping::grouped(tracks)
        } else {
            tracks
        }
    }

    /// The playlist after a full scan of its folder.
    pub open spec fn after_scan(self, files: Seq<AudioFileView>) -> PlaylistView {
        let marked = self.contiguous_tracks(marked_by_scan(self.tracks, files));
        let added = additions(self.tracks, files, self.source_folder, self.folder_depth as nat);
        (PlaylistView { tracks: grouping::merged(marked, added), ..self }).with_valid_group()
    }

    /// The playlist after a set of changes in its folder.
    pub open spec fn after_changes(
        self,
        files: Seq<AudioFileView>,
        missing_roots: Seq<Seq<char>>,
    ) -> PlaylistView {
        let marked = marked_by_changes(self.tracks, files, missing_roots);
        let added = additions(self.tracks, files, self.source_folder, self.folder_depth as nat);
        (PlaylistView {
            tracks: if added.len() == 0 {
                marked
            } else {
                grouping::merged(self.contiguous_tracks(marked), added)
            },
            ..self
        }).with_valid_group()
    }
}

// ---------------------------------------------------------------------------
// Collecting the files
// ---------------------------------------------------------------------------

/// The files of a scan by key: the keys in ascending order, and where the first file with each
/// key stands.
struct FilesByKey {
    keys: Vec<String>,
    places: Vec<usize>,
}

impl FilesByKey {
    /// This holds the keys of `files`.
    spec fn covers(&self, files: Seq<AudioFileView>) -> bool {
        &&& text::texts(self.keys@) == text_set::sorted_distinct(file_keys(files))
        &&& self.places@.len() == self.keys@.len()
        &&& forall|i: int|
            0 <= i < self.keys@.len() ==> is_first_place(
                files,
                #[trigger] self.keys@[i]@,
                self.places@[i] as int,
            )
    }
}

/// The file at `place` is the first with the given key.
spec fn is_first_place(files: Seq<AudioFileView>, key: Seq<char>, place: int) -> bool {
    &&& 0 <= place < files.len()
    &&& text::lowercase(files[place].path) == key
    &&& forall|j: int| 0 <= j < place ==> text::lowercase(#[trigger] files[j].path) != key
}

/// The first file with a key is the one at the first place.
proof fn first_place_is_first(files: Seq<AudioFileView>, key: Seq<char>, place: int)
    requires
        is_first_place(files, key, place),
    ensures
        first_with_key(files, key) == files[place],
{
    let first = choose|i: int|
        0 <= i < files.len() && text::lowercase(#[trigger] files[i].path) == key && forall|j: int|
            0 <= j < i ==> text::lowercase(#[trigger] files[j].path) != key;
    assert(text::lowercase(files[place].path) == key);
    assert(0 <= first < files.len() && text::lowercase(files[first].path) == key);
    if first < place {
        assert(text::lowercase(files[first].path) != key);
    }
    if place < first {
        assert(text::lowercase(files[place].path) != key);
    }
}

/// Collects the files of a scan by key.
fn files_by_key(files: &Vec<AudioFile>) -> (result: FilesByKey)
    ensures
        result.covers(track::file_views(files@)),
        text_set::ascends(text::texts(result.keys@)),
{
    let ghost all = track::file_views(files@);
    let mut result = FilesByKey { keys: Vec::new(), places: Vec::new() };
    let mut index: usize = 0;
    assert(file_keys(all.take(0)) =~= Seq::empty());
    assert(text::texts(result.keys@) =~= Seq::empty());
    while index < files.len()
        invariant
            index <= files@.len(),
            all == track::file_views(files@),
            text_set::ascends(text::texts(result.keys@)),
            result.covers(all.take(index as int)),
        decreases files@.len() - index,
    {
        let ghost seen = all.take(index as int);
        let ghost next = all.take(index + 1);
        let key = paths::path_key(files[index].path.as_str());
        let ghost keys_before = text::texts(result.keys@);
        let ghost before = result;
        proof {
            assert(file_keys(next).drop_last() =~= file_keys(seen));
            assert(file_keys(next).last() == key@);
            text_set::sorted_distinct_holds(file_keys(seen));
            text_set::with_text_ascends(keys_before, key@);
        }
        let place = text_set::find_place(&result.keys, key.as_str());
        if !place.0 {
            proof {
                assert forall|j: int| 0 <= j < index implies text::lowercase(
                    #[trigger] next[j].path,
                ) != key@ by {
                    if text::lowercase(next[j].path) == key@ {
                        assert(file_keys(seen)[j] == key@);
                        assert(file_keys(seen).contains(key@));
                    }
                }
                assert(is_first_place(next, key@, index as int));
            }
            result.keys.insert(place.1, key);
            result.places.insert(place.1, index);
            assert(text::texts(result.keys@) =~= keys_before.insert(place.1 as int, key@));
        }
        assert forall|i: int| 0 <= i < result.keys@.len() implies is_first_place(
            next,
            #[trigger] result.keys@[i]@,
            result.places@[i] as int,
        ) by {
            if place.0 {
                assert(is_first_place(seen, before.keys@[i]@, before.places@[i] as int));
            } else {
                let old_index = if i < place.1 { i } else { i - 1 };
                if i != place.1 {
                    assert(result.keys@[i] == before.keys@[old_index]);
                    assert(is_first_place(
                        seen,
                        before.keys@[old_index]@,
                        before.places@[old_index] as int,
                    ));
                }
            }
            let p = result.places@[i] as int;
            assert forall|j: int| 0 <= j < p implies text::lowercase(#[trigger] next[j].path)
                != result.keys@[i]@ by {
                if p < index {
                    assert(seen[j] == next[j]);
                }
            }
        }
        index += 1;
    }
    assert(all.take(all.len() as int) =~= all);
    result
}

/// The path keys of a list of tracks, in ascending order.
fn keys_of_tracks(tracks: &Vec<Track>) -> (keys: Vec<String>)
    ensures
        text_set::ascends(text::texts(keys@)),
        text::texts(keys@) == text_set::sorted_distinct(
            track_keys(track::track_views(tracks@)),
        ),
{
    let ghost all = track_keys(track::track_views(tracks@));
    let mut keys: Vec<String> = Vec::new();
    let mut index: usize = 0;
    assert(all.take(0) =~= Seq::empty());
    assert(text::texts(keys@) =~= Seq::empty());
    while index < tracks.len()
        invariant
            index <= tracks@.len(),
            all == track_keys(track::track_views(tracks@)),
            text_set::ascends(text::texts(keys@)),
            text::texts(keys@) == text_set::sorted_distinct(all.take(index as int)),
        decreases tracks@.len() - index,
    {
        assert(all.take(index + 1).drop_last() =~= all.take(index as int));
        text_set::add_text(&mut keys, paths::path_key(tracks[index].path.as_str()));
        index += 1;
    }
    assert(all.take(all.len() as int) =~= all);
    keys
}

/// Makes tracks for the files that no track stands for. `known_keys` holds the keys of the tracks.
fn tracks_for_new_files(
    files: &Vec<AudioFile>,
    by_key: &FilesByKey,
    known_keys: &Vec<String>,
    root: Option<&str>,
    folder_depth: usize,
    Ghost(tracks): Ghost<Seq<TrackView>>,
) -> (added: Vec<Track>)
    requires
        by_key.covers(track::file_views(files@)),
        text_set::ascends(text::texts(known_keys@)),
        text::texts(known_keys@) == text_set::sorted_distinct(track_keys(tracks)),
    ensures
        track::track_views(added@) == additions(
            tracks,
            track::file_views(files@),
            track::optional_text(root),
            folder_depth as nat,
        ),
{
    let ghost all = track::file_views(files@);
    let ghost keys = text::texts(by_key.keys@);
    let ghost is_new = |key: Seq<char>| !track_keys(tracks).contains(key);
    let ghost make = |key: Seq<char>|
        track::scanned_track(
            first_with_key(all, key),
            track::optional_text(root),
            folder_depth as nat,
        );
    let mut added: Vec<Track> = Vec::new();
    let mut index: usize = 0;
    proof {
        text_set::sorted_distinct_holds(track_keys(tracks));
        grouping::filter_all_or_none(keys.take(0), is_new);
        assert(keys.take(0).filter(is_new) =~= Seq::empty());
        assert(track::track_views(added@) =~= keys.take(0).filter(is_new).map_values(make));
    }
    while index < by_key.keys.len()
        invariant
            index <= by_key.keys@.len(),
            all == track::file_views(files@),
            keys == text::texts(by_key.keys@),
            by_key.covers(all),
            text_set::ascends(text::texts(known_keys@)),
            forall|key: Seq<char>|
                text::texts(known_keys@).contains(key) <==> track_keys(tracks).contains(key),
            is_new == (|key: Seq<char>| !track_keys(tracks).contains(key)),
            make == (|key: Seq<char>|
                track::scanned_track(
                    first_with_key(all, key),
                    track::optional_text(root),
                    folder_depth as nat,
                )),
            track::track_views(added@) == keys.take(index as int).filter(is_new).map_values(make),
        decreases by_key.keys@.len() - index,
    {
        proof {
            grouping::filter_next(keys, is_new, index as int);
        }
        let place = text_set::find_place(known_keys, by_key.keys[index].as_str());
        if !place.0 {
            let at: usize = by_key.places[index];
            proof {
                assert(is_first_place(all, by_key.keys@[index as int]@, at as int));
                first_place_is_first(all, by_key.keys@[index as int]@, at as int);
            }
            let file = AudioFile { path: files[at].path.clone(), size_bytes: files[at].size_bytes };
            let mut new_track = Track::from_path(file, root, folder_depth);
            new_track.missing = false;
            let ghost before = added@;
            added.push(new_track);
            assert(track::track_views(added@) =~= track::track_views(before).push(new_track@));
            assert(new_track@ =~= make(keys[index as int]));
        }
        assert(track::track_views(added@) =~= keys.take(index + 1).filter(is_new).map_values(
            make,
        ));
        index += 1;
    }
    proof {
        assert(keys.take(keys.len() as int) =~= keys);
        assert(keys == text_set::sorted_distinct(file_keys(all)));
        assert(track::track_views(added@) =~= additions(
            tracks,
            all,
            track::optional_text(root),
            folder_depth as nat,
        ));
    }
    added
}

/// What the last entry for `key` says.
fn find_availability(entries: &Vec<FileAvailability>, key: &str) -> (result: Option<bool>)
    ensures
        result == availability_of(entries@, key@),
{
    let mut index: usize = entries.len();
    assert(entries@.take(entries@.len() as int) =~= entries@);
    while index > 0
        invariant
            index <= entries@.len(),
            availability_of(entries@, key@) == availability_of(entries@.take(index as int), key@),
        decreases index,
    {
        assert(entries@.take(index as int).drop_last() =~= entries@.take(index - 1));
        assert(entries@.take(index as int).last() == entries@[index - 1]);
        index -= 1;
        if text::same_text(entries[index].key.as_str(), key) {
            return Some(entries[index].present);
        }
    }
    None
}

impl Playlist {
    /// Makes a playlist of the audio files of a folder.
    pub fn from_folder(
        name: &str,
        source_folder: String,
        folder_depth: usize,
        files: Vec<AudioFile>,
    ) -> (playlist: Playlist)
        ensures
            playlist@ == folder_playlist(
                name@,
                source_folder@,
                folder_depth,
                track::file_views(files@),
            ),
    {
        let mut playlist = Playlist {
            name: name.to_owned(),
            tracks: Vec::new(),
            source_folder: Some(source_folder),
            folder_depth,
            selected_group: None,
            repeat_selection: Vec::new(),
            kind: PlaylistKind::Folder,
        };
        assert(text::texts(playlist.repeat_selection@) =~= Seq::empty());
        playlist.replace_tracks_from_files(files);
        playlist
    }

    /// Replaces the tracks by those of `files`, sorted.
    pub fn replace_tracks_from_files(&mut self, files: Vec<AudioFile>)
        ensures
            final(self)@ == (PlaylistView {
                tracks: sorting::sorted(
                    track::file_views(files@).map_values(
                        scanned_below(
                            old(self)@.source_folder,
                            old(self)@.folder_depth as nat,
                        ),
                    ),
                    playlist::track_order(),
                ),
                ..old(self)@
            }).with_valid_group(),
    {
        let root = self.source_folder.clone();
        let folder_depth: usize = self.folder_depth;
        let root_path = match &root {
            Some(root) => Some(root.as_str()),
            None => None,
        };
        let ghost start = self@;
        let ghost all = track::file_views(files@);
        let ghost make = scanned_below(start.source_folder, folder_depth as nat);
        let mut tracks: Vec<Track> = Vec::new();
        assert(track::track_views(tracks@) =~= all.map_values(make).take(0));
        for file in iter: files
            invariant
                all == track::file_views(iter.seq()),
                track::optional_text(root_path) == start.source_folder,
                make == scanned_below(start.source_folder, folder_depth as nat),
                track::track_views(tracks@) == all.map_values(make).take(iter.index()),
        {
            let ghost before = tracks@;
            let mut new_track = Track::from_path(file, root_path, folder_depth);
            new_track.missing = false;
            tracks.push(new_track);
            assert(new_track@ =~= make(file@));
            assert(track::track_views(tracks@) =~= track::track_views(before).push(new_track@));
            assert(all.map_values(make).take(iter.index() + 1) =~= all.map_values(make).take(
                iter.index(),
            ).push(make(file@)));
        }
        assert(all.map_values(make).take(all.len() as int) =~= all.map_values(make));
        self.tracks = tracks;
        self.sort_tracks();
        self.ensure_selected_group_exists();
    }

    /// Takes over which files are there; the tracks keep their order.
    pub fn apply_track_availability(&mut self, availability: &Vec<FileAvailability>) -> (stats:
        TrackAvailabilityStats)
        ensures
            final(self)@ == (PlaylistView {
                tracks: marked_by_check(old(self)@.tracks, availability@),
                ..old(self)@
            }),
            are_check_stats(stats, old(self)@.tracks, availability@),
    {
        let ghost start = self@;
        let ghost tracks = start.tracks;
        let ghost goal = marked_by_check(tracks, availability@);
        let ghost missing = |i: int| missing_after_check(tracks[i], availability@);
        let ghost restored = |i: int| !missing(i) && tracks[i].missing;
        let ghost newly_missing = |i: int| missing(i) && !tracks[i].missing;
        let mut stats = TrackAvailabilityStats::default();
        let mut index: usize = 0;
        while index < self.tracks.len()
            invariant
                index <= self.tracks@.len() == tracks.len(),
                goal == marked_by_check(tracks, availability@),
                missing == (|i: int| missing_after_check(tracks[i], availability@)),
                restored == (|i: int| !missing(i) && tracks[i].missing),
                newly_missing == (|i: int| missing(i) && !tracks[i].missing),
                self@ == (PlaylistView { tracks: self@.tracks, ..start }),
                forall|i: int|
                    0 <= i < tracks.len() ==> #[trigger] self@.tracks[i] == if i < index {
                        goal[i]
                    } else {
                        tracks[i]
                    },
                stats.restored == counting::count(index as nat, restored),
                stats.newly_missing == counting::count(index as nat, newly_missing),
                stats.missing_total == counting::count(index as nat, missing),
            decreases self.tracks@.len() - index,
        {
            let ghost before = self@.tracks;
            proof {
                assert(self@.tracks[index as int] == tracks[index as int]);
                counting::count_at_most(index as nat, restored);
                counting::count_at_most(index as nat, newly_missing);
                counting::count_at_most(index as nat, missing);
            }
            let key = paths::path_key(self.tracks[index].path.as_str());
            let was_missing = self.tracks[index].missing;
            if let Some(present) = find_availability(availability, key.as_str()) {
                self.tracks[index].missing = !present;
                if was_missing && present {
                    stats.restored += 1;
                } else if !was_missing && !present {
                    stats.newly_missing += 1;
                }
            }
            if self.tracks[index].missing {
                stats.missing_total += 1;
            }
            assert(self@.tracks =~= before.update(index as int, goal[index as int]));
            index += 1;
        }
        assert(self@.tracks =~= goal);
        stats
    }

    /// Takes over a full scan of the folder: files that were not found are marked, new files
    /// are added to their groups, and no track is dropped.
    pub fn merge_tracks_from_folder_scan(&mut self, files: &Vec<AudioFile>) -> (stats:
        FolderSyncStats)
        ensures
            final(self)@ == old(self)@.after_scan(track::file_views(files@)),
            are_scan_stats(stats, old(self)@.tracks, track::file_views(files@)),
    {
        let root = self.source_folder.clone();
        let folder_depth: usize = self.folder_depth;
        let root_path = match &root {
            Some(root) => Some(root.as_str()),
            None => None,
        };
        let ghost start = self@;
        let ghost tracks = start.tracks;
        let ghost all = track::file_views(files@);
        let ghost goal = marked_by_scan(tracks, all);
        let ghost found = |i: int| found_by_scan(tracks, all, i);
        let ghost restored = |i: int| found(i) && tracks[i].missing;
        let ghost newly_missing = |i: int| !found(i) && !tracks[i].missing;
        let ghost missing = |i: int| !found(i);
        let by_key = files_by_key(files);
        let mut known_keys: Vec<String> = Vec::new();
        let mut stats = FolderSyncStats::default();
        let mut index: usize = 0;
        proof {
            text_set::sorted_distinct_holds(file_keys(all));
            assert(track_keys(tracks).take(0) =~= Seq::empty());
            assert(text::texts(known_keys@) =~= Seq::empty());
        }
        while index < self.tracks.len()
            invariant
                index <= self.tracks@.len() == tracks.len(),
                goal == marked_by_scan(tracks, all),
                found == (|i: int| found_by_scan(tracks, all, i)),
                restored == (|i: int| found(i) && tracks[i].missing),
                newly_missing == (|i: int| !found(i) && !tracks[i].missing),
                missing == (|i: int| !found(i)),
                text_set::ascends(text::texts(by_key.keys@)),
                forall|key: Seq<char>|
                    text::texts(by_key.keys@).contains(key) <==> file_keys(all).contains(key),
                text_set::ascends(text::texts(known_keys@)),
                text::texts(known_keys@) == text_set::sorted_distinct(
                    track_keys(tracks).take(index as int),
                ),
                self@ == (PlaylistView { tracks: self@.tracks, ..start }),
                forall|i: int|
                    0 <= i < tracks.len() ==> #[trigger] self@.tracks[i] == if i < index {
                        goal[i]
                    } else {
                        tracks[i]
                    },
                stats.added == 0,
                stats.restored == counting::count(index as nat, restored),
                stats.newly_missing == counting::count(index as nat, newly_missing),
                stats.missing_total == counting::count(index as nat, missing),
                stats.present_total == counting::count(index as nat, found),
            decreases self.tracks@.len() - index,
        {
            let ghost before = self@.tracks;
            proof {
                assert(self@.tracks[index as int] == tracks[index as int]);
                counting::count_at_most(index as nat, restored);
                counting::count_at_most(index as nat, newly_missing);
                counting::count_at_most(index as nat, missing);
                counting::count_at_most(index as nat, found);
                let seen = track_keys(tracks).take(index as int);
                assert(seen =~= track_keys(tracks.take(index as int)));
                text_set::sorted_distinct_holds(seen);
                assert(track_keys(tracks).take(index + 1).drop_last() =~= seen);
                assert(track_keys(tracks).take(index + 1).last() == text::lowercase(
                    tracks[index as int].path,
                ));
            }
            let key = paths::path_key(self.tracks[index].path.as_str());
            let listed = text_set::find_place(&by_key.keys, key.as_str());
            let taken = text_set::find_place(&known_keys, key.as_str());
            text_set::add_text(&mut known_keys, key);
            let was_missing = self.tracks[index].missing;
            if listed.0 && !taken.0 {
                if was_missing {
                    stats.restored += 1;
                }
                self.tracks[index].missing = false;
                stats.present_total += 1;
            } else {
                if !was_missing {
                    stats.newly_missing += 1;
                }
                self.tracks[index].missing = true;
                stats.missing_total += 1;
            }
            assert(self@.tracks =~= before.update(index as int, goal[index as int]));
            index += 1;
        }
        proof {
            assert(self@.tracks =~= goal);
            assert(track_keys(tracks).take(tracks.len() as int) =~= track_keys(tracks));
        }
        self.ensure_folder_group_contiguity();
        let ghost kept = self@.tracks;
        let added = tracks_for_new_files(
            files,
            &by_key,
            &known_keys,
            root_path,
            folder_depth,
            Ghost(tracks),
        );
        let mut old_tracks: Vec<Track> = Vec::new();
        std::mem::swap(&mut old_tracks, &mut self.tracks);
        let added_count: usize = added.len();
        let merged = grouping::merge_tracks(old_tracks, added);
        proof {
            grouping::merged_keeps_tracks(kept, track::track_views(added@));
            counting::count_at_most(tracks.len(), found);
            grouping::grouped_entries(goal);
            assert(track::track_views(merged@).len() == merged@.len());
            assert(track::track_views(added@).len() == added@.len());
            assert(merged.len() == kept.len() + added_count);
        }
        self.tracks = merged;
        stats.added = added_count;
        stats.present_total += added_count;
        self.ensure_selected_group_exists();
        stats
    }

    /// Takes over a set of changes in the folder: the files that are there now, and the files
    /// and folders that are not. Tracks that the changes do not touch stay as they are.
    pub fn merge_tracks_from_folder_changes(
        &mut self,
        present_files: &Vec<AudioFile>,
        missing_roots: &Vec<String>,
    ) -> (stats: FolderSyncStats)
        ensures
            final(self)@ == old(self)@.after_changes(
                track::file_views(present_files@),
                text::texts(missing_roots@),
            ),
            are_change_stats(
                stats,
                old(self)@.tracks,
                track::file_views(present_files@),
                text::texts(missing_roots@),
            ),
    {
        let root = self.source_folder.clone();
        let folder_depth: usize = self.folder_depth;
        let root_path = match &root {
            Some(root) => Some(root.as_str()),
            None => None,
        };
        let ghost start = self@;
        let ghost tracks = start.tracks;
        let ghost all = track::file_views(present_files@);
        let ghost roots = text::texts(missing_roots@);
        let ghost goal = marked_by_changes(tracks, all, roots);
        let ghost missing = |i: int| missing_after_changes(tracks[i], all, roots);
        let ghost restored = |i: int| !missing(i) && tracks[i].missing;
        let ghost newly_missing = |i: int| missing(i) && !tracks[i].missing;
        let ghost present = |i: int| !missing(i);
        let by_key = files_by_key(present_files);
        let known_keys = keys_of_tracks(&self.tracks);
        let mut stats = FolderSyncStats::default();
        let mut index: usize = 0;
        proof {
            text_set::sorted_distinct_holds(file_keys(all));
        }
        while index < self.tracks.len()
            invariant
                index <= self.tracks@.len() == tracks.len(),
                goal == marked_by_changes(tracks, all, roots),
                roots == text::texts(missing_roots@),
                missing == (|i: int| missing_after_changes(tracks[i], all, roots)),
                restored == (|i: int| !missing(i) && tracks[i].missing),
                newly_missing == (|i: int| missing(i) && !tracks[i].missing),
                present == (|i: int| !missing(i)),
                text_set::ascends(text::texts(by_key.keys@)),
                forall|key: Seq<char>|
                    text::texts(by_key.keys@).contains(key) <==> file_keys(all).contains(key),
                self@ == (PlaylistView { tracks: self@.tracks, ..start }),
                forall|i: int|
                    0 <= i < tracks.len() ==> #[trigger] self@.tracks[i] == if i < index {
                        goal[i]
                    } else {
                        tracks[i]
                    },
                stats.added == 0,
                stats.restored == counting::count(index as nat, restored),
                stats.newly_missing == counting::count(index as nat, newly_missing),
                stats.missing_total == counting::count(index as nat, missing),
                stats.present_total == counting::count(index as nat, present),
            decreases self.tracks@.len() - index,
        {
            let ghost before = self@.tracks;
            proof {
                assert(self@.tracks[index as int] == tracks[index as int]);
                counting::count_at_most(index as nat, restored);
                counting::count_at_most(index as nat, newly_missing);
                counting::count_at_most(index as nat, missing);
                counting::count_at_most(index as nat, present);
            }
            let key = paths::path_key(self.tracks[index].path.as_str());
            let was_missing = self.tracks[index].missing;
            if text_set::find_place(&by_key.keys, key.as_str()).0 {
                if was_missing {
                    stats.restored += 1;
                }
                self.tracks[index].missing = false;
            } else if is_below_any(self.tracks[index].path.as_str(), missing_roots) {
                if !was_missing {
                    stats.newly_missing += 1;
                }
                self.tracks[index].missing = true;
            }
            if self.tracks[index].missing {
                stats.missing_total += 1;
            } else {
                stats.present_total += 1;
            }
            assert(self@.tracks =~= before.update(index as int, goal[index as int]));
            index += 1;
        }
        assert(self@.tracks =~= goal);
        let added = tracks_for_new_files(
            present_files,
            &by_key,
            &known_keys,
            root_path,
            folder_depth,
            Ghost(tracks),
        );
        let added_count: usize = added.len();
        assert(track::track_views(added@).len() == added@.len());
        if added_count > 0 {
            self.ensure_folder_group_contiguity();
            let ghost kept = self@.tracks;
            let mut old_tracks: Vec<Track> = Vec::new();
            std::mem::swap(&mut old_tracks, &mut self.tracks);
            let merged = grouping::merge_tracks(old_tracks, added);
            proof {
                grouping::merged_keeps_tracks(kept, track::track_views(added@));
                counting::count_at_most(tracks.len(), present);
                grouping::grouped_entries(goal);
                assert(track::track_views(merged@).len() == merged@.len());
                assert(merged.len() == kept.len() + added_count);
            }
            self.tracks = merged;
            stats.added = added_count;
            stats.present_total += added_count;
        }
        self.ensure_selected_group_exists();
        stats
    }

    /// Brings the tracks of each group of a folder playlist together.
    pub fn ensure_folder_group_contiguity(&mut self)
        ensures
            final(self)@ == (PlaylistView {
                tracks: old(self)@.contiguous_tracks(old(self)@.tracks),
                ..old(self)@
            }),
    {
        if self.kind != PlaylistKind::Folder {
            return;
        }
        let mut old_tracks: Vec<Track> = Vec::new();
        std::mem::swap(&mut old_tracks, &mut self.tracks);
        self.tracks = grouping::group_tracks(old_tracks);
    }

    /// The groups of the tracks, in ascending order.
    pub fn folder_groups(&self) -> (groups: Vec<String>)
        ensures
            text::texts(groups@) == text_set::sorted_distinct(
                self@.tracks.map_values(|track: TrackView| track.group),
            ),
    {
        let ghost all = self@.tracks.map_values(|track: TrackView| track.group);
        let mut groups: Vec<String> = Vec::new();
        let mut index: usize = 0;
        assert(all.take(0) =~= Seq::empty());
        assert(text::texts(groups@) =~= Seq::empty());
        while index < self.tracks.len()
            invariant
                index <= self.tracks@.len(),
                all == self@.tracks.map_values(|track: TrackView| track.group),
                text_set::ascends(text::texts(groups@)),
                text::texts(groups@) == text_set::sorted_distinct(all.take(index as int)),
            decreases self.tracks@.len() - index,
        {
            assert(all.take(index + 1).drop_last() =~= all.take(index as int));
            text_set::add_text(&mut groups, self.tracks[index].group.clone());
            index += 1;
        }
        assert(all.take(all.len() as int) =~= all);
        groups
    }

    /// Whether the selected group, where there is one, is that of the track.
    pub fn track_matches_selected_group(&self, track: &Track) -> (matches: bool)
        ensures
            matches == matches_group(self@, track@),
    {
        match &self.selected_group {
            Some(group) => track.group == *group,
            None => true,
        }
    }

    /// The positions of the tracks of the selected group; all where none is selected.
    pub fn filtered_track_indexes(&self) -> (indexes: Vec<usize>)
        ensures
            indexes@ == counting::indexes_where(
                self@.tracks.len(),
                |i: int| matches_group(self@, self@.tracks[i]),
            ),
    {
        let ghost wanted = |i: int| matches_group(self@, self@.tracks[i]);
        let mut indexes: Vec<usize> = Vec::new();
        let mut index: usize = 0;
        while index < self.tracks.len()
            invariant
                index <= self.tracks@.len(),
                wanted == (|i: int| matches_group(self@, self@.tracks[i])),
                indexes@ == counting::indexes_where(index as nat, wanted),
            decreases self.tracks@.len() - index,
        {
            if self.track_matches_selected_group(&self.tracks[index]) {
                indexes.push(index);
            }
            index += 1;
        }
        indexes
    }

    /// Selects a group, or none where no track is of it.
    pub fn set_selected_group(&mut self, group: Option<String>)
        ensures
            final(self)@ == (PlaylistView {
                selected_group: paths::text_of(group),
                ..old(self)@
            }).with_valid_group(),
    {
        self.selected_group = group;
        self.ensure_selected_group_exists();
    }

    /// Whether a track of the playlist is of `group`.
    pub fn contains_group(&self, group: &str) -> (found: bool)
        ensures
            found == playlist::has_group(self@.tracks, group@),
    {
        let mut index: usize = 0;
        while index < self.tracks.len()
            invariant
                index <= self.tracks@.len(),
                forall|i: int| 0 <= i < index ==> #[trigger] self@.tracks[i].group != group@,
            decreases self.tracks@.len() - index,
        {
            if text::same_text(self.tracks[index].group.as_str(), group) {
                assert(self@.tracks[index as int].group == group@);
                return true;
            }
            index += 1;
        }
        false
    }

    /// Selects no group where no track is of the selected one.
    pub fn ensure_selected_group_exists(&mut self)
        ensures
            final(self)@ == old(self)@.with_valid_group(),
    {
        let gone = match &self.selected_group {
            Some(group) => !self.contains_group(group.as_str()),
            None => false,
        };
        if gone {
            self.selected_group = None;
        }
    }
}

/// Whether the selected group of a playlist, where there is one, is that of the track.
pub open spec fn matches_group(playlist: PlaylistView, track: TrackView) -> bool {
    match playlist.selected_group {
        Some(group) => track.group == group,
        None => true,
    }
}

/// Whether `path` is one of the roots or lies below one.
fn is_below_any(path: &str, roots: &Vec<String>) -> (below: bool)
    ensures
        below == below_missing_root(path@, text::texts(roots@)),
{
    let mut index: usize = 0;
    while index < roots.len()
        invariant
            index <= roots@.len(),
            forall|i: int|
                0 <= i < index ==> !paths::is_within(path@, #[trigger] text::texts(roots@)[i]),
        decreases roots@.len() - index,
    {
        if paths::path_is_same_or_descendant(path, roots[index].as_str()) {
            assert(paths::is_within(path@, text::texts(roots@)[index as int]));
            return true;
        }
        index += 1;
    }
    false
}

} // verus!
