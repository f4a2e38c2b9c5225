//! Finding tracks, playlists and stations.

use crate::counting;
use crate::paths;
use crate::playlist;
use crate::playlist::{Playlist, PlaylistKind, PlaylistView};
use crate::settings;
use crate::settings::{RadioStation, RadioStationView};
use crate::text;
use crate::track;
use crate::track::{Track, TrackView};
use vstd::prelude::*;
use vstd::string::*;

verus! {

// ---------------------------------------------------------------------------
// Tracks by path
// ---------------------------------------------------------------------------

/// The position of the first track with the key of `path`.
pub open spec fn position_of_path(tracks: Seq<TrackView>, path: Seq<char>) -> Option<usize> {
    counting::first_where(tracks.len(), |i: int| paths::same_key(tracks[i].path, path))
}

/// The position of the first track with the key of `path`.
pub fn find_path(tracks: &Vec<Track>, path: &str) -> (position: Option<usize>)
    ensures
        position == position_of_path(track::track_views(tracks@), path@),
        position matches Some(index) ==> index < tracks@.len() && paths::same_key(
            tracks@[index as int].path@,
            path@,
        ),
{
    let ghost views = track::track_views(tracks@);
    let ghost wanted = |i: int| paths::same_key(views[i].path, path@);
    let mut index: usize = 0;
    while index < tracks.len()
        invariant
            index <= tracks@.len(),
            views == track::track_views(tracks@),
            wanted == (|i: int| paths::same_key(views[i].path, path@)),
            forall|i: int| 0 <= i < index ==> !#[trigger] wanted(i),
        decreases tracks@.len() - index,
    {
        assert(views[index as int] == tracks@[index as int]@);
        if paths::same_path(tracks[index].path.as_str(), path) {
            proof {
                assert(wanted(index as int));
                assert(tracks.len() == views.len());
                counting::first_where_is(views.len(), wanted, index as int);
            }
            return Some(index);
        }
        index += 1;
    }
    proof {
        assert(tracks.len() == views.len());
        counting::first_where_none(views.len(), wanted);
    }
    None
}

/// The position of the first track with the key of `path` whose file is there.
pub open spec fn position_of_present_path(
    tracks: Seq<TrackView>,
    path: Seq<char>,
) -> Option<usize> {
    counting::first_where(
        tracks.len(),
        |i: int| !tracks[i].missing && paths::same_key(tracks[i].path, path),
    )
}

/// The position of the first track with the key of `path` whose file is there.
pub fn find_present_path(tracks: &Vec<Track>, path: &str) -> (position: Option<usize>)
    ensures
        position == position_of_present_path(track::track_views(tracks@), path@),
        position matches Some(index) ==> index < tracks@.len(),
{
    let ghost views = track::track_views(tracks@);
    let ghost wanted = |i: int| !views[i].missing && paths::same_key(views[i].path, path@);
    let mut index: usize = 0;
    while index < tracks.len()
        invariant
            index <= tracks@.len(),
            views == track::track_views(tracks@),
            wanted == (|i: int| !views[i].missing && paths::same_key(views[i].path, path@)),
            forall|i: int| 0 <= i < index ==> !#[trigger] wanted(i),
        decreases tracks@.len() - index,
    {
        assert(views[index as int] == tracks@[index as int]@);
        if !tracks[index].missing && paths::same_path(tracks[index].path.as_str(), path) {
            proof {
                assert(wanted(index as int));
                assert(tracks.len() == views.len());
                counting::first_where_is(views.len(), wanted, index as int);
            }
            return Some(index);
        }
        index += 1;
    }
    proof {
        assert(tracks.len() == views.len());
        counting::first_where_none(views.len(), wanted);
    }
    None
}

/// A track with the key of `path` is found exactly where there is one.
pub proof fn path_is_found(tracks: Seq<TrackView>, path: Seq<char>)
    requires
        tracks.len() <= usize::MAX,
    ensures
        position_of_path(tracks, path) is Some <==> playlist::has_path(tracks, path),
        position_of_path(tracks, path) matches Some(index) ==> index < tracks.len()
            && paths::same_key(tracks[index as int].path, path),
{
    let wanted = |i: int| paths::same_key(tracks[i].path, path);
    counting::first_where_holds(tracks.len(), wanted);
    if playlist::has_path(tracks, path) {
        let i = choose|i: int|
            0 <= i < tracks.len() && paths::same_key(#[trigger] tracks[i].path, path);
        assert(wanted(i));
    }
    match position_of_path(tracks, path) {
        Some(index) => {
            assert(wanted(index as int));
            assert(paths::same_key(tracks[index as int].path, path));
        },
        None => {},
    }
}

// ---------------------------------------------------------------------------
// Tracks by path or file name
// ---------------------------------------------------------------------------

/// The file name of a path in lower case.
pub open spec fn lower_file_name(path: Seq<char>) -> Option<Seq<char>> {
    match paths::file_name_of(path) {
        Some(name) => Some(text::lowercase(name)),
        None => None,
    }
}

/// Whether two paths end in the same file name, whatever the case of letters.
pub open spec fn same_file_name(left: Seq<char>, right: Seq<char>) -> bool {
    lower_file_name(left) is Some && lower_file_name(left) == lower_file_name(right)
}

/// The first track with the key of `path`; where there is none, the first with its file name.
pub open spec fn position_of_path_or_name(
    tracks: Seq<TrackView>,
    path: Seq<char>,
) -> Option<usize> {
    match position_of_path(tracks, path) {
        Some(index) => Some(index),
        None => counting::first_where(
            tracks.len(),
            |i: int| same_file_name(tracks[i].path, path),
        ),
    }
}

/// The file name of a path in lower case.
fn normalized_file_name(path: &str) -> (name: Option<String>)
    ensures
        paths::text_of(name) == lower_file_name(path@),
{
    match paths::file_name(path) {
        Some(name) => Some(name.as_str().to_lowercase()),
        None => None,
    }
}

/// The first track with the key of `path`; where there is none, the first with its file name.
pub fn find_track_by_exact_path_or_file_name(playlist: &Playlist, path: &str) -> (position: Option<
    usize,
>)
    ensures
        position == position_of_path_or_name(playlist@.tracks, path@),
        position matches Some(index) ==> index < playlist.tracks@.len(),
{
    if let Some(index) = find_path(&playlist.tracks, path) {
        return Some(index);
    }
    let ghost views = playlist@.tracks;
    let ghost wanted = |i: int| same_file_name(views[i].path, path@);
    let source = normalized_file_name(path);
    let mut index: usize = 0;
    while index < playlist.tracks.len()
        invariant
            index <= playlist.tracks@.len(),
            views == playlist@.tracks,
            paths::text_of(source) == lower_file_name(path@),
            wanted == (|i: int| same_file_name(views[i].path, path@)),
            forall|i: int| 0 <= i < index ==> !#[trigger] wanted(i),
            position_of_path(views, path@) is None,
        decreases playlist.tracks@.len() - index,
    {
        assert(views[index as int] == playlist.tracks@[index as int]@);
        let candidate = normalized_file_name(playlist.tracks[index].path.as_str());
        if let (Some(source_name), Some(candidate_name)) = (&source, &candidate) {
            if *source_name == *candidate_name {
                proof {
                    assert(wanted(index as int));
                    assert(playlist.tracks.len() == views.len());
                    counting::first_where_is(views.len(), wanted, index as int);
                }
                return Some(index);
            }
        }
        index += 1;
    }
    proof {
        assert(playlist.tracks.len() == views.len());
        counting::first_where_none(views.len(), wanted);
    }
    None
}

// ---------------------------------------------------------------------------
// Searching tracks
// ---------------------------------------------------------------------------

/// Whether a track is found by a query: its title, its group or its path holds the query,
/// whatever the case of letters. An empty query finds every track.
pub open spec fn found_by_query(track: TrackView, query: Seq<char>) -> bool {
    let wanted = text::lowercase(query);
    query.len() == 0 || text::occurs_in(wanted, text::lowercase(track.title)) || text::occurs_in(
        wanted,
        text::lowercase(track.group),
    ) || text::occurs_in(wanted, text::lowercase(track.path))
}

/// Whether a track is found by a query.
pub fn track_matches_search_query(track: &Track, query: &str) -> (found: bool)
    ensures
        found == found_by_query(track@, query@),
{
    if query.is_empty() {
        return true;
    }
    let wanted = query.to_lowercase();
    text::contains(track.title.as_str().to_lowercase().as_str(), wanted.as_str())
        || text::contains(track.group.as_str().to_lowercase().as_str(), wanted.as_str())
        || text::contains(track.path.as_str().to_lowercase().as_str(), wanted.as_str())
}

/// The position to select after the tracks have changed: the same, or the last where the list
/// has become shorter.
pub open spec fn next_valid(index: usize, length: nat) -> Option<usize> {
    if length == 0 {
        None
    } else if index < length {
        Some(index)
    } else {
        Some((length - 1) as usize)
    }
}

/// The position to select after the tracks have changed.
pub fn next_valid_track_index(index: usize, length: usize) -> (next: Option<usize>)
    ensures
        next == next_valid(index, length as nat),
{
    if length == 0 {
        None
    } else if index < length {
        Some(index)
    } else {
        Some(length - 1)
    }
}

// ---------------------------------------------------------------------------
// Stations
// ---------------------------------------------------------------------------

/// The position of the first station with the given address, whatever the case of letters.
pub open spec fn position_of_url(stations: Seq<RadioStationView>, url: Seq<char>) -> Option<usize> {
    counting::first_where(
        stations.len(),
        |i: int| text::lowercase(stations[i].url) == text::lowercase(url),
    )
}

/// The position of the first station with the given address.
pub fn find_url(stations: &Vec<RadioStation>, url: &str) -> (position: Option<usize>)
    ensures
        position == position_of_url(settings::station_views(stations@), url@),
        position matches Some(index) ==> index < stations@.len(),
{
    let ghost views = settings::station_views(stations@);
    let ghost wanted = |i: int| text::lowercase(views[i].url) == text::lowercase(url@);
    let key = url.to_lowercase();
    let mut index: usize = 0;
    while index < stations.len()
        invariant
            index <= stations@.len(),
            views == settings::station_views(stations@),
            key@ == text::lowercase(url@),
            wanted == (|i: int| text::lowercase(views[i].url) == text::lowercase(url@)),
            forall|i: int| 0 <= i < index ==> !#[trigger] wanted(i),
        decreases stations@.len() - index,
    {
        assert(views[index as int] == stations@[index as int]@);
        if stations[index].url.as_str().to_lowercase() == key {
            proof {
                assert(wanted(index as int));
                assert(stations.len() == views.len());
                counting::first_where_is(views.len(), wanted, index as int);
            }
            return Some(index);
        }
        index += 1;
    }
    proof {
        assert(stations.len() == views.len());
        counting::first_where_none(views.len(), wanted);
    }
    None
}

// ---------------------------------------------------------------------------
// Folder playlists
// ---------------------------------------------------------------------------

/// A folder playlist that is to be synchronised, as it was when the work began.
#[derive(Debug)]
pub struct FolderLibrarySyncTarget {
    pub playlist_index: usize,
    pub playlist_name: String,
    pub source_folder: String,
}

/// The model of a playlist that is to be synchronised.
#[verifier::ext_equal]
pub struct SyncTargetView {
    pub playlist_index: usize,
    pub playlist_name: Seq<char>,
    pub source_folder: Seq<char>,
}

impl View for FolderLibrarySyncTarget {
    type V = SyncTargetView;

    open spec fn view(&self) -> SyncTargetView {
        SyncTargetView {
            playlist_index: self.playlist_index,
            playlist_name: self.playlist_name@,
            source_folder: self.source_folder@,
        }
    }
}

/// Whether a playlist is made from the given folder.
pub open spec fn has_source(playlist: PlaylistView, folder: Seq<char>) -> bool {
    playlist.kind == PlaylistKind::Folder && match playlist.source_folder {
        Some(source) => paths::same_key(source, folder),
        None => false,
    }
}

/// Whether a playlist still has the name and the folder of the target.
pub open spec fn is_target(playlist: PlaylistView, target: SyncTargetView) -> bool {
    playlist.name == target.playlist_name && has_source(playlist, target.source_folder)
}

/// The playlist that a target stands for: at its position where it is still there, else the
/// first with its name and folder, else the only one with its folder.
pub open spec fn resolved_target(
    playlists: Seq<PlaylistView>,
    target: SyncTargetView,
) -> Option<usize> {
    let matches = |i: int| is_target(playlists[i], target);
    let same_folder = |i: int| has_source(playlists[i], target.source_folder);
    if target.playlist_index < playlists.len() && matches(target.playlist_index as int) {
        Some(target.playlist_index)
    } else {
        match counting::first_where(playlists.len(), matches) {
            Some(index) => Some(index),
            None => if counting::count(playlists.len(), same_folder) == 1 {
                counting::first_where(playlists.len(), same_folder)
            } else {
                None
            },
        }
    }
}

/// Whether a playlist is made from the given folder.
fn comes_from_folder(playlist: &Playlist, folder: &str) -> (found: bool)
    ensures
        found == has_source(playlist@, folder@),
{
    playlist.kind == PlaylistKind::Folder && match &playlist.source_folder {
        Some(source) => paths::same_path(source.as_str(), folder),
        None => false,
    }
}

/// The playlist that a target stands for.
pub fn resolve_folder_sync_target(
    playlists: &Vec<Playlist>,
    target: &FolderLibrarySyncTarget,
) -> (resolved: Option<usize>)
    ensures
        resolved == resolved_target(playlist::playlist_views(playlists@), target@),
        resolved matches Some(index) ==> index < playlists@.len(),
{
    let ghost views = playlist::playlist_views(playlists@);
    let ghost matches = |i: int| is_target(views[i], target@);
    let ghost same_folder = |i: int| has_source(views[i], target@.source_folder);
    let first: usize = target.playlist_index;
    if first < playlists.len() {
        assert(views[first as int] == playlists@[first as int]@);
        if playlists[first].name == target.playlist_name && comes_from_folder(
            &playlists[first],
            target.source_folder.as_str(),
        ) {
            return Some(first);
        }
    }
    assert(playlists.len() == views.len());
    let mut only: Option<usize> = None;
    let mut count: usize = 0;
    let mut index: usize = 0;
    while index < playlists.len()
        invariant
            index <= playlists@.len(),
            views == playlist::playlist_views(playlists@),
            playlists.len() == views.len(),
            first == target.playlist_index,
            matches == (|i: int| is_target(views[i], target@)),
            same_folder == (|i: int| has_source(views[i], target@.source_folder)),
            !(first < views.len() && matches(first as int)),
            forall|i: int| 0 <= i < index ==> !#[trigger] matches(i),
            count <= index,
            count == counting::count(index as nat, same_folder),
            only == counting::first_where(index as nat, same_folder),
            only matches Some(at) ==> at < index,
        decreases playlists@.len() - index,
    {
        assert(views[index as int] == playlists@[index as int]@);
        if comes_from_folder(&playlists[index], target.source_folder.as_str()) {
            if playlists[index].name == target.playlist_name {
                proof {
                    assert(matches(index as int));
                    counting::first_where_is(views.len(), matches, index as int);
                }
                return Some(index);
            }
            count += 1;
            if only.is_none() {
                only = Some(index);
            }
        }
        index += 1;
    }
    proof {
        counting::first_where_none(views.len(), matches);
    }
    if count == 1 {
        only
    } else {
        None
    }
}

/// A playlist that only moved is still found.
pub proof fn moved_playlist_is_found(
    playlists: Seq<PlaylistView>,
    target: SyncTargetView,
    index: int,
)
    requires
        playlists.len() <= usize::MAX,
        0 <= index < playlists.len(),
        is_target(playlists[index], target),
        forall|i: int|
            0 <= i < playlists.len() && i != index ==> !is_target(#[trigger] playlists[i], target),
    ensures
        resolved_target(playlists, target) == Some(index as usize),
{
    let matches = |i: int| is_target(playlists[i], target);
    counting::first_where_holds(playlists.len(), matches);
    assert(matches(index));
    match counting::first_where(playlists.len(), matches) {
        Some(found) => {
            assert(matches(found as int));
            assert(is_target(playlists[found as int], target));
        },
        None => {},
    }
}

/// A target never stands for a playlist of another folder.
pub proof fn resolved_target_has_source(playlists: Seq<PlaylistView>, target: SyncTargetView)
    requires
        playlists.len() <= usize::MAX,
    ensures
        resolved_target(playlists, target) matches Some(index) ==> index < playlists.len()
            && has_source(playlists[index as int], target.source_folder),
{
    let matches = |i: int| is_target(playlists[i], target);
    let same_folder = |i: int| has_source(playlists[i], target.source_folder);
    counting::first_where_holds(playlists.len(), matches);
    counting::first_where_holds(playlists.len(), same_folder);
    match resolved_target(playlists, target) {
        Some(index) => {
            assert(matches(index as int) || same_folder(index as int));
        },
        None => {},
    }
}

} // verus!
