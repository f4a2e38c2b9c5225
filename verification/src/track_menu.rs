//! What can be done with the tracks of the shown playlist, one by one and all together.

use crate::app::{AppView, AudioOrbitApp};
use crate::lookup;
use crate::moving;
use crate::playlist;
use crate::playlist::{Playlist, PlaylistKind, PlaylistView};
use crate::text;
use vstd::prelude::*;
use vstd::string::*;

verus! {

// ---------------------------------------------------------------------------
// Other playlists
// ---------------------------------------------------------------------------

/// The name of a playlist behind the icon of its kind.
pub open spec fn labelled_name(kind: PlaylistKind, name: Seq<char>) -> Seq<char> {
    seq![playlist::icon_code(kind.kind_icon())] + " "@ + name
}

/// The name of a playlist behind the icon of its kind.
pub fn playlist_label(list: &Playlist) -> (label: String)
    ensures
        label@ == labelled_name(list@.kind, list@.name),
{
    let mut label = list.kind.icon();
    label.append(" ");
    label.append(list.name.as_str());
    label
}

/// A playlist in which a track was found.
#[derive(Debug)]
pub struct PlaylistTrackTarget {
    pub playlist_index: usize,
    pub track_path: String,
    pub playlist_name: String,
    pub kind: PlaylistKind,
}

/// The model of a playlist in which a track was found.
#[verifier::ext_equal]
pub struct TrackTargetView {
    pub playlist_index: usize,
    pub track_path: Seq<char>,
    pub playlist_name: Seq<char>,
    pub kind: PlaylistKind,
}

impl View for PlaylistTrackTarget {
    type V = TrackTargetView;

    open spec fn view(&self) -> TrackTargetView {
        TrackTargetView {
            playlist_index: self.playlist_index,
            track_path: self.track_path@,
            playlist_name: self.playlist_name@,
            kind: self.kind,
        }
    }
}

/// The models of playlists in which a track was found.
pub open spec fn target_views(targets: Seq<PlaylistTrackTarget>) -> Seq<TrackTargetView> {
    targets.map_values(|target: PlaylistTrackTarget| target@)
}

/// The playlists among the first `count` that have a track by its path or its file name, but
/// for the shown one.
pub open spec fn other_playlists_with(
    playlists: Seq<PlaylistView>,
    shown: usize,
    path: Seq<char>,
    count: nat,
) -> Seq<TrackTargetView>
    decreases count,
{
    if count == 0 {
        Seq::empty()
    } else {
        let before = other_playlists_with(playlists, shown, path, (count - 1) as nat);
        let list = playlists[count - 1];
        match lookup::position_of_path_or_name(list.tracks, path) {
            Some(position) => if count - 1 != shown {
                before.push(
                    TrackTargetView {
                        playlist_index: (count - 1) as usize,
                        track_path: list.tracks[position as int].path,
                        playlist_name: list.name,
                        kind: list.kind,
                    },
                )
            } else {
                before
            },
            None => before,
        }
    }
}

/// The playlists among the first `count` that take tracks one by one.
pub open spec fn playlists_to_add_to(playlists: Seq<PlaylistView>, count: nat) -> Seq<usize>
    decreases count,
{
    if count == 0 {
        Seq::empty()
    } else {
        let before = playlists_to_add_to(playlists, (count - 1) as nat);
        if playlists[count - 1].kind.takes_manual_tracks() {
            before.push((count - 1) as usize)
        } else {
            before
        }
    }
}

impl AudioOrbitApp {
    /// The other playlists that have a track by its path or its file name.
    pub fn matching_playlist_tracks(&self, path: &str) -> (targets: Vec<PlaylistTrackTarget>)
        ensures
            target_views(targets@) == other_playlists_with(
                self@.state.playlists,
                self@.state.selected_playlist_index,
                path@,
                self@.state.playlists.len(),
            ),
    {
        let ghost views = self@.state.playlists;
        let shown: usize = self.state.selected_playlist_index;
        let mut targets: Vec<PlaylistTrackTarget> = Vec::new();
        let mut index: usize = 0;
        assert(target_views(targets@) =~= Seq::empty());
        while index < self.state.playlists.len()
            invariant
                index <= self.state.playlists@.len() == views.len(),
                views == self@.state.playlists,
                shown == self@.state.selected_playlist_index,
                target_views(targets@) == other_playlists_with(
                    views,
                    shown,
                    path@,
                    index as nat,
                ),
            decreases self.state.playlists@.len() - index,
        {
            assert(views[index as int] == self.state.playlists@[index as int]@);
            if index != shown {
                let list = &self.state.playlists[index];
                if let Some(position) = lookup::find_track_by_exact_path_or_file_name(list, path) {
                    let ghost before = targets@;
                    assert(list@.tracks[position as int] == list.tracks@[position as int]@);
                    let target = PlaylistTrackTarget {
                        playlist_index: index,
                        track_path: list.tracks[position].path.clone(),
                        playlist_name: list.name.clone(),
                        kind: list.kind,
                    };
                    targets.push(target);
                    assert(target_views(targets@) =~= target_views(before).push(target@));
                }
            }
            index += 1;
        }
        targets
    }

    /// The playlists that take tracks one by one.
    pub fn playlists_for_tracks(&self) -> (indexes: Vec<usize>)
        ensures
            indexes@ == playlists_to_add_to(
                self@.state.playlists,
                self@.state.playlists.len(),
            ),
    {
        let ghost views = self@.state.playlists;
        let mut indexes: Vec<usize> = Vec::new();
        let mut index: usize = 0;
        assert(indexes@ =~= Seq::empty());
        while index < self.state.playlists.len()
            invariant
                index <= self.state.playlists@.len() == views.len(),
                views == self@.state.playlists,
                indexes@ == playlists_to_add_to(views, index as nat),
            decreases self.state.playlists@.len() - index,
        {
            assert(views[index as int] == self.state.playlists@[index as int]@);
            if self.state.playlists[index].accepts_manual_tracks() {
                indexes.push(index);
            }
            index += 1;
        }
        indexes
    }
}

/// A track is never searched for in the playlist that is shown.
pub proof fn shown_playlist_is_not_searched(
    playlists: Seq<PlaylistView>,
    shown: usize,
    path: Seq<char>,
    count: nat,
    at: int,
)
    requires
        count <= usize::MAX,
        0 <= at < other_playlists_with(playlists, shown, path, count).len(),
    ensures
        other_playlists_with(playlists, shown, path, count)[at].playlist_index != shown,
    decreases count,
{
    let before = other_playlists_with(playlists, shown, path, (count - 1) as nat);
    if at < before.len() {
        shown_playlist_is_not_searched(playlists, shown, path, (count - 1) as nat, at);
    }
}

// ---------------------------------------------------------------------------
// What can be done
// ---------------------------------------------------------------------------

/// How a track can be taken away.
#[derive(Clone, Copy, Debug, PartialEq, Eq, Structural)]
pub enum RemovalChoice {
    /// All tracks that the action is about are deleted from disk.
    DeleteSelection { idle: bool },
    /// The track is taken out of the playlist, or deleted from disk.
    RemoveOrDelete { can_remove: bool, idle: bool },
    /// The track is missing and is taken out.
    RemoveMissing,
}

/// What can be done with a track.
#[derive(Clone, Copy, Debug, PartialEq, Eq, Structural)]
pub struct TrackMenu {
    pub selected_count: usize,
    pub missing: bool,
    pub can_move_up: bool,
    pub can_move_down: bool,
    pub can_reveal: bool,
    pub can_mix: bool,
    pub can_copy: bool,
    pub removal: RemovalChoice,
}

/// What can be done with the tracks of the shown playlist together.
#[derive(Clone, Copy, Debug, PartialEq, Eq, Structural)]
pub struct PlaylistMenu {
    pub is_temporary: bool,
    pub can_remove: bool,
    pub can_add_files: bool,
    pub can_use_files: bool,
    pub can_mix: bool,
    pub can_sync: bool,
}

impl AppView {
    /// Whether the shown playlist has no file for a track; so it is where there is no track.
    pub open spec fn track_is_missing(self, index: usize) -> bool {
        self.has_track(index) ==> self.current()->0.tracks[index as int].missing
    }

    /// Whether a track can be moved one place up or down in the shown playlist.
    pub open spec fn track_can_move(self, index: usize, delta: isize) -> bool {
        self.has_track(index) && moving::neighbor(
            index,
            delta,
            self.current()->0.tracks.len(),
        ) != index
    }

    /// What can be done with a track; `available` is how many of the tracks that the action is
    /// about have a file.
    pub open spec fn track_menu(self, index: usize, available: usize) -> TrackMenu {
        let count = self.action_paths(index).len();
        let missing = self.track_is_missing(index);
        let idle = self.files_are_idle();
        TrackMenu {
            selected_count: count as usize,
            missing,
            can_move_up: count <= 1 && self.track_can_move(index, (-1) as isize),
            can_move_down: count <= 1 && self.track_can_move(index, 1),
            can_reveal: !missing,
            can_mix: available >= 2 && !self.jobs.dj_mix,
            can_copy: count > 0 && idle,
            removal: if count > 1 {
                RemovalChoice::DeleteSelection { idle }
            } else if !missing {
                RemovalChoice::RemoveOrDelete {
                    can_remove: self.current()->0.kind != PlaylistKind::Folder,
                    idle,
                }
            } else {
                RemovalChoice::RemoveMissing
            },
        }
    }

    /// What can be done with the shown playlist; `available` is how many of its tracks have a
    /// file.
    pub open spec fn playlist_menu(self, available: usize) -> PlaylistMenu {
        let idle = self.files_are_idle();
        match self.current() {
            Some(shown) => {
                let temporary = shown.kind == PlaylistKind::Temporary;
                PlaylistMenu {
                    is_temporary: temporary,
                    can_remove: shown.kind.is_deletable(),
                    can_add_files: shown.kind.takes_manual_tracks(),
                    can_use_files: !temporary && shown.tracks.len() > 0 && idle,
                    can_mix: !temporary && available >= 2 && !self.jobs.dj_mix,
                    can_sync: idle && !temporary,
                }
            },
            None => PlaylistMenu {
                is_temporary: false,
                can_remove: false,
                can_add_files: false,
                can_use_files: false,
                can_mix: available >= 2 && !self.jobs.dj_mix,
                can_sync: idle,
            },
        }
    }
}

impl AudioOrbitApp {
    /// Whether a track can be moved one place up or down in the shown playlist.
    pub fn can_move_track_in_current_playlist(&self, index: usize, delta: isize) -> (can: bool)
        ensures
            can == self@.track_can_move(index, delta),
    {
        match self.current_playlist() {
            Some(shown) => {
                assert(shown@.tracks.len() == shown.tracks@.len());
                index < shown.tracks.len() && moving::neighbor_of(
                    index,
                    delta,
                    shown.tracks.len(),
                ) != index
            },
            None => false,
        }
    }

    /// What can be done with a track; `available` is how many of the tracks that the action is
    /// about have a file.
    pub fn track_row_menu(&self, index: usize, available: usize) -> (menu: TrackMenu)
        ensures
            menu == self@.track_menu(index, available),
    {
        let (missing, removable) = match self.current_playlist() {
            Some(shown) => {
                assert(shown@.tracks.len() == shown.tracks@.len());
                if index < shown.tracks.len() {
                    assert(shown@.tracks[index as int] == shown.tracks@[index as int]@);
                    (shown.tracks[index].missing, shown.kind != PlaylistKind::Folder)
                } else {
                    (true, shown.kind != PlaylistKind::Folder)
                }
            },
            None => (true, false),
        };
        let action_paths = self.action_track_paths_for_context(index);
        let count: usize = action_paths.len();
        assert(text::texts(action_paths@).len() == count);
        let idle = self.track_file_operations_idle();
        let removal = if count > 1 {
            RemovalChoice::DeleteSelection { idle }
        } else if !missing {
            RemovalChoice::RemoveOrDelete { can_remove: removable, idle }
        } else {
            RemovalChoice::RemoveMissing
        };
        TrackMenu {
            selected_count: count,
            missing,
            can_move_up: count <= 1 && self.can_move_track_in_current_playlist(index, -1),
            can_move_down: count <= 1 && self.can_move_track_in_current_playlist(index, 1),
            can_reveal: !missing,
            can_mix: available >= 2 && !self.jobs.dj_mix,
            can_copy: count > 0 && idle,
            removal,
        }
    }

    /// What can be done with the shown playlist; `available` is how many of its tracks have a
    /// file.
    pub fn shown_playlist_menu(&self, available: usize) -> (menu: PlaylistMenu)
        ensures
            menu == self@.playlist_menu(available),
    {
        let idle = self.track_file_operations_idle();
        match self.current_playlist() {
            Some(shown) => {
                assert(shown@.tracks.len() == shown.tracks@.len());
                let temporary = shown.kind == PlaylistKind::Temporary;
                PlaylistMenu {
                    is_temporary: temporary,
                    can_remove: shown.kind.can_delete(),
                    can_add_files: shown.accepts_manual_tracks(),
                    can_use_files: !temporary && shown.tracks.len() > 0 && idle,
                    can_mix: !temporary && available >= 2 && !self.jobs.dj_mix,
                    can_sync: idle && !temporary,
                }
            },
            None => PlaylistMenu {
                is_temporary: false,
                can_remove: false,
                can_add_files: false,
                can_use_files: false,
                can_mix: available >= 2 && !self.jobs.dj_mix,
                can_sync: idle,
            },
        }
    }
}

} // verus!
