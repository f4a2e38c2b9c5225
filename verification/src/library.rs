//! Importing folders, and keeping the library in step with the disk.

use crate::app::{AppView, AudioOrbitApp, BrowsingView, DialogsView, Jobs};
use crate::counting;
use crate::file_operations;
use crate::folder_sync;
use crate::folder_sync::FileAvailability;
use crate::library_sync;
use crate::library_sync::{AppliedLibrarySyncStats, FolderListing};
use crate::lookup;
use crate::lookup::{FolderLibrarySyncTarget, SyncTargetView};
use crate::paths;
use crate::playlist;
use crate::playlist::{Playlist, PlaylistKind, PlaylistView};
use crate::seeking;
use crate::state;
use crate::state::{SavedState, StateView};
use crate::text;
use crate::track;
use crate::track::{AudioFile, AudioFileView, TrackView};
use vstd::prelude::*;
use vstd::string::*;

verus! {

// ---------------------------------------------------------------------------
// Adding files
// ---------------------------------------------------------------------------

/// What is said after files were added to the shown playlist.
pub open spec fn files_added_status(name: Seq<char>, added: nat) -> Seq<char> {
    if added == 0 {
        "Selected tracks are already in "@ + name + "."@
    } else {
        "Added "@ + text::decimal(added) + " track(s) to "@ + name + "."@
    }
}

/// The path that is selected once files were added: the newest favorite, else the first.
pub open spec fn path_to_select(kind: PlaylistKind, added: Seq<Seq<char>>) -> Option<Seq<char>> {
    if added.len() == 0 {
        None
    } else if kind == PlaylistKind::Favorites {
        Some(added.last())
    } else {
        Some(added[0])
    }
}

impl AppView {
    /// The application with files added to the shown playlist, where it takes them.
    pub open spec fn with_audio_files_added(self, files: Seq<AudioFileView>) -> AppView {
        match self.current() {
            Some(shown) => if !shown.kind.takes_manual_tracks() {
                self.with_error(
                    Some(
                        "Folder playlists are scanner-owned. Add files to a manual playlist or Favorites instead."@,
                    ),
                )
            } else {
                let result = shown.with_files(
                    files,
                    shown.source_folder,
                    shown.folder_depth as nat,
                );
                (AppView {
                    selected_track_index: match path_to_select(shown.kind, result.1) {
                        Some(path) => lookup::position_of_path(result.0.tracks, path),
                        None => None,
                    },
                    active_track_index: if self.active_playlist_index == Some(
                        self.state.selected_playlist_index,
                    ) {
                        self.playing_position(result.0.tracks)
                    } else {
                        self.active_track_index
                    },
                    ..self.with_current(result.0)
                }).with_visible_selection().with_status(
                    files_added_status(shown.name, result.1.len()),
                ).with_error(None).saved()
            },
            None => self,
        }
    }
}

impl AudioOrbitApp {
    /// Adds files to the shown playlist, where it takes them.
    pub fn add_audio_files(&mut self, files: Vec<AudioFile>)
        ensures
            final(self)@ == old(self)@.with_audio_files_added(track::file_views(files@)),
    {
        let index: usize = self.state.selected_playlist_index;
        if index >= self.state.playlists.len() {
            return;
        }
        let ghost start = self@;
        let ghost shown = start.state.playlists[index as int];
        let ghost before = self.state.playlists@;
        assert(shown == before[index as int]@);
        if !self.state.playlists[index].accepts_manual_tracks() {
            self.fail(
                "Folder playlists are scanner-owned. Add files to a manual playlist or Favorites instead.",
            );
            return;
        }
        let ghost result = shown.with_files(
            track::file_views(files@),
            shown.source_folder,
            shown.folder_depth as nat,
        );
        let name = self.state.playlists[index].name.clone();
        let kind = self.state.playlists[index].kind;
        let added = self.state.playlists[index].add_files(files);
        assert(playlist::playlist_views(self.state.playlists@) =~= start.state.playlists.update(
            index as int,
            result.0,
        ));
        assert(self@ =~= start.with_current(result.0));
        assert(self.state.playlists@[index as int]@ == result.0);
        assert(text::texts(added@).len() == added@.len());
        let selected: Option<usize> = if added.len() == 0 {
            None
        } else {
            let place: usize = if kind == PlaylistKind::Favorites {
                added.len() - 1
            } else {
                0
            };
            assert(text::texts(added@)[place as int] == added@[place as int]@);
            lookup::find_path(&self.state.playlists[index].tracks, added[place].as_str())
        };
        if self.active_playlist_index == Some(index) {
            self.active_track_index = self.find_playing_anywhere();
        }
        self.selected_track_index = selected;
        self.ensure_selected_track_visible();
        let mut status = String::new();
        if added.len() == 0 {
            status.append("Selected tracks are already in ");
        } else {
            status.append("Added ");
            status.append(text::decimal_text(added.len() as u64).as_str());
            status.append(" track(s) to ");
        }
        status.append(name.as_str());
        status.append(".");
        assert(status@ =~= files_added_status(shown.name, added@.len()));
        self.set_status(status);
        self.set_error(None);
        self.save_state_silently();
    }
}

// ---------------------------------------------------------------------------
// Folder scans
// ---------------------------------------------------------------------------

/// Why a folder is scanned.
#[derive(Debug)]
pub enum PendingFolderScanKind {
    Import { name: String, folder: String, depth: usize },
    Rescan { playlist_index: usize, name: String, folder: String, depth: usize },
}

/// The model of why a folder is scanned.
#[verifier::ext_equal]
pub enum FolderScanView {
    Import { name: Seq<char>, folder: Seq<char>, depth: usize },
    Rescan { playlist_index: usize, name: Seq<char>, folder: Seq<char>, depth: usize },
}

impl View for PendingFolderScanKind {
    type V = FolderScanView;

    open spec fn view(&self) -> FolderScanView {
        match *self {
            PendingFolderScanKind::Import { name, folder, depth } => FolderScanView::Import {
                name: name@,
                folder: folder@,
                depth,
            },
            PendingFolderScanKind::Rescan { playlist_index, name, folder, depth } => {
                FolderScanView::Rescan { playlist_index, name: name@, folder: folder@, depth }
            },
        }
    }
}

/// The model of a scan that may have been asked for.
pub open spec fn scan_view(kind: Option<PendingFolderScanKind>) -> Option<FolderScanView> {
    match kind {
        Some(kind) => Some(kind@),
        None => None,
    }
}

/// How a folder scan has ended.
#[derive(Debug)]
pub enum FolderScanEvent {
    Found { kind: PendingFolderScanKind, files: Vec<AudioFile> },
    Failed { error: String },
    Lost,
}

/// The name that a playlist gets from its folder.
pub open spec fn name_from_folder(folder: Seq<char>) -> Seq<char> {
    match paths::file_name_of(folder) {
        Some(name) => if text::is_blank_text(name) {
            "Local music"@
        } else {
            name
        },
        None => "Local music"@,
    }
}

/// The name that a playlist gets from its folder.
fn folder_name(folder: &str) -> (name: String)
    ensures
        name@ == name_from_folder(folder@),
{
    match paths::file_name(folder) {
        Some(name) => if text::is_blank(name.as_str()) {
            "Local music".to_owned()
        } else {
            name
        },
        None => "Local music".to_owned(),
    }
}

impl AppView {
    /// Whether the disk is being looked at.
    pub open spec fn is_scanning(self) -> bool {
        self.jobs.folder_scan || self.jobs.library_sync
    }

    /// The application with the import dialog open.
    pub open spec fn with_import_open(self) -> AppView {
        (AppView {
            dialogs: DialogsView { show_folder_import_modal: true, ..self.dialogs },
            ..self
        }).with_error(None)
    }

    /// The application with a folder chosen for import; the playlist is named after it unless
    /// it has been given a name.
    pub open spec fn with_folder_chosen(self, folder: Seq<char>) -> AppView {
        let name = self.dialogs.pending_playlist_name;
        AppView {
            dialogs: DialogsView {
                pending_folder_path: Some(folder),
                pending_playlist_name: if text::is_blank_text(name) || name == "Local music"@ {
                    name_from_folder(folder)
                } else {
                    name
                },
                ..self.dialogs
            },
            ..self
        }
    }

    /// The application once it has asked for a folder to be scanned, unless one is.
    pub open spec fn with_scan_started(self) -> AppView {
        if self.is_scanning() {
            self.with_error(
                Some(
                    "A library scan is already running. Wait for it to finish before starting another scan."@,
                ),
            )
        } else {
            (AppView { jobs: Jobs { folder_scan: true, ..self.jobs }, ..self }).with_error(None)
        }
    }

    /// The scan that imports the chosen folder.
    pub open spec fn import_scan(self) -> Option<FolderScanView> {
        match self.dialogs.pending_folder_path {
            Some(folder) => Some(
                FolderScanView::Import {
                    name: if text::is_blank_text(self.dialogs.pending_playlist_name) {
                        name_from_folder(folder)
                    } else {
                        text::trimmed(self.dialogs.pending_playlist_name)
                    },
                    folder,
                    depth: self.dialogs.pending_folder_depth,
                },
            ),
            None => None,
        }
    }

    /// The application once it has asked for the chosen folder to be imported.
    pub open spec fn with_import_started(self) -> AppView {
        match self.import_scan() {
            Some(FolderScanView::Import { name, folder, depth }) => if self.is_scanning() {
                self.with_scan_started()
            } else {
                self.with_scan_started().with_status(
                    "Scanning "@ + folder + " for "@ + name + "..."@,
                )
            },
            _ => self.with_error(Some("Choose a music folder first."@)),
        }
    }

    /// The scan of the folder of the shown playlist.
    pub open spec fn rescan(self) -> Option<FolderScanView> {
        match self.current() {
            Some(shown) => match shown.source_folder {
                Some(folder) => Some(
                    FolderScanView::Rescan {
                        playlist_index: self.state.selected_playlist_index,
                        name: shown.name,
                        folder,
                        depth: shown.folder_depth,
                    },
                ),
                None => None,
            },
            None => None,
        }
    }

    /// The application once it has asked for the folder of the shown playlist to be scanned.
    pub open spec fn with_rescan_started(self) -> AppView {
        match self.rescan() {
            Some(_) => if self.is_scanning() {
                self.with_scan_started()
            } else {
                self.with_scan_started().with_status(
                    "Syncing "@ + self.current()->0.name + " in background..."@,
                )
            },
            None => self.with_error(Some("This playlist was not created from a folder."@)),
        }
    }

    /// The application with a folder imported, unless nothing was found in it.
    pub open spec fn with_folder_imported(
        self,
        name: Seq<char>,
        folder: Seq<char>,
        depth: usize,
        files: Seq<AudioFileView>,
    ) -> AppView {
        if files.len() == 0 {
            self.with_error(
                Some("No supported audio files were found under "@ + folder + "."@),
            ).with_status("Folder scan finished without tracks."@)
        } else {
            (AppView {
                state: StateView {
                    playlists: self.state.playlists.push(
                        folder_sync::folder_playlist(name, folder, depth, files),
                    ),
                    selected_playlist_index: self.state.playlists.len() as usize,
                    ..self.state
                },
                ..self
            }).with_repeat_restored().with_first_eligible_selected().with_status(
                "Imported "@ + text::decimal(files.len()) + " track(s) from "@ + folder + " as "@
                    + name + "."@,
            ).with_error(None).saved()
        }
    }

    /// The application with the tracks found again after playlists have changed: the selected
    /// one by its path, the playing one, and the repeated ones.
    pub open spec fn with_tracks_found_again(self, selected_path: Option<Seq<char>>) -> AppView {
        (AppView {
            selected_track_index: match selected_path {
                Some(path) => match self.current() {
                    Some(shown) => lookup::position_of_path(shown.tracks, path),
                    None => None,
                },
                None => match self.selected_track_index {
                    Some(index) => if self.has_track(index) {
                        Some(index)
                    } else {
                        crate::selection::first_of(self.eligible())
                    },
                    None => None,
                },
            },
            active_track_index: self.playing_position_anywhere(),
            ..self
        }).with_repeat_restored().with_visible_selection()
    }

    /// The application with a scan of the folder of a playlist taken over, unless the playlist
    /// is gone or has another folder.
    pub open spec fn with_folder_rescanned(
        self,
        index: usize,
        name: Seq<char>,
        folder: Seq<char>,
        depth: usize,
        files: Seq<AudioFileView>,
    ) -> AppView {
        if index >= self.state.playlists.len() {
            self.with_error(Some(name + " no longer exists; sync result was ignored."@))
        } else {
            let list = self.state.playlists[index as int];
            if list.source_folder is None || !paths::same_key(list.source_folder->0, folder) {
                self.with_error(Some(name + " changed source folders; sync result was ignored."@))
            } else {
                let scanned = (PlaylistView { folder_depth: depth, ..list }).after_scan(files);
                self.with_playlists(
                    self.state.playlists.update(index as int, scanned),
                ).with_tracks_found_again(
                    if self.state.selected_playlist_index == index {
                        self.selected_path()
                    } else {
                        None
                    },
                ).with_status(rescan_status(name, list.tracks, files)).with_error(None).saved()
            }
        }
    }

    /// The application after a folder scan has ended.
    pub open spec fn with_scan_ended(self, event: FolderScanEvent) -> AppView {
        let ended = AppView { jobs: Jobs { folder_scan: false, ..self.jobs }, ..self };
        match event {
            FolderScanEvent::Found { kind, files } => match kind@ {
                FolderScanView::Import { name, folder, depth } => ended.with_folder_imported(
                    name,
                    folder,
                    depth,
                    track::file_views(files@),
                ),
                FolderScanView::Rescan { playlist_index, name, folder, depth } => {
                    ended.with_folder_rescanned(
                        playlist_index,
                        name,
                        folder,
                        depth,
                        track::file_views(files@),
                    )
                },
            },
            FolderScanEvent::Failed { error } => ended.with_error(Some(error@)).with_status(
                "Folder scan failed."@,
            ),
            FolderScanEvent::Lost => ended.with_error(
                Some("Folder scan stopped before returning a result."@),
            ),
        }
    }
}

/// How many of the tracks a scan finds.
pub open spec fn found_count(tracks: Seq<TrackView>, files: Seq<AudioFileView>) -> nat {
    counting::count(tracks.len(), |i: int| folder_sync::found_by_scan(tracks, files, i))
}

/// How many of the tracks a scan does not find.
pub open spec fn unfound_count(tracks: Seq<TrackView>, files: Seq<AudioFileView>) -> nat {
    counting::count(tracks.len(), |i: int| !folder_sync::found_by_scan(tracks, files, i))
}

/// What is said after the folder of a playlist was scanned.
pub open spec fn rescan_status(
    name: Seq<char>,
    tracks: Seq<TrackView>,
    files: Seq<AudioFileView>,
) -> Seq<char> {
    let added = folder_sync::new_files(tracks, files).len();
    "Synced "@ + name + ": "@ + text::decimal(found_count(tracks, files) + added)
        + " available, "@ + text::decimal(added) + " added, "@ + text::decimal(
        library_sync::restored_by_scan(tracks, files),
    ) + " restored, "@ + text::decimal(unfound_count(tracks, files)) + " missing."@
}

/// What is said after the folder of a playlist was scanned.
fn rescan_status_text(
    name: &str,
    stats: folder_sync::FolderSyncStats,
    Ghost(tracks): Ghost<Seq<TrackView>>,
    Ghost(files): Ghost<Seq<AudioFileView>>,
) -> (status: String)
    requires
        folder_sync::are_scan_stats(stats, tracks, files),
    ensures
        status@ == rescan_status(name@, tracks, files),
{
    proof {
        let found = |i: int| folder_sync::found_by_scan(tracks, files, i);
        counting::count_agrees(
            tracks.len(),
            |i: int| found(i) && tracks[i].missing,
            |i: int| folder_sync::found_by_scan(tracks, files, i) && tracks[i].missing,
        );
        counting::count_agrees(
            tracks.len(),
            |i: int| !found(i),
            |i: int| !folder_sync::found_by_scan(tracks, files, i),
        );
        counting::count_agrees(
            tracks.len(),
            found,
            |i: int| folder_sync::found_by_scan(tracks, files, i),
        );
    }
    let mut status = "Synced ".to_owned();
    status.append(name);
    status.append(": ");
    status.append(text::decimal_text(stats.present_total as u64).as_str());
    status.append(" available, ");
    status.append(text::decimal_text(stats.added as u64).as_str());
    status.append(" added, ");
    status.append(text::decimal_text(stats.restored as u64).as_str());
    status.append(" restored, ");
    status.append(text::decimal_text(stats.missing_total as u64).as_str());
    status.append(" missing.");
    status
}

impl AudioOrbitApp {
    /// Opens the import dialog.
    pub fn open_folder_import_modal(&mut self)
        ensures
            final(self)@ == old(self)@.with_import_open(),
    {
        self.dialogs.show_folder_import_modal = true;
        self.set_error(None);
    }

    /// Takes the folder that was chosen for import.
    pub fn pick_music_folder(&mut self, folder: String)
        ensures
            final(self)@ == old(self)@.with_folder_chosen(folder@),
    {
        if text::is_blank(self.dialogs.pending_playlist_name.as_str()) || text::same_text(
            self.dialogs.pending_playlist_name.as_str(),
            "Local music",
        ) {
            self.dialogs.pending_playlist_name = folder_name(folder.as_str());
        }
        self.dialogs.pending_folder_path = Some(folder);
        assert(self@ =~= old(self)@.with_folder_chosen(folder@));
    }

    /// Asks for a folder to be scanned, unless one is; returns whether it is asked.
    fn start_scan(&mut self) -> (started: bool)
        ensures
            started == !old(self)@.is_scanning(),
            final(self)@ == old(self)@.with_scan_started(),
    {
        if self.jobs.folder_scan || self.jobs.library_sync {
            self.fail(
                "A library scan is already running. Wait for it to finish before starting another scan.",
            );
            return false;
        }
        self.jobs.folder_scan = true;
        self.set_error(None);
        true
    }

    /// Asks for a folder to be scanned; returns the scan, unless another one is running.
    pub fn start_folder_scan(&mut self, kind: PendingFolderScanKind) -> (scan: Option<
        PendingFolderScanKind,
    >)
        ensures
            scan == if old(self)@.is_scanning() {
                None
            } else {
                Some(kind)
            },
            final(self)@ == old(self)@.with_scan_started(),
    {
        if self.start_scan() {
            Some(kind)
        } else {
            None
        }
    }

    /// Asks for the chosen folder to be imported; returns the scan that is needed.
    pub fn import_folder_playlist(&mut self) -> (scan: Option<PendingFolderScanKind>)
        ensures
            scan_view(scan) == if old(self)@.is_scanning() {
                None
            } else {
                old(self)@.import_scan()
            },
            final(self)@ == old(self)@.with_import_started(),
    {
        let folder = match &self.dialogs.pending_folder_path {
            Some(folder) => folder.clone(),
            None => {
                self.fail("Choose a music folder first.");
                return None;
            },
        };
        let name = if text::is_blank(self.dialogs.pending_playlist_name.as_str()) {
            folder_name(folder.as_str())
        } else {
            text::trim(self.dialogs.pending_playlist_name.as_str())
        };
        let depth: usize = self.dialogs.pending_folder_depth;
        if !self.start_scan() {
            return None;
        }
        let mut status = "Scanning ".to_owned();
        status.append(folder.as_str());
        status.append(" for ");
        status.append(name.as_str());
        status.append("...");
        self.set_status(status);
        Some(PendingFolderScanKind::Import { name, folder, depth })
    }

    /// Asks for the folder of the shown playlist to be scanned; returns the scan that is
    /// needed.
    pub fn rescan_current_folder(&mut self) -> (scan: Option<PendingFolderScanKind>)
        ensures
            scan_view(scan) == if old(self)@.is_scanning() {
                None
            } else {
                old(self)@.rescan()
            },
            final(self)@ == old(self)@.with_rescan_started(),
    {
        let playlist_index: usize = self.state.selected_playlist_index;
        if playlist_index >= self.state.playlists.len() {
            self.fail("This playlist was not created from a folder.");
            return None;
        }
        assert(self@.state.playlists[playlist_index as int]
            == self.state.playlists@[playlist_index as int]@);
        let folder = match &self.state.playlists[playlist_index].source_folder {
            Some(folder) => folder.clone(),
            None => {
                self.fail("This playlist was not created from a folder.");
                return None;
            },
        };
        let depth: usize = self.state.playlists[playlist_index].folder_depth;
        let name = self.state.playlists[playlist_index].name.clone();
        if !self.start_scan() {
            return None;
        }
        let mut status = "Syncing ".to_owned();
        status.append(name.as_str());
        status.append(" in background...");
        self.set_status(status);
        Some(PendingFolderScanKind::Rescan { playlist_index, name, folder, depth })
    }

    /// Makes a playlist of an imported folder.
    fn import_files(&mut self, name: String, folder: String, depth: usize, files: Vec<AudioFile>)
        ensures
            final(self)@ == old(self)@.with_folder_imported(
                name@,
                folder@,
                depth,
                track::file_views(files@),
            ),
    {
        let ghost start = self@;
        let ghost found = track::file_views(files@);
        assert(found.len() == files@.len());
        if files.len() == 0 {
            let mut error = "No supported audio files were found under ".to_owned();
            error.append(folder.as_str());
            error.append(".");
            self.set_error(Some(error));
            self.set_status("Folder scan finished without tracks.".to_owned());
            return;
        }
        let mut status = "Imported ".to_owned();
        status.append(text::decimal_text(files.len() as u64).as_str());
        status.append(" track(s) from ");
        status.append(folder.as_str());
        status.append(" as ");
        status.append(name.as_str());
        status.append(".");
        let ghost before = self.state.playlists@;
        let imported = Playlist::from_folder(name.as_str(), folder, depth, files);
        let index: usize = self.state.playlists.len();
        self.state.playlists.push(imported);
        self.state.selected_playlist_index = index;
        assert(playlist::playlist_views(self.state.playlists@) =~= playlist::playlist_views(
            before,
        ).push(imported@));
        assert(index == start.state.playlists.len());
        self.restore_repeat_selection_for_current_playlist();
        self.select_first_eligible_track();
        self.set_status(status);
        self.set_error(None);
        self.save_state_silently();
    }

    /// Finds the tracks again after playlists have changed.
    pub fn remap_track_indexes_after_library_change(&mut self, selected_path: Option<String>)
        ensures
            final(self)@ == old(self)@.with_tracks_found_again(paths::text_of(selected_path)),
    {
        let ghost start = self@;
        let selected: Option<usize> = match &selected_path {
            Some(path) => self.find_in_shown(path.as_str()),
            None => match self.selected_track_index {
                Some(index) => if self.has_track_at(index) {
                    Some(index)
                } else {
                    let eligible = self.eligible_track_indexes();
                    if eligible.len() > 0 {
                        Some(eligible[0])
                    } else {
                        None
                    }
                },
                None => None,
            },
        };
        let playing = self.find_playing_anywhere();
        self.selected_track_index = selected;
        self.active_track_index = playing;
        self.restore_repeat_selection_for_current_playlist();
        self.ensure_selected_track_visible();
    }

    /// Where a path stands in the shown playlist.
    fn find_in_shown(&self, path: &str) -> (position: Option<usize>)
        ensures
            position == match self@.current() {
                Some(shown) => lookup::position_of_path(shown.tracks, path@),
                None => None,
            },
    {
        let index: usize = self.state.selected_playlist_index;
        if index < self.state.playlists.len() {
            assert(self@.state.playlists[index as int] == self.state.playlists@[index as int]@);
            lookup::find_path(&self.state.playlists[index].tracks, path)
        } else {
            None
        }
    }

    /// Takes over a scan of the folder of a playlist.
    fn rescan_files(
        &mut self,
        index: usize,
        name: String,
        folder: String,
        depth: usize,
        files: Vec<AudioFile>,
    )
        ensures
            final(self)@ == old(self)@.with_folder_rescanned(
                index,
                name@,
                folder@,
                depth,
                track::file_views(files@),
            ),
    {
        let ghost start = self@;
        if index >= self.state.playlists.len() {
            let mut error = name;
            error.append(" no longer exists; sync result was ignored.");
            self.set_error(Some(error));
            return;
        }
        let ghost list = start.state.playlists[index as int];
        let ghost before = self.state.playlists@;
        assert(list == before[index as int]@);
        let same = match &self.state.playlists[index].source_folder {
            Some(source) => paths::same_path(source.as_str(), folder.as_str()),
            None => false,
        };
        if !same {
            let mut error = name;
            error.append(" changed source folders; sync result was ignored.");
            self.set_error(Some(error));
            return;
        }
        let selected_path = if self.state.selected_playlist_index == index {
            self.selected_track_path()
        } else {
            None
        };
        let ghost deeper = PlaylistView { folder_depth: depth, ..list };
        let ghost found = track::file_views(files@);
        self.state.playlists[index].folder_depth = depth;
        assert(self.state.playlists@[index as int]@ =~= deeper);
        let stats = self.state.playlists[index].merge_tracks_from_folder_scan(&files);
        assert(playlist::playlist_views(self.state.playlists@) =~= start.state.playlists.update(
            index as int,
            deeper.after_scan(found),
        ));
        let status = rescan_status_text(
            name.as_str(),
            stats,
            Ghost(list.tracks),
            Ghost(found),
        );
        self.remap_track_indexes_after_library_change(selected_path);
        self.set_status(status);
        self.set_error(None);
        self.save_state_silently();
    }

    /// Takes over how a folder scan has ended, where one is running.
    pub fn process_folder_scan_events(&mut self, event: Option<FolderScanEvent>)
        ensures
            final(self)@ == match event {
                Some(event) => if old(self)@.jobs.folder_scan {
                    old(self)@.with_scan_ended(event)
                } else {
                    old(self)@
                },
                None => old(self)@,
            },
    {
        let event = match event {
            Some(event) => event,
            None => return,
        };
        if !self.jobs.folder_scan {
            return;
        }
        self.jobs.folder_scan = false;
        match event {
            FolderScanEvent::Found { kind, files } => match kind {
                PendingFolderScanKind::Import { name, folder, depth } => {
                    self.import_files(name, folder, depth, files);
                },
                PendingFolderScanKind::Rescan { playlist_index, name, folder, depth } => {
                    self.rescan_files(playlist_index, name, folder, depth, files);
                },
            },
            FolderScanEvent::Failed { error } => {
                self.set_error(Some(error));
                self.set_status("Folder scan failed.".to_owned());
            },
            FolderScanEvent::Lost => {
                self.fail("Folder scan stopped before returning a result.");
            },
        }
    }
}

// ---------------------------------------------------------------------------
// The whole library
// ---------------------------------------------------------------------------

/// Why the library is checked.
#[derive(Clone, Copy, Debug, PartialEq, Eq, Structural)]
pub enum LibrarySyncTrigger {
    Startup,
    Manual,
    Automatic,
}

/// What has to be looked at on disk to check the library: files one by one, and folders. No
/// two files and no two folders have the same key.
#[derive(Debug)]
pub struct LibrarySyncRequest {
    pub trigger: LibrarySyncTrigger,
    pub files: Vec<String>,
    pub folders: Vec<String>,
    pub targets: Vec<FolderLibrarySyncTarget>,
}

/// The model of what has to be looked at.
#[verifier::ext_equal]
pub struct SyncRequestView {
    pub trigger: LibrarySyncTrigger,
    pub files: Seq<Seq<char>>,
    pub folders: Seq<Seq<char>>,
    pub targets: Seq<SyncTargetView>,
}

impl View for LibrarySyncRequest {
    type V = SyncRequestView;

    open spec fn view(&self) -> SyncRequestView {
        SyncRequestView {
            trigger: self.trigger,
            files: text::texts(self.files@),
            folders: text::texts(self.folders@),
            targets: library_sync::target_views(self.targets@),
        }
    }
}

/// The model of a check that may have been asked for.
pub open spec fn request_view(request: Option<LibrarySyncRequest>) -> Option<SyncRequestView> {
    match request {
        Some(request) => Some(request@),
        None => None,
    }
}

/// What was found on disk, or that no answer will come.
#[derive(Debug)]
pub enum LibrarySyncEvent {
    Found {
        trigger: LibrarySyncTrigger,
        targets: Vec<FolderLibrarySyncTarget>,
        listings: Vec<FolderListing>,
        availability: Vec<FileAvailability>,
    },
    Lost,
}

/// The paths of tracks.
pub open spec fn paths_of(tracks: Seq<TrackView>) -> Seq<Seq<char>> {
    tracks.map_values(|track: TrackView| track.path)
}

/// The paths of the tracks of all playlists, without folder playlists where they are scanned.
pub open spec fn paths_anywhere(playlists: Seq<PlaylistView>, scans_folders: bool) -> Seq<
    Seq<char>,
>
    decreases playlists.len(),
{
    if playlists.len() == 0 {
        Seq::empty()
    } else {
        let before = paths_anywhere(playlists.drop_last(), scans_folders);
        if scans_folders && playlists.last().kind == PlaylistKind::Folder {
            before
        } else {
            before + paths_of(playlists.last().tracks)
        }
    }
}

/// The folder playlists among the first `count`, to be synchronised.
pub open spec fn targets_below(playlists: Seq<PlaylistView>, count: nat) -> Seq<SyncTargetView>
    decreases count,
{
    if count == 0 {
        Seq::empty()
    } else {
        let before = targets_below(playlists, (count - 1) as nat);
        let list = playlists[count - 1];
        if list.kind == PlaylistKind::Folder && list.source_folder is Some {
            before.push(
                SyncTargetView {
                    playlist_index: (count - 1) as usize,
                    playlist_name: list.name,
                    source_folder: list.source_folder->0,
                },
            )
        } else {
            before
        }
    }
}

/// The folders of the targets.
pub open spec fn folders_of(targets: Seq<SyncTargetView>) -> Seq<Seq<char>> {
    targets.map_values(|target: SyncTargetView| target.source_folder)
}

/// What has to be looked at to check the playlists.
pub open spec fn sync_request(
    playlists: Seq<PlaylistView>,
    trigger: LibrarySyncTrigger,
    scans_folders: bool,
) -> SyncRequestView {
    let targets = if scans_folders {
        targets_below(playlists, playlists.len())
    } else {
        Seq::empty()
    };
    SyncRequestView {
        trigger,
        files: file_operations::distinct_paths(paths_anywhere(playlists, scans_folders)),
        folders: file_operations::distinct_paths(folders_of(targets)),
        targets,
    }
}

/// A time ago, or the time itself where the clock does not reach back so far.
pub open spec fn time_ago(now: u64, span: u64) -> u64 {
    if now >= span {
        (now - span) as u64
    } else {
        now
    }
}

/// A time ago, or the time itself where the clock does not reach back so far.
fn time_before(now: u64, span: u64) -> (time: u64)
    ensures
        time == time_ago(now, span),
{
    if now >= span {
        now - span
    } else {
        now
    }
}

/// What is said after a check that the user has asked for.
pub open spec fn manual_sync_status(stats: AppliedLibrarySyncStats) -> Seq<char> {
    "Library synced: "@ + text::decimal(stats.added as nat) + " added, "@ + text::decimal(
        stats.restored as nat,
    ) + " restored, "@ + text::decimal(stats.newly_missing as nat) + " newly missing, "@
        + text::decimal(stats.missing_total as nat) + " missing total."@
}

/// What is said after a check of its own accord that has changed something.
pub open spec fn automatic_sync_status(stats: AppliedLibrarySyncStats) -> Seq<char> {
    "Library updated: "@ + text::decimal(stats.added as nat) + " added, "@ + text::decimal(
        stats.restored as nat,
    ) + " restored, "@ + text::decimal(stats.newly_missing as nat) + " newly missing."@
}

/// What is said of folders that could not be listed.
pub open spec fn sync_errors(errors: Seq<Seq<char>>) -> Option<Seq<char>> {
    if errors.len() == 0 {
        None
    } else if errors.len() == 1 {
        Some("One folder could not be synced: "@ + errors[0])
    } else {
        Some(
            text::decimal(errors.len()) + " folders could not be synced. First error: "@
                + errors[0],
        )
    }
}

impl AppView {
    /// The application with another time of the last check.
    pub open spec fn with_sync_at(self, time: u64) -> AppView {
        AppView { jobs: Jobs { last_library_sync_at: time, ..self.jobs }, ..self }
    }

    /// The application without an error, and with a status line, where the user has asked.
    pub open spec fn with_manual_status(
        self,
        trigger: LibrarySyncTrigger,
        status: Seq<char>,
    ) -> AppView {
        if trigger == LibrarySyncTrigger::Manual {
            self.with_status(status).with_error(None)
        } else {
            self
        }
    }

    /// What has to be looked at to check the library, unless it is being checked or there is
    /// nothing to look at.
    pub open spec fn library_request(
        self,
        trigger: LibrarySyncTrigger,
        scans_folders: bool,
    ) -> Option<SyncRequestView> {
        let request = sync_request(self.state.playlists, trigger, scans_folders);
        if self.is_scanning() || (request.files.len() == 0 && request.targets.len() == 0) {
            None
        } else {
            Some(request)
        }
    }

    /// The application once it has asked for the library to be checked. After a check at
    /// startup the first one of its own accord is due at once.
    pub open spec fn with_sync_started(
        self,
        trigger: LibrarySyncTrigger,
        scans_folders: bool,
        now: u64,
        interval: u64,
    ) -> AppView {
        if self.is_scanning() {
            if trigger == LibrarySyncTrigger::Manual {
                self.with_error(Some("A library scan is already running."@))
            } else {
                self
            }
        } else if self.library_request(trigger, scans_folders) is None {
            self.with_sync_at(
                if trigger == LibrarySyncTrigger::Startup
                    && self.state.library.auto_sync_selected_playlist {
                    time_ago(now, interval)
                } else {
                    now
                },
            ).with_manual_status(trigger, "Library has no tracks or folders to sync."@)
        } else {
            (AppView { jobs: Jobs { library_sync: true, ..self.jobs }, ..self }).with_sync_at(
                now,
            ).with_manual_status(trigger, "Syncing library in background..."@)
        }
    }

    /// Whether a check of its own accord is due.
    pub open spec fn auto_sync_is_due(self, now: u64, interval: u64) -> bool {
        self.state.library.auto_sync_selected_playlist && seeking::elapsed(
            now,
            self.jobs.last_library_sync_at,
        ) >= interval
    }

    /// The application with the outcome of a check reported.
    pub open spec fn with_sync_reported(
        self,
        trigger: LibrarySyncTrigger,
        stats: AppliedLibrarySyncStats,
        errors: Seq<Seq<char>>,
        now: u64,
        interval: u64,
    ) -> AppView {
        match trigger {
            LibrarySyncTrigger::Manual => self.with_status(manual_sync_status(stats)).with_error(
                sync_errors(errors),
            ),
            LibrarySyncTrigger::Automatic => if stats.any_change() {
                self.with_status(automatic_sync_status(stats))
            } else {
                self
            },
            LibrarySyncTrigger::Startup => {
                let reported = if stats.newly_missing > 0 {
                    self.with_status(
                        "Library check found "@ + text::decimal(stats.missing_total as nat)
                            + " missing track(s)."@,
                    )
                } else {
                    self
                };
                if self.state.library.auto_sync_selected_playlist {
                    reported.with_sync_at(time_ago(now, interval))
                } else {
                    reported
                }
            },
        }
    }

    /// The application with a check of the library taken over.
    pub open spec fn with_library_synced(
        self,
        trigger: LibrarySyncTrigger,
        targets: Seq<SyncTargetView>,
        listings: Seq<FolderListing>,
        availability: Seq<FileAvailability>,
        now: u64,
        interval: u64,
    ) -> AppView {
        let synced = library_sync::synced_library(
            self.state.playlists,
            targets,
            listings,
            availability,
        );
        let changed = self.with_playlists(synced.playlists);
        let kept = if synced.stats().any_change() {
            changed.with_tracks_found_again(self.selected_path()).saved()
        } else {
            changed
        };
        kept.with_sync_reported(trigger, synced.stats(), synced.errors, now, interval)
    }

    /// The application after a check of the library has ended.
    pub open spec fn with_sync_ended(
        self,
        event: LibrarySyncEvent,
        now: u64,
        interval: u64,
    ) -> AppView {
        let ended = AppView { jobs: Jobs { library_sync: false, ..self.jobs }, ..self };
        match event {
            LibrarySyncEvent::Found { trigger, targets, listings, availability } => {
                ended.with_sync_at(now).with_library_synced(
                    trigger,
                    library_sync::target_views(targets@),
                    listings@,
                    availability@,
                    now,
                    interval,
                )
            },
            LibrarySyncEvent::Lost => ended.with_error(
                Some("Library sync stopped before returning a result."@),
            ),
        }
    }

    /// The application with another state and the panels that it shows.
    pub open spec fn with_state(self, state: StateView) -> AppView {
        AppView {
            state,
            jobs: Jobs { library_sync: false, ..self.jobs },
            browsing: BrowsingView {
                show_library_panel: state.ui.show_library_panel,
                show_profile_panel: state.ui.show_profile_panel,
                player_only_mode: state.ui.player_only_mode,
                ..self.browsing
            },
            ..self
        }
    }

    /// The application with the state of a backup, made valid, and playback stopped.
    pub open spec fn with_backup_imported(self, state: StateView, path: Seq<char>) -> AppView {
        self.stopped().with_state(state::valid_view(state)).with_repeat_restored().with_first_eligible_selected()
            .with_status("Imported app backup from "@ + path + "."@).with_error(None).saved()
    }
}

/// Puts the paths of the tracks at the end of a list.
fn append_paths(list: &mut Vec<String>, from: &Playlist)
    ensures
        text::texts(final(list)@) == text::texts(old(list)@) + paths_of(from@.tracks),
{
    let ghost start = text::texts(list@);
    let ghost all = paths_of(from@.tracks);
    let mut index: usize = 0;
    assert(start + all.take(0) =~= start);
    while index < from.tracks.len()
        invariant
            index <= from.tracks@.len(),
            all == paths_of(from@.tracks),
            text::texts(list@) == start + all.take(index as int),
        decreases from.tracks@.len() - index,
    {
        let ghost before = list@;
        assert(all[index as int] == from.tracks@[index as int].path@);
        list.push(from.tracks[index].path.clone());
        assert(text::texts(list@) =~= text::texts(before).push(all[index as int]));
        assert(start + all.take(index + 1) =~= (start + all.take(index as int)).push(
            all[index as int],
        ));
        index += 1;
    }
    assert(all.take(all.len() as int) =~= all);
}

/// The paths of the tracks of a playlist.
pub fn track_paths(from: &Playlist) -> (list: Vec<String>)
    ensures
        text::texts(list@) == paths_of(from@.tracks),
{
    let mut list: Vec<String> = Vec::new();
    append_paths(&mut list, from);
    assert(text::texts(list@) =~= paths_of(from@.tracks));
    list
}

/// The paths of the tracks of all playlists, without folder playlists where they are scanned.
fn collect_paths(playlists: &Vec<Playlist>, scans_folders: bool) -> (list: Vec<String>)
    ensures
        text::texts(list@) == paths_anywhere(
            playlist::playlist_views(playlists@),
            scans_folders,
        ),
{
    let ghost views = playlist::playlist_views(playlists@);
    let mut list: Vec<String> = Vec::new();
    let mut index: usize = 0;
    assert(views.take(0) =~= Seq::empty());
    assert(text::texts(list@) =~= Seq::empty());
    while index < playlists.len()
        invariant
            index <= playlists@.len(),
            views == playlist::playlist_views(playlists@),
            text::texts(list@) == paths_anywhere(views.take(index as int), scans_folders),
        decreases playlists@.len() - index,
    {
        assert(views.take(index + 1).drop_last() =~= views.take(index as int));
        assert(views.take(index + 1).last() == playlists@[index as int]@);
        if !(scans_folders && playlists[index].kind == PlaylistKind::Folder) {
            append_paths(&mut list, &playlists[index]);
        }
        index += 1;
    }
    assert(views.take(views.len() as int) =~= views);
    list
}

/// The folder playlists, to be synchronised.
fn collect_targets(playlists: &Vec<Playlist>) -> (targets: Vec<FolderLibrarySyncTarget>)
    ensures
        library_sync::target_views(targets@) == targets_below(
            playlist::playlist_views(playlists@),
            playlists@.len(),
        ),
{
    let ghost views = playlist::playlist_views(playlists@);
    let mut targets: Vec<FolderLibrarySyncTarget> = Vec::new();
    let mut index: usize = 0;
    assert(library_sync::target_views(targets@) =~= Seq::empty());
    while index < playlists.len()
        invariant
            index <= playlists@.len(),
            views == playlist::playlist_views(playlists@),
            library_sync::target_views(targets@) == targets_below(views, index as nat),
        decreases playlists@.len() - index,
    {
        assert(views[index as int] == playlists@[index as int]@);
        if playlists[index].kind == PlaylistKind::Folder {
            if let Some(folder) = &playlists[index].source_folder {
                let ghost before = targets@;
                let target = FolderLibrarySyncTarget {
                    playlist_index: index,
                    playlist_name: playlists[index].name.clone(),
                    source_folder: folder.clone(),
                };
                targets.push(target);
                assert(library_sync::target_views(targets@) =~= library_sync::target_views(
                    before,
                ).push(target@));
            }
        }
        index += 1;
    }
    targets
}

/// The folders of the targets.
fn collect_folders(targets: &Vec<FolderLibrarySyncTarget>) -> (folders: Vec<String>)
    ensures
        text::texts(folders@) == folders_of(library_sync::target_views(targets@)),
{
    let ghost all = folders_of(library_sync::target_views(targets@));
    let mut folders: Vec<String> = Vec::new();
    let mut index: usize = 0;
    assert(text::texts(folders@) =~= all.take(0));
    while index < targets.len()
        invariant
            index <= targets@.len(),
            all == folders_of(library_sync::target_views(targets@)),
            text::texts(folders@) == all.take(index as int),
        decreases targets@.len() - index,
    {
        let ghost before = folders@;
        assert(all[index as int] == targets@[index as int].source_folder@);
        folders.push(targets[index].source_folder.clone());
        assert(text::texts(folders@) =~= text::texts(before).push(all[index as int]));
        assert(all.take(index + 1) =~= all.take(index as int).push(all[index as int]));
        index += 1;
    }
    assert(all.take(all.len() as int) =~= all);
    folders
}

/// What is said after a check that the user has asked for.
fn manual_sync_text(stats: AppliedLibrarySyncStats) -> (status: String)
    ensures
        status@ == manual_sync_status(stats),
{
    let mut status = "Library synced: ".to_owned();
    status.append(text::decimal_text(stats.added as u64).as_str());
    status.append(" added, ");
    status.append(text::decimal_text(stats.restored as u64).as_str());
    status.append(" restored, ");
    status.append(text::decimal_text(stats.newly_missing as u64).as_str());
    status.append(" newly missing, ");
    status.append(text::decimal_text(stats.missing_total as u64).as_str());
    status.append(" missing total.");
    status
}

/// What is said after a check of its own accord that has changed something.
fn automatic_sync_text(stats: AppliedLibrarySyncStats) -> (status: String)
    ensures
        status@ == automatic_sync_status(stats),
{
    let mut status = "Library updated: ".to_owned();
    status.append(text::decimal_text(stats.added as u64).as_str());
    status.append(" added, ");
    status.append(text::decimal_text(stats.restored as u64).as_str());
    status.append(" restored, ");
    status.append(text::decimal_text(stats.newly_missing as u64).as_str());
    status.append(" newly missing.");
    status
}

/// What is said of folders that could not be listed.
fn sync_errors_text(errors: &Vec<String>) -> (error: Option<String>)
    ensures
        paths::text_of(error) == sync_errors(text::texts(errors@)),
{
    assert(text::texts(errors@).len() == errors@.len());
    if errors.len() == 0 {
        return None;
    }
    assert(text::texts(errors@)[0] == errors@[0]@);
    let mut error = String::new();
    if errors.len() == 1 {
        error.append("One folder could not be synced: ");
    } else {
        error.append(text::decimal_text(errors.len() as u64).as_str());
        error.append(" folders could not be synced. First error: ");
    }
    error.append(errors[0].as_str());
    assert(error@ =~= sync_errors(text::texts(errors@))->0);
    Some(error)
}

impl AudioOrbitApp {
    /// Sets the time of the last check.
    fn set_sync_at(&mut self, time: u64)
        ensures
            final(self)@ == old(self)@.with_sync_at(time),
    {
        self.jobs.last_library_sync_at = time;
        assert(self@ =~= old(self)@.with_sync_at(time));
    }

    /// Asks for the library to be checked; returns what has to be looked at.
    pub fn start_library_sync(
        &mut self,
        trigger: LibrarySyncTrigger,
        include_folder_scans: bool,
        now: u64,
        interval: u64,
    ) -> (request: Option<LibrarySyncRequest>)
        ensures
            request_view(request) == old(self)@.library_request(trigger, include_folder_scans),
            final(self)@ == old(self)@.with_sync_started(
                trigger,
                include_folder_scans,
                now,
                interval,
            ),
    {
        if self.jobs.folder_scan || self.jobs.library_sync {
            if trigger == LibrarySyncTrigger::Manual {
                self.fail("A library scan is already running.");
            }
            return None;
        }
        let ghost model = sync_request(self@.state.playlists, trigger, include_folder_scans);
        let files = file_operations::deduplicate_paths(
            collect_paths(&self.state.playlists, include_folder_scans),
        );
        let targets = if include_folder_scans {
            collect_targets(&self.state.playlists)
        } else {
            Vec::new()
        };
        proof {
            assert(self.state.playlists@.len() == self@.state.playlists.len());
            assert(library_sync::target_views(targets@) =~= model.targets);
            assert(text::texts(files@).len() == files@.len());
            assert(library_sync::target_views(targets@).len() == targets@.len());
        }
        if files.len() == 0 && targets.len() == 0 {
            if trigger == LibrarySyncTrigger::Startup
                && self.state.library.auto_sync_selected_playlist {
                self.set_sync_at(time_before(now, interval));
            } else {
                self.set_sync_at(now);
            }
            if trigger == LibrarySyncTrigger::Manual {
                self.set_status("Library has no tracks or folders to sync.".to_owned());
                self.set_error(None);
            }
            return None;
        }
        let folders = file_operations::deduplicate_paths(collect_folders(&targets));
        self.jobs.library_sync = true;
        self.set_sync_at(now);
        if trigger == LibrarySyncTrigger::Manual {
            self.set_status("Syncing library in background...".to_owned());
            self.set_error(None);
        }
        let request = LibrarySyncRequest { trigger, files, folders, targets };
        assert(request@ =~= model);
        Some(request)
    }

    /// Asks for the library to be checked where that is due; returns what has to be looked at.
    pub fn maybe_start_auto_library_sync(&mut self, now: u64, interval: u64) -> (request: Option<
        LibrarySyncRequest,
    >)
        ensures
            ({
                let due = old(self)@.auto_sync_is_due(now, interval);
                &&& request_view(request) == if due {
                    old(self)@.library_request(LibrarySyncTrigger::Automatic, true)
                } else {
                    None
                }
                &&& final(self)@ == if due {
                    old(self)@.with_sync_started(
                        LibrarySyncTrigger::Automatic,
                        true,
                        now,
                        interval,
                    )
                } else {
                    old(self)@
                }
            }),
    {
        if !self.state.library.auto_sync_selected_playlist || seeking::time_since(
            now,
            self.jobs.last_library_sync_at,
        ) < interval {
            return None;
        }
        self.start_library_sync(LibrarySyncTrigger::Automatic, true, now, interval)
    }

    /// Reports the outcome of a check.
    fn report_sync(
        &mut self,
        trigger: LibrarySyncTrigger,
        stats: AppliedLibrarySyncStats,
        errors: &Vec<String>,
        now: u64,
        interval: u64,
    )
        ensures
            final(self)@ == old(self)@.with_sync_reported(
                trigger,
                stats,
                text::texts(errors@),
                now,
                interval,
            ),
    {
        match trigger {
            LibrarySyncTrigger::Manual => {
                self.set_status(manual_sync_text(stats));
                self.set_error(sync_errors_text(errors));
            },
            LibrarySyncTrigger::Automatic => {
                if stats.changed() {
                    self.set_status(automatic_sync_text(stats));
                }
            },
            LibrarySyncTrigger::Startup => {
                if stats.newly_missing > 0 {
                    let mut status = "Library check found ".to_owned();
                    status.append(text::decimal_text(stats.missing_total as u64).as_str());
                    status.append(" missing track(s).");
                    self.set_status(status);
                }
                if self.state.library.auto_sync_selected_playlist {
                    self.set_sync_at(time_before(now, interval));
                }
            },
        }
    }

    /// Takes over a check of the library.
    fn apply_library_sync(
        &mut self,
        trigger: LibrarySyncTrigger,
        targets: &Vec<FolderLibrarySyncTarget>,
        listings: &Vec<FolderListing>,
        availability: &Vec<FileAvailability>,
        now: u64,
        interval: u64,
    )
        ensures
            final(self)@ == old(self)@.with_library_synced(
                trigger,
                library_sync::target_views(targets@),
                listings@,
                availability@,
                now,
                interval,
            ),
    {
        let ghost start = self@;
        let selected_path = self.selected_track_path();
        let result = library_sync::sync_library(
            &mut self.state.playlists,
            targets,
            listings,
            availability,
        );
        assert(self@ =~= start.with_playlists(self@.state.playlists));
        if result.0.changed() {
            self.remap_track_indexes_after_library_change(selected_path);
            self.save_state_silently();
        }
        self.report_sync(trigger, result.0, &result.1, now, interval);
    }

    /// Takes over how a check of the library has ended, where one is running.
    pub fn process_library_sync_events(
        &mut self,
        event: Option<LibrarySyncEvent>,
        now: u64,
        interval: u64,
    )
        ensures
            final(self)@ == match event {
                Some(event) => if old(self)@.jobs.library_sync {
                    old(self)@.with_sync_ended(event, now, interval)
                } else {
                    old(self)@
                },
                None => old(self)@,
            },
    {
        let event = match event {
            Some(event) => event,
            None => return,
        };
        if !self.jobs.library_sync {
            return;
        }
        self.jobs.library_sync = false;
        match event {
            LibrarySyncEvent::Found { trigger, targets, listings, availability } => {
                self.set_sync_at(now);
                self.apply_library_sync(
                    trigger,
                    &targets,
                    &listings,
                    &availability,
                    now,
                    interval,
                );
            },
            LibrarySyncEvent::Lost => {
                self.fail("Library sync stopped before returning a result.");
            },
        }
    }

    /// Takes note that a backup was written, or why it was not.
    pub fn export_app_backup(&mut self, path: &str, error: Option<String>)
        ensures
            final(self)@ == match error {
                Some(error) => old(self)@.with_error(Some(error@)),
                None => old(self)@.with_status(
                    "Exported app backup to "@ + path@ + "."@,
                ).with_error(None),
            },
    {
        match error {
            Some(error) => self.set_error(Some(error)),
            None => {
                let mut status = "Exported app backup to ".to_owned();
                status.append(path);
                status.append(".");
                self.set_status(status);
                self.set_error(None);
            },
        }
    }

    /// Shows the panels, or hides them.
    fn show_panels(&mut self, library: bool, profiles: bool, player_only: bool)
        ensures
            final(self)@ == (AppView {
                browsing: BrowsingView {
                    show_library_panel: library,
                    show_profile_panel: profiles,
                    player_only_mode: player_only,
                    ..old(self)@.browsing
                },
                ..old(self)@
            }),
    {
        self.browsing.show_library_panel = library;
        self.browsing.show_profile_panel = profiles;
        self.browsing.player_only_mode = player_only;
    }

    /// Takes another state.
    fn put_state(&mut self, state: SavedState)
        ensures
            final(self)@ == (AppView { state: state@, ..old(self)@ }),
    {
        self.state = state;
    }

    /// Forgets a check of the library that is running.
    fn end_library_sync(&mut self)
        ensures
            final(self)@ == (AppView {
                jobs: Jobs { library_sync: false, ..old(self)@.jobs },
                ..old(self)@
            }),
    {
        self.jobs.library_sync = false;
    }

    /// Takes another state, and shows the panels that it shows.
    fn replace_state(&mut self, state: SavedState)
        ensures
            final(self)@ == old(self)@.with_state(state@),
    {
        let library: bool = state.ui.show_library_panel;
        let profiles: bool = state.ui.show_profile_panel;
        let player_only: bool = state.ui.player_only_mode;
        self.put_state(state);
        self.end_library_sync();
        self.show_panels(library, profiles, player_only);
    }

    /// Takes over the state of a backup, or says why it could not be read; returns what has to
    /// be looked at to check the new library.
    pub fn import_app_backup(
        &mut self,
        path: &str,
        backup: Result<SavedState, String>,
        now: u64,
        interval: u64,
    ) -> (request: Option<LibrarySyncRequest>)
        ensures
            match backup {
                Ok(state) => {
                    let imported = old(self)@.with_backup_imported(state@, path@);
                    &&& final(self)@ == imported.with_sync_started(
                        LibrarySyncTrigger::Startup,
                        false,
                        now,
                        interval,
                    )
                    &&& request_view(request) == imported.library_request(
                        LibrarySyncTrigger::Startup,
                        false,
                    )
                },
                Err(error) => final(self)@ == old(self)@.with_error(Some(error@)) && request
                    is None,
            },
    {
        let state = match backup {
            Ok(state) => {
                let mut state = state;
                state::ensure_state_is_valid(&mut state);
                state
            },
            Err(error) => {
                self.set_error(Some(error));
                return None;
            },
        };
        self.stop();
        self.replace_state(state);
        self.restore_repeat_selection_for_current_playlist();
        self.select_first_eligible_track();
        let mut status = "Imported app backup from ".to_owned();
        status.append(path);
        status.append(".");
        self.set_status(status);
        self.set_error(None);
        self.save_state_silently();
        self.start_library_sync(LibrarySyncTrigger::Startup, false, now, interval)
    }
}

} // verus!
