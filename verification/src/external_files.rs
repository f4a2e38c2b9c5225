//! Files that are opened from outside the library, for this run only.

use crate::app::{AppView, AudioOrbitApp, BrowsingView, MainContentTab, PlayerStatus};
use crate::app;
use crate::counting;
use crate::lookup;
use crate::paths;
use crate::playlist;
use crate::playlist::{Playlist, PlaylistKind, PlaylistView};
use crate::state;
use crate::text;
use crate::track;
use crate::track::{AudioFile, AudioFileView};
use vstd::prelude::*;
use vstd::string::*;

verus! {

/// A path that was opened, and whether a file is there.
#[derive(Debug)]
pub struct OpenedPath {
    pub file: AudioFile,
    pub is_file: bool,
}

/// The models of paths that were opened.
pub open spec fn opened_views(opened: Seq<OpenedPath>) -> Seq<(AudioFileView, bool)> {
    opened.map_values(|path: OpenedPath| (path.file@, path.is_file))
}

/// The condition that a file of the list has the key of a path.
pub open spec fn lists_file(files: Seq<AudioFileView>, path: Seq<char>) -> bool {
    exists|i: int| 0 <= i < files.len() && paths::same_key(#[trigger] files[i].path, path)
}

/// The audio files among the paths, each once.
pub open spec fn playable_files(opened: Seq<(AudioFileView, bool)>) -> Seq<AudioFileView>
    decreases opened.len(),
{
    if opened.len() == 0 {
        Seq::empty()
    } else {
        let before = playable_files(opened.drop_last());
        let last = opened.last();
        if last.1 && paths::is_audio_path(last.0.path) && !lists_file(before, last.0.path) {
            before.push(last.0)
        } else {
            before
        }
    }
}

/// Whether a file of the list has the key of a path.
fn list_has_file(files: &Vec<AudioFile>, path: &str) -> (found: bool)
    ensures
        found == lists_file(track::file_views(files@), path@),
{
    let ghost views = track::file_views(files@);
    let mut index: usize = 0;
    while index < files.len()
        invariant
            index <= files@.len(),
            views == track::file_views(files@),
            forall|i: int| 0 <= i < index ==> !paths::same_key(#[trigger] views[i].path, path@),
        decreases files@.len() - index,
    {
        assert(views[index as int] == files@[index as int]@);
        if paths::same_path(files[index].path.as_str(), path) {
            assert(paths::same_key(views[index as int].path, path@));
            return true;
        }
        index += 1;
    }
    false
}

/// The audio files among the paths, each once.
pub fn keep_playable(opened: Vec<OpenedPath>) -> (files: Vec<AudioFile>)
    ensures
        track::file_views(files@) == playable_files(opened_views(opened@)),
{
    let ghost all = opened_views(opened@);
    let mut files: Vec<AudioFile> = Vec::new();
    assert(all.take(0) =~= Seq::empty());
    assert(track::file_views(files@) =~= Seq::empty());
    for path in iter: opened
        invariant
            all == opened_views(iter.seq()),
            track::file_views(files@) == playable_files(all.take(iter.index())),
    {
        let ghost before = files@;
        assert(all.take(iter.index() + 1).drop_last() =~= all.take(iter.index()));
        assert(all.take(iter.index() + 1).last() == (path.file@, path.is_file));
        if path.is_file && paths::is_supported_audio_file(path.file.path.as_str())
            && !list_has_file(&files, path.file.path.as_str()) {
            files.push(path.file);
            assert(track::file_views(files@) =~= track::file_views(before).push(path.file@));
        }
    }
    assert(all.take(all.len() as int) =~= all);
    files
}

/// No two of the files have the same key.
pub proof fn playable_files_differ(opened: Seq<(AudioFileView, bool)>, i: int, j: int)
    requires
        0 <= i < j < playable_files(opened).len(),
    ensures
        !paths::same_key(playable_files(opened)[i].path, playable_files(opened)[j].path),
    decreases opened.len(),
{
    let before = playable_files(opened.drop_last());
    if j < before.len() {
        playable_files_differ(opened.drop_last(), i, j);
    } else {
        let last = opened.last().0;
        assert(!lists_file(before, last.path));
        if paths::same_key(before[i].path, last.path) {
            assert(lists_file(before, last.path));
        }
    }
}

/// What is said of files that were opened.
pub open spec fn opened_status(files: Seq<AudioFileView>) -> Seq<char> {
    if files.len() == 1 {
        "Opened "@ + paths::display_name(files[0].path) + " in temporary playback."@
    } else {
        "Opened "@ + text::decimal(files.len()) + " files in temporary playback."@
    }
}

/// What is said of files that were opened.
fn opened_status_text(files: &Vec<AudioFile>) -> (status: String)
    requires
        files@.len() > 0,
    ensures
        status@ == opened_status(track::file_views(files@)),
{
    let ghost all = track::file_views(files@);
    assert(all.len() == files@.len());
    assert(all[0] == files@[0]@);
    let mut status = "Opened ".to_owned();
    if files.len() == 1 {
        status.append(paths::display_file_name(files[0].path.as_str()).as_str());
        status.append(" in temporary playback.");
    } else {
        status.append(text::decimal_text(files.len() as u64).as_str());
        status.append(" files in temporary playback.");
    }
    assert(status@ =~= opened_status(all));
    status
}

/// The player once it has been stopped.
pub open spec fn after_stop(status: PlayerStatus) -> PlayerStatus {
    PlayerStatus { available: status.available, ..app::stopped_player() }
}

impl AppView {
    /// Where the playlist for temporary playback stands, or will stand once it is made.
    pub open spec fn temporary_index(self) -> usize {
        match state::first_of_kind(self.state.playlists, PlaylistKind::Temporary) {
            Some(index) => index,
            None => self.state.playlists.len() as usize,
        }
    }

    /// The application with a playlist for temporary playback.
    pub open spec fn with_temporary_playlist(self) -> AppView {
        if state::first_of_kind(self.state.playlists, PlaylistKind::Temporary) is Some {
            self
        } else {
            self.with_playlists(
                self.state.playlists.push(
                    playlist::empty_playlist(
                        playlist::TEMPORARY_PLAYLIST_NAME@,
                        0,
                        PlaylistKind::Temporary,
                    ),
                ),
            )
        }
    }

    /// The application with files in the playlist for temporary playback.
    pub open spec fn with_temporary_tracks(self, files: Seq<AudioFileView>) -> AppView {
        let ready = self.with_temporary_playlist();
        let index = self.temporary_index();
        let list = ready.state.playlists[index as int];
        ready.with_playlists(
            ready.state.playlists.update(
                index as int,
                PlaylistView {
                    tracks: playlist::with_temporary_files(list.tracks, files).0,
                    ..list
                },
            ),
        )
    }

    /// The application with a tab shown.
    pub open spec fn with_tab(self, tab: MainContentTab) -> AppView {
        AppView { browsing: BrowsingView { active_tab: tab, ..self.browsing }, ..self }
    }

    /// The application with a track selected and its path scrolled to.
    pub open spec fn with_scroll_to(self, position: Option<usize>, path: Seq<char>) -> AppView {
        AppView {
            selected_track_index: position,
            browsing: BrowsingView {
                scroll_to_track_path_requested: Some(path),
                ..self.browsing
            },
            ..self
        }
    }

    /// The application with files opened for temporary playback and shown.
    pub open spec fn with_files_shown(self, files: Seq<AudioFileView>) -> AppView {
        let first = files[0].path;
        let index = self.temporary_index();
        let added = self.with_temporary_tracks(files);
        added.with_tab(MainContentTab::Music).with_playlist_selected(index).with_scroll_to(
            lookup::position_of_path(added.state.playlists[index as int].tracks, first),
            first,
        ).with_status(opened_status(files)).with_error(None)
    }

    /// The application with files opened for temporary playback; the first of them is played
    /// where that is asked for.
    pub open spec fn with_files_opened(
        self,
        files: Seq<AudioFileView>,
        autoplay: bool,
        status: PlayerStatus,
    ) -> AppView {
        if files.len() == 0 {
            self.with_error(Some("No supported audio files were opened."@))
        } else if autoplay {
            let shown = self.stopped().with_files_shown(files);
            shown.with_path_requested(
                files[0].path,
                shown.selected_track_index,
                0,
                after_stop(status),
            )
        } else {
            self.with_files_shown(files)
        }
    }
}

impl AudioOrbitApp {
    /// Where the playlist for temporary playback stands; it is made where there is none.
    pub fn temporary_playlist_index(&mut self) -> (index: usize)
        ensures
            index == old(self)@.temporary_index(),
            index < final(self)@.state.playlists.len(),
            final(self)@.state.playlists[index as int].kind == PlaylistKind::Temporary,
            final(self)@ == old(self)@.with_temporary_playlist(),
    {
        let ghost start = self@;
        proof {
            let lists = start.state.playlists;
            assert(self.state.playlists.len() == lists.len());
            counting::first_where_holds(
                lists.len(),
                |i: int| lists[i].kind == PlaylistKind::Temporary,
            );
        }
        if let Some(index) = state::position_of_kind(
            &self.state.playlists,
            PlaylistKind::Temporary,
        ) {
            return index;
        }
        let index: usize = self.state.playlists.len();
        let ghost before = self.state.playlists@;
        let list = Playlist::temporary();
        self.state.playlists.push(list);
        assert(playlist::playlist_views(self.state.playlists@) =~= playlist::playlist_views(
            before,
        ).push(list@));
        assert(self@ =~= start.with_temporary_playlist());
        index
    }

    /// Puts files into the playlist for temporary playback; returns where it stands, and where
    /// the given path stands in it.
    fn add_temporary_tracks(&mut self, files: Vec<AudioFile>, first: &str) -> (place: (
        usize,
        Option<usize>,
    ))
        ensures
            final(self)@ == old(self)@.with_temporary_tracks(track::file_views(files@)),
            place.0 == old(self)@.temporary_index(),
            place.0 < final(self)@.state.playlists.len(),
            place.1 == lookup::position_of_path(
                final(self)@.state.playlists[place.0 as int].tracks,
                first@,
            ),
    {
        let ghost start = self@;
        let index: usize = self.temporary_playlist_index();
        let ghost ready = self@;
        let ghost before = self.state.playlists@;
        let ghost list = ready.state.playlists[index as int];
        assert(list == before[index as int]@);
        self.state.playlists[index].add_temporary_files(files);
        proof {
            assert(playlist::playlist_views(self.state.playlists@)
                =~= ready.state.playlists.update(
                index as int,
                PlaylistView {
                    tracks: playlist::with_temporary_files(
                        list.tracks,
                        track::file_views(files@),
                    ).0,
                    ..list
                },
            ));
            assert(self@ =~= start.with_temporary_tracks(track::file_views(files@)));
            assert(self@.state.playlists[index as int] == self.state.playlists@[index as int]@);
        }
        let position = lookup::find_path(&self.state.playlists[index].tracks, first);
        (index, position)
    }

    /// Shows a tab.
    pub(crate) fn show_tab(&mut self, tab: MainContentTab)
        ensures
            final(self)@ == old(self)@.with_tab(tab),
    {
        self.browsing.active_tab = tab;
    }

    /// Selects a track and scrolls to its path.
    fn select_and_scroll_to(&mut self, position: Option<usize>, path: String)
        ensures
            final(self)@ == old(self)@.with_scroll_to(position, path@),
    {
        self.selected_track_index = position;
        self.browsing.scroll_to_track_path_requested = Some(path);
    }

    /// Shows files that were opened for temporary playback.
    fn show_opened_files(&mut self, files: Vec<AudioFile>)
        requires
            files@.len() > 0,
        ensures
            final(self)@ == old(self)@.with_files_shown(track::file_views(files@)),
    {
        let ghost all = track::file_views(files@);
        assert(all.len() == files@.len());
        assert(all[0] == files@[0]@);
        let first = files[0].path.clone();
        let status = opened_status_text(&files);
        let (index, position) = self.add_temporary_tracks(files, first.as_str());
        self.show_tab(MainContentTab::Music);
        self.select_playlist(index);
        self.select_and_scroll_to(position, first);
        self.set_status(status);
        self.set_error(None);
    }

    /// Opens files for temporary playback, and plays the first of them where that is asked
    /// for.
    pub fn open_audio_files_in_temporary_playlist(
        &mut self,
        opened: Vec<OpenedPath>,
        autoplay: bool,
        status: PlayerStatus,
    )
        ensures
            final(self)@ == old(self)@.with_files_opened(
                playable_files(opened_views(opened@)),
                autoplay,
                status,
            ),
    {
        let files = keep_playable(opened);
        let ghost all = track::file_views(files@);
        assert(all.len() == files@.len());
        if files.len() == 0 {
            self.fail("No supported audio files were opened.");
            return;
        }
        assert(all[0] == files@[0]@);
        let first = files[0].path.clone();
        if autoplay {
            self.stop();
        }
        self.show_opened_files(files);
        if autoplay {
            let stopped = PlayerStatus {
                available: status.available,
                playing: false,
                paused: false,
                finished: false,
                recording: false,
            };
            let track_index = self.selected_track_index;
            self.play_path(first, track_index, 0, stopped);
        }
    }
}

} // verus!
