//! Which tracks are in which playlists.

use crate::app::{AppView, AudioOrbitApp};
use crate::counting;
use crate::file_operations;
use crate::grouping;
use crate::lookup;
use crate::paths;
use crate::playlist;
use crate::playlist::{Playlist, PlaylistKind, PlaylistView};
use crate::session;
use crate::state;
use crate::text;
use crate::track;
use crate::track::{AudioFile, AudioFileView, Track, TrackView};
use vstd::prelude::*;
use vstd::string::*;

verus! {

// ---------------------------------------------------------------------------
// Leaving tracks out by path
// ---------------------------------------------------------------------------

/// The condition that a track has the key of none of the paths.
pub open spec fn has_no_path_of(removed: Seq<Seq<char>>) -> spec_fn(TrackView) -> bool {
    |track: TrackView| !file_operations::lists_path(removed, track.path)
}

/// The condition that a path has the key of none of the paths.
pub open spec fn is_no_path_of(removed: Seq<Seq<char>>) -> spec_fn(Seq<char>) -> bool {
    |path: Seq<char>| !file_operations::lists_path(removed, path)
}

/// Takes the tracks out that have the key of one of the paths.
fn drop_tracks(tracks: &mut Vec<Track>, removed: &Vec<String>)
    ensures
        track::track_views(final(tracks)@) == track::track_views(old(tracks)@).filter(
            has_no_path_of(text::texts(removed@)),
        ),
{
    let ghost all = track::track_views(tracks@);
    let ghost keep = has_no_path_of(text::texts(removed@));
    let mut items: Vec<Track> = Vec::new();
    std::mem::swap(&mut items, tracks);
    let mut kept: Vec<Track> = Vec::new();
    proof {
        grouping::filter_all_or_none(all.take(0), keep);
        assert(all.take(0).filter(keep) =~= Seq::empty());
        assert(track::track_views(kept@) =~= Seq::empty());
    }
    for item in iter: items
        invariant
            all == track::track_views(iter.seq()),
            keep == has_no_path_of(text::texts(removed@)),
            track::track_views(kept@) == all.take(iter.index()).filter(keep),
    {
        proof {
            grouping::filter_next(all, keep, iter.index());
            assert(all[iter.index()] == item@);
        }
        if !file_operations::list_has_path(removed, item.path.as_str()) {
            let ghost before = kept@;
            kept.push(item);
            assert(track::track_views(kept@) =~= track::track_views(before).push(item@));
        }
    }
    assert(all.take(all.len() as int) =~= all);
    *tracks = kept;
}

/// Takes the paths out that have the key of one of the others.
fn drop_paths(list: &mut Vec<String>, removed: &Vec<String>)
    ensures
        text::texts(final(list)@) == text::texts(old(list)@).filter(
            is_no_path_of(text::texts(removed@)),
        ),
{
    let ghost all = text::texts(list@);
    let ghost keep = is_no_path_of(text::texts(removed@));
    let mut items: Vec<String> = Vec::new();
    std::mem::swap(&mut items, list);
    let mut kept: Vec<String> = Vec::new();
    proof {
        grouping::filter_all_or_none(all.take(0), keep);
        assert(all.take(0).filter(keep) =~= Seq::empty());
        assert(text::texts(kept@) =~= Seq::empty());
    }
    for item in iter: items
        invariant
            all == text::texts(iter.seq()),
            keep == is_no_path_of(text::texts(removed@)),
            text::texts(kept@) == all.take(iter.index()).filter(keep),
    {
        proof {
            grouping::filter_next(all, keep, iter.index());
            assert(all[iter.index()] == item@);
        }
        if !file_operations::list_has_path(removed, item.as_str()) {
            let ghost before = kept@;
            kept.push(item);
            assert(text::texts(kept@) =~= text::texts(before).push(item@));
        }
    }
    assert(all.take(all.len() as int) =~= all);
    *list = kept;
}

// ---------------------------------------------------------------------------
// Favorites
// ---------------------------------------------------------------------------

impl AppView {
    /// Where the favorites stand.
    pub open spec fn favorites(self) -> Option<usize> {
        state::first_of_kind(self.state.playlists, PlaylistKind::Favorites)
    }

    /// Whether a path is among the favorites.
    pub open spec fn has_favorite(self, path: Seq<char>) -> bool {
        match self.favorites() {
            Some(index) => playlist::has_path(self.state.playlists[index as int].tracks, path),
            None => false,
        }
    }

    /// Where the playing track stands in the given list.
    pub open spec fn playing_position(self, tracks: Seq<TrackView>) -> Option<usize> {
        match self.active_track_path {
            Some(path) => lookup::position_of_path(tracks, path),
            None => None,
        }
    }

    /// Where the playing track stands in the playlist that it is played from.
    pub open spec fn playing_position_anywhere(self) -> Option<usize> {
        match self.active_playlist_index {
            Some(index) => if index < self.state.playlists.len() {
                self.playing_position(self.state.playlists[index as int].tracks)
            } else {
                None
            },
            None => None,
        }
    }

    /// The favorites with a file put in or taken out.
    pub open spec fn toggled_favorites(self, index: usize, file: AudioFileView) -> PlaylistView {
        let list = self.state.playlists[index as int];
        if self.has_favorite(file.path) {
            PlaylistView { tracks: list.tracks.filter(has_no_path_of(seq![file.path])), ..list }
        } else {
            list.with_file(file, None, 0)
        }
    }

    /// The application with a file put into the favorites or taken out. Where the favorites
    /// are shown, the selected track stays selected as far as it can; where they are played,
    /// the playing track is found again.
    pub open spec fn with_favorite_toggled(self, file: AudioFileView) -> AppView {
        match self.favorites() {
            Some(index) => {
                let list = self.toggled_favorites(index, file);
                let changed = self.with_playlists(
                    self.state.playlists.update(index as int, list),
                ).with_status(
                    if self.has_favorite(file.path) {
                        "Removed from Favorites."@
                    } else {
                        "Added to Favorites."@
                    },
                );
                let selected = if self.state.selected_playlist_index == index {
                    (AppView {
                        selected_track_index: session::either(
                            match self.selected_path() {
                                Some(path) => lookup::position_of_path(list.tracks, path),
                                None => None,
                            },
                            lookup::next_valid(
                                match self.selected_track_index {
                                    Some(at) => at,
                                    None => 0,
                                },
                                list.tracks.len(),
                            ),
                        ),
                        ..changed.without_multi_selection()
                    }).with_visible_selection()
                } else {
                    changed
                };
                (AppView {
                    active_track_index: if self.active_playlist_index == Some(index) {
                        self.playing_position(list.tracks)
                    } else {
                        self.active_track_index
                    },
                    ..selected
                }).saved()
            },
            None => self,
        }
    }
}

impl AudioOrbitApp {
    /// Where the favorites stand.
    pub fn favorites_index(&self) -> (index: Option<usize>)
        ensures
            index == self@.favorites(),
            index matches Some(at) ==> at < self.state.playlists@.len(),
    {
        proof {
            assert(self.state.playlists.len() == self@.state.playlists.len());
            let lists = self@.state.playlists;
            counting::first_where_holds(
                lists.len(),
                |i: int| lists[i].kind == PlaylistKind::Favorites,
            );
        }
        state::position_of_kind(&self.state.playlists, PlaylistKind::Favorites)
    }

    /// Whether a path is among the favorites.
    pub fn is_favorite(&self, path: &str) -> (favorite: bool)
        ensures
            favorite == self@.has_favorite(path@),
    {
        match self.favorites_index() {
            Some(index) => {
                assert(self@.state.playlists[index as int]
                    == self.state.playlists@[index as int]@);
                self.state.playlists[index].contains_path(path)
            },
            None => false,
        }
    }

    /// Where the playing track stands in the given list.
    fn find_playing(&self, tracks: &Vec<Track>) -> (position: Option<usize>)
        ensures
            position == self@.playing_position(track::track_views(tracks@)),
    {
        match &self.active_track_path {
            Some(path) => lookup::find_path(tracks, path.as_str()),
            None => None,
        }
    }

    /// Where the playing track stands in the playlist that it is played from.
    pub fn find_playing_anywhere(&self) -> (position: Option<usize>)
        ensures
            position == self@.playing_position_anywhere(),
    {
        match self.active_playlist_index {
            Some(index) => if index < self.state.playlists.len() {
                assert(self@.state.playlists[index as int]
                    == self.state.playlists@[index as int]@);
                self.find_playing(&self.state.playlists[index].tracks)
            } else {
                None
            },
            None => None,
        }
    }

    /// Puts a file into the favorites or takes it out.
    pub fn toggle_favorite(&mut self, file: AudioFile)
        ensures
            final(self)@ == old(self)@.with_favorite_toggled(file@),
    {
        let index: usize = match self.favorites_index() {
            Some(index) => index,
            None => return,
        };
        let ghost start = self@;
        let ghost path = file.path@;
        let shown = self.state.selected_playlist_index == index;
        let selected_path = if shown {
            self.selected_track_path()
        } else {
            None
        };
        let selected_index: usize = match self.selected_track_index {
            Some(at) => at,
            None => 0,
        };
        let was_favorite = self.is_favorite(file.path.as_str());
        let ghost before = self.state.playlists@;
        assert(start.state.playlists[index as int] == before[index as int]@);
        if was_favorite {
            let mut removed: Vec<String> = Vec::new();
            removed.push(file.path);
            assert(text::texts(removed@) =~= seq![path]);
            drop_tracks(&mut self.state.playlists[index].tracks, &removed);
            assert(playlist::playlist_views(self.state.playlists@) =~= start.state.playlists.update(
                index as int,
                start.toggled_favorites(index, file@),
            ));
            self.set_status("Removed from Favorites.".to_owned());
        } else {
            self.state.playlists[index].add_track_path(file, None, 0);
            assert(playlist::playlist_views(self.state.playlists@) =~= start.state.playlists.update(
                index as int,
                start.toggled_favorites(index, file@),
            ));
            self.set_status("Added to Favorites.".to_owned());
        }
        let ghost list = start.toggled_favorites(index, file@);
        let playing = self.find_playing(&self.state.playlists[index].tracks);
        assert(self.state.playlists@[index as int]@ == self@.state.playlists[index as int]);
        assert(self@.state.playlists[index as int] == list);
        if shown {
            let mut selected: Option<usize> = match &selected_path {
                Some(path) => lookup::find_path(
                    &self.state.playlists[index].tracks,
                    path.as_str(),
                ),
                None => None,
            };
            if selected.is_none() {
                assert(list.tracks.len() == self.state.playlists@[index as int].tracks@.len());
                selected = lookup::next_valid_track_index(
                    selected_index,
                    self.state.playlists[index].tracks.len(),
                );
            }
            self.clear_multi_track_selection();
            self.selected_track_index = selected;
            self.ensure_selected_track_visible();
        }
        if self.active_playlist_index == Some(index) {
            self.active_track_index = playing;
        }
        self.save_state_silently();
    }
}

// ---------------------------------------------------------------------------
// Adding tracks
// ---------------------------------------------------------------------------

/// What is said after tracks were added to a playlist.
pub open spec fn added_status(name: Seq<char>, added: nat, requested: nat) -> Seq<char> {
    if added == 0 {
        "Selected track(s) are already in "@ + name + "."@
    } else if requested == 1 {
        "Added track to "@ + name + "."@
    } else {
        "Added "@ + text::decimal(added) + " of "@ + text::decimal(requested)
            + " selected track(s) to "@ + name + "."@
    }
}

/// What is said after tracks were added to a playlist.
fn added_status_text(name: &str, added: usize, requested: usize) -> (status: String)
    ensures
        status@ == added_status(name@, added as nat, requested as nat),
{
    let mut status = String::new();
    if added == 0 {
        status.append("Selected track(s) are already in ");
    } else if requested == 1 {
        status.append("Added track to ");
    } else {
        status.append("Added ");
        status.append(text::decimal_text(added as u64).as_str());
        status.append(" of ");
        status.append(text::decimal_text(requested as u64).as_str());
        status.append(" selected track(s) to ");
    }
    status.append(name);
    status.append(".");
    assert(status@ =~= added_status(name@, added as nat, requested as nat));
    status
}

impl AppView {
    /// The application with files added to a playlist, where it takes them.
    pub open spec fn with_tracks_added(self, files: Seq<AudioFileView>, index: usize) -> AppView {
        if index >= self.state.playlists.len() {
            self
        } else {
            let list = self.state.playlists[index as int];
            let result = list.with_files(files, None, 0);
            if !list.kind.takes_manual_tracks() {
                self.with_error(
                    Some("This playlist is read-only and cannot receive manual tracks."@),
                )
            } else {
                let changed = self.with_playlists(
                    self.state.playlists.update(index as int, result.0),
                ).with_status(added_status(list.name, result.1.len(), files.len()));
                (AppView {
                    active_track_index: if result.1.len() > 0 && self.active_playlist_index
                        == Some(index) {
                        self.playing_position(result.0.tracks)
                    } else {
                        self.active_track_index
                    },
                    ..changed
                }).saved()
            }
        }
    }

    /// The application without a track of the shown playlist, where a user may remove it.
    pub open spec fn with_track_removed(self, index: usize) -> AppView {
        match self.current() {
            Some(shown) => if shown.kind != PlaylistKind::Folder && shown.kind
                != PlaylistKind::Temporary && index < shown.tracks.len() {
                (AppView {
                    selected_track_index: lookup::next_valid(
                        index,
                        (shown.tracks.len() - 1) as nat,
                    ),
                    ..self.with_current(
                        PlaylistView { tracks: shown.tracks.remove(index as int), ..shown },
                    )
                }).without_multi_selection().saved()
            } else {
                self.with_error(Some("This playlist is read-only."@))
            },
            None => self.with_error(Some("This playlist is read-only."@)),
        }
    }

    /// The shown playlist without a missing track: it is no longer repeated either, and a
    /// group that is gone is no longer selected.
    pub open spec fn without_missing(self, index: usize, path: Seq<char>) -> PlaylistView {
        let shown = self.current()->0;
        (PlaylistView {
            tracks: shown.tracks.remove(index as int),
            repeat_selection: shown.repeat_selection.filter(is_no_path_of(seq![path])),
            ..shown
        }).with_valid_group()
    }

    /// The application without an entry of the shown playlist whose file is missing.
    pub open spec fn with_entry_dropped(self, index: usize, path: Seq<char>) -> AppView {
        let list = self.without_missing(index, path);
        let changed = (AppView {
            selected_track_index: lookup::next_valid(index, list.tracks.len()),
            ..self.with_current(list)
        }).without_multi_selection();
        (AppView {
            active_track_index: changed.playing_position_anywhere(),
            ..changed
        }).with_repeat_restored()
    }

    /// The application without a missing track of the shown playlist. Where it is played,
    /// playback stops.
    pub open spec fn with_missing_track_removed(self, index: usize) -> AppView {
        if self.has_track(index) && self.current()->0.tracks[index as int].missing {
            let path = self.current()->0.tracks[index as int].path;
            self.without_playback_of(path).with_entry_dropped(index, path).with_status(
                "Removed missing entry "@ + paths::display_name(path) + "."@,
            ).with_error(None).saved()
        } else {
            self.with_error(Some("Track is no longer marked as missing."@))
        }
    }
}

impl AudioOrbitApp {
    /// Adds files to a playlist, where it takes them.
    pub fn add_tracks_to_playlist(&mut self, files: Vec<AudioFile>, playlist_index: usize)
        ensures
            final(self)@ == old(self)@.with_tracks_added(
                track::file_views(files@),
                playlist_index,
            ),
    {
        if playlist_index >= self.state.playlists.len() {
            return;
        }
        let ghost start = self@;
        let ghost all = track::file_views(files@);
        let ghost list = start.state.playlists[playlist_index as int];
        assert(list == self.state.playlists@[playlist_index as int]@);
        if !self.state.playlists[playlist_index].accepts_manual_tracks() {
            self.fail("This playlist is read-only and cannot receive manual tracks.");
            return;
        }
        let name = self.state.playlists[playlist_index].name.clone();
        let requested: usize = files.len();
        assert(all.len() == requested);
        let added = self.state.playlists[playlist_index].add_files_below(files, None, 0);
        let ghost result = list.with_files(all, None, 0);
        assert(playlist::playlist_views(self.state.playlists@) =~= start.state.playlists.update(
            playlist_index as int,
            result.0,
        ));
        assert(text::texts(added@).len() == added.len());
        self.set_status(added_status_text(name.as_str(), added.len(), requested));
        if added.len() > 0 && self.active_playlist_index == Some(playlist_index) {
            assert(self.state.playlists@[playlist_index as int]@
                == self@.state.playlists[playlist_index as int]);
            let playing = self.find_playing(&self.state.playlists[playlist_index].tracks);
            self.active_track_index = playing;
        }
        self.save_state_silently();
    }

    /// Removes a track of the shown playlist, where a user may remove it.
    pub fn remove_track_from_current_playlist(&mut self, track_index: usize)
        ensures
            final(self)@ == old(self)@.with_track_removed(track_index),
    {
        let index: usize = self.state.selected_playlist_index;
        let ghost start = self@;
        if index >= self.state.playlists.len() {
            self.fail("This playlist is read-only.");
            return;
        }
        let ghost before = self.state.playlists@;
        assert(start.state.playlists[index as int] == before[index as int]@);
        let kind = self.state.playlists[index].kind;
        if kind == PlaylistKind::Folder || kind == PlaylistKind::Temporary || track_index
            >= self.state.playlists[index].tracks.len() {
            self.fail("This playlist is read-only.");
            return;
        }
        self.state.playlists[index].tracks.remove(track_index);
        let remaining: usize = self.state.playlists[index].tracks.len();
        proof {
            let shown = start.current()->0;
            assert(self.state.playlists@[index as int]@.tracks =~= shown.tracks.remove(
                track_index as int,
            ));
            assert(playlist::playlist_views(self.state.playlists@) =~= start.state.playlists.update(
                index as int,
                PlaylistView { tracks: shown.tracks.remove(track_index as int), ..shown },
            ));
        }
        self.selected_track_index = lookup::next_valid_track_index(track_index, remaining);
        self.clear_multi_track_selection();
        self.save_state_silently();
    }

    /// The path of a track of the shown playlist whose file is missing.
    fn missing_path_at(&self, track_index: usize) -> (path: Option<String>)
        ensures
            paths::text_of(path) == (if self@.has_track(track_index)
                && self@.current()->0.tracks[track_index as int].missing {
                Some(self@.current()->0.tracks[track_index as int].path)
            } else {
                None
            }),
    {
        if let Some(shown) = self.current_playlist() {
            assert(shown@.tracks.len() == shown.tracks.len());
            if track_index < shown.tracks.len() {
                assert(shown@.tracks[track_index as int] == shown.tracks@[track_index as int]@);
                if shown.tracks[track_index].missing {
                    return Some(shown.tracks[track_index].path.clone());
                }
            }
        }
        None
    }

    /// Drops an entry of the shown playlist whose file is missing.
    fn drop_entry(&mut self, track_index: usize, path: &str)
        requires
            old(self)@.has_track(track_index),
        ensures
            final(self)@ == old(self)@.with_entry_dropped(track_index, path@),
    {
        let index: usize = self.state.selected_playlist_index;
        let ghost start = self@;
        let ghost before = self.state.playlists@;
        assert(start.state.playlists[index as int] == before[index as int]@);
        let mut removed: Vec<String> = Vec::new();
        removed.push(path.to_owned());
        assert(text::texts(removed@) =~= seq![path@]);
        self.drop_missing_track(index, track_index, &removed);
        let remaining: usize = self.state.playlists[index].tracks.len();
        assert(self.state.playlists@[index as int]@ == self@.state.playlists[index as int]);
        self.selected_track_index = lookup::next_valid_track_index(track_index, remaining);
        self.clear_multi_track_selection();
        self.active_track_index = self.find_playing_anywhere();
        self.restore_repeat_selection_for_current_playlist();
    }

    /// Removes a missing track of the shown playlist.
    pub fn remove_missing_track_from_current_playlist(&mut self, track_index: usize)
        ensures
            final(self)@ == old(self)@.with_missing_track_removed(track_index),
    {
        let path = match self.missing_path_at(track_index) {
            Some(path) => path,
            None => {
                self.fail("Track is no longer marked as missing.");
                return;
            },
        };
        self.stop_playback_of(path.as_str());
        self.drop_entry(track_index, path.as_str());
        let mut status = "Removed missing entry ".to_owned();
        status.append(paths::display_file_name(path.as_str()).as_str());
        status.append(".");
        self.set_status(status);
        self.set_error(None);
        self.save_state_silently();
    }

    /// Takes a track and the removed paths out of a playlist.
    fn drop_missing_track(&mut self, index: usize, track_index: usize, removed: &Vec<String>)
        requires
            index < old(self)@.state.playlists.len(),
            track_index < old(self)@.state.playlists[index as int].tracks.len(),
        ensures
            final(self)@ == old(self)@.with_playlists(
                old(self)@.state.playlists.update(
                    index as int,
                    ({
                        let list = old(self)@.state.playlists[index as int];
                        (PlaylistView {
                            tracks: list.tracks.remove(track_index as int),
                            repeat_selection: list.repeat_selection.filter(
                                is_no_path_of(text::texts(removed@)),
                            ),
                            ..list
                        }).with_valid_group()
                    }),
                ),
            ),
    {
        let ghost start = self@;
        let ghost before = self.state.playlists@;
        let ghost list = start.state.playlists[index as int];
        assert(list == before[index as int]@);
        self.state.playlists[index].tracks.remove(track_index);
        drop_paths(&mut self.state.playlists[index].repeat_selection, removed);
        self.state.playlists[index].ensure_selected_group_exists();
        proof {
            let dropped = PlaylistView {
                tracks: list.tracks.remove(track_index as int),
                repeat_selection: list.repeat_selection.filter(
                    is_no_path_of(text::texts(removed@)),
                ),
                ..list
            };
            assert(track::track_views(before[index as int].tracks@.remove(track_index as int))
                =~= list.tracks.remove(track_index as int));
            assert(self.state.playlists@[index as int]@ =~= dropped.with_valid_group());
            assert(playlist::playlist_views(self.state.playlists@) =~= start.state.playlists.update(
                index as int,
                dropped.with_valid_group(),
            ));
        }
        assert(self@ =~= start.with_playlists(self@.state.playlists));
    }
}

// ---------------------------------------------------------------------------
// Files that are gone
// ---------------------------------------------------------------------------

/// A playlist without the tracks with the key of a path.
pub open spec fn playlist_without_path(list: PlaylistView, path: Seq<char>) -> PlaylistView {
    PlaylistView { tracks: list.tracks.filter(has_no_path_of(seq![path])), ..list }
}

/// A playlist without removed files: neither its tracks nor its repeated tracks name them, and
/// a group that is gone is no longer selected.
pub open spec fn playlist_without_files(
    list: PlaylistView,
    removed: Seq<Seq<char>>,
) -> PlaylistView {
    (PlaylistView {
        tracks: list.tracks.filter(has_no_path_of(removed)),
        repeat_selection: list.repeat_selection.filter(is_no_path_of(removed)),
        ..list
    }).with_valid_group()
}

/// Takes removed files out of a playlist.
fn drop_files(list: &mut Playlist, removed: &Vec<String>)
    ensures
        final(list)@ == playlist_without_files(old(list)@, text::texts(removed@)),
{
    drop_tracks(&mut list.tracks, removed);
    drop_paths(&mut list.repeat_selection, removed);
    list.ensure_selected_group_exists();
    assert(list@ =~= playlist_without_files(old(list)@, text::texts(removed@)));
}

impl AppView {
    /// The application without a file in any playlist.
    pub open spec fn without_path_anywhere(self, path: Seq<char>) -> AppView {
        self.with_playlists(
            Seq::new(
                self.state.playlists.len(),
                |i: int| playlist_without_path(self.state.playlists[i], path),
            ),
        )
    }

    /// The application without removed files in any playlist.
    pub open spec fn without_files_anywhere(self, removed: Seq<Seq<char>>) -> AppView {
        self.with_playlists(
            Seq::new(
                self.state.playlists.len(),
                |i: int| playlist_without_files(self.state.playlists[i], removed),
            ),
        )
    }

    /// The application once playback of a file has stopped.
    pub open spec fn without_playback_of(self, path: Seq<char>) -> AppView {
        if self.active_track_path is Some && paths::same_key(self.active_track_path->0, path) {
            self.stopped()
        } else {
            self
        }
    }

    /// The application after a file was deleted, or after that failed.
    pub open spec fn with_track_deleted(
        self,
        path: Seq<char>,
        error: Option<Seq<char>>,
    ) -> AppView {
        match error {
            Some(error) => self.with_error(Some("Failed to delete file: "@ + error)),
            None => self.without_path_anywhere(path).with_first_eligible_selected()
                .without_multi_selection().with_status(
                "Deleted "@ + paths::display_name(path) + " from disk."@,
            ).with_error(None).saved(),
        }
    }
}

impl AudioOrbitApp {
    /// Stops playback of a file that is about to be deleted.
    pub fn stop_playback_of(&mut self, path: &str)
        ensures
            final(self)@ == old(self)@.without_playback_of(path@),
    {
        let playing = match &self.active_track_path {
            Some(active) => paths::same_path(active.as_str(), path),
            None => false,
        };
        if playing {
            self.stop();
        }
    }

    /// Takes removed files out of every playlist.
    pub fn drop_files_anywhere(&mut self, removed: &Vec<String>)
        ensures
            final(self)@ == old(self)@.without_files_anywhere(text::texts(removed@)),
    {
        let ghost start = self@;
        let ghost lists = start.state.playlists;
        let ghost gone = text::texts(removed@);
        let ghost goal = start.without_files_anywhere(gone).state.playlists;
        let mut index: usize = 0;
        assert(self@ =~= start.with_playlists(self@.state.playlists));
        while index < self.state.playlists.len()
            invariant
                index <= self.state.playlists@.len() == lists.len(),
                lists == start.state.playlists,
                gone == text::texts(removed@),
                goal == start.without_files_anywhere(gone).state.playlists,
                self@ == start.with_playlists(self@.state.playlists),
                forall|i: int|
                    0 <= i < lists.len() ==> #[trigger] self@.state.playlists[i] == if i < index {
                        goal[i]
                    } else {
                        lists[i]
                    },
            decreases self.state.playlists@.len() - index,
        {
            let ghost before = self@.state.playlists;
            assert(self@.state.playlists[index as int] == lists[index as int]);
            assert(self@.state.playlists[index as int] == self.state.playlists@[index as int]@);
            drop_files(&mut self.state.playlists[index], removed);
            assert(self@.state.playlists =~= before.update(index as int, goal[index as int]));
            assert(self@ =~= start.with_playlists(self@.state.playlists));
            index += 1;
        }
        assert(self@.state.playlists =~= goal);
    }

    /// Takes a file out of every playlist.
    fn drop_path_anywhere(&mut self, path: &str)
        ensures
            final(self)@ == old(self)@.without_path_anywhere(path@),
    {
        let ghost start = self@;
        let ghost lists = start.state.playlists;
        let ghost goal = start.without_path_anywhere(path@).state.playlists;
        let mut removed: Vec<String> = Vec::new();
        removed.push(path.to_owned());
        assert(text::texts(removed@) =~= seq![path@]);
        let mut index: usize = 0;
        assert(self@ =~= start.with_playlists(self@.state.playlists));
        while index < self.state.playlists.len()
            invariant
                index <= self.state.playlists@.len() == lists.len(),
                lists == start.state.playlists,
                text::texts(removed@) == seq![path@],
                goal == start.without_path_anywhere(path@).state.playlists,
                self@ == start.with_playlists(self@.state.playlists),
                forall|i: int|
                    0 <= i < lists.len() ==> #[trigger] self@.state.playlists[i] == if i < index {
                        goal[i]
                    } else {
                        lists[i]
                    },
            decreases self.state.playlists@.len() - index,
        {
            let ghost before = self@.state.playlists;
            assert(self@.state.playlists[index as int] == lists[index as int]);
            assert(self@.state.playlists[index as int] == self.state.playlists@[index as int]@);
            drop_tracks(&mut self.state.playlists[index].tracks, &removed);
            assert(self@.state.playlists =~= before.update(index as int, goal[index as int]));
            assert(self@ =~= start.with_playlists(self@.state.playlists));
            index += 1;
        }
        assert(self@.state.playlists =~= goal);
    }

    /// Takes note that a file was deleted, or why it was not.
    pub fn finish_track_deletion(&mut self, path: &str, error: Option<String>)
        ensures
            final(self)@ == old(self)@.with_track_deleted(path@, paths::text_of(error)),
    {
        if let Some(error) = error {
            let mut message = "Failed to delete file: ".to_owned();
            message.append(error.as_str());
            self.set_error(Some(message));
            return;
        }
        self.drop_path_anywhere(path);
        self.select_first_eligible_track();
        self.clear_multi_track_selection();
        let mut status = "Deleted ".to_owned();
        status.append(paths::display_file_name(path).as_str());
        status.append(" from disk.");
        self.set_status(status);
        self.set_error(None);
        self.save_state_silently();
    }
}

} // verus!
