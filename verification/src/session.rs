//! What was playing: kept while the application runs and across runs.

use crate::app;
use crate::app::{
    AppView, AudioOrbitApp, Effect, EffectView, MainContentTab, PlaybackInfo, PlaybackInfoView,
    PlayerStatus, RadioPlaybackView,
};
use crate::counting;
use crate::lookup;
use crate::paths;
use crate::playlist::{Playlist, PlaylistView};
use crate::selection;
use crate::settings;
use crate::settings::{
    LastPlayedTrack, LastPlayedView, PlaybackSession, PlaybackSessionView,
};
use crate::state::StateView;
use crate::track;
use crate::track::{Track, TrackMetadata, TrackView};
use vstd::prelude::*;
use vstd::string::*;

verus! {

// ---------------------------------------------------------------------------
// The model of the session
// ---------------------------------------------------------------------------

/// The first value, or else the second.
pub open spec fn either<T>(first: Option<T>, second: Option<T>) -> Option<T> {
    match first {
        Some(value) => Some(value),
        None => second,
    }
}

/// The radio station that is not playing.
pub open spec fn silent_radio(radio: RadioPlaybackView) -> RadioPlaybackView {
    RadioPlaybackView {
        active_index: None,
        station_name: None,
        title: None,
        started_at: None,
        last_title_lookup_at: None,
        title_lookup_running: false,
        ..radio
    }
}

impl AppView {
    /// The path of the track that was played last.
    pub open spec fn last_path(self) -> Option<Seq<char>> {
        match self.state.last_played_track {
            Some(last) => Some(last.track_path),
            None => None,
        }
    }

    /// The playlist of the track that was played last.
    pub open spec fn last_playlist(self) -> Option<usize> {
        match self.state.last_played_track {
            Some(last) => Some(last.playlist_index),
            None => None,
        }
    }

    /// The radio station that the session is about.
    pub open spec fn session_station(self) -> Option<usize> {
        if self.radio.active_index is Some || self.active_track_path is None
            && self.browsing.active_tab == MainContentTab::Radio {
            either(self.radio.active_index, self.state.selected_radio_index)
        } else {
            None
        }
    }

    /// The track that the session is about.
    pub open spec fn session_path(self) -> Option<Seq<char>> {
        either(either(self.active_track_path, self.selected_path()), self.last_path())
    }

    /// The playlist that the session is about.
    pub open spec fn session_playlist(self) -> usize {
        match either(self.active_playlist_index, self.last_playlist()) {
            Some(index) => index,
            None => self.state.selected_playlist_index,
        }
    }

    /// The position that a paused session keeps for a track.
    pub open spec fn kept_position(self, path: Seq<char>, active: bool) -> Option<u32> {
        let session = self.state.playback_session;
        if !active && session.was_paused && session.track_path is Some && paths::same_key(
            session.track_path->0,
            path,
        ) {
            Some(selection::at_least_zero(session.position_seconds_bits))
        } else {
            None
        }
    }

    /// The session of a radio station.
    pub open spec fn station_session(
        self,
        index: usize,
        status: PlayerStatus,
    ) -> PlaybackSessionView {
        PlaybackSessionView {
            was_active: status.active() && self.radio.active_index is Some,
            was_paused: status.available && status.paused,
            source: "radio"@,
            radio_index: Some(index),
            ..settings::idle_session()
        }
    }

    /// The session of a track.
    pub open spec fn track_session(
        self,
        path: Seq<char>,
        status: PlayerStatus,
        position_bits: u32,
    ) -> PlaybackSessionView {
        let active = status.active() && self.active_track_path is Some;
        let kept = self.kept_position(path, active);
        PlaybackSessionView {
            was_active: active || kept is Some,
            was_paused: status.available && status.paused || kept is Some,
            source: "track"@,
            playlist_index: Some(self.session_playlist()),
            track_path: Some(path),
            position_seconds_bits: if active {
                selection::at_least_zero(position_bits)
            } else {
                match kept {
                    Some(bits) => bits,
                    None => 0,
                }
            },
            radio_index: None,
        }
    }

    /// The application with its session up to date: about the radio station, else about the
    /// track, else about nothing.
    pub open spec fn with_session(self, status: PlayerStatus, position_bits: u32) -> AppView {
        AppView {
            state: match self.session_station() {
                Some(index) => StateView {
                    selected_radio_index: Some(index),
                    playback_session: self.station_session(index, status),
                    ..self.state
                },
                None => match self.session_path() {
                    Some(path) => StateView {
                        last_played_track: Some(
                            LastPlayedView {
                                playlist_index: self.session_playlist(),
                                track_path: path,
                            },
                        ),
                        playback_session: self.track_session(path, status, position_bits),
                        ..self.state
                    },
                    None => StateView {
                        playback_session: PlaybackSessionView {
                            source: if self.browsing.active_tab == MainContentTab::Radio {
                                "radio"@
                            } else {
                                "music"@
                            },
                            ..settings::idle_session()
                        },
                        ..self.state
                    },
                },
            },
            ..self
        }
    }

    /// The application with nothing playing.
    pub open spec fn idle(self) -> AppView {
        AppView {
            active_track_index: None,
            active_playlist_index: None,
            active_track_path: None,
            radio: silent_radio(self.radio),
            pending_track_switch: None,
            crossfade_started_for_path: None,
            last_playback: None,
            ..self
        }
    }

    /// The application after playback was stopped.
    pub open spec fn stopped(self) -> AppView {
        self.with_effect(EffectView::StopPlayer).idle().with_status("Playback stopped."@)
            .with_session(app::stopped_player(), 0).saved()
    }

    /// The application with the track that was played last.
    pub open spec fn with_last_played(self, index: Option<usize>, path: Seq<char>) -> AppView {
        match index {
            Some(track_index) => (AppView {
                state: StateView {
                    last_played_track: Some(
                        LastPlayedView {
                            playlist_index: match self.active_playlist_index {
                                Some(playlist_index) => playlist_index,
                                None => self.state.selected_playlist_index,
                            },
                            track_path: path,
                        },
                    ),
                    ..self.state
                },
                selected_track_index: Some(track_index),
                ..self
            }).saved(),
            None => self,
        }
    }

    /// The application with the track selected that was played last, where it is still there.
    pub open spec fn with_last_played_selected(self) -> AppView {
        match self.state.last_played_track {
            Some(last) => if last.playlist_index < self.state.playlists.len() {
                match lookup::position_of_path(
                    self.state.playlists[last.playlist_index as int].tracks,
                    last.track_path,
                ) {
                    Some(index) => AppView {
                        state: StateView {
                            selected_playlist_index: last.playlist_index,
                            ..self.state
                        },
                        selected_track_index: Some(index),
                        browsing: app::BrowsingView {
                            scroll_to_active_track_requested: true,
                            ..self.browsing
                        },
                        ..self
                    },
                    None => self,
                }
            } else {
                self
            },
            None => self,
        }
    }
}

/// The condition that a playlist has a track with the key of `path` whose file is there.
pub open spec fn has_present_path(
    playlists: Seq<PlaylistView>,
    path: Seq<char>,
) -> spec_fn(int) -> bool {
    |i: int| lookup::position_of_present_path(playlists[i].tracks, path) is Some
}

/// Where a track stands: the preferred playlist comes first, then the others in order.
pub open spec fn located_track(
    playlists: Seq<PlaylistView>,
    preferred: Option<usize>,
    path: Seq<char>,
) -> Option<(usize, usize)> {
    let found = has_present_path(playlists, path);
    let place = if preferred is Some && preferred->0 < playlists.len() && found(
        preferred->0 as int,
    ) {
        preferred
    } else {
        counting::first_where(playlists.len(), found)
    };
    match place {
        Some(index) => match lookup::position_of_present_path(
            playlists[index as int].tracks,
            path,
        ) {
            Some(position) => Some((index, position)),
            None => None,
        },
        None => None,
    }
}

impl AppView {
    /// The track that a session is about, where its file is there: the playlist, the position
    /// and the path.
    pub open spec fn track_of_session(self, session: PlaybackSessionView) -> Option<
        (usize, usize, Seq<char>),
    > {
        match either(session.track_path, self.last_path()) {
            Some(path) => match located_track(
                self.state.playlists,
                either(session.playlist_index, self.last_playlist()),
                path,
            ) {
                Some(place) => Some(
                    (
                        place.0,
                        place.1,
                        self.state.playlists[place.0 as int].tracks[place.1 as int].path,
                    ),
                ),
                None => None,
            },
            None => None,
        }
    }
}

// ---------------------------------------------------------------------------
// What playback has learned of a track
// ---------------------------------------------------------------------------

/// A track with what playback has learned, where it is about this track.
pub open spec fn track_after_playback(
    track: TrackView,
    info: PlaybackInfoView,
    size_on_disk: Option<u64>,
) -> TrackView {
    let played = track::played_track(
        track,
        info.original_duration_bits,
        info.sample_rate,
        info.input_channels,
        info.waveform,
        info.waveform_brightness,
        size_on_disk,
    );
    if paths::same_key(track.path, info.path) {
        TrackView {
            metadata: TrackMetadata {
                size_bytes: either(played.metadata.size_bytes, info.size_bytes),
                ..played.metadata
            },
            ..played
        }
    } else {
        track
    }
}

/// A playlist with what playback has learned.
pub open spec fn playlist_after_playback(
    list: PlaylistView,
    info: PlaybackInfoView,
    size_on_disk: Option<u64>,
) -> PlaylistView {
    PlaylistView {
        tracks: Seq::new(
            list.tracks.len(),
            |i: int| track_after_playback(list.tracks[i], info, size_on_disk),
        ),
        ..list
    }
}

impl AppView {
    /// The application with what playback has learned in every playlist.
    pub open spec fn with_metadata(
        self,
        info: PlaybackInfoView,
        size_on_disk: Option<u64>,
    ) -> AppView {
        self.with_playlists(
            Seq::new(
                self.state.playlists.len(),
                |i: int| playlist_after_playback(self.state.playlists[i], info, size_on_disk),
            ),
        ).saved()
    }
}

/// A copy of a list of numbers.
fn copy_numbers(numbers: &Vec<u32>) -> (copy: Vec<u32>)
    ensures
        copy@ == numbers@,
{
    let copy = numbers.clone();
    assert(copy@ =~= numbers@);
    copy
}

/// Takes over what playback has learned of a track.
fn learn_of_track(item: &mut Track, info: &PlaybackInfo, size_on_disk: Option<u64>)
    ensures
        final(item)@ == track_after_playback(old(item)@, info@, size_on_disk),
{
    if !paths::same_path(item.path.as_str(), info.path.as_str()) {
        return;
    }
    item.update_playback_metadata(
        info.original_duration_bits,
        info.sample_rate,
        info.input_channels,
        copy_numbers(&info.waveform),
        copy_numbers(&info.waveform_brightness),
        size_on_disk,
    );
    if item.metadata.size_bytes.is_none() {
        item.metadata.size_bytes = info.size_bytes;
    }
    assert(item@ =~= track_after_playback(old(item)@, info@, size_on_disk));
}

/// Takes over what playback has learned in a playlist.
fn learn_of_playlist(list: &mut Playlist, info: &PlaybackInfo, size_on_disk: Option<u64>)
    ensures
        final(list)@ == playlist_after_playback(old(list)@, info@, size_on_disk),
{
    let ghost start = list@;
    let ghost goal = playlist_after_playback(start, info@, size_on_disk).tracks;
    let mut index: usize = 0;
    while index < list.tracks.len()
        invariant
            index <= list.tracks@.len() == start.tracks.len(),
            goal == playlist_after_playback(start, info@, size_on_disk).tracks,
            list@ == (PlaylistView { tracks: list@.tracks, ..start }),
            forall|i: int|
                0 <= i < start.tracks.len() ==> #[trigger] list@.tracks[i] == if i < index {
                    goal[i]
                } else {
                    start.tracks[i]
                },
        decreases list.tracks@.len() - index,
    {
        let ghost before = list@.tracks;
        assert(list@.tracks[index as int] == start.tracks[index as int]);
        assert(list@.tracks[index as int] == list.tracks@[index as int]@);
        learn_of_track(&mut list.tracks[index], info, size_on_disk);
        assert(list@.tracks =~= before.update(index as int, goal[index as int]));
        index += 1;
    }
    assert(list@.tracks =~= goal);
}

impl AudioOrbitApp {
    /// Takes over what playback has learned in every playlist.
    pub fn store_playback_metadata(&mut self, info: &PlaybackInfo, size_on_disk: Option<u64>)
        ensures
            final(self)@ == old(self)@.with_metadata(info@, size_on_disk),
    {
        let ghost start = self@;
        let ghost lists = start.state.playlists;
        let ghost goal = Seq::new(
            lists.len(),
            |i: int| playlist_after_playback(start.state.playlists[i], info@, size_on_disk),
        );
        let mut index: usize = 0;
        assert(self@ =~= start.with_playlists(self@.state.playlists));
        while index < self.state.playlists.len()
            invariant
                index <= self.state.playlists@.len() == lists.len(),
                lists == start.state.playlists,
                goal == Seq::new(
                    lists.len(),
                    |i: int|
                        playlist_after_playback(start.state.playlists[i], info@, size_on_disk),
                ),
                self@ == start.with_playlists(self@.state.playlists),
                forall|i: int|
                    0 <= i < lists.len() ==> #[trigger] self@.state.playlists[i] == if i < index {
                        goal[i]
                    } else {
                        lists[i]
                    },
            decreases self.state.playlists@.len() - index,
        {
            let ghost before = self@.state.playlists;
            assert(self@.state.playlists[index as int] == lists[index as int]);
            assert(self@.state.playlists[index as int] == self.state.playlists@[index as int]@);
            learn_of_playlist(&mut self.state.playlists[index], info, size_on_disk);
            assert(self@.state.playlists =~= before.update(index as int, goal[index as int]));
            assert(self@ =~= start.with_playlists(self@.state.playlists));
            index += 1;
        }
        assert(self@.state.playlists =~= goal);
        self.save_state_silently();
    }

    /// Keeps the track that was played last.
    pub fn remember_last_played_track(&mut self, index: Option<usize>, path: &str)
        ensures
            final(self)@ == old(self)@.with_last_played(index, path@),
    {
        let track_index: usize = match index {
            Some(track_index) => track_index,
            None => return,
        };
        let playlist_index: usize = match self.active_playlist_index {
            Some(playlist_index) => playlist_index,
            None => self.state.selected_playlist_index,
        };
        self.state.last_played_track = Some(
            LastPlayedTrack { playlist_index, track_path: path.to_owned() },
        );
        self.selected_track_index = Some(track_index);
        self.save_state_silently();
    }

    /// Selects the track that was played last, where it is still there.
    pub fn restore_last_played_track_selection(&mut self)
        ensures
            final(self)@ == old(self)@.with_last_played_selected(),
    {
        let (playlist_index, found) = match &self.state.last_played_track {
            Some(last) => {
                let playlist_index: usize = last.playlist_index;
                if playlist_index >= self.state.playlists.len() {
                    return;
                }
                assert(self@.state.playlists[playlist_index as int]
                    == self.state.playlists@[playlist_index as int]@);
                (
                    playlist_index,
                    lookup::find_path(
                        &self.state.playlists[playlist_index].tracks,
                        last.track_path.as_str(),
                    ),
                )
            },
            None => return,
        };
        if let Some(track_index) = found {
            self.state.selected_playlist_index = playlist_index;
            self.selected_track_index = Some(track_index);
            self.browsing.scroll_to_active_track_requested = true;
        }
        assert(self@ =~= old(self)@.with_last_played_selected());
    }

    /// The radio station that the session is about.
    fn session_radio_index(&self) -> (index: Option<usize>)
        ensures
            index == self@.session_station(),
    {
        if self.radio.active_index.is_some() || (self.active_track_path.is_none()
            && self.browsing.active_tab == MainContentTab::Radio) {
            if self.radio.active_index.is_some() {
                self.radio.active_index
            } else {
                self.state.selected_radio_index
            }
        } else {
            None
        }
    }

    /// The track that the session is about.
    fn session_track_path(&self) -> (path: Option<String>)
        ensures
            paths::text_of(path) == self@.session_path(),
    {
        if let Some(active) = &self.active_track_path {
            return Some(active.clone());
        }
        let selected = self.selected_track_path();
        if selected.is_some() {
            return selected;
        }
        match &self.state.last_played_track {
            Some(last) => Some(last.track_path.clone()),
            None => None,
        }
    }

    /// The playlist that the session is about.
    fn session_playlist_index(&self) -> (index: usize)
        ensures
            index == self@.session_playlist(),
    {
        if let Some(index) = self.active_playlist_index {
            return index;
        }
        match &self.state.last_played_track {
            Some(last) => last.playlist_index,
            None => self.state.selected_playlist_index,
        }
    }

    /// Brings the session up to date with what the player is doing.
    pub fn persist_playback_session(&mut self, status: PlayerStatus, position_bits: u32)
        ensures
            final(self)@ == old(self)@.with_session(status, position_bits),
    {
        let mut session = PlaybackSession::default();
        session.source = match self.browsing.active_tab {
            MainContentTab::Radio => "radio".to_owned(),
            MainContentTab::Music => "music".to_owned(),
        };
        let paused = status.available && status.paused;
        if let Some(radio_index) = self.session_radio_index() {
            session.source = "radio".to_owned();
            session.was_active = status.is_active() && self.radio.active_index.is_some();
            session.was_paused = paused;
            session.radio_index = Some(radio_index);
            self.state.selected_radio_index = Some(radio_index);
            self.state.playback_session = session;
            assert(self@ =~= old(self)@.with_session(status, position_bits));
            return;
        }
        if let Some(path) = self.session_track_path() {
            let playlist_index: usize = self.session_playlist_index();
            let active = status.is_active() && self.active_track_path.is_some();
            let mut kept: Option<u32> = None;
            if !active && self.state.playback_session.was_paused {
                if let Some(saved_path) = &self.state.playback_session.track_path {
                    if paths::same_path(saved_path.as_str(), path.as_str()) {
                        kept = Some(
                            selection::clamp_to_zero(
                                self.state.playback_session.position_seconds_bits,
                            ),
                        );
                    }
                }
            }
            assert(kept == self@.kept_position(path@, active));
            session.source = "track".to_owned();
            session.was_active = active || kept.is_some();
            session.was_paused = paused || kept.is_some();
            session.playlist_index = Some(playlist_index);
            session.track_path = Some(path.clone());
            session.position_seconds_bits = if active {
                selection::clamp_to_zero(position_bits)
            } else {
                match kept {
                    Some(bits) => bits,
                    None => 0,
                }
            };
            assert(session@ =~= self@.track_session(path@, status, position_bits));
            self.state.last_played_track = Some(
                LastPlayedTrack { playlist_index, track_path: path },
            );
        }
        self.state.playback_session = session;
        assert(self@ =~= old(self)@.with_session(status, position_bits));
    }

    /// Takes note that nothing is playing.
    pub fn clear_playback(&mut self)
        ensures
            final(self)@ == old(self)@.idle(),
    {
        self.active_track_index = None;
        self.active_playlist_index = None;
        self.active_track_path = None;
        self.clear_radio_playback();
        self.pending_track_switch = None;
        self.crossfade_started_for_path = None;
        self.last_playback = None;
        assert(self@ =~= old(self)@.idle());
    }

    /// Takes note that no radio station is playing.
    pub fn clear_radio_playback(&mut self)
        ensures
            final(self)@ == (AppView { radio: silent_radio(old(self)@.radio), ..old(self)@ }),
    {
        self.radio.active_index = None;
        self.radio.station_name = None;
        self.radio.title = None;
        self.radio.started_at = None;
        self.radio.last_title_lookup_at = None;
        self.radio.title_lookup_running = false;
        assert(self@ =~= (AppView { radio: silent_radio(old(self)@.radio), ..old(self)@ }));
    }

    /// Stops playback.
    pub fn stop(&mut self)
        ensures
            final(self)@ == old(self)@.stopped(),
    {
        self.ask(Effect::StopPlayer);
        self.clear_playback();
        self.set_status("Playback stopped.".to_owned());
        let status = PlayerStatus {
            available: true,
            playing: false,
            paused: false,
            finished: false,
            recording: false,
        };
        self.persist_playback_session(status, 0);
        self.save_state_silently();
    }

    /// The track that a session is about, where its file is there.
    pub fn find_session_track(&self, session: &PlaybackSession) -> (found: Option<
        (usize, usize, String),
    >)
        ensures
            match found {
                Some(place) => self@.track_of_session(session@) == Some(
                    (place.0, place.1, place.2@),
                ),
                None => self@.track_of_session(session@) is None,
            },
    {
        let path = match &session.track_path {
            Some(path) => path.clone(),
            None => match &self.state.last_played_track {
                Some(last) => last.track_path.clone(),
                None => return None,
            },
        };
        let preferred: Option<usize> = match session.playlist_index {
            Some(index) => Some(index),
            None => match &self.state.last_played_track {
                Some(last) => Some(last.playlist_index),
                None => None,
            },
        };
        let ghost lists = self@.state.playlists;
        let ghost found = has_present_path(lists, path@);
        if let Some(index) = preferred {
            if index < self.state.playlists.len() {
                assert(lists[index as int] == self.state.playlists@[index as int]@);
                let position = lookup::find_present_path(
                    &self.state.playlists[index].tracks,
                    path.as_str(),
                );
                if let Some(track_index) = position {
                    assert(found(index as int));
                    assert(lists[index as int].tracks[track_index as int]
                        == self.state.playlists@[index as int].tracks@[track_index as int]@);
                    return Some(
                        (
                            index,
                            track_index,
                            self.state.playlists[index].tracks[track_index].path.clone(),
                        ),
                    );
                }
            }
        }
        let mut index: usize = 0;
        while index < self.state.playlists.len()
            invariant
                index <= self.state.playlists@.len(),
                lists == self@.state.playlists,
                found == has_present_path(lists, path@),
                !(preferred is Some && preferred->0 < lists.len() && found(
                    preferred->0 as int,
                )),
                forall|i: int| 0 <= i < index ==> !#[trigger] found(i),
                either(session@.track_path, self@.last_path()) == Some(path@),
                preferred == either(session@.playlist_index, self@.last_playlist()),
            decreases self.state.playlists@.len() - index,
        {
            assert(lists[index as int] == self.state.playlists@[index as int]@);
            let position = lookup::find_present_path(
                &self.state.playlists[index].tracks,
                path.as_str(),
            );
            if let Some(track_index) = position {
                proof {
                    assert(found(index as int));
                    assert(self.state.playlists.len() == lists.len());
                    counting::first_where_is(lists.len(), found, index as int);
                    assert(lists[index as int].tracks[track_index as int]
                        == self.state.playlists@[index as int].tracks@[track_index as int]@);
                }
                return Some(
                    (
                        index,
                        track_index,
                        self.state.playlists[index].tracks[track_index].path.clone(),
                    ),
                );
            }
            index += 1;
        }
        proof {
            assert(self.state.playlists.len() == lists.len());
            counting::first_where_none(lists.len(), found);
        }
        None
    }
}

} // verus!
