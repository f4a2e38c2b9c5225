//! How the playback of a track begins.

use crate::app;
use crate::app::{
    AppView, AudioOrbitApp, BrowsingView, Crossfade, Jobs, MainContentTab, PlaybackInfo,
    PlaybackInfoView, PlayerStatus, Waveform, WaveformView,
};
use crate::lookup;
use crate::paths;
use crate::playlist::{Playlist, PlaylistView};
use crate::session;
use crate::settings::DspSettings;
use crate::silence;
use crate::silence::FileIdentity;
use crate::track::{Track, TrackView};
use vstd::prelude::*;
use vstd::string::*;

verus! {

// ---------------------------------------------------------------------------
// What is known of a track before it is played
// ---------------------------------------------------------------------------

/// Whether a bit pattern is that of a time: finite and above zero.
pub open spec fn is_positive_time(bits: u32) -> bool {
    0 < bits < 0x7f80_0000
}

impl AppView {
    /// Where a track stands in the shown playlist: at the given position, or else by its path.
    pub open spec fn known_position(self, index: Option<usize>, path: Seq<char>) -> Option<usize> {
        match self.current() {
            Some(shown) => if index is Some && index->0 < shown.tracks.len() && paths::same_key(
                shown.tracks[index->0 as int].path,
                path,
            ) {
                index
            } else {
                lookup::position_of_path(shown.tracks, path)
            },
            None => None,
        }
    }

    /// The track of the shown playlist that stands for a path.
    pub open spec fn known_track(self, index: Option<usize>, path: Seq<char>) -> Option<TrackView> {
        match self.known_position(index, path) {
            Some(at) => Some(self.current()->0.tracks[at as int]),
            None => None,
        }
    }

    /// The waveform that is known of a track.
    pub open spec fn known_waveform(
        self,
        index: Option<usize>,
        path: Seq<char>,
    ) -> Option<WaveformView> {
        match self.known_track(index, path) {
            Some(track) => if track.waveform.len() > 0 && track.waveform_brightness.len() > 0 {
                Some(
                    WaveformView {
                        levels: track.waveform,
                        brightness: track.waveform_brightness,
                    },
                )
            } else {
                None
            },
            None => None,
        }
    }

    /// The duration that is known of a track.
    pub open spec fn known_duration(self, index: Option<usize>, path: Seq<char>) -> Option<u32> {
        match self.known_track(index, path) {
            Some(track) => match track.metadata.duration_seconds_bits {
                Some(bits) => if is_positive_time(bits) {
                    Some(bits)
                } else {
                    None
                },
                None => None,
            },
            None => None,
        }
    }

    /// The waveform that is known of the playing track.
    pub open spec fn playing_waveform(self) -> Option<WaveformView> {
        if self.last_playback is Some && self.last_playback->0.waveform.len() > 0
            && self.last_playback->0.waveform_brightness.len() > 0 {
            Some(
                WaveformView {
                    levels: self.last_playback->0.waveform,
                    brightness: self.last_playback->0.waveform_brightness,
                },
            )
        } else {
            match self.active_track_path {
                Some(path) => self.known_waveform(self.active_track_index, path),
                None => None,
            }
        }
    }

    /// The settings of the selected sound profile.
    pub open spec fn sound_settings(self) -> Option<DspSettings> {
        if self.state.selected_profile_index < self.state.profiles.len() {
            Some(self.state.profiles[self.state.selected_profile_index as int].settings)
        } else {
            None
        }
    }
}

/// A copy of a list of numbers.
pub(crate) fn copy_numbers(numbers: &Vec<u32>) -> (copy: Vec<u32>)
    ensures
        copy@ == numbers@,
{
    let copy = numbers.clone();
    assert(copy@ =~= numbers@);
    copy
}

/// What the player needs to begin with a track.
pub struct TrackPlan {
    pub playlist_index: usize,
    pub waveform: Option<Waveform>,
    pub silence_ranges: Option<Vec<(u32, u32)>>,
    pub known_duration_bits: Option<u32>,
    /// Silence is skipped, so that a prepared source follows the quick one.
    pub prepares_silence_skip: bool,
}

impl AudioOrbitApp {
    /// The settings of the selected sound profile.
    pub fn current_settings(&self) -> (settings: Option<DspSettings>)
        ensures
            settings == self@.sound_settings(),
    {
        let index: usize = self.state.selected_profile_index;
        if index < self.state.profiles.len() {
            assert(self@.state.profiles[index as int] == self.state.profiles@[index as int]@);
            Some(self.state.profiles[index].settings)
        } else {
            None
        }
    }

    /// The track of the shown playlist that stands for a path.
    pub fn cached_track_for_path(&self, index: Option<usize>, path: &str) -> (found: Option<&Track>)
        ensures
            match found {
                Some(found) => self@.known_track(index, path@) == Some(found@),
                None => self@.known_track(index, path@) is None,
            },
    {
        let shown = match self.current_playlist() {
            Some(shown) => shown,
            None => return None,
        };
        assert(shown@.tracks.len() == shown.tracks.len());
        if let Some(at) = index {
            if at < shown.tracks.len() {
                assert(shown@.tracks[at as int] == shown.tracks@[at as int]@);
                if paths::same_path(shown.tracks[at].path.as_str(), path) {
                    return Some(&shown.tracks[at]);
                }
            }
        }
        match lookup::find_path(&shown.tracks, path) {
            Some(at) => {
                assert(shown@.tracks[at as int] == shown.tracks@[at as int]@);
                Some(&shown.tracks[at])
            },
            None => None,
        }
    }

    /// The waveform that is known of a track.
    pub fn cached_waveform_for_track(&self, index: Option<usize>, path: &str) -> (waveform: Option<
        Waveform,
    >)
        ensures
            app::waveform_view(waveform) == self@.known_waveform(index, path@),
    {
        match self.cached_track_for_path(index, path) {
            Some(found) => if found.waveform.len() == 0 || found.waveform_brightness.len() == 0 {
                None
            } else {
                Some(
                    Waveform {
                        levels: copy_numbers(&found.waveform),
                        brightness: copy_numbers(&found.waveform_brightness),
                    },
                )
            },
            None => None,
        }
    }

    /// The duration that is known of a track.
    pub fn known_duration_for_track(&self, index: Option<usize>, path: &str) -> (bits: Option<u32>)
        ensures
            bits == self@.known_duration(index, path@),
    {
        match self.cached_track_for_path(index, path) {
            Some(found) => match found.metadata.duration_seconds_bits {
                Some(bits) => if 0 < bits && bits < 0x7f80_0000 {
                    Some(bits)
                } else {
                    None
                },
                None => None,
            },
            None => None,
        }
    }

    /// The waveform that is known of the playing track.
    pub fn current_waveform_for_seek(&self) -> (waveform: Option<Waveform>)
        ensures
            app::waveform_view(waveform) == self@.playing_waveform(),
    {
        if let Some(info) = &self.last_playback {
            if info.waveform.len() > 0 && info.waveform_brightness.len() > 0 {
                return Some(
                    Waveform {
                        levels: copy_numbers(&info.waveform),
                        brightness: copy_numbers(&info.waveform_brightness),
                    },
                );
            }
        }
        match &self.active_track_path {
            Some(path) => self.cached_waveform_for_track(self.active_track_index, path.as_str()),
            None => None,
        }
    }

    /// What the player needs to begin with a track.
    pub fn plan_track_playback(
        &self,
        path: &str,
        index: Option<usize>,
        settings: DspSettings,
        identity: FileIdentity,
    ) -> (plan: TrackPlan)
        ensures
            plan.playlist_index == self@.state.selected_playlist_index,
            app::waveform_view(plan.waveform) == self@.known_waveform(index, path@),
            app::ranges_view(plan.silence_ranges) == silence::known_ranges(
                self@.silence,
                path@,
                settings,
                identity,
            ),
            plan.known_duration_bits == self@.known_duration(index, path@),
            plan.prepares_silence_skip == settings.skip_silence_enabled,
    {
        TrackPlan {
            playlist_index: self.state.selected_playlist_index,
            waveform: self.cached_waveform_for_track(index, path),
            silence_ranges: self.silence.cached_silence_ranges_for_track(path, settings, identity),
            known_duration_bits: self.known_duration_for_track(index, path),
            prepares_silence_skip: settings.skip_silence_enabled,
        }
    }
}

// ---------------------------------------------------------------------------
// Whether the file is there
// ---------------------------------------------------------------------------

/// A track marked by whether its file is there, where it has the key of `path`.
pub open spec fn track_with_presence(
    track: TrackView,
    path: Seq<char>,
    present: bool,
) -> TrackView {
    if paths::same_key(track.path, path) {
        TrackView { missing: !present, ..track }
    } else {
        track
    }
}

/// A playlist with its tracks marked by whether a file is there.
pub open spec fn playlist_with_presence(
    list: PlaylistView,
    path: Seq<char>,
    present: bool,
) -> PlaylistView {
    PlaylistView {
        tracks: Seq::new(
            list.tracks.len(),
            |i: int| track_with_presence(list.tracks[i], path, present),
        ),
        ..list
    }
}

impl AppView {
    /// The playlists with their tracks marked by whether a file is there.
    pub open spec fn lists_with_presence(self, path: Seq<char>, present: bool) -> Seq<
        PlaylistView,
    > {
        Seq::new(
            self.state.playlists.len(),
            |i: int| playlist_with_presence(self.state.playlists[i], path, present),
        )
    }

    /// The application once it is known whether the file of a track is there.
    pub open spec fn with_presence(self, path: Seq<char>, present: bool) -> AppView {
        let lists = self.lists_with_presence(path, present);
        let marked = if lists == self.state.playlists {
            self
        } else {
            self.with_playlists(lists).saved()
        };
        if present {
            marked
        } else {
            marked.with_error(Some("File not found: "@ + path))
        }
    }
}

/// Marks the tracks of a playlist by whether a file is there; returns whether a mark changed.
fn mark_playlist(list: &mut Playlist, path: &str, present: bool) -> (changed: bool)
    ensures
        final(list)@ == playlist_with_presence(old(list)@, path@, present),
        changed == (final(list)@ != old(list)@),
{
    let ghost start = list@;
    let ghost goal = playlist_with_presence(start, path@, present).tracks;
    let mut changed = false;
    let mut index: usize = 0;
    while index < list.tracks.len()
        invariant
            index <= list.tracks@.len() == start.tracks.len(),
            goal == playlist_with_presence(start, path@, present).tracks,
            list@ == (PlaylistView { tracks: list@.tracks, ..start }),
            forall|i: int|
                0 <= i < start.tracks.len() ==> #[trigger] list@.tracks[i] == if i < index {
                    goal[i]
                } else {
                    start.tracks[i]
                },
            !changed ==> forall|i: int|
                0 <= i < index ==> #[trigger] goal[i] == start.tracks[i],
            changed ==> exists|i: int|
                0 <= i < index && (#[trigger] goal[i]) != start.tracks[i],
        decreases list.tracks@.len() - index,
    {
        let ghost before = list@.tracks;
        let ghost changed_before = changed;
        assert(list@.tracks[index as int] == start.tracks[index as int]);
        assert(list@.tracks[index as int] == list.tracks@[index as int]@);
        if paths::same_path(list.tracks[index].path.as_str(), path) {
            if list.tracks[index].missing != !present {
                list.tracks[index].missing = !present;
                changed = true;
                assert(goal[index as int] != start.tracks[index as int]);
            }
        }
        assert(list@.tracks =~= before.update(index as int, goal[index as int]));
        index += 1;
    }
    assert(list@.tracks =~= goal);
    proof {
        if changed {
            let i = choose|i: int|
                0 <= i < start.tracks.len() && (#[trigger] goal[i]) != start.tracks[i];
            assert(list@.tracks[i] != start.tracks[i]);
        } else {
            assert(list@.tracks =~= start.tracks);
        }
    }
    changed
}

impl AudioOrbitApp {
    /// Takes note of whether the file of a track is there. Returns whether it can be played.
    pub fn ensure_track_available_for_playback(&mut self, path: &str, is_present: bool) -> (ready:
        bool)
        ensures
            ready == is_present,
            final(self)@ == old(self)@.with_presence(path@, is_present),
    {
        let ghost start = self@;
        let ghost lists = start.state.playlists;
        let ghost goal = start.lists_with_presence(path@, is_present);
        let mut changed = false;
        let mut index: usize = 0;
        assert(self@ =~= start.with_playlists(self@.state.playlists));
        while index < self.state.playlists.len()
            invariant
                index <= self.state.playlists@.len() == lists.len(),
                lists == start.state.playlists,
                goal == start.lists_with_presence(path@, is_present),
                self@ == start.with_playlists(self@.state.playlists),
                forall|i: int|
                    0 <= i < lists.len() ==> #[trigger] self@.state.playlists[i] == if i < index {
                        goal[i]
                    } else {
                        lists[i]
                    },
                !changed ==> forall|i: int| 0 <= i < index ==> #[trigger] goal[i] == lists[i],
                changed ==> exists|i: int| 0 <= i < index && (#[trigger] goal[i]) != lists[i],
            decreases self.state.playlists@.len() - index,
        {
            let ghost before = self@.state.playlists;
            assert(self@.state.playlists[index as int] == lists[index as int]);
            assert(self@.state.playlists[index as int] == self.state.playlists@[index as int]@);
            let marked = mark_playlist(&mut self.state.playlists[index], path, is_present);
            if marked {
                changed = true;
                assert(goal[index as int] != lists[index as int]);
            }
            assert(self@.state.playlists =~= before.update(index as int, goal[index as int]));
            assert(self@ =~= start.with_playlists(self@.state.playlists));
            index += 1;
        }
        assert(self@.state.playlists =~= goal);
        proof {
            if changed {
                let i = choose|i: int| 0 <= i < lists.len() && (#[trigger] goal[i]) != lists[i];
                assert(goal != lists);
            } else {
                assert(goal =~= lists);
                assert(self@ =~= start);
            }
        }
        if changed {
            self.save_state_silently();
        }
        if !is_present {
            let mut message = "File not found: ".to_owned();
            message.append(path);
            self.set_error(Some(message));
        }
        is_present
    }
}

// ---------------------------------------------------------------------------
// What is said when a track begins
// ---------------------------------------------------------------------------

/// How a track has begun.
#[derive(Clone, Copy, Debug, PartialEq, Eq, Structural)]
pub enum StartKind {
    /// It plays from where it was asked for.
    Playing,
    /// It fades in.
    Crossfading,
    /// It goes on with other sound settings.
    Continued,
    /// It plays at once, and is prepared in the background.
    PlayingAtOnce,
    /// It fades in at once, and is prepared in the background.
    CrossfadingAtOnce,
    /// The prepared source has taken over.
    SilenceSkipReady,
}

/// How a track begins that needs no preparation.
pub open spec fn direct_start(continues_live: bool, crossfade: Crossfade) -> StartKind {
    if continues_live {
        StartKind::Continued
    } else if crossfade.audible() {
        StartKind::Crossfading
    } else {
        StartKind::Playing
    }
}

/// How a track begins that is prepared in the background.
pub open spec fn quick_start(crossfade: Crossfade) -> StartKind {
    if crossfade.audible() {
        StartKind::CrossfadingAtOnce
    } else {
        StartKind::PlayingAtOnce
    }
}

/// How a prepared track begins.
pub open spec fn prepared_start(
    background_upgrade: bool,
    continues_live: bool,
    crossfade: Crossfade,
) -> StartKind {
    if background_upgrade {
        StartKind::SilenceSkipReady
    } else {
        direct_start(continues_live, crossfade)
    }
}

/// What is said when a track begins.
pub open spec fn start_status(kind: StartKind, name: Seq<char>, mode: Seq<char>) -> Seq<char> {
    match kind {
        StartKind::Playing => "Playing "@ + name + " through "@ + mode + "."@,
        StartKind::Crossfading => "Crossfading to "@ + name + " through "@ + mode
            + "; previous source is fading out."@,
        StartKind::Continued => "Applied sound profile and continued "@ + name + " through "@ + mode
            + "."@,
        StartKind::PlayingAtOnce => "Playing "@ + name + " immediately through "@ + mode
            + "; preparing silence skip in the background."@,
        StartKind::CrossfadingAtOnce => "Crossfading to "@ + name + " immediately through "@ + mode
            + "; preparing silence skip in the background."@,
        StartKind::SilenceSkipReady => "Silence-skip preparation finished for "@ + name + "."@,
    }
}

/// The name of the way in which the sound is processed.
pub open spec fn mode_name(settings: DspSettings, orbit_name: Seq<char>) -> Seq<char> {
    if settings.orbit_enabled {
        orbit_name
    } else {
        "normal stereo playback"@
    }
}

/// What is said when a quick start has failed and the track is prepared instead.
pub open spec fn quick_failure_status(
    continues_live: bool,
    crossfade: Crossfade,
    crossfade_text: Seq<char>,
    name: Seq<char>,
) -> Seq<char> {
    if continues_live {
        "Fast playback failed; preparing updated playback without stopping the current audio..."@
    } else if crossfade.audible() {
        "Fast playback failed; preparing crossfade for "@ + crossfade_text + " second(s)..."@
    } else {
        "Fast playback failed; preparing "@ + name + "..."@
    }
}

/// How a track begins that needs no preparation.
pub fn direct_start_kind(continues_live: bool, crossfade: Crossfade) -> (kind: StartKind)
    ensures
        kind == direct_start(continues_live, crossfade),
{
    if continues_live {
        StartKind::Continued
    } else if crossfade.is_audible() {
        StartKind::Crossfading
    } else {
        StartKind::Playing
    }
}

/// How a track begins that is prepared in the background.
pub fn quick_start_kind(crossfade: Crossfade) -> (kind: StartKind)
    ensures
        kind == quick_start(crossfade),
{
    if crossfade.is_audible() {
        StartKind::CrossfadingAtOnce
    } else {
        StartKind::PlayingAtOnce
    }
}

/// How a prepared track begins.
pub fn prepared_start_kind(
    background_upgrade: bool,
    continues_live: bool,
    crossfade: Crossfade,
) -> (kind: StartKind)
    ensures
        kind == prepared_start(background_upgrade, continues_live, crossfade),
{
    if background_upgrade {
        StartKind::SilenceSkipReady
    } else {
        direct_start_kind(continues_live, crossfade)
    }
}

/// What is said when a track begins.
pub fn start_status_text(kind: StartKind, name: &str, mode: &str) -> (status: String)
    ensures
        status@ == start_status(kind, name@, mode@),
{
    let mut status = match kind {
        StartKind::Playing | StartKind::PlayingAtOnce => "Playing ".to_owned(),
        StartKind::Crossfading | StartKind::CrossfadingAtOnce => "Crossfading to ".to_owned(),
        StartKind::Continued => "Applied sound profile and continued ".to_owned(),
        StartKind::SilenceSkipReady => "Silence-skip preparation finished for ".to_owned(),
    };
    status.append(name);
    match kind {
        StartKind::Playing | StartKind::Crossfading | StartKind::Continued => {
            status.append(" through ");
            status.append(mode);
        },
        StartKind::PlayingAtOnce | StartKind::CrossfadingAtOnce => {
            status.append(" immediately through ");
            status.append(mode);
        },
        StartKind::SilenceSkipReady => {},
    }
    match kind {
        StartKind::Playing | StartKind::Continued | StartKind::SilenceSkipReady => {
            status.append(".");
        },
        StartKind::Crossfading => {
            status.append("; previous source is fading out.");
        },
        StartKind::PlayingAtOnce | StartKind::CrossfadingAtOnce => {
            status.append("; preparing silence skip in the background.");
        },
    }
    status
}

/// The name of the way in which the sound is processed.
pub fn mode_label(settings: DspSettings, orbit_name: &str) -> (name: String)
    ensures
        name@ == mode_name(settings, orbit_name@),
{
    if settings.orbit_enabled {
        orbit_name.to_owned()
    } else {
        "normal stereo playback".to_owned()
    }
}

// ---------------------------------------------------------------------------
// The track begins
// ---------------------------------------------------------------------------

/// What is known of the playing audio, with the silent passages that were known before.
pub open spec fn info_with_ranges(
    info: PlaybackInfoView,
    ranges: Option<Seq<(u32, u32)>>,
) -> PlaybackInfoView {
    match ranges {
        Some(ranges) => PlaybackInfoView { silence_ranges: ranges, ..info },
        None => info,
    }
}

impl AppView {
    /// Whether the list is scrolled to the playing track when it changes.
    pub open spec fn scrolls_to(self, index: Option<usize>, path: Seq<char>) -> bool {
        self.active_track_path is None || !paths::same_key(self.active_track_path->0, path)
            || self.active_track_index != index
    }

    /// The application with a track as the playing one.
    pub open spec fn with_track_active(
        self,
        playlist_index: usize,
        index: Option<usize>,
        path: Seq<char>,
    ) -> AppView {
        AppView {
            browsing: BrowsingView {
                scroll_to_active_track_requested: self.scrolls_to(index, path)
                    || self.browsing.scroll_to_active_track_requested,
                ..self.browsing
            },
            active_playlist_index: Some(playlist_index),
            selected_track_index: index,
            active_track_index: index,
            active_track_path: Some(path),
            crossfade_started_for_path: None,
            pending_track_switch: None,
            ..self
        }
    }

    /// The application with music in place of the radio.
    pub open spec fn with_music(self) -> AppView {
        AppView {
            browsing: BrowsingView { active_tab: MainContentTab::Music, ..self.browsing },
            radio: session::silent_radio(self.radio),
            ..self
        }
    }

    /// The application after a track has begun.
    pub open spec fn with_track_started(
        self,
        playlist_index: usize,
        index: Option<usize>,
        info: PlaybackInfoView,
        status_text: Seq<char>,
        size_on_disk: Option<u64>,
        status: PlayerStatus,
        position_bits: u32,
    ) -> AppView {
        let learned = self.with_music().with_track_active(
            playlist_index,
            index,
            info.path,
        ).with_metadata(info, size_on_disk).with_last_played(index, info.path);
        (AppView { last_playback: Some(info), ..learned }).with_status(status_text).with_session(
            status,
            position_bits,
        ).saved().with_error(None)
    }

    /// The application after a track could not begin.
    pub open spec fn with_start_failed(self, error: Seq<char>) -> AppView {
        self.with_error(Some(error)).with_status("Playback failed."@)
    }

    /// The application with a track being prepared in the background, or none.
    pub open spec fn with_preparation(self, running: bool) -> AppView {
        AppView { jobs: Jobs { prepared_track: running, ..self.jobs }, ..self }
    }
}

impl AudioOrbitApp {
    /// Shows music in place of the radio.
    pub fn switch_to_music(&mut self)
        ensures
            final(self)@ == old(self)@.with_music(),
    {
        self.browsing.active_tab = MainContentTab::Music;
        self.clear_radio_playback();
        assert(self@ =~= old(self)@.with_music());
    }

    /// Scrolls to the playing track, where another one is about to be it.
    fn request_active_track_scroll_if_changed(&mut self, index: Option<usize>, path: &str)
        ensures
            final(self)@ == (AppView {
                browsing: BrowsingView {
                    scroll_to_active_track_requested: old(self)@.scrolls_to(index, path@)
                        || old(self)@.browsing.scroll_to_active_track_requested,
                    ..old(self)@.browsing
                },
                ..old(self)@
            }),
    {
        let changed = match &self.active_track_path {
            Some(previous) => !paths::same_path(previous.as_str(), path),
            None => true,
        };
        if changed || self.active_track_index != index {
            self.browsing.scroll_to_active_track_requested = true;
        }
    }

    /// Takes note of the playing track.
    fn activate_track(&mut self, playlist_index: usize, index: Option<usize>, path: &str)
        ensures
            final(self)@ == old(self)@.with_track_active(playlist_index, index, path@),
    {
        self.request_active_track_scroll_if_changed(index, path);
        self.active_playlist_index = Some(playlist_index);
        self.selected_track_index = index;
        self.active_track_index = index;
        self.active_track_path = Some(path.to_owned());
        self.crossfade_started_for_path = None;
        self.pending_track_switch = None;
    }

    /// Takes note that a track has begun.
    fn finish_track_start(
        &mut self,
        playlist_index: usize,
        index: Option<usize>,
        info: PlaybackInfo,
        status_text: String,
        size_on_disk: Option<u64>,
        status: PlayerStatus,
        position_bits: u32,
    )
        ensures
            final(self)@ == old(self)@.with_track_started(
                playlist_index,
                index,
                info@,
                status_text@,
                size_on_disk,
                status,
                position_bits,
            ),
    {
        self.switch_to_music();
        self.activate_track(playlist_index, index, info.path.as_str());
        self.store_playback_metadata(&info, size_on_disk);
        self.remember_last_played_track(index, info.path.as_str());
        self.last_playback = Some(info);
        self.set_status(status_text);
        self.persist_playback_session(status, position_bits);
        self.save_state_silently();
        self.set_error(None);
    }

    /// Takes note that a track has begun. Silent passages that were known before replace those
    /// that the player reports.
    pub fn track_started(
        &mut self,
        kind: StartKind,
        playlist_index: usize,
        index: Option<usize>,
        info: PlaybackInfo,
        known_ranges: Option<Vec<(u32, u32)>>,
        mode: &str,
        size_on_disk: Option<u64>,
        status: PlayerStatus,
        position_bits: u32,
    )
        ensures
            final(self)@ == old(self)@.with_track_started(
                playlist_index,
                index,
                info_with_ranges(info@, app::ranges_view(known_ranges)),
                start_status(kind, paths::display_name(info.path@), mode@),
                size_on_disk,
                status,
                position_bits,
            ),
    {
        let mut info = info;
        let ghost reported = info@;
        let ghost ranges = app::ranges_view(known_ranges);
        if let Some(ranges) = known_ranges {
            info.silence_ranges = ranges;
        }
        assert(info@ =~= info_with_ranges(reported, ranges));
        let name = paths::display_file_name(info.path.as_str());
        let status_text = start_status_text(kind, name.as_str(), mode);
        self.finish_track_start(
            playlist_index,
            index,
            info,
            status_text,
            size_on_disk,
            status,
            position_bits,
        );
    }

    /// Takes note that a track could not begin.
    pub fn track_start_failed(&mut self, error: String)
        ensures
            final(self)@ == old(self)@.with_start_failed(error@),
    {
        self.set_error(Some(error));
        self.set_status("Playback failed.".to_owned());
    }

    /// Takes note that a quick start has failed and the track is prepared instead.
    pub fn quick_start_failed(
        &mut self,
        path: &str,
        continues_live: bool,
        crossfade: Crossfade,
        crossfade_text: &str,
        error: String,
    )
        ensures
            final(self)@ == old(self)@.with_status(
                quick_failure_status(
                    continues_live,
                    crossfade,
                    crossfade_text@,
                    paths::display_name(path@),
                ),
            ).with_error(Some(error@)),
    {
        let mut status = String::new();
        if continues_live {
            status.append(
                "Fast playback failed; preparing updated playback without stopping the current audio...",
            );
        } else if crossfade.is_audible() {
            status.append("Fast playback failed; preparing crossfade for ");
            status.append(crossfade_text);
            status.append(" second(s)...");
        } else {
            status.append("Fast playback failed; preparing ");
            status.append(paths::display_file_name(path).as_str());
            status.append("...");
        }
        assert(status@ =~= quick_failure_status(
            continues_live,
            crossfade,
            crossfade_text@,
            paths::display_name(path@),
        ));
        self.set_status(status);
        self.set_error(Some(error));
    }

    /// Takes note of whether a track is being prepared in the background.
    pub fn set_preparation(&mut self, running: bool)
        ensures
            final(self)@ == old(self)@.with_preparation(running),
    {
        self.jobs.prepared_track = running;
        assert(self@ =~= old(self)@.with_preparation(running));
    }
}

// ---------------------------------------------------------------------------
// Prepared tracks
// ---------------------------------------------------------------------------

/// How a prepared source takes over.
#[derive(Clone, Copy, Debug, PartialEq, Eq, Structural)]
pub enum Takeover {
    /// It fades in.
    Crossfade,
    /// It goes on where the playing source is.
    LivePosition,
    /// It plays from its start.
    FromStart,
}

/// How a prepared source takes over.
pub open spec fn takeover(
    crossfade: Crossfade,
    continues_live: bool,
    status: PlayerStatus,
) -> Takeover {
    if crossfade.audible() {
        Takeover::Crossfade
    } else if continues_live && status.playing {
        Takeover::LivePosition
    } else {
        Takeover::FromStart
    }
}

/// What goes with a track that is prepared in the background.
#[derive(Clone, Copy, Debug, PartialEq, Eq, Structural)]
pub struct BackgroundPlan {
    pub crossfade: Crossfade,
    pub continues_live: bool,
    pub background_upgrade: bool,
}

/// What goes with a track that is prepared in the background: after a quick start it takes
/// over from the playing source, without a crossfade of its own.
pub open spec fn background_plan(
    quick_started: bool,
    crossfade: Crossfade,
    continues_live: bool,
) -> BackgroundPlan {
    BackgroundPlan {
        crossfade: if quick_started {
            Crossfade::Off
        } else {
            crossfade
        },
        continues_live: quick_started || continues_live,
        background_upgrade: quick_started,
    }
}

/// What goes with a track that is prepared in the background.
pub fn plan_background(
    quick_started: bool,
    crossfade: Crossfade,
    continues_live: bool,
) -> (plan: BackgroundPlan)
    ensures
        plan == background_plan(quick_started, crossfade, continues_live),
{
    BackgroundPlan {
        crossfade: if quick_started {
            Crossfade::Off
        } else {
            crossfade
        },
        continues_live: quick_started || continues_live,
        background_upgrade: quick_started,
    }
}

impl AudioOrbitApp {
    /// Takes note that the preparation of a track has failed, or has ended without a word.
    pub fn preparation_failed(&mut self, error: Option<String>)
        ensures
            final(self)@ == (match error {
                Some(error) => old(self)@.with_preparation(false).with_error(
                    Some(error@),
                ).with_status("Playback preparation failed."@),
                None => old(self)@.with_preparation(false),
            }),
    {
        self.set_preparation(false);
        if let Some(error) = error {
            self.set_error(Some(error));
            self.set_status("Playback preparation failed.".to_owned());
        }
    }

    /// Takes note that a track has been prepared and keeps its silent passages. Returns how
    /// it takes over, or none where there is no output device.
    pub fn preparation_finished(
        &mut self,
        path: &str,
        settings: DspSettings,
        identity: FileIdentity,
        ranges: Vec<(u32, u32)>,
        plan: BackgroundPlan,
        status: PlayerStatus,
    ) -> (result: Option<Takeover>)
        ensures
            result == (if status.available {
                Some(takeover(plan.crossfade, plan.continues_live, status))
            } else {
                None
            }),
            ({
                let prepared = old(self)@.with_preparation(false);
                let kept = AppView {
                    silence: silence::with_ranges(
                        prepared.silence,
                        path@,
                        settings,
                        identity,
                        ranges@,
                    ),
                    ..prepared
                };
                final(self)@ == if status.available {
                    kept
                } else {
                    kept.with_error(
                        Some("No audio output device is available. Try Refresh output device."@),
                    )
                }
            }),
    {
        self.set_preparation(false);
        self.silence.remember_silence_ranges_for_track(path, settings, identity, ranges);
        if !status.available {
            self.fail("No audio output device is available. Try Refresh output device.");
            return None;
        }
        let result = if plan.crossfade.is_audible() {
            Takeover::Crossfade
        } else if plan.continues_live && status.playing {
            Takeover::LivePosition
        } else {
            Takeover::FromStart
        };
        Some(result)
    }
}

// ---------------------------------------------------------------------------
// A switch that was planned
// ---------------------------------------------------------------------------

impl AppView {
    /// The application after a planned switch to another track.
    pub open spec fn with_switch_done(
        self,
        pending: app::PendingTrackSwitchView,
        size_on_disk: Option<u64>,
        status: PlayerStatus,
        position_bits: u32,
    ) -> AppView {
        let learned = self.with_track_active(
            pending.playlist_index,
            pending.index,
            pending.info.path,
        ).with_last_played(pending.index, pending.info.path).with_metadata(
            pending.info,
            size_on_disk,
        );
        (AppView { last_playback: Some(pending.info), ..learned }).with_session(
            status,
            position_bits,
        ).saved()
    }
}

impl AudioOrbitApp {
    /// Switches to the planned track once its time has come.
    pub fn process_pending_track_switch(
        &mut self,
        now: u64,
        size_on_disk: Option<u64>,
        status: PlayerStatus,
        position_bits: u32,
    )
        ensures
            final(self)@ == (match old(self)@.pending_track_switch {
                Some(pending) => if now < pending.switch_at {
                    old(self)@
                } else {
                    old(self)@.with_switch_done(pending, size_on_disk, status, position_bits)
                },
                None => old(self)@,
            }),
    {
        let due = match &self.pending_track_switch {
            Some(pending) => now >= pending.switch_at,
            None => false,
        };
        if !due {
            return;
        }
        let mut taken: Option<app::PendingTrackSwitch> = None;
        std::mem::swap(&mut taken, &mut self.pending_track_switch);
        if let Some(pending) = taken {
            let app::PendingTrackSwitch { switch_at: _, playlist_index, index, info } = pending;
            self.activate_track(playlist_index, index, info.path.as_str());
            assert(self@ =~= old(self)@.with_track_active(playlist_index, index, info@.path));
            self.remember_last_played_track(index, info.path.as_str());
            self.store_playback_metadata(&info, size_on_disk);
            self.last_playback = Some(info);
            self.persist_playback_session(status, position_bits);
            self.save_state_silently();
        }
    }
}

} // verus!
