//! Which track is played next, and how loud.

use crate::app::{AppView, AudioOrbitApp, Crossfade, Effect, EffectView, PlayerStatus};
use crate::counting;
use crate::grouping;
use crate::index_set;
use crate::paths;
use crate::playlist::PlaylistView;
use crate::selection;
use crate::session;
use crate::settings::{PlaybackSettings, RepeatMode};
use crate::state::StateView;
use crate::text;
use crate::track::Track;
use vstd::prelude::*;
use vstd::string::*;

verus! {

// ---------------------------------------------------------------------------
// Times as bit patterns
// ---------------------------------------------------------------------------

/// The bit pattern of five hundredths.
pub const SHORT_TIME_BITS: u32 = 0x3d4c_cccd;

/// Whether the single precision number with a bit pattern is at most five hundredths.
pub open spec fn is_short_time(bits: u32) -> bool {
    bits <= SHORT_TIME_BITS || 0x8000_0000 <= bits <= 0xff80_0000
}

/// Whether the single precision number with a bit pattern is at most five hundredths.
pub fn is_short(bits: u32) -> (short: bool)
    ensures
        short == is_short_time(bits),
{
    bits <= SHORT_TIME_BITS || (0x8000_0000 <= bits && bits <= 0xff80_0000)
}

impl Crossfade {
    /// Whether the crossfade is long enough to be heard.
    pub open spec fn audible(self) -> bool {
        match self {
            Crossfade::Off => false,
            Crossfade::Seconds(seconds) => seconds > 0,
            Crossfade::Exact(bits) => SHORT_TIME_BITS < bits <= 0x7f80_0000,
        }
    }

    /// Whether the crossfade is long enough to be heard.
    pub fn is_audible(&self) -> (audible: bool)
        ensures
            audible == self.audible(),
    {
        match *self {
            Crossfade::Off => false,
            Crossfade::Seconds(seconds) => seconds > 0,
            Crossfade::Exact(bits) => SHORT_TIME_BITS < bits && bits <= 0x7f80_0000,
        }
    }
}

// ---------------------------------------------------------------------------
// The model of what comes next
// ---------------------------------------------------------------------------

/// What the clocks show when a track is picked at random.
#[derive(Clone, Copy, Debug, PartialEq, Eq, Structural)]
pub struct ClockReading {
    /// Nanoseconds of the system clock.
    pub nanos: usize,
    /// Nanoseconds since the status line has changed.
    pub status_nanos: usize,
}

/// The condition to be another position than the current one.
pub open spec fn is_not_current(current: Option<usize>) -> spec_fn(usize) -> bool {
    |index: usize| current != Some(index)
}

/// The positions to pick from: those other than the current one, or all where there is no
/// other.
pub open spec fn random_candidates(indexes: Seq<usize>, current: Option<usize>) -> Seq<usize> {
    let others = indexes.filter(is_not_current(current));
    if others.len() == 0 {
        indexes
    } else {
        others
    }
}

/// The position that is picked at random.
pub open spec fn random_index(
    indexes: Seq<usize>,
    current: Option<usize>,
    clocks: ClockReading,
) -> Option<usize> {
    let candidates = random_candidates(indexes, current);
    let count = candidates.len() as usize;
    if indexes.len() == 0 {
        None
    } else if indexes.len() == 1 {
        Some(indexes[0])
    } else {
        Some(candidates[((clocks.nanos ^ clocks.status_nanos ^ count) % count) as int])
    }
}

impl AppView {
    /// The track from which the next one is counted.
    pub open spec fn current_track(self) -> Option<usize> {
        session::either(self.active_track_index, self.selected_track_index)
    }

    /// The position of the track that follows in the sequence.
    pub open spec fn next_position(self, clocks: ClockReading) -> Option<usize> {
        let indexes = self.sequence();
        let current = self.current_track();
        if indexes.len() == 0 {
            None
        } else if self.state.playback.repeat_mode == RepeatMode::Track {
            if current is Some && indexes.contains(current->0) {
                current
            } else {
                Some(indexes[0])
            }
        } else if self.state.playback.shuffle_enabled {
            random_index(indexes, current, clocks)
        } else {
            match current_place(indexes, current) {
                Some(place) => Some(
                    if place + 1 < indexes.len() {
                        indexes[place + 1]
                    } else {
                        indexes[0]
                    },
                ),
                None => Some(indexes[0]),
            }
        }
    }

    /// The position of the track that comes before in the sequence.
    pub open spec fn previous_position(self) -> Option<usize> {
        let indexes = self.sequence();
        let current = self.current_track();
        if indexes.len() == 0 {
            None
        } else if self.state.playback.repeat_mode == RepeatMode::Track {
            if current is Some && indexes.contains(current->0) {
                current
            } else {
                Some(indexes[0])
            }
        } else {
            match current_place(indexes, current) {
                Some(place) => Some(
                    if place == 0 {
                        indexes.last()
                    } else {
                        indexes[place - 1]
                    },
                ),
                None => Some(indexes[0]),
            }
        }
    }

    /// The path of the track at a position of the shown playlist.
    pub open spec fn path_at(self, index: usize) -> Seq<char> {
        self.current()->0.tracks[index as int].path
    }

    /// The crossfade for a track that the user asks for.
    pub open spec fn manual_crossfade(self, status: PlayerStatus) -> Crossfade {
        if self.state.playback.crossfade_enabled && status.available && status.playing {
            Crossfade::Seconds(
                if self.state.playback.crossfade_seconds > 1 {
                    self.state.playback.crossfade_seconds
                } else {
                    1
                },
            )
        } else {
            Crossfade::Off
        }
    }

    /// The application once it has asked for a track, or said that there is no output device.
    pub open spec fn with_track_requested(
        self,
        path: Seq<char>,
        track_index: Option<usize>,
        start_bits: u32,
        crossfade: Crossfade,
        continues_live: bool,
        status: PlayerStatus,
    ) -> AppView {
        if status.available {
            self.with_effect(
                EffectView::PlayTrack { path, track_index, start_bits, crossfade, continues_live },
            )
        } else {
            self.with_error(
                Some("No audio output device is available. Try Refresh output device."@),
            )
        }
    }

    /// The application once it has asked for a track from a position. Only a track from the
    /// start fades in.
    pub open spec fn with_path_requested(
        self,
        path: Seq<char>,
        track_index: Option<usize>,
        start_bits: u32,
        status: PlayerStatus,
    ) -> AppView {
        self.with_track_requested(
            path,
            track_index,
            start_bits,
            if is_short_time(start_bits) {
                self.manual_crossfade(status)
            } else {
                Crossfade::Off
            },
            false,
            status,
        )
    }

    /// The position at which a paused session goes on with a track.
    pub open spec fn resume_position(self, path: Seq<char>) -> Option<u32> {
        let session = self.state.playback_session;
        if session.was_paused && session.source == "track"@ && session.track_path is Some
            && paths::same_key(session.track_path->0, path) {
            Some(selection::at_least_zero(session.position_seconds_bits))
        } else {
            None
        }
    }

    /// The application once it has asked for the selected track, or for the first that can be
    /// played.
    pub open spec fn with_selected_requested(self, status: PlayerStatus) -> AppView {
        let ready = self.with_visible_selection();
        match ready.selected_path() {
            Some(path) => ready.with_path_requested(
                path,
                ready.selected_track_index,
                match ready.resume_position(path) {
                    Some(bits) => bits,
                    None => 0,
                },
                status,
            ),
            None => ready.with_error(Some("Select a track first."@)),
        }
    }

    /// The application once it has asked for the track at a position of the sequence.
    pub open spec fn with_position_requested(
        self,
        position: Option<usize>,
        crossfade: Crossfade,
        status: PlayerStatus,
    ) -> AppView {
        match position {
            Some(index) => (AppView { selected_track_index: Some(index), ..self })
                .with_track_requested(self.path_at(index), Some(index), 0, crossfade, false, status),
            None => self,
        }
    }
}

/// Where the current track stands in the sequence.
pub open spec fn current_place(indexes: Seq<usize>, current: Option<usize>) -> Option<usize> {
    match current {
        Some(index) => index_set::position_of(indexes, index),
        None => None,
    }
}

/// Picks a position at random, but not the current one where there is another.
pub fn random_sequence_index(
    indexes: &Vec<usize>,
    current_index: Option<usize>,
    clocks: ClockReading,
) -> (picked: Option<usize>)
    ensures
        picked == random_index(indexes@, current_index, clocks),
        picked matches Some(index) ==> indexes@.contains(index),
{
    if indexes.len() == 0 {
        return None;
    }
    if indexes.len() == 1 {
        assert(indexes@[0] == indexes[0]);
        return Some(indexes[0]);
    }
    let ghost all = indexes@;
    let ghost keep = is_not_current(current_index);
    let mut candidates: Vec<usize> = Vec::new();
    let mut at: usize = 0;
    proof {
        grouping::filter_all_or_none(all.take(0), keep);
        assert(all.take(0).filter(keep) =~= Seq::empty());
    }
    while at < indexes.len()
        invariant
            at <= indexes@.len(),
            all == indexes@,
            keep == is_not_current(current_index),
            candidates@ == all.take(at as int).filter(keep),
        decreases indexes@.len() - at,
    {
        proof {
            grouping::filter_next(all, keep, at as int);
        }
        let index: usize = indexes[at];
        if current_index != Some(index) {
            candidates.push(index);
        }
        at += 1;
    }
    proof {
        assert(all.take(all.len() as int) =~= all);
        grouping::filter_entries(all, keep);
    }
    if candidates.len() == 0 {
        candidates = index_set::copy_indexes(indexes);
    }
    assert(candidates@ == random_candidates(all, current_index));
    let count: usize = candidates.len();
    let seed: usize = clocks.nanos ^ clocks.status_nanos ^ count;
    let picked: usize = candidates[seed % count];
    assert(all.contains(picked));
    Some(picked)
}

/// The positions of the sequence are those of tracks.
pub proof fn sequence_is_in_range(view: AppView, shown: PlaylistView)
    requires
        view.current() == Some(shown),
        shown.tracks.len() <= usize::MAX,
    ensures
        forall|i: int|
            0 <= i < view.sequence().len() ==> #[trigger] view.sequence()[i] < shown.tracks.len(),
        index_set::ascending(view.sequence()),
{
    counting::indexes_where_holds(shown.tracks.len(), view.is_in_sequence(shown));
}

impl AudioOrbitApp {
    /// The track from which the next one is counted.
    fn current_track_index(&self) -> (index: Option<usize>)
        ensures
            index == self@.current_track(),
    {
        if self.active_track_index.is_some() {
            self.active_track_index
        } else {
            self.selected_track_index
        }
    }

    /// The track that follows: its position and its path.
    pub fn next_track_candidate(&self, clocks: ClockReading) -> (next: Option<(usize, String)>)
        ensures
            match next {
                Some(next) => self@.next_position(clocks) == Some(next.0) && next.1@
                    == self@.path_at(next.0),
                None => self@.next_position(clocks) is None,
            },
    {
        let indexes = self.playback_sequence_indexes();
        if indexes.len() == 0 {
            return None;
        }
        let current = self.current_track_index();
        let mut next: usize = indexes[0];
        assert(indexes@.contains(indexes@[0]));
        if self.state.playback.repeat_mode == RepeatMode::Track {
            if let Some(index) = current {
                if index_set::contains_index(&indexes, index) {
                    next = index;
                }
            }
        } else if self.state.playback.shuffle_enabled {
            match random_sequence_index(&indexes, current, clocks) {
                Some(index) => {
                    next = index;
                },
                None => return None,
            }
        } else if let Some(index) = current {
            if let Some(place) = index_set::find_index(&indexes, index) {
                if place < indexes.len() - 1 {
                    next = indexes[place + 1];
                    assert(indexes@.contains(indexes@[place + 1]));
                }
            }
        }
        assert(self@.next_position(clocks) == Some(next));
        assert(indexes@.contains(next));
        self.track_at_sequence_index(next)
    }

    /// The track at a position of the sequence.
    fn track_at_sequence_index(&self, index: usize) -> (found: Option<(usize, String)>)
        requires
            self@.sequence().contains(index),
        ensures
            found matches Some(found) && found.0 == index && found.1@ == self@.path_at(index),
    {
        match self.current_playlist() {
            Some(shown) => {
                proof {
                    assert(shown@.tracks.len() == shown.tracks.len());
                    sequence_is_in_range(self@, shown@);
                    let k = self@.sequence().index_of(index);
                    assert(self@.sequence()[k] == index);
                    assert(shown@.tracks[index as int] == shown.tracks@[index as int]@);
                }
                Some((index, shown.tracks[index].path.clone()))
            },
            None => {
                assert(false);
                None
            },
        }
    }

    /// The track that comes before: its position and its path.
    pub fn previous_track_candidate(&self) -> (previous: Option<(usize, String)>)
        ensures
            match previous {
                Some(previous) => self@.previous_position() == Some(previous.0) && previous.1@
                    == self@.path_at(previous.0),
                None => self@.previous_position() is None,
            },
    {
        let indexes = self.playback_sequence_indexes();
        if indexes.len() == 0 {
            return None;
        }
        let current = self.current_track_index();
        let mut previous: usize = indexes[0];
        assert(indexes@.contains(indexes@[0]));
        if self.state.playback.repeat_mode == RepeatMode::Track {
            if let Some(index) = current {
                if index_set::contains_index(&indexes, index) {
                    previous = index;
                }
            }
        } else if let Some(index) = current {
            if let Some(place) = index_set::find_index(&indexes, index) {
                let before: usize = if place == 0 {
                    indexes.len() - 1
                } else {
                    place - 1
                };
                previous = indexes[before];
                assert(indexes@.contains(indexes@[before as int]));
            }
        }
        assert(self@.previous_position() == Some(previous));
        self.track_at_sequence_index(previous)
    }

    /// The crossfade for a track that the user asks for.
    pub fn configured_manual_crossfade(&self, status: PlayerStatus) -> (crossfade: Crossfade)
        ensures
            crossfade == self@.manual_crossfade(status),
    {
        if self.state.playback.crossfade_enabled && status.available && status.playing {
            let seconds: u8 = self.state.playback.crossfade_seconds;
            Crossfade::Seconds(
                if seconds > 1 {
                    seconds
                } else {
                    1
                },
            )
        } else {
            Crossfade::Off
        }
    }

    /// Asks for a track.
    pub fn request_track(
        &mut self,
        path: String,
        track_index: Option<usize>,
        start_bits: u32,
        crossfade: Crossfade,
        continues_live: bool,
        status: PlayerStatus,
    )
        ensures
            final(self)@ == old(self)@.with_track_requested(
                path@,
                track_index,
                start_bits,
                crossfade,
                continues_live,
                status,
            ),
    {
        if !status.available {
            self.fail("No audio output device is available. Try Refresh output device.");
            return;
        }
        self.ask(
            Effect::PlayTrack { path, track_index, start_bits, crossfade, continues_live },
        );
    }

    /// Asks for a track with a crossfade.
    pub fn play_path_with_crossfade(
        &mut self,
        path: String,
        track_index: Option<usize>,
        start_bits: u32,
        crossfade: Crossfade,
        status: PlayerStatus,
    )
        ensures
            final(self)@ == old(self)@.with_track_requested(
                path@,
                track_index,
                start_bits,
                crossfade,
                false,
                status,
            ),
    {
        self.request_track(path, track_index, start_bits, crossfade, false, status);
    }

    /// Asks for a track from a position.
    pub fn play_path(
        &mut self,
        path: String,
        track_index: Option<usize>,
        start_bits: u32,
        status: PlayerStatus,
    )
        ensures
            final(self)@ == old(self)@.with_path_requested(path@, track_index, start_bits, status),
    {
        let crossfade = if is_short(start_bits) {
            self.configured_manual_crossfade(status)
        } else {
            Crossfade::Off
        };
        self.play_path_with_crossfade(path, track_index, start_bits, crossfade, status);
    }

    /// The position at which a paused session goes on with a track.
    pub fn saved_paused_resume_position_for_track(&self, path: &str) -> (bits: Option<u32>)
        ensures
            bits == self@.resume_position(path@),
    {
        let session = &self.state.playback_session;
        if !session.was_paused || !text::same_text(session.source.as_str(), "track") {
            return None;
        }
        match &session.track_path {
            Some(session_path) => if paths::same_path(session_path.as_str(), path) {
                Some(selection::clamp_to_zero(session.position_seconds_bits))
            } else {
                None
            },
            None => None,
        }
    }

    /// Asks for the selected track, or for the first that can be played.
    pub fn play_selected_or_first_track(&mut self, status: PlayerStatus)
        ensures
            final(self)@ == old(self)@.with_selected_requested(status),
    {
        self.ensure_selected_track_visible();
        let path = match self.selected_track_path() {
            Some(path) => path,
            None => {
                self.fail("Select a track first.");
                return;
            },
        };
        let start_bits: u32 = match self.saved_paused_resume_position_for_track(path.as_str()) {
            Some(bits) => bits,
            None => 0,
        };
        let track_index = self.selected_track_index;
        self.play_path(path, track_index, start_bits, status);
    }

    /// Asks for the track that follows.
    pub fn play_next_track(&mut self, status: PlayerStatus, clocks: ClockReading)
        ensures
            final(self)@ == old(self)@.with_position_requested(
                old(self)@.next_position(clocks),
                old(self)@.manual_crossfade(status),
                status,
            ),
    {
        let crossfade = self.configured_manual_crossfade(status);
        self.play_next_track_with_crossfade(crossfade, status, clocks);
    }

    /// Asks for the track that follows, with a crossfade.
    pub fn play_next_track_with_crossfade(
        &mut self,
        crossfade: Crossfade,
        status: PlayerStatus,
        clocks: ClockReading,
    )
        ensures
            final(self)@ == old(self)@.with_position_requested(
                old(self)@.next_position(clocks),
                crossfade,
                status,
            ),
    {
        if let Some((index, path)) = self.next_track_candidate(clocks) {
            self.selected_track_index = Some(index);
            self.play_path_with_crossfade(path, Some(index), 0, crossfade, status);
        }
    }

    /// Asks for the track that comes before.
    pub fn play_previous_track(&mut self, status: PlayerStatus)
        ensures
            final(self)@ == old(self)@.with_position_requested(
                old(self)@.previous_position(),
                old(self)@.manual_crossfade(status),
                status,
            ),
    {
        if let Some((index, path)) = self.previous_track_candidate() {
            self.selected_track_index = Some(index);
            let crossfade = self.configured_manual_crossfade(status);
            self.play_path_with_crossfade(path, Some(index), 0, crossfade, status);
        }
    }
}

// ---------------------------------------------------------------------------
// The end of a track
// ---------------------------------------------------------------------------

impl AppView {
    /// Whether another track follows by itself.
    pub open spec fn goes_on(self) -> bool {
        self.state.playback.auto_advance || self.state.playback.repeat_mode != RepeatMode::Off
    }

    /// The playing track, where the next one may fade in over it.
    pub open spec fn may_crossfade(self, status: PlayerStatus) -> bool {
        self.goes_on() && self.state.playback.crossfade_enabled && status.available
            && status.playing && self.active_track_path is Some && !(
        self.crossfade_started_for_path is Some && paths::same_key(
            self.crossfade_started_for_path->0,
            self.active_track_path->0,
        ))
    }

    /// The application once the next track fades in, where that is due.
    pub open spec fn with_crossfade_started(
        self,
        due: Option<u32>,
        status: PlayerStatus,
        clocks: ClockReading,
    ) -> AppView {
        if self.may_crossfade(status) && due is Some {
            let started = AppView {
                crossfade_started_for_path: self.active_track_path,
                ..self
            };
            started.with_position_requested(
                started.next_position(clocks),
                Crossfade::Exact(due->0),
                status,
            )
        } else {
            self
        }
    }

    /// The application after a look at the player: the next track fades in where that is due,
    /// or follows where the track has ended.
    pub open spec fn with_playback_checked(
        self,
        due: Option<u32>,
        status: PlayerStatus,
        clocks: ClockReading,
    ) -> AppView {
        if self.may_crossfade(status) && due is Some {
            self.with_crossfade_started(due, status, clocks)
        } else if status.available && status.finished && self.active_track_index is Some {
            if self.goes_on() {
                self.with_position_requested(self.next_position(clocks), Crossfade::Off, status)
            } else {
                AppView {
                    active_track_index: None,
                    active_playlist_index: None,
                    active_track_path: None,
                    crossfade_started_for_path: None,
                    ..self
                }
            }
        } else {
            self
        }
    }
}

impl AudioOrbitApp {
    /// Whether the next track may fade in over the playing one.
    pub fn crossfade_may_start(&self, status: PlayerStatus) -> (may: bool)
        ensures
            may == self@.may_crossfade(status),
    {
        if !(self.state.playback.auto_advance || self.state.playback.repeat_mode
            != RepeatMode::Off) || !self.state.playback.crossfade_enabled {
            return false;
        }
        if !status.available || !status.playing {
            return false;
        }
        match &self.active_track_path {
            Some(active) => match &self.crossfade_started_for_path {
                Some(started) => !paths::same_path(started.as_str(), active.as_str()),
                None => true,
            },
            None => false,
        }
    }

    /// Lets the next track fade in, where that is due; `due` is the length of the fade as the
    /// bit pattern of a single precision number of seconds. Returns whether it began.
    pub fn maybe_start_crossfade_to_next_track(
        &mut self,
        due: Option<u32>,
        status: PlayerStatus,
        clocks: ClockReading,
    ) -> (started: bool)
        ensures
            started == (old(self)@.may_crossfade(status) && due is Some),
            final(self)@ == old(self)@.with_crossfade_started(due, status, clocks),
    {
        if !self.crossfade_may_start(status) {
            return false;
        }
        match due {
            Some(fade_bits) => {
                self.crossfade_started_for_path = self.active_track_path.clone();
                self.play_next_track_with_crossfade(
                    Crossfade::Exact(fade_bits),
                    status,
                    clocks,
                );
                true
            },
            None => false,
        }
    }

    /// Goes on with the next track, where the playing one ends.
    pub fn update_playback_status(
        &mut self,
        due: Option<u32>,
        status: PlayerStatus,
        clocks: ClockReading,
    )
        ensures
            final(self)@ == old(self)@.with_playback_checked(due, status, clocks),
    {
        if self.maybe_start_crossfade_to_next_track(due, status, clocks) {
            return;
        }
        if status.available && status.finished && self.active_track_index.is_some() {
            if self.state.playback.auto_advance || self.state.playback.repeat_mode
                != RepeatMode::Off {
                self.play_next_track_with_crossfade(Crossfade::Off, status, clocks);
            } else {
                self.active_track_index = None;
                self.active_playlist_index = None;
                self.active_track_path = None;
                self.crossfade_started_for_path = None;
                assert(self@ =~= old(self)@.with_playback_checked(due, status, clocks));
            }
        }
    }
}

// ---------------------------------------------------------------------------
// Volume
// ---------------------------------------------------------------------------

/// What is said of a volume.
pub open spec fn volume_status(percent: u8, muted: bool) -> Seq<char> {
    if muted {
        "Volume muted."@
    } else {
        "Volume: "@ + text::decimal(percent as nat) + "%."@
    }
}

/// The volume that is heard.
pub open spec fn effective_volume(playback: PlaybackSettings) -> u8 {
    if playback.muted {
        0
    } else {
        playback.volume_percent
    }
}

/// The playback settings after the sound was switched off or on. From a volume of zero it is
/// switched on at half volume.
pub open spec fn mute_toggled(playback: PlaybackSettings) -> PlaybackSettings {
    if playback.muted || playback.volume_percent == 0 {
        PlaybackSettings {
            volume_percent: if playback.volume_percent == 0 {
                50
            } else {
                playback.volume_percent
            },
            muted: false,
            ..playback
        }
    } else {
        PlaybackSettings { muted: true, ..playback }
    }
}

impl AppView {
    /// The application with other playback settings, which the player and the user hear of.
    pub open spec fn with_volume_applied(self, playback: PlaybackSettings) -> AppView {
        (AppView { state: StateView { playback, ..self.state }, ..self }).with_effect(
            EffectView::SetVolume { percent: effective_volume(playback) },
        ).with_status(volume_status(playback.volume_percent, playback.muted)).saved()
    }

    /// The application with another volume.
    pub open spec fn with_volume(self, percent: u8) -> AppView {
        let next = if percent > 100 {
            100
        } else {
            percent
        };
        if self.state.playback.volume_percent == next && self.state.playback.muted == (next == 0) {
            self
        } else {
            self.with_volume_applied(
                PlaybackSettings {
                    volume_percent: next,
                    muted: next == 0,
                    ..self.state.playback
                },
            )
        }
    }

    /// The volume after a change.
    pub open spec fn adjusted_volume(self, delta: int) -> u8 {
        let next = effective_volume(self.state.playback) + delta;
        if next < 0 {
            0
        } else if next > 100 {
            100
        } else {
            next as u8
        }
    }
}

impl AudioOrbitApp {
    /// The volume that is heard.
    pub fn effective_volume_percent(&self) -> (percent: u8)
        ensures
            percent == effective_volume(self@.state.playback),
    {
        if self.state.playback.muted {
            0
        } else {
            self.state.playback.volume_percent
        }
    }

    /// Hands the volume to the player.
    pub fn apply_effective_volume_to_player(&mut self)
        ensures
            final(self)@ == old(self)@.with_effect(
                EffectView::SetVolume { percent: effective_volume(old(self)@.state.playback) },
            ),
    {
        let percent: u8 = self.effective_volume_percent();
        self.ask(Effect::SetVolume { percent });
    }

    /// Puts the volume in the status line.
    fn show_volume(&mut self)
        ensures
            final(self)@ == old(self)@.with_status(
                volume_status(
                    old(self)@.state.playback.volume_percent,
                    old(self)@.state.playback.muted,
                ),
            ),
    {
        if self.state.playback.muted {
            self.set_status("Volume muted.".to_owned());
        } else {
            let mut status = "Volume: ".to_owned();
            status.append(
                text::decimal_text(self.state.playback.volume_percent as u64).as_str(),
            );
            status.append("%.");
            self.set_status(status);
        }
    }

    /// Sets the volume.
    pub fn set_volume_percent(&mut self, volume_percent: u8)
        ensures
            final(self)@ == old(self)@.with_volume(volume_percent),
    {
        let next: u8 = if volume_percent > 100 {
            100
        } else {
            volume_percent
        };
        let muted = next == 0;
        if self.state.playback.volume_percent == next && self.state.playback.muted == muted {
            return;
        }
        self.state.playback.volume_percent = next;
        self.state.playback.muted = muted;
        self.apply_effective_volume_to_player();
        self.show_volume();
        self.save_state_silently();
    }

    /// Switches the sound off or on.
    pub fn toggle_mute(&mut self)
        ensures
            final(self)@ == old(self)@.with_volume_applied(mute_toggled(old(self)@.state.playback)),
    {
        if self.state.playback.muted || self.state.playback.volume_percent == 0 {
            if self.state.playback.volume_percent == 0 {
                self.state.playback.volume_percent = 50;
            }
            self.state.playback.muted = false;
        } else {
            self.state.playback.muted = true;
        }
        self.apply_effective_volume_to_player();
        self.show_volume();
        self.save_state_silently();
    }

    /// Changes the volume by a number of percent.
    pub fn adjust_volume(&mut self, delta_percent: i16)
        ensures
            final(self)@ == old(self)@.with_volume(
                old(self)@.adjusted_volume(delta_percent as int),
            ),
    {
        let current: i32 = self.effective_volume_percent() as i32;
        let next: i32 = current + delta_percent as i32;
        let volume: u8 = if next < 0 {
            0
        } else if next > 100 {
            100
        } else {
            next as u8
        };
        self.set_volume_percent(volume);
    }
}

/// Switching the sound off and on again brings the settings back, unless the volume is zero.
pub proof fn mute_twice(playback: PlaybackSettings)
    requires
        playback.volume_percent > 0,
    ensures
        mute_toggled(mute_toggled(playback)) == playback,
{
}

/// The volume that is heard is never over 100 percent once the volume was set.
pub proof fn set_volume_is_bounded(view: AppView, percent: u8)
    ensures
        effective_volume(view.with_volume(percent).state.playback) <= 100,
        effective_volume(view.with_volume(percent).state.playback) == (if percent > 100 {
            100
        } else {
            percent
        }),
{
}

} // verus!
