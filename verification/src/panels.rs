//! The panels: the player bar, the library, the profiles and the settings.

use crate::app::{
    AppView, AudioOrbitApp, BrowsingView, DialogsView, MainContentTab, PlayerStatus, SeekingView,
};
use crate::paths;
use crate::playlist;
use crate::playlist::PlaylistView;
use crate::settings;
use crate::settings::{DspProfileView, DspSettings, PlaybackSettings};
use crate::state::StateView;
use crate::text;
use crate::window::UserCommand;
use vstd::prelude::*;
use vstd::string::*;

verus! {

// ---------------------------------------------------------------------------
// The player bar
// ---------------------------------------------------------------------------

/// What the play button does.
#[derive(Clone, Copy, Debug, PartialEq, Eq, Structural)]
pub enum PlayButton {
    Pause,
    Resume,
    Play,
}

/// What the pointer does to the waveform.
#[derive(Clone, Copy, Debug, PartialEq, Eq, Structural)]
pub struct WaveformPointer {
    pub dragged: bool,
    pub drag_stopped: bool,
    pub clicked: bool,
    pub hovered: bool,
    pub pressed: bool,
    /// The position that the pointer is over, as the bit pattern of a single precision number
    /// of seconds.
    pub position_bits: Option<u32>,
}

/// Texts about what is playing that are put together elsewhere.
#[derive(Debug)]
pub struct DetailTexts {
    pub elapsed: Option<String>,
    pub size: Option<String>,
    pub folder: String,
    pub duration: String,
    pub position: String,
    pub total: String,
}

/// A text, or another one where there is none.
pub open spec fn text_or(value: Option<Seq<char>>, otherwise: Seq<char>) -> Seq<char> {
    match value {
        Some(value) => value,
        None => otherwise,
    }
}

/// A text, or another one where there is none.
fn text_else(value: &Option<String>, otherwise: &str) -> (result: String)
    ensures
        result@ == text_or(paths::text_of(*value), otherwise@),
{
    match value {
        Some(value) => value.clone(),
        None => otherwise.to_owned(),
    }
}

impl AppView {
    /// Whether something is playing or about to.
    pub open spec fn has_now_playing(self) -> bool {
        self.active_track_path is Some || self.pending_track_switch is Some
            || self.radio.active_index is Some
    }

    /// Whether what the shown tab is about is playing or paused.
    pub open spec fn tab_is_playing(self, status: PlayerStatus) -> bool {
        status.active() && if self.browsing.active_tab == MainContentTab::Radio {
            self.radio.active_index is Some
        } else {
            self.active_track_path is Some || self.pending_track_switch is Some
        }
    }

    /// What the play button does.
    pub open spec fn play_button(self, status: PlayerStatus) -> PlayButton {
        if self.tab_is_playing(status) && status.playing {
            PlayButton::Pause
        } else if self.tab_is_playing(status) && status.paused {
            PlayButton::Resume
        } else {
            PlayButton::Play
        }
    }

    /// The command of the play button.
    pub open spec fn play_command(self, status: PlayerStatus) -> Option<UserCommand> {
        if self.tab_is_playing(status) {
            Some(UserCommand::PauseOrResume)
        } else if self.browsing.active_tab == MainContentTab::Radio {
            match self.state.selected_radio_index {
                Some(index) => Some(UserCommand::PlayStation { index }),
                None => None,
            }
        } else {
            Some(UserCommand::PlaySelected)
        }
    }

    /// The application with the waveform dragged to a position, or let go.
    pub open spec fn with_waveform_position(self, position: Option<u32>) -> AppView {
        AppView {
            seeking: SeekingView { drag_position_bits: position, ..self.seeking },
            ..self
        }
    }

    /// Where the waveform is dragged to now.
    pub open spec fn dragged_position(self, pointer: WaveformPointer) -> Option<u32> {
        if pointer.dragged && pointer.position_bits is Some {
            pointer.position_bits
        } else {
            self.seeking.drag_position_bits
        }
    }

    /// The position that is jumped to.
    pub open spec fn waveform_target(self, pointer: WaveformPointer) -> Option<u32> {
        if pointer.drag_stopped {
            match self.dragged_position(pointer) {
                Some(position) => Some(position),
                None => pointer.position_bits,
            }
        } else if pointer.clicked {
            pointer.position_bits
        } else {
            None
        }
    }

    /// The application after the pointer has moved over the waveform.
    pub open spec fn with_waveform_pointer(self, pointer: WaveformPointer) -> AppView {
        if pointer.drag_stopped || pointer.clicked || (!pointer.hovered && !pointer.pressed) {
            self.with_waveform_position(None)
        } else {
            self.with_waveform_position(self.dragged_position(pointer))
        }
    }

    /// What is said of what is playing, below its title.
    pub open spec fn playing_detail(self, texts: DetailTexts) -> Option<Seq<char>> {
        match self.radio.active_index {
            Some(_) => match self.playing_station() {
                Some(station) => Some(
                    self.shown_station_name(station) + " · live for "@ + text_or(
                        paths::text_of(texts.elapsed),
                        "0:00"@,
                    ) + " · "@ + station.url,
                ),
                None => None,
            },
            None => match self.last_playback {
                Some(info) => {
                    let size = text_or(paths::text_of(texts.size), "unknown size"@);
                    let channels = text::decimal(info.input_channels as nat) + " ch · "@ + size;
                    Some(
                        if self.browsing.player_only_mode {
                            text::decimal((info.sample_rate / 1000) as nat) + "k · "@ + channels
                        } else {
                            texts.folder@ + " · "@ + text::decimal(info.sample_rate as nat)
                                + " Hz · "@ + channels + " · duration "@ + texts.duration@
                        },
                    )
                },
                None => None,
            },
        }
    }

    /// What is said of how far what is playing has come.
    pub open spec fn playing_time(self, texts: DetailTexts) -> Seq<char> {
        if self.radio.active_index is Some {
            "Live stream · "@ + text_or(paths::text_of(texts.elapsed), "0:00"@)
        } else if self.active_track_path is Some || self.pending_track_switch is Some {
            texts.position@ + " / "@ + texts.total@
        } else {
            Seq::empty()
        }
    }

    /// What the status line says.
    pub open spec fn shown_status(self, now: u64) -> Seq<char> {
        text_or(self.apply_notice(now), self.messages.status)
    }
}

impl AudioOrbitApp {
    /// Whether something is playing or about to.
    pub fn has_active_source(&self) -> (active: bool)
        ensures
            active == self@.has_now_playing(),
    {
        self.active_track_path.is_some() || self.pending_track_switch.is_some()
            || self.radio.active_index.is_some()
    }

    /// Whether what the shown tab is about is playing or paused.
    fn shown_tab_is_playing(&self, status: PlayerStatus) -> (playing: bool)
        ensures
            playing == self@.tab_is_playing(status),
    {
        status.is_active() && if self.browsing.active_tab == MainContentTab::Radio {
            self.radio.active_index.is_some()
        } else {
            self.active_track_path.is_some() || self.pending_track_switch.is_some()
        }
    }

    /// What the play button does.
    pub fn play_button_state(&self, status: PlayerStatus) -> (button: PlayButton)
        ensures
            button == self@.play_button(status),
    {
        let playing = self.shown_tab_is_playing(status);
        if playing && status.playing {
            PlayButton::Pause
        } else if playing && status.paused {
            PlayButton::Resume
        } else {
            PlayButton::Play
        }
    }

    /// The command of the play button.
    pub fn play_button_command(&self, status: PlayerStatus) -> (command: Option<UserCommand>)
        ensures
            command == self@.play_command(status),
    {
        if self.shown_tab_is_playing(status) {
            Some(UserCommand::PauseOrResume)
        } else if self.browsing.active_tab == MainContentTab::Radio {
            match self.state.selected_radio_index {
                Some(index) => Some(UserCommand::PlayStation { index }),
                None => None,
            }
        } else {
            Some(UserCommand::PlaySelected)
        }
    }

    /// Takes over what the pointer does to the waveform; returns the position to jump to.
    pub fn update_waveform_drag(&mut self, pointer: WaveformPointer) -> (target: Option<u32>)
        ensures
            target == old(self)@.waveform_target(pointer),
            final(self)@ == old(self)@.with_waveform_pointer(pointer),
    {
        let dragged = if pointer.dragged && pointer.position_bits.is_some() {
            pointer.position_bits
        } else {
            self.seeking.drag_position_bits
        };
        let target = if pointer.drag_stopped {
            if dragged.is_some() {
                dragged
            } else {
                pointer.position_bits
            }
        } else if pointer.clicked {
            pointer.position_bits
        } else {
            None
        };
        let ends = pointer.drag_stopped || pointer.clicked || (!pointer.hovered
            && !pointer.pressed);
        self.seeking.drag_position_bits = if ends {
            None
        } else {
            dragged
        };
        target
    }

    /// What is said of what is playing, below its title.
    pub fn active_track_detail(&self, texts: &DetailTexts) -> (detail: Option<String>)
        ensures
            paths::text_of(detail) == self@.playing_detail(*texts),
    {
        if self.radio.active_index.is_some() {
            return match self.active_station() {
                Some(station) => {
                    let mut detail = self.station_name_to_show(station);
                    detail.append(" · live for ");
                    detail.append(text_else(&texts.elapsed, "0:00").as_str());
                    detail.append(" · ");
                    detail.append(station.url.as_str());
                    Some(detail)
                },
                None => None,
            };
        }
        match &self.last_playback {
            Some(info) => {
                let mut channels = text::decimal_text(info.input_channels as u64);
                channels.append(" ch · ");
                channels.append(text_else(&texts.size, "unknown size").as_str());
                let mut detail = String::new();
                if self.browsing.player_only_mode {
                    detail.append(text::decimal_text((info.sample_rate / 1000) as u64).as_str());
                    detail.append("k · ");
                    detail.append(channels.as_str());
                } else {
                    detail.append(texts.folder.as_str());
                    detail.append(" · ");
                    detail.append(text::decimal_text(info.sample_rate as u64).as_str());
                    detail.append(" Hz · ");
                    detail.append(channels.as_str());
                    detail.append(" · duration ");
                    detail.append(texts.duration.as_str());
                }
                assert(detail@ =~= self@.playing_detail(*texts)->0);
                Some(detail)
            },
            None => None,
        }
    }

    /// What is said of how far what is playing has come.
    pub fn active_track_time_label(&self, texts: &DetailTexts) -> (label: String)
        ensures
            label@ == self@.playing_time(*texts),
    {
        let mut label = String::new();
        if self.radio.active_index.is_some() {
            label.append("Live stream · ");
            label.append(text_else(&texts.elapsed, "0:00").as_str());
        } else if self.active_track_path.is_some() || self.pending_track_switch.is_some() {
            label.append(texts.position.as_str());
            label.append(" / ");
            label.append(texts.total.as_str());
        }
        assert(label@ =~= self@.playing_time(*texts));
        label
    }

    /// What the status line says.
    pub fn status_text(&self, now: u64) -> (status: String)
        ensures
            status@ == self@.shown_status(now),
    {
        match self.profile_apply_status_text(now) {
            Some(notice) => notice,
            None => self.messages.status.clone(),
        }
    }
}

// ---------------------------------------------------------------------------
// The library panel
// ---------------------------------------------------------------------------

impl AppView {
    /// The application with a playlist renamed, where a user may rename it.
    pub open spec fn with_playlist_renamed(self, index: usize, name: Seq<char>) -> AppView {
        if index < self.state.playlists.len()
            && self.state.playlists[index as int].kind.is_deletable() {
            self.with_playlists(
                self.state.playlists.update(
                    index as int,
                    PlaylistView { name, ..self.state.playlists[index as int] },
                ),
            ).saved()
        } else {
            self.saved()
        }
    }

    /// The application with a group of the shown playlist selected, or all of them, and the
    /// list scrolled to where it was when that was shown last.
    pub open spec fn with_group_chosen(self, group: Option<Seq<char>>) -> AppView {
        match self.current() {
            Some(shown) => if shown.selected_group == group {
                self
            } else {
                let kept = self.with_scroll_offset(self.state.ui.playlist_scroll_offset_bits);
                let chosen = kept.with_current(
                    (PlaylistView { selected_group: group, ..shown }).with_valid_group(),
                );
                chosen.with_layout(
                    settings::UiView {
                        playlist_scroll_offset_bits: chosen.scroll_offset(),
                        ..chosen.state.ui
                    },
                ).with_visible_selection().saved()
            },
            None => self,
        }
    }

    /// The application with the dialog closed that imports a folder, and no folder chosen.
    pub open spec fn with_import_dismissed(self) -> AppView {
        AppView {
            dialogs: DialogsView {
                show_folder_import_modal: false,
                pending_folder_path: None,
                ..self.dialogs
            },
            ..self
        }
    }
}

impl AudioOrbitApp {
    /// Renames a playlist, where a user may rename it.
    pub fn rename_playlist(&mut self, index: usize, name: String)
        ensures
            final(self)@ == old(self)@.with_playlist_renamed(index, name@),
    {
        let ghost start = self@;
        if index < self.state.playlists.len() {
            let ghost before = self.state.playlists@;
            assert(start.state.playlists[index as int] == before[index as int]@);
            if self.state.playlists[index].kind.can_delete() {
                self.state.playlists[index].name = name;
                proof {
                    let renamed = PlaylistView {
                        name: name@,
                        ..start.state.playlists[index as int]
                    };
                    assert(self.state.playlists@[index as int]@ =~= renamed);
                    assert(playlist::playlist_views(self.state.playlists@)
                        =~= start.state.playlists.update(index as int, renamed));
                    assert(self@ =~= start.with_playlists(
                        start.state.playlists.update(index as int, renamed),
                    ));
                }
            }
        }
        self.save_state_silently();
    }

    /// Begins to rename a playlist, or ends it.
    pub fn set_editing_playlist(&mut self, index: Option<usize>)
        ensures
            final(self)@ == (AppView {
                browsing: BrowsingView { editing_playlist_index: index, ..old(self)@.browsing },
                ..old(self)@
            }),
    {
        self.browsing.editing_playlist_index = index;
    }

    /// Selects a group of the shown playlist.
    fn put_selected_group(&mut self, group: Option<String>)
        requires
            old(self)@.current() is Some,
        ensures
            final(self)@ == old(self)@.with_current(
                (PlaylistView {
                    selected_group: paths::text_of(group),
                    ..old(self)@.current()->0
                }).with_valid_group(),
            ),
    {
        let ghost start = self@;
        let index: usize = self.state.selected_playlist_index;
        let ghost before = self.state.playlists@;
        assert(start.state.playlists[index as int] == before[index as int]@);
        self.state.playlists[index].set_selected_group(group);
        assert(playlist::playlist_views(self.state.playlists@) =~= start.state.playlists.update(
            index as int,
            self.state.playlists@[index as int]@,
        ));
        assert(self@ =~= start.with_current(self.state.playlists@[index as int]@));
    }

    /// Sets how far the shown list is scrolled.
    fn put_scroll_offset(&mut self, bits: u32)
        ensures
            final(self)@ == old(self)@.with_layout(
                settings::UiView {
                    playlist_scroll_offset_bits: bits,
                    ..old(self)@.state.ui
                },
            ),
    {
        self.state.ui.playlist_scroll_offset_bits = bits;
        assert(self.state@ =~= (StateView {
            ui: settings::UiView {
                playlist_scroll_offset_bits: bits,
                ..old(self)@.state.ui
            },
            ..old(self)@.state
        }));
    }

    /// Selects a group of the shown playlist, or all of them.
    pub fn choose_folder_group(&mut self, group: Option<String>)
        ensures
            final(self)@ == old(self)@.with_group_chosen(paths::text_of(group)),
    {
        let same = match self.current_playlist() {
            Some(shown) => same_group(&shown.selected_group, &group),
            None => return,
        };
        if same {
            return;
        }
        let offset: u32 = self.state.ui.playlist_scroll_offset_bits;
        self.remember_current_playlist_scroll_offset(offset);
        self.put_selected_group(group);
        let restored: u32 = self.current_playlist_scroll_offset_y();
        self.put_scroll_offset(restored);
        self.ensure_selected_track_visible();
        self.save_state_silently();
    }

    /// Shows a tab, now and in the next run.
    pub fn show_content_tab(&mut self, tab: MainContentTab)
        ensures
            final(self)@ == old(self)@.with_tab(tab).saved(),
    {
        self.show_tab(tab);
        self.save_state_silently();
    }

    /// Closes the dialog that imports a folder, and forgets the folder.
    pub fn dismiss_folder_import(&mut self)
        ensures
            final(self)@ == old(self)@.with_import_dismissed(),
    {
        self.dialogs.show_folder_import_modal = false;
        self.dialogs.pending_folder_path = None;
    }
}

/// Whether two groups that may be selected are the same.
fn same_group(left: &Option<String>, right: &Option<String>) -> (same: bool)
    ensures
        same == (paths::text_of(*left) == paths::text_of(*right)),
{
    match left {
        Some(left) => match right {
            Some(right) => text::same_text(left.as_str(), right.as_str()),
            None => false,
        },
        None => right.is_none(),
    }
}

// ---------------------------------------------------------------------------
// Settings
// ---------------------------------------------------------------------------

impl AppView {
    /// The application with other settings for playback.
    pub open spec fn with_playback_settings(self, playback: PlaybackSettings) -> AppView {
        if playback == self.state.playback {
            self
        } else {
            (AppView { state: StateView { playback, ..self.state }, ..self }).saved()
        }
    }

    /// The application with other settings in the selected profile, which are applied soon.
    pub open spec fn with_profile_edited(self, edited: DspProfileView, now: u64) -> AppView {
        let index = self.state.selected_profile_index;
        if index >= self.state.profiles.len() || self.state.profiles[index as int] == edited {
            self
        } else {
            (AppView {
                state: StateView {
                    profiles: self.state.profiles.update(index as int, edited),
                    ..self.state
                },
                ..self
            }).with_apply_scheduled(now)
        }
    }

    /// The application with recordings in their default folder.
    pub open spec fn with_recording_folder_reset(self) -> AppView {
        (AppView { state: StateView { recording: None, ..self.state }, ..self }).with_status(
            "Radio recording folder reset to .audio-orbit-records next to the executable."@,
        ).with_error(None).saved()
    }
}

impl AudioOrbitApp {
    /// Takes other settings for playback.
    pub fn change_playback_settings(&mut self, playback: PlaybackSettings)
        ensures
            final(self)@ == old(self)@.with_playback_settings(playback),
    {
        if playback == self.state.playback {
            return;
        }
        let ghost start = self@;
        self.state.playback = playback;
        assert(self.state@ =~= (StateView { playback, ..start.state }));
        self.save_state_silently();
    }

    /// Goes on to the next repeat mode.
    pub fn cycle_repeat_mode(&mut self)
        ensures
            final(self)@ == old(self)@.with_playback_settings(
                PlaybackSettings {
                    repeat_mode: old(self)@.state.playback.repeat_mode.following(),
                    ..old(self)@.state.playback
                },
            ),
    {
        let mut playback = self.state.playback;
        playback.repeat_mode = playback.repeat_mode.next();
        self.change_playback_settings(playback);
    }

    /// Takes another profile in place of the selected one.
    fn put_profile(&mut self, edited: settings::DspProfile)
        requires
            old(self)@.state.selected_profile_index < old(self)@.state.profiles.len(),
        ensures
            final(self)@ == (AppView {
                state: StateView {
                    profiles: old(self)@.state.profiles.update(
                        old(self)@.state.selected_profile_index as int,
                        edited@,
                    ),
                    ..old(self)@.state
                },
                ..old(self)@
            }),
    {
        let ghost start = self@;
        let index: usize = self.state.selected_profile_index;
        self.state.profiles[index] = edited;
        assert(settings::profile_views(self.state.profiles@) =~= start.state.profiles.update(
            index as int,
            edited@,
        ));
        assert(self.state@ =~= (StateView {
            profiles: start.state.profiles.update(index as int, edited@),
            ..start.state
        }));
    }

    /// Takes other settings for the selected profile, and applies them soon.
    pub fn change_profile_settings(&mut self, chosen: DspSettings, now: u64)
        ensures
            ({
                let start = old(self)@;
                let index = start.state.selected_profile_index;
                final(self)@ == if index < start.state.profiles.len() {
                    start.with_profile_edited(
                        DspProfileView {
                            settings: chosen,
                            ..start.state.profiles[index as int]
                        },
                        now,
                    )
                } else {
                    start
                }
            }),
    {
        let index: usize = self.state.selected_profile_index;
        assert(self@.state.profiles.len() == self.state.profiles@.len());
        if index >= self.state.profiles.len() {
            return;
        }
        assert(self@.state.profiles[index as int] == self.state.profiles@[index as int]@);
        if self.state.profiles[index].settings == chosen {
            return;
        }
        let edited = settings::DspProfile::new(self.state.profiles[index].name.as_str(), chosen);
        self.put_profile(edited);
        self.schedule_current_profile_apply(now);
    }

    /// Renames the selected profile.
    pub fn rename_current_profile(&mut self, name: &str, now: u64)
        ensures
            ({
                let start = old(self)@;
                let index = start.state.selected_profile_index;
                final(self)@ == if index < start.state.profiles.len() {
                    start.with_profile_edited(
                        DspProfileView { name: name@, ..start.state.profiles[index as int] },
                        now,
                    )
                } else {
                    start
                }
            }),
    {
        let index: usize = self.state.selected_profile_index;
        assert(self@.state.profiles.len() == self.state.profiles@.len());
        if index >= self.state.profiles.len() {
            return;
        }
        assert(self@.state.profiles[index as int] == self.state.profiles@[index as int]@);
        if text::same_text(self.state.profiles[index].name.as_str(), name) {
            return;
        }
        let edited = settings::DspProfile::new(name, self.state.profiles[index].settings);
        self.put_profile(edited);
        self.schedule_current_profile_apply(now);
    }

    /// Begins to rename the selected profile.
    pub fn begin_profile_rename(&mut self)
        ensures
            final(self)@ == (AppView {
                browsing: BrowsingView {
                    editing_profile_index: Some(old(self)@.state.selected_profile_index),
                    ..old(self)@.browsing
                },
                ..old(self)@
            }),
    {
        self.browsing.editing_profile_index = Some(self.state.selected_profile_index);
    }

    /// Puts recordings into their default folder again.
    pub fn reset_recording_folder(&mut self)
        ensures
            final(self)@ == old(self)@.with_recording_folder_reset(),
    {
        let ghost start = self@;
        self.state.recording.output_folder = None;
        assert(self.state@ =~= (StateView { recording: None, ..start.state }));
        self.set_status(
            "Radio recording folder reset to .audio-orbit-records next to the executable.".to_owned(),
        );
        self.set_error(None);
        self.save_state_silently();
    }
}

} // verus!
