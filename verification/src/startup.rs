//! How the application begins and ends, and how playback goes on from one run to the next.

use crate::app::{
    AppView, AudioOrbitApp, Browsing, BrowsingView, Dialogs, DialogsView, Effect, EffectView,
    FolderWatch, Jobs, MainContentTab, Messages, MessagesView, OutputDevice, OutputDeviceView,
    PlayerStatus, RadioPlayback, RadioPlaybackView, Seeking, SeekingView,
};
use crate::app;
use crate::library;
use crate::library::{LibrarySyncRequest, LibrarySyncTrigger};
use crate::selection;
use crate::session;
use crate::settings::PlaybackSession;
use crate::silence::{SilenceCache, SilenceEntryView};
use crate::state::{SavedState, StateView};
use crate::text;
use crate::updates;
use crate::updates::Updates;
use vstd::prelude::*;
use vstd::string::*;

verus! {

// ---------------------------------------------------------------------------
// A new application
// ---------------------------------------------------------------------------

/// The audio output at startup: the device that plays, or the default one and why it does not.
#[derive(Debug)]
pub enum OutputAtStartup {
    Ready { name: String },
    Failed { default_name: String, error: String },
}

/// The search, scrolling, dragging and panels of a new application.
pub open spec fn new_browsing(state: StateView) -> BrowsingView {
    BrowsingView {
        active_tab: MainContentTab::Music,
        show_library_panel: state.ui.show_library_panel,
        show_profile_panel: state.ui.show_profile_panel,
        player_only_mode: state.ui.player_only_mode,
        show_track_search: state.ui.show_track_search,
        show_radio_search: false,
        search_playback_filtered_only: state.ui.search_playback_filtered_only,
        focus_track_search: false,
        focus_radio_search: false,
        track_search_query: Seq::empty(),
        search_cursor: 0,
        radio_search_query: Seq::empty(),
        radio_show_favorites_only: false,
        scroll_to_active_track_requested: false,
        scroll_to_track_path_requested: None,
        scroll_to_active_radio_requested: false,
        scroll_to_folder_group_requested: None,
        collapsed_groups: Seq::empty(),
        dragging_track_index: None,
        dragging_radio_index: None,
        track_drop_target_index: None,
        radio_drop_target_index: None,
        editing_playlist_index: None,
        editing_profile_index: None,
        suppress_window_geometry_save_until: None,
    }
}

/// The dialogs of a new application: none is open.
pub open spec fn new_dialogs() -> DialogsView {
    DialogsView {
        show_folder_import_modal: false,
        show_radio_add_modal: false,
        show_new_playlist_modal: false,
        pending_new_playlist_name: Seq::empty(),
        pending_new_playlist_tracks: Seq::empty(),
        pending_track_delete_confirmation: None,
        pending_track_delete_confirmation_text: Seq::empty(),
        active_panel_modal: None,
        panel_modal_history: Seq::empty(),
        details_modal: None,
        pending_folder_path: None,
        pending_playlist_name: "Local music"@,
        pending_folder_depth: 2,
        pending_radio_name: Seq::empty(),
        pending_radio_url: Seq::empty(),
        pending_clipboard_text: None,
    }
}

/// The messages of a new application.
pub open spec fn new_messages(output: OutputAtStartup, now: u64) -> MessagesView {
    MessagesView {
        status: match output {
            OutputAtStartup::Ready { name } => "Ready. Output device: "@ + name@,
            OutputAtStartup::Failed { .. } => "No audio output device is available."@,
        },
        error: match output {
            OutputAtStartup::Ready { .. } => None,
            OutputAtStartup::Failed { error, .. } => Some(error@),
        },
        status_last_seen: Seq::empty(),
        status_updated_at: now,
        error_last_seen: match output {
            OutputAtStartup::Ready { .. } => None,
            OutputAtStartup::Failed { error, .. } => Some(error@),
        },
        error_updated_at: now,
    }
}

/// The output device of a new application.
pub open spec fn new_output(output: OutputAtStartup, now: u64) -> OutputDeviceView {
    OutputDeviceView {
        last_known_name: match output {
            OutputAtStartup::Ready { name } => name@,
            OutputAtStartup::Failed { default_name, .. } => default_name@,
        },
        detected_change: None,
        last_check_at: now,
    }
}

/// No radio station is playing.
pub open spec fn no_station() -> RadioPlaybackView {
    RadioPlaybackView {
        active_index: None,
        selection_was_user_set: false,
        station_name: None,
        title: None,
        started_at: None,
        last_title_lookup_at: None,
        title_lookup_running: false,
    }
}

/// No jump is waiting.
pub open spec fn no_seeking() -> SeekingView {
    SeekingView { fast: None, prepare: None, last_started_at: None, drag_position_bits: None }
}

/// No background work is running.
pub open spec fn no_jobs(now: u64) -> Jobs {
    Jobs {
        prepared_track: false,
        folder_scan: false,
        library_sync: false,
        track_file_operation: false,
        update_check: false,
        update_install: false,
        dj_mix: false,
        profile_apply_at: None,
        profile_applied_until: None,
        last_library_sync_at: now,
    }
}

/// A new application, before playback goes on.
pub open spec fn fresh_app(state: StateView, output: OutputAtStartup, now: u64) -> AppView {
    AppView {
        state,
        selected_track_index: None,
        selected_track_indexes: Seq::empty(),
        multi_selected_track_indexes: Seq::empty(),
        track_selection_anchor_index: None,
        active_track_index: None,
        active_playlist_index: None,
        active_track_path: None,
        last_playback: None,
        crossfade_started_for_path: None,
        pending_track_switch: None,
        seeking: no_seeking(),
        silence: Seq::<SilenceEntryView>::empty(),
        radio: no_station(),
        messages: new_messages(output, now),
        browsing: new_browsing(state),
        dialogs: new_dialogs(),
        order_undo_stack: Seq::empty(),
        output: new_output(output, now),
        watch: app::no_watch(),
        jobs: no_jobs(now),
        updates: updates::no_updates(),
        mix: None,
        effects: Seq::empty(),
    }
}

/// The player at startup.
pub open spec fn player_at_startup(output: OutputAtStartup) -> PlayerStatus {
    PlayerStatus { available: output is Ready, ..app::stopped_player() }
}

impl AppView {
    /// The application with the volume handed to the player, where there is one.
    pub open spec fn with_initial_volume(self, status: PlayerStatus) -> AppView {
        if status.available {
            self.with_effect(
                EffectView::SetVolume {
                    percent: crate::playback::effective_volume(self.state.playback),
                },
            )
        } else {
            self
        }
    }

    /// The application with a radio station selected and shown.
    pub open spec fn with_station_in_view(self, index: usize) -> AppView {
        AppView {
            state: StateView { selected_radio_index: Some(index), ..self.state },
            radio: RadioPlaybackView { selection_was_user_set: true, ..self.radio },
            browsing: BrowsingView {
                active_tab: MainContentTab::Radio,
                scroll_to_active_radio_requested: true,
                ..self.browsing
            },
            ..self
        }
    }

    /// The application with a track selected and shown.
    pub open spec fn with_track_in_view(self, playlist_index: usize, track_index: usize) -> AppView {
        AppView {
            state: StateView { selected_playlist_index: playlist_index, ..self.state },
            selected_track_index: Some(track_index),
            browsing: BrowsingView {
                active_tab: MainContentTab::Music,
                scroll_to_active_track_requested: true,
                ..self.browsing
            },
            ..self
        }
    }

    /// The application with the radio station of the last run selected, and playing where it
    /// was playing.
    pub open spec fn with_station_restored(self, status: PlayerStatus) -> AppView {
        let last = self.state.playback_session;
        match session::either(last.radio_index, self.state.selected_radio_index) {
            Some(index) => if index < self.state.radio_stations.len() {
                let selected = self.with_station_in_view(index);
                if last.was_active && !last.was_paused {
                    selected.with_station_requested(index, status)
                } else {
                    selected
                }
            } else {
                self
            },
            None => self,
        }
    }

    /// The application with the track of the last run selected, and playing on where it was
    /// playing.
    pub open spec fn with_track_restored(self, status: PlayerStatus) -> AppView {
        let last = self.state.playback_session;
        match self.track_of_session(last) {
            Some(place) => {
                let selected = self.with_track_in_view(place.0, place.1);
                if last.was_active && !last.was_paused {
                    selected.with_path_requested(
                        place.2,
                        Some(place.1),
                        selection::at_least_zero(last.position_seconds_bits),
                        status,
                    )
                } else {
                    selected
                }
            },
            None => self,
        }
    }

    /// The application with what was played in the last run.
    pub open spec fn with_session_restored(self, status: PlayerStatus) -> AppView {
        let source = self.state.playback_session.source;
        if source == "radio"@ {
            self.with_station_restored(status)
        } else if source == "track"@ || source == "music"@ {
            self.with_track_restored(status)
        } else {
            self
        }
    }
}

/// No search, scrolling or dragging; the panels as the state shows them.
fn initial_browsing(state: &SavedState) -> (browsing: Browsing)
    ensures
        browsing@ == new_browsing(state@),
{
    let browsing = Browsing {
        active_tab: MainContentTab::Music,
        show_library_panel: state.ui.show_library_panel,
        show_profile_panel: state.ui.show_profile_panel,
        player_only_mode: state.ui.player_only_mode,
        show_track_search: state.ui.show_track_search,
        show_radio_search: false,
        search_playback_filtered_only: state.ui.search_playback_filtered_only,
        focus_track_search: false,
        focus_radio_search: false,
        track_search_query: String::new(),
        search_cursor: 0,
        radio_search_query: String::new(),
        radio_show_favorites_only: false,
        scroll_to_active_track_requested: false,
        scroll_to_track_path_requested: None,
        scroll_to_active_radio_requested: false,
        scroll_to_folder_group_requested: None,
        collapsed_groups: Vec::new(),
        dragging_track_index: None,
        dragging_radio_index: None,
        track_drop_target_index: None,
        radio_drop_target_index: None,
        editing_playlist_index: None,
        editing_profile_index: None,
        suppress_window_geometry_save_until: None,
    };
    assert(text::texts(browsing.collapsed_groups@) =~= Seq::empty());
    assert(browsing@ =~= new_browsing(state@));
    browsing
}

/// No dialog is open.
fn initial_dialogs() -> (dialogs: Dialogs)
    ensures
        dialogs@ == new_dialogs(),
{
    let dialogs = Dialogs {
        show_folder_import_modal: false,
        show_radio_add_modal: false,
        show_new_playlist_modal: false,
        pending_new_playlist_name: String::new(),
        pending_new_playlist_tracks: Vec::new(),
        pending_track_delete_confirmation: None,
        pending_track_delete_confirmation_text: String::new(),
        active_panel_modal: None,
        panel_modal_history: Vec::new(),
        details_modal: None,
        pending_folder_path: None,
        pending_playlist_name: "Local music".to_owned(),
        pending_folder_depth: 2,
        pending_radio_name: String::new(),
        pending_radio_url: String::new(),
        pending_clipboard_text: None,
    };
    assert(text::texts(dialogs.pending_new_playlist_tracks@) =~= Seq::empty());
    assert(dialogs@ =~= new_dialogs());
    dialogs
}

/// The messages and the output device of a new application.
fn initial_output(output: &OutputAtStartup, now: u64) -> (result: (Messages, OutputDevice))
    ensures
        result.0@ == new_messages(*output, now),
        result.1@ == new_output(*output, now),
{
    match output {
        OutputAtStartup::Ready { name } => {
            let mut status = "Ready. Output device: ".to_owned();
            status.append(name.as_str());
            let messages = Messages {
                status,
                error: None,
                status_last_seen: String::new(),
                status_updated_at: now,
                error_last_seen: None,
                error_updated_at: now,
            };
            let device = OutputDevice {
                last_known_name: name.clone(),
                detected_change: None,
                last_check_at: now,
            };
            assert(messages@ =~= new_messages(*output, now));
            assert(device@ =~= new_output(*output, now));
            (messages, device)
        },
        OutputAtStartup::Failed { default_name, error } => {
            let messages = Messages {
                status: "No audio output device is available.".to_owned(),
                error: Some(error.clone()),
                status_last_seen: String::new(),
                status_updated_at: now,
                error_last_seen: Some(error.clone()),
                error_updated_at: now,
            };
            let device = OutputDevice {
                last_known_name: default_name.clone(),
                detected_change: None,
                last_check_at: now,
            };
            assert(messages@ =~= new_messages(*output, now));
            assert(device@ =~= new_output(*output, now));
            (messages, device)
        },
    }
}

/// A new application, before playback goes on.
fn initial_app(state: SavedState, output: &OutputAtStartup, now: u64) -> (app: AudioOrbitApp)
    ensures
        app@ == fresh_app(state@, *output, now),
{
    let browsing = initial_browsing(&state);
    let (messages, device) = initial_output(output, now);
    let app = AudioOrbitApp {
        state,
        selected_track_index: None,
        selected_track_indexes: Vec::new(),
        multi_selected_track_indexes: Vec::new(),
        track_selection_anchor_index: None,
        active_track_index: None,
        active_playlist_index: None,
        active_track_path: None,
        last_playback: None,
        crossfade_started_for_path: None,
        pending_track_switch: None,
        seeking: Seeking {
            fast: None,
            prepare: None,
            last_started_at: None,
            drag_position_bits: None,
        },
        silence: SilenceCache::new(),
        radio: RadioPlayback {
            active_index: None,
            selection_was_user_set: false,
            station_name: None,
            title: None,
            started_at: None,
            last_title_lookup_at: None,
            title_lookup_running: false,
        },
        messages,
        browsing,
        dialogs: initial_dialogs(),
        order_undo_stack: Vec::new(),
        output: device,
        watch: FolderWatch::new(),
        jobs: Jobs {
            prepared_track: false,
            folder_scan: false,
            library_sync: false,
            track_file_operation: false,
            update_check: false,
            update_install: false,
            dj_mix: false,
            profile_apply_at: None,
            profile_applied_until: None,
            last_library_sync_at: now,
        },
        updates: Updates::new(),
        mix: None,
        effects: Vec::new(),
    };
    proof {
        assert(app::undo_views(app.order_undo_stack@) =~= Seq::empty());
        assert(app::effect_views(app.effects@) =~= Seq::empty());
        assert(app.seeking@ =~= no_seeking());
        assert(app.radio@ =~= no_station());
    }
    app
}

impl AudioOrbitApp {
    /// Makes the application from the saved state. The track that was played last is selected,
    /// and playback goes on where it was not paused.
    pub fn new(state: SavedState, output: OutputAtStartup, now: u64) -> (app: AudioOrbitApp)
        ensures
            ({
                let status = player_at_startup(output);
                app@ == fresh_app(state@, output, now).with_initial_volume(
                    status,
                ).with_last_played_selected().with_session_restored(status)
            }),
    {
        let ready = match &output {
            OutputAtStartup::Ready { .. } => true,
            OutputAtStartup::Failed { .. } => false,
        };
        let status = PlayerStatus {
            available: ready,
            playing: false,
            paused: false,
            finished: false,
            recording: false,
        };
        let mut app = initial_app(state, &output, now);
        if ready {
            app.apply_effective_volume_to_player();
        }
        app.restore_last_played_track_selection();
        app.restore_saved_playback_session(status);
        app
    }

    /// Takes up the repeated tracks once playback goes on, and checks the library; returns
    /// what has to be looked at.
    pub fn finish_startup(&mut self, now: u64, interval: u64) -> (request: Option<
        LibrarySyncRequest,
    >)
        ensures
            library::request_view(request)
                == old(self)@.with_repeat_restored().library_request(
                LibrarySyncTrigger::Startup,
                false,
            ),
            final(self)@ == old(self)@.with_repeat_restored().with_sync_started(
                LibrarySyncTrigger::Startup,
                false,
                now,
                interval,
            ),
    {
        self.restore_repeat_selection_for_current_playlist();
        self.start_library_sync(LibrarySyncTrigger::Startup, false, now, interval)
    }

    /// Selects and shows a radio station.
    fn bring_station_into_view(&mut self, index: usize)
        ensures
            final(self)@ == old(self)@.with_station_in_view(index),
    {
        self.browsing.active_tab = MainContentTab::Radio;
        self.browsing.scroll_to_active_radio_requested = true;
        self.state.selected_radio_index = Some(index);
        self.radio.selection_was_user_set = true;
    }

    /// Selects and shows a track.
    pub(crate) fn bring_track_into_view(&mut self, playlist_index: usize, track_index: usize)
        ensures
            final(self)@ == old(self)@.with_track_in_view(playlist_index, track_index),
    {
        self.browsing.active_tab = MainContentTab::Music;
        self.browsing.scroll_to_active_track_requested = true;
        self.state.selected_playlist_index = playlist_index;
        self.selected_track_index = Some(track_index);
    }

    /// Selects the radio station of the last run, and plays it where it was playing.
    fn restore_station(&mut self, last: &PlaybackSession, status: PlayerStatus)
        requires
            last@ == old(self)@.state.playback_session,
        ensures
            final(self)@ == old(self)@.with_station_restored(status),
    {
        let index: usize = match last.radio_index {
            Some(index) => index,
            None => match self.state.selected_radio_index {
                Some(index) => index,
                None => return,
            },
        };
        assert(self@.state.radio_stations.len() == self.state.radio_stations@.len());
        if index >= self.state.radio_stations.len() {
            return;
        }
        self.bring_station_into_view(index);
        if last.was_active && !last.was_paused {
            self.play_radio_station(index, status);
        }
    }

    /// Selects the track of the last run, and plays on where it was playing.
    fn restore_track(&mut self, last: &PlaybackSession, status: PlayerStatus)
        requires
            last@ == old(self)@.state.playback_session,
        ensures
            final(self)@ == old(self)@.with_track_restored(status),
    {
        let (playlist_index, track_index, path) = match self.find_session_track(last) {
            Some(place) => place,
            None => return,
        };
        self.bring_track_into_view(playlist_index, track_index);
        if last.was_active && !last.was_paused {
            let start: u32 = selection::clamp_to_zero(last.position_seconds_bits);
            self.play_path(path, Some(track_index), start, status);
        }
    }

    /// Takes up what was played in the last run.
    pub fn restore_saved_playback_session(&mut self, status: PlayerStatus)
        ensures
            final(self)@ == old(self)@.with_session_restored(status),
    {
        let last = self.state.playback_session.clone();
        if text::same_text(last.source.as_str(), "radio") {
            self.restore_station(&last, status);
        } else if text::same_text(last.source.as_str(), "track") || text::same_text(
            last.source.as_str(),
            "music",
        ) {
            self.restore_track(&last, status);
        }
    }

    /// Takes note that playback was paused or resumed; `after` is what the player does now.
    pub fn pause_or_resume(&mut self, after: PlayerStatus, position_bits: u32)
        ensures
            final(self)@ == (if after.available && after.paused {
                old(self)@.with_status("Playback paused."@)
            } else if after.available && after.playing {
                old(self)@.with_status("Playback resumed."@)
            } else {
                old(self)@
            }).with_session(after, position_bits).saved(),
    {
        if after.available {
            if after.paused {
                self.set_status("Playback paused.".to_owned());
            } else if after.playing {
                self.set_status("Playback resumed.".to_owned());
            }
        }
        self.persist_playback_session(after, position_bits);
        self.save_state_silently();
    }

    /// Keeps for the next run what is playing and what is repeated, and stops the player.
    pub fn shut_down(&mut self, status: PlayerStatus, position_bits: u32)
        ensures
            final(self)@ == old(self)@.with_session(
                status,
                position_bits,
            ).with_repeat_kept().with_effect(EffectView::StopPlayer).with_effect(
                EffectView::SaveState,
            ),
    {
        self.persist_playback_session(status, position_bits);
        self.persist_repeat_selection_for_current_playlist();
        self.ask(Effect::StopPlayer);
        self.ask(Effect::SaveState);
    }
}

} // verus!
