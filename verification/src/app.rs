//! The running application: its state, and what it asks of the world around it.
//!
//! The methods of `AudioOrbitApp` change the state at once. What only the outside can do
//! (write the state to disk, drive the audio player) they put in a queue of effects, in order.
//! Times are in milliseconds on a clock that only moves forward.

use crate::dj_mix;
use crate::dj_mix::{DjMixModalState, MixView};
use crate::paths;
use crate::playlist;
use crate::playlist::{Playlist, PlaylistView};
use crate::settings;
use crate::settings::{DspSettings, RadioStation, RadioStationView};
use crate::silence::{SilenceCache, SilenceEntryView};
use crate::state::{SavedState, StateView};
use crate::text;
use crate::updates::{Updates, UpdatesView};
use vstd::prelude::*;
use vstd::string::*;

verus! {

// ---------------------------------------------------------------------------
// Effects
// ---------------------------------------------------------------------------

/// How long one source fades into the next: not at all, for whole seconds, or for a time that
/// is held as the bit pattern of a single precision number of seconds.
#[derive(Clone, Copy, Debug, PartialEq, Eq, Structural)]
pub enum Crossfade {
    Off,
    Seconds(u8),
    Exact(u32),
}

/// What the application asks of the world around it.
#[derive(Debug)]
pub enum Effect {
    /// Write the state to disk.
    SaveState,
    /// Stop the audio player.
    StopPlayer,
    /// Set the volume of the audio player.
    SetVolume { percent: u8 },
    /// Play a track from a position, which is held as the bit pattern of a single precision
    /// number of seconds. The track may be one that is playing and goes on.
    PlayTrack {
        path: String,
        track_index: Option<usize>,
        start_bits: u32,
        crossfade: Crossfade,
        continues_live: bool,
    },
    /// Play a radio stream, or play the playing one with other sound settings.
    OpenRadioStream { station_index: usize, url: String, crossfade: Crossfade, reopens: bool },
    /// Ask a radio stream for its title.
    LookUpRadioTitle { station_index: usize, url: String },
    /// Record again, where playback is running.
    RecordAgain,
    /// Pause again, where playback is running.
    PauseAgain,
}

/// The model of an effect.
#[verifier::ext_equal]
pub enum EffectView {
    SaveState,
    StopPlayer,
    SetVolume { percent: u8 },
    PlayTrack {
        path: Seq<char>,
        track_index: Option<usize>,
        start_bits: u32,
        crossfade: Crossfade,
        continues_live: bool,
    },
    OpenRadioStream { station_index: usize, url: Seq<char>, crossfade: Crossfade, reopens: bool },
    LookUpRadioTitle { station_index: usize, url: Seq<char> },
    RecordAgain,
    PauseAgain,
}

impl View for Effect {
    type V = EffectView;

    open spec fn view(&self) -> EffectView {
        match *self {
            Effect::SaveState => EffectView::SaveState,
            Effect::StopPlayer => EffectView::StopPlayer,
            Effect::SetVolume { percent } => EffectView::SetVolume { percent },
            Effect::PlayTrack { path, track_index, start_bits, crossfade, continues_live } => {
                EffectView::PlayTrack {
                    path: path@,
                    track_index,
                    start_bits,
                    crossfade,
                    continues_live,
                }
            },
            Effect::OpenRadioStream { station_index, url, crossfade, reopens } => {
                EffectView::OpenRadioStream { station_index, url: url@, crossfade, reopens }
            },
            Effect::LookUpRadioTitle { station_index, url } => EffectView::LookUpRadioTitle {
                station_index,
                url: url@,
            },
            Effect::RecordAgain => EffectView::RecordAgain,
            Effect::PauseAgain => EffectView::PauseAgain,
        }
    }
}

/// The models of a list of effects.
pub open spec fn effect_views(effects: Seq<Effect>) -> Seq<EffectView> {
    effects.map_values(|effect: Effect| effect@)
}

// ---------------------------------------------------------------------------
// The audio player
// ---------------------------------------------------------------------------

/// What the audio player is doing.
#[derive(Clone, Copy, Debug, PartialEq, Eq, Structural)]
pub struct PlayerStatus {
    pub available: bool,
    pub playing: bool,
    pub paused: bool,
    pub finished: bool,
    pub recording: bool,
}

impl PlayerStatus {
    /// Whether a source is loaded, running or not.
    pub open spec fn active(self) -> bool {
        self.available && (self.playing || self.paused)
    }

    /// Whether a source is loaded, running or not.
    pub fn is_active(&self) -> (active: bool)
        ensures
            active == self.active(),
    {
        self.available && (self.playing || self.paused)
    }
}

/// A player that has been stopped.
pub open spec fn stopped_player() -> PlayerStatus {
    PlayerStatus {
        available: true,
        playing: false,
        paused: false,
        finished: false,
        recording: false,
    }
}

/// What is known of the audio that is playing. Seconds and points of the waveform are held as
/// bit patterns of single precision numbers.
#[derive(Debug)]
pub struct PlaybackInfo {
    pub path: String,
    pub original_duration_bits: u32,
    pub sample_rate: u32,
    pub input_channels: u16,
    pub size_bytes: Option<u64>,
    pub waveform: Vec<u32>,
    pub waveform_brightness: Vec<u32>,
    pub silence_ranges: Vec<(u32, u32)>,
}

/// The model of what is known of the audio that is playing.
#[verifier::ext_equal]
pub struct PlaybackInfoView {
    pub path: Seq<char>,
    pub original_duration_bits: u32,
    pub sample_rate: u32,
    pub input_channels: u16,
    pub size_bytes: Option<u64>,
    pub waveform: Seq<u32>,
    pub waveform_brightness: Seq<u32>,
    pub silence_ranges: Seq<(u32, u32)>,
}

impl View for PlaybackInfo {
    type V = PlaybackInfoView;

    open spec fn view(&self) -> PlaybackInfoView {
        PlaybackInfoView {
            path: self.path@,
            original_duration_bits: self.original_duration_bits,
            sample_rate: self.sample_rate,
            input_channels: self.input_channels,
            size_bytes: self.size_bytes,
            waveform: self.waveform@,
            waveform_brightness: self.waveform_brightness@,
            silence_ranges: self.silence_ranges@,
        }
    }
}

/// The model of what was played last.
pub open spec fn info_view(info: Option<PlaybackInfo>) -> Option<PlaybackInfoView> {
    match info {
        Some(info) => Some(info@),
        None => None,
    }
}

/// A switch to another track that happens at a given time.
#[derive(Debug)]
pub struct PendingTrackSwitch {
    pub switch_at: u64,
    pub playlist_index: usize,
    pub index: Option<usize>,
    pub info: PlaybackInfo,
}

/// The model of a switch to another track.
#[verifier::ext_equal]
pub struct PendingTrackSwitchView {
    pub switch_at: u64,
    pub playlist_index: usize,
    pub index: Option<usize>,
    pub info: PlaybackInfoView,
}

impl View for PendingTrackSwitch {
    type V = PendingTrackSwitchView;

    open spec fn view(&self) -> PendingTrackSwitchView {
        PendingTrackSwitchView {
            switch_at: self.switch_at,
            playlist_index: self.playlist_index,
            index: self.index,
            info: self.info@,
        }
    }
}

/// The model of a switch that may be pending.
pub open spec fn switch_view(pending: Option<PendingTrackSwitch>) -> Option<
    PendingTrackSwitchView,
> {
    match pending {
        Some(pending) => Some(pending@),
        None => None,
    }
}

/// The waveform of a track: how loud and how bright each point is, as bit patterns of single
/// precision numbers.
#[derive(Debug)]
pub struct Waveform {
    pub levels: Vec<u32>,
    pub brightness: Vec<u32>,
}

/// The model of a waveform.
#[verifier::ext_equal]
pub struct WaveformView {
    pub levels: Seq<u32>,
    pub brightness: Seq<u32>,
}

impl View for Waveform {
    type V = WaveformView;

    open spec fn view(&self) -> WaveformView {
        WaveformView { levels: self.levels@, brightness: self.brightness@ }
    }
}

/// The model of a waveform that may be known.
pub open spec fn waveform_view(waveform: Option<Waveform>) -> Option<WaveformView> {
    match waveform {
        Some(waveform) => Some(waveform@),
        None => None,
    }
}

/// The model of passages that may be known.
pub open spec fn ranges_view(ranges: Option<Vec<(u32, u32)>>) -> Option<Seq<(u32, u32)>> {
    match ranges {
        Some(ranges) => Some(ranges@),
        None => None,
    }
}

/// A jump within the playing track that waits for its turn.
#[derive(Debug)]
pub struct PendingFastSeek {
    pub run_after: u64,
    pub playlist_index: usize,
    pub index: Option<usize>,
    pub path: String,
    pub position_bits: u32,
    pub settings: DspSettings,
    pub known_duration_bits: Option<u32>,
    pub prepare_after_streaming: bool,
}

/// The model of a jump that waits.
#[verifier::ext_equal]
pub struct FastSeekView {
    pub run_after: u64,
    pub playlist_index: usize,
    pub index: Option<usize>,
    pub path: Seq<char>,
    pub position_bits: u32,
    pub settings: DspSettings,
    pub known_duration_bits: Option<u32>,
    pub prepare_after_streaming: bool,
}

impl View for PendingFastSeek {
    type V = FastSeekView;

    open spec fn view(&self) -> FastSeekView {
        FastSeekView {
            run_after: self.run_after,
            playlist_index: self.playlist_index,
            index: self.index,
            path: self.path@,
            position_bits: self.position_bits,
            settings: self.settings,
            known_duration_bits: self.known_duration_bits,
            prepare_after_streaming: self.prepare_after_streaming,
        }
    }
}

/// The preparation that follows a jump.
#[derive(Debug)]
pub struct PendingSeekPrepare {
    pub run_after: u64,
    pub requested_at: u64,
    pub playlist_index: usize,
    pub index: Option<usize>,
    pub path: String,
    pub start_bits: u32,
    pub settings: DspSettings,
    pub waveform: Option<Waveform>,
    pub silence_ranges: Option<Vec<(u32, u32)>>,
}

/// The model of a preparation that follows a jump.
#[verifier::ext_equal]
pub struct SeekPrepareView {
    pub run_after: u64,
    pub requested_at: u64,
    pub playlist_index: usize,
    pub index: Option<usize>,
    pub path: Seq<char>,
    pub start_bits: u32,
    pub settings: DspSettings,
    pub waveform: Option<WaveformView>,
    pub silence_ranges: Option<Seq<(u32, u32)>>,
}

impl View for PendingSeekPrepare {
    type V = SeekPrepareView;

    open spec fn view(&self) -> SeekPrepareView {
        SeekPrepareView {
            run_after: self.run_after,
            requested_at: self.requested_at,
            playlist_index: self.playlist_index,
            index: self.index,
            path: self.path@,
            start_bits: self.start_bits,
            settings: self.settings,
            waveform: waveform_view(self.waveform),
            silence_ranges: ranges_view(self.silence_ranges),
        }
    }
}

/// Jumps within the playing track.
#[derive(Debug)]
pub struct Seeking {
    pub fast: Option<PendingFastSeek>,
    pub prepare: Option<PendingSeekPrepare>,
    pub last_started_at: Option<u64>,
    pub drag_position_bits: Option<u32>,
}

/// The model of jumps.
#[verifier::ext_equal]
pub struct SeekingView {
    pub fast: Option<FastSeekView>,
    pub prepare: Option<SeekPrepareView>,
    pub last_started_at: Option<u64>,
    pub drag_position_bits: Option<u32>,
}

impl View for Seeking {
    type V = SeekingView;

    open spec fn view(&self) -> SeekingView {
        SeekingView {
            fast: match self.fast {
                Some(pending) => Some(pending@),
                None => None,
            },
            prepare: match self.prepare {
                Some(pending) => Some(pending@),
                None => None,
            },
            last_started_at: self.last_started_at,
            drag_position_bits: self.drag_position_bits,
        }
    }
}

// ---------------------------------------------------------------------------
// Undoing changes of order
// ---------------------------------------------------------------------------

/// What a change of order is undone to.
#[derive(Debug)]
pub enum OrderUndoSnapshot {
    Playlist {
        playlist_index: usize,
        playlist: Playlist,
        selected_track_index: Option<usize>,
        selected_track_indexes: Vec<usize>,
        active_playlist_index: Option<usize>,
        active_track_index: Option<usize>,
        active_track_path: Option<String>,
    },
    Radio {
        stations: Vec<RadioStation>,
        selected_radio_index: Option<usize>,
        active_radio_index: Option<usize>,
        radio_selection_was_user_set: bool,
    },
}

/// The model of what a change of order is undone to.
#[verifier::ext_equal]
pub enum OrderUndoView {
    Playlist {
        playlist_index: usize,
        playlist: PlaylistView,
        selected_track_index: Option<usize>,
        selected_track_indexes: Seq<usize>,
        active_playlist_index: Option<usize>,
        active_track_index: Option<usize>,
        active_track_path: Option<Seq<char>>,
    },
    Radio {
        stations: Seq<RadioStationView>,
        selected_radio_index: Option<usize>,
        active_radio_index: Option<usize>,
        radio_selection_was_user_set: bool,
    },
}

impl View for OrderUndoSnapshot {
    type V = OrderUndoView;

    open spec fn view(&self) -> OrderUndoView {
        match *self {
            OrderUndoSnapshot::Playlist {
                playlist_index,
                playlist,
                selected_track_index,
                selected_track_indexes,
                active_playlist_index,
                active_track_index,
                active_track_path,
            } => OrderUndoView::Playlist {
                playlist_index,
                playlist: playlist@,
                selected_track_index,
                selected_track_indexes: selected_track_indexes@,
                active_playlist_index,
                active_track_index,
                active_track_path: paths::text_of(active_track_path),
            },
            OrderUndoSnapshot::Radio {
                stations,
                selected_radio_index,
                active_radio_index,
                radio_selection_was_user_set,
            } => OrderUndoView::Radio {
                stations: settings::station_views(stations@),
                selected_radio_index,
                active_radio_index,
                radio_selection_was_user_set,
            },
        }
    }
}

/// The models of a stack of snapshots.
pub open spec fn undo_views(stack: Seq<OrderUndoSnapshot>) -> Seq<OrderUndoView> {
    stack.map_values(|snapshot: OrderUndoSnapshot| snapshot@)
}

// ---------------------------------------------------------------------------
// What is shown
// ---------------------------------------------------------------------------

/// What the main panel shows.
#[derive(Clone, Copy, Debug, PartialEq, Eq, Structural)]
pub enum MainContentTab {
    Music,
    Radio,
}

/// A panel that opens over the window.
#[derive(Clone, Copy, Debug, PartialEq, Eq, Structural)]
pub enum AppPanelModal {
    Settings,
    Updates,
    Backup,
    About,
}

/// Search, scrolling, dragging and panels.
#[derive(Debug)]
pub struct Browsing {
    pub active_tab: MainContentTab,
    pub show_library_panel: bool,
    pub show_profile_panel: bool,
    pub player_only_mode: bool,
    pub show_track_search: bool,
    pub show_radio_search: bool,
    pub search_playback_filtered_only: bool,
    pub focus_track_search: bool,
    pub focus_radio_search: bool,
    pub track_search_query: String,
    pub search_cursor: usize,
    pub radio_search_query: String,
    pub radio_show_favorites_only: bool,
    pub scroll_to_active_track_requested: bool,
    pub scroll_to_track_path_requested: Option<String>,
    pub scroll_to_active_radio_requested: bool,
    pub scroll_to_folder_group_requested: Option<String>,
    pub collapsed_groups: Vec<String>,
    pub dragging_track_index: Option<usize>,
    pub dragging_radio_index: Option<usize>,
    pub track_drop_target_index: Option<usize>,
    pub radio_drop_target_index: Option<usize>,
    pub editing_playlist_index: Option<usize>,
    pub editing_profile_index: Option<usize>,
    pub suppress_window_geometry_save_until: Option<u64>,
}

/// The model of search, scrolling, dragging and panels.
#[verifier::ext_equal]
pub struct BrowsingView {
    pub active_tab: MainContentTab,
    pub show_library_panel: bool,
    pub show_profile_panel: bool,
    pub player_only_mode: bool,
    pub show_track_search: bool,
    pub show_radio_search: bool,
    pub search_playback_filtered_only: bool,
    pub focus_track_search: bool,
    pub focus_radio_search: bool,
    pub track_search_query: Seq<char>,
    pub search_cursor: usize,
    pub radio_search_query: Seq<char>,
    pub radio_show_favorites_only: bool,
    pub scroll_to_active_track_requested: bool,
    pub scroll_to_track_path_requested: Option<Seq<char>>,
    pub scroll_to_active_radio_requested: bool,
    pub scroll_to_folder_group_requested: Option<Seq<char>>,
    pub collapsed_groups: Seq<Seq<char>>,
    pub dragging_track_index: Option<usize>,
    pub dragging_radio_index: Option<usize>,
    pub track_drop_target_index: Option<usize>,
    pub radio_drop_target_index: Option<usize>,
    pub editing_playlist_index: Option<usize>,
    pub editing_profile_index: Option<usize>,
    pub suppress_window_geometry_save_until: Option<u64>,
}

impl View for Browsing {
    type V = BrowsingView;

    open spec fn view(&self) -> BrowsingView {
        BrowsingView {
            active_tab: self.active_tab,
            show_library_panel: self.show_library_panel,
            show_profile_panel: self.show_profile_panel,
            player_only_mode: self.player_only_mode,
            show_track_search: self.show_track_search,
            show_radio_search: self.show_radio_search,
            search_playback_filtered_only: self.search_playback_filtered_only,
            focus_track_search: self.focus_track_search,
            focus_radio_search: self.focus_radio_search,
            track_search_query: self.track_search_query@,
            search_cursor: self.search_cursor,
            radio_search_query: self.radio_search_query@,
            radio_show_favorites_only: self.radio_show_favorites_only,
            scroll_to_active_track_requested: self.scroll_to_active_track_requested,
            scroll_to_track_path_requested: paths::text_of(self.scroll_to_track_path_requested),
            scroll_to_active_radio_requested: self.scroll_to_active_radio_requested,
            scroll_to_folder_group_requested: paths::text_of(
                self.scroll_to_folder_group_requested,
            ),
            collapsed_groups: text::texts(self.collapsed_groups@),
            dragging_track_index: self.dragging_track_index,
            dragging_radio_index: self.dragging_radio_index,
            track_drop_target_index: self.track_drop_target_index,
            radio_drop_target_index: self.radio_drop_target_index,
            editing_playlist_index: self.editing_playlist_index,
            editing_profile_index: self.editing_profile_index,
            suppress_window_geometry_save_until: self.suppress_window_geometry_save_until,
        }
    }
}

/// What the details are shown of.
#[derive(Debug)]
pub enum DetailsModal {
    Track(String),
    Radio(usize),
}

/// The model of what the details are shown of.
#[verifier::ext_equal]
pub enum DetailsView {
    Track(Seq<char>),
    Radio(usize),
}

/// The model of the details that may be shown.
pub open spec fn details_view(details: Option<DetailsModal>) -> Option<DetailsView> {
    match details {
        Some(DetailsModal::Track(path)) => Some(DetailsView::Track(path@)),
        Some(DetailsModal::Radio(index)) => Some(DetailsView::Radio(index)),
        None => None,
    }
}

/// Files that are deleted once the user confirms.
#[derive(Debug)]
pub struct PendingTrackDeleteConfirmation {
    pub paths: Vec<String>,
    pub title: String,
    pub description: String,
}

/// The model of files that are deleted once the user confirms.
#[verifier::ext_equal]
pub struct DeleteConfirmationView {
    pub paths: Seq<Seq<char>>,
    pub title: Seq<char>,
    pub description: Seq<char>,
}

impl View for PendingTrackDeleteConfirmation {
    type V = DeleteConfirmationView;

    open spec fn view(&self) -> DeleteConfirmationView {
        DeleteConfirmationView {
            paths: text::texts(self.paths@),
            title: self.title@,
            description: self.description@,
        }
    }
}

/// The model of a confirmation that may be asked for.
pub open spec fn confirmation_view(pending: Option<PendingTrackDeleteConfirmation>) -> Option<
    DeleteConfirmationView,
> {
    match pending {
        Some(pending) => Some(pending@),
        None => None,
    }
}

/// Dialogs and what has been typed into them.
#[derive(Debug)]
pub struct Dialogs {
    pub show_folder_import_modal: bool,
    pub show_radio_add_modal: bool,
    pub show_new_playlist_modal: bool,
    pub pending_new_playlist_name: String,
    pub pending_new_playlist_tracks: Vec<String>,
    pub pending_track_delete_confirmation: Option<PendingTrackDeleteConfirmation>,
    pub pending_track_delete_confirmation_text: String,
    pub active_panel_modal: Option<AppPanelModal>,
    pub panel_modal_history: Vec<AppPanelModal>,
    pub details_modal: Option<DetailsModal>,
    pub pending_folder_path: Option<String>,
    pub pending_playlist_name: String,
    pub pending_folder_depth: usize,
    pub pending_radio_name: String,
    pub pending_radio_url: String,
    pub pending_clipboard_text: Option<String>,
}

/// The model of dialogs.
#[verifier::ext_equal]
pub struct DialogsView {
    pub show_folder_import_modal: bool,
    pub show_radio_add_modal: bool,
    pub show_new_playlist_modal: bool,
    pub pending_new_playlist_name: Seq<char>,
    pub pending_new_playlist_tracks: Seq<Seq<char>>,
    pub pending_track_delete_confirmation: Option<DeleteConfirmationView>,
    pub pending_track_delete_confirmation_text: Seq<char>,
    pub active_panel_modal: Option<AppPanelModal>,
    pub panel_modal_history: Seq<AppPanelModal>,
    pub details_modal: Option<DetailsView>,
    pub pending_folder_path: Option<Seq<char>>,
    pub pending_playlist_name: Seq<char>,
    pub pending_folder_depth: usize,
    pub pending_radio_name: Seq<char>,
    pub pending_radio_url: Seq<char>,
    pub pending_clipboard_text: Option<Seq<char>>,
}

impl View for Dialogs {
    type V = DialogsView;

    open spec fn view(&self) -> DialogsView {
        DialogsView {
            show_folder_import_modal: self.show_folder_import_modal,
            show_radio_add_modal: self.show_radio_add_modal,
            show_new_playlist_modal: self.show_new_playlist_modal,
            pending_new_playlist_name: self.pending_new_playlist_name@,
            pending_new_playlist_tracks: text::texts(self.pending_new_playlist_tracks@),
            pending_track_delete_confirmation: confirmation_view(
                self.pending_track_delete_confirmation,
            ),
            pending_track_delete_confirmation_text: self.pending_track_delete_confirmation_text@,
            active_panel_modal: self.active_panel_modal,
            panel_modal_history: self.panel_modal_history@,
            details_modal: details_view(self.details_modal),
            pending_folder_path: paths::text_of(self.pending_folder_path),
            pending_playlist_name: self.pending_playlist_name@,
            pending_folder_depth: self.pending_folder_depth,
            pending_radio_name: self.pending_radio_name@,
            pending_radio_url: self.pending_radio_url@,
            pending_clipboard_text: paths::text_of(self.pending_clipboard_text),
        }
    }
}

// ---------------------------------------------------------------------------
// Playback, radio, output device and background work
// ---------------------------------------------------------------------------

/// The radio station that is playing.
#[derive(Debug)]
pub struct RadioPlayback {
    pub active_index: Option<usize>,
    pub selection_was_user_set: bool,
    pub station_name: Option<String>,
    pub title: Option<String>,
    pub started_at: Option<u64>,
    pub last_title_lookup_at: Option<u64>,
    pub title_lookup_running: bool,
}

/// The model of the radio station that is playing.
#[verifier::ext_equal]
pub struct RadioPlaybackView {
    pub active_index: Option<usize>,
    pub selection_was_user_set: bool,
    pub station_name: Option<Seq<char>>,
    pub title: Option<Seq<char>>,
    pub started_at: Option<u64>,
    pub last_title_lookup_at: Option<u64>,
    pub title_lookup_running: bool,
}

impl View for RadioPlayback {
    type V = RadioPlaybackView;

    open spec fn view(&self) -> RadioPlaybackView {
        RadioPlaybackView {
            active_index: self.active_index,
            selection_was_user_set: self.selection_was_user_set,
            station_name: paths::text_of(self.station_name),
            title: paths::text_of(self.title),
            started_at: self.started_at,
            last_title_lookup_at: self.last_title_lookup_at,
            title_lookup_running: self.title_lookup_running,
        }
    }
}

/// The status line and the error message, and when each was last seen to change.
#[derive(Debug)]
pub struct Messages {
    pub status: String,
    pub error: Option<String>,
    pub status_last_seen: String,
    pub status_updated_at: u64,
    pub error_last_seen: Option<String>,
    pub error_updated_at: u64,
}

/// The model of the messages.
#[verifier::ext_equal]
pub struct MessagesView {
    pub status: Seq<char>,
    pub error: Option<Seq<char>>,
    pub status_last_seen: Seq<char>,
    pub status_updated_at: u64,
    pub error_last_seen: Option<Seq<char>>,
    pub error_updated_at: u64,
}

impl View for Messages {
    type V = MessagesView;

    open spec fn view(&self) -> MessagesView {
        MessagesView {
            status: self.status@,
            error: paths::text_of(self.error),
            status_last_seen: self.status_last_seen@,
            status_updated_at: self.status_updated_at,
            error_last_seen: paths::text_of(self.error_last_seen),
            error_updated_at: self.error_updated_at,
        }
    }
}

/// The output device in use, and one that was found in its place.
#[derive(Debug)]
pub struct OutputDevice {
    pub last_known_name: String,
    pub detected_change: Option<String>,
    pub last_check_at: u64,
}

/// The model of the output device.
#[verifier::ext_equal]
pub struct OutputDeviceView {
    pub last_known_name: Seq<char>,
    pub detected_change: Option<Seq<char>>,
    pub last_check_at: u64,
}

impl View for OutputDevice {
    type V = OutputDeviceView;

    open spec fn view(&self) -> OutputDeviceView {
        OutputDeviceView {
            last_known_name: self.last_known_name@,
            detected_change: paths::text_of(self.detected_change),
            last_check_at: self.last_check_at,
        }
    }
}

/// Changes below the folder of the shown playlist that have been noticed.
#[derive(Debug)]
pub struct FolderWatch {
    pub target_key: Option<String>,
    pub sync_at: Option<u64>,
    pub changed_paths: Vec<String>,
    pub full_rescan: bool,
}

/// The model of noticed changes.
#[verifier::ext_equal]
pub struct FolderWatchView {
    pub target_key: Option<Seq<char>>,
    pub sync_at: Option<u64>,
    pub changed_paths: Seq<Seq<char>>,
    pub full_rescan: bool,
}

impl View for FolderWatch {
    type V = FolderWatchView;

    open spec fn view(&self) -> FolderWatchView {
        FolderWatchView {
            target_key: paths::text_of(self.target_key),
            sync_at: self.sync_at,
            changed_paths: text::texts(self.changed_paths@),
            full_rescan: self.full_rescan,
        }
    }
}

/// No folder is watched.
pub open spec fn no_watch() -> FolderWatchView {
    FolderWatchView {
        target_key: None,
        sync_at: None,
        changed_paths: Seq::empty(),
        full_rescan: false,
    }
}

impl FolderWatch {
    /// No folder is watched.
    pub fn new() -> (watch: FolderWatch)
        ensures
            watch@ == no_watch(),
    {
        let watch = FolderWatch {
            target_key: None,
            sync_at: None,
            changed_paths: Vec::new(),
            full_rescan: false,
        };
        assert(watch@ =~= no_watch());
        watch
    }
}

/// Which background work is running, and what is due when.
#[derive(Clone, Copy, Debug, PartialEq, Eq, Structural)]
pub struct Jobs {
    pub prepared_track: bool,
    pub folder_scan: bool,
    pub library_sync: bool,
    pub track_file_operation: bool,
    pub update_check: bool,
    pub update_install: bool,
    pub dj_mix: bool,
    pub profile_apply_at: Option<u64>,
    pub profile_applied_until: Option<u64>,
    pub last_library_sync_at: u64,
}

// ---------------------------------------------------------------------------
// The application
// ---------------------------------------------------------------------------

/// The running application.
#[derive(Debug)]
pub struct AudioOrbitApp {
    pub state: SavedState,
    pub selected_track_index: Option<usize>,
    /// The tracks that are repeated, in ascending order.
    pub selected_track_indexes: Vec<usize>,
    /// The tracks that an action is about, in ascending order.
    pub multi_selected_track_indexes: Vec<usize>,
    pub track_selection_anchor_index: Option<usize>,
    pub active_track_index: Option<usize>,
    pub active_playlist_index: Option<usize>,
    pub active_track_path: Option<String>,
    pub last_playback: Option<PlaybackInfo>,
    pub crossfade_started_for_path: Option<String>,
    pub pending_track_switch: Option<PendingTrackSwitch>,
    pub seeking: Seeking,
    pub silence: SilenceCache,
    pub radio: RadioPlayback,
    pub messages: Messages,
    pub browsing: Browsing,
    pub dialogs: Dialogs,
    pub order_undo_stack: Vec<OrderUndoSnapshot>,
    pub output: OutputDevice,
    pub watch: FolderWatch,
    pub jobs: Jobs,
    pub updates: Updates,
    pub mix: Option<DjMixModalState>,
    pub effects: Vec<Effect>,
}

/// The model of the running application.
#[verifier::ext_equal]
pub struct AppView {
    pub state: StateView,
    pub selected_track_index: Option<usize>,
    pub selected_track_indexes: Seq<usize>,
    pub multi_selected_track_indexes: Seq<usize>,
    pub track_selection_anchor_index: Option<usize>,
    pub active_track_index: Option<usize>,
    pub active_playlist_index: Option<usize>,
    pub active_track_path: Option<Seq<char>>,
    pub last_playback: Option<PlaybackInfoView>,
    pub crossfade_started_for_path: Option<Seq<char>>,
    pub pending_track_switch: Option<PendingTrackSwitchView>,
    pub seeking: SeekingView,
    pub silence: Seq<SilenceEntryView>,
    pub radio: RadioPlaybackView,
    pub messages: MessagesView,
    pub browsing: BrowsingView,
    pub dialogs: DialogsView,
    pub order_undo_stack: Seq<OrderUndoView>,
    pub output: OutputDeviceView,
    pub watch: FolderWatchView,
    pub jobs: Jobs,
    pub updates: UpdatesView,
    pub mix: Option<MixView>,
    pub effects: Seq<EffectView>,
}

impl View for AudioOrbitApp {
    type V = AppView;

    open spec fn view(&self) -> AppView {
        AppView {
            state: self.state@,
            selected_track_index: self.selected_track_index,
            selected_track_indexes: self.selected_track_indexes@,
            multi_selected_track_indexes: self.multi_selected_track_indexes@,
            track_selection_anchor_index: self.track_selection_anchor_index,
            active_track_index: self.active_track_index,
            active_playlist_index: self.active_playlist_index,
            active_track_path: paths::text_of(self.active_track_path),
            last_playback: info_view(self.last_playback),
            crossfade_started_for_path: paths::text_of(self.crossfade_started_for_path),
            pending_track_switch: switch_view(self.pending_track_switch),
            seeking: self.seeking@,
            silence: self.silence@,
            radio: self.radio@,
            messages: self.messages@,
            browsing: self.browsing@,
            dialogs: self.dialogs@,
            order_undo_stack: undo_views(self.order_undo_stack@),
            output: self.output@,
            watch: self.watch@,
            jobs: self.jobs,
            updates: self.updates@,
            mix: dj_mix::mix_view(self.mix),
            effects: effect_views(self.effects@),
        }
    }
}

impl AppView {
    /// The playlist that is shown.
    pub open spec fn current(self) -> Option<PlaylistView> {
        if self.state.selected_playlist_index < self.state.playlists.len() {
            Some(self.state.playlists[self.state.selected_playlist_index as int])
        } else {
            None
        }
    }

    /// The application with another status line.
    pub open spec fn with_status(self, status: Seq<char>) -> AppView {
        AppView { messages: MessagesView { status, ..self.messages }, ..self }
    }

    /// The application with another error message.
    pub open spec fn with_error(self, error: Option<Seq<char>>) -> AppView {
        AppView { messages: MessagesView { error, ..self.messages }, ..self }
    }

    /// The application with one more effect.
    pub open spec fn with_effect(self, effect: EffectView) -> AppView {
        AppView { effects: self.effects.push(effect), ..self }
    }

    /// The application with other playlists.
    pub open spec fn with_playlists(self, playlists: Seq<PlaylistView>) -> AppView {
        AppView { state: StateView { playlists, ..self.state }, ..self }
    }

    /// The application with another playlist in place of the one that is shown.
    pub open spec fn with_current(self, playlist: PlaylistView) -> AppView {
        self.with_playlists(
            self.state.playlists.update(self.state.selected_playlist_index as int, playlist),
        )
    }
}

impl AudioOrbitApp {
    /// Puts a text in the status line.
    pub fn set_status(&mut self, status: String)
        ensures
            final(self)@ == old(self)@.with_status(status@),
    {
        self.messages.status = status;
        assert(self@ =~= old(self)@.with_status(status@));
    }

    /// Shows an error, or none.
    pub fn set_error(&mut self, error: Option<String>)
        ensures
            final(self)@ == old(self)@.with_error(paths::text_of(error)),
    {
        self.messages.error = error;
        assert(self@ =~= old(self)@.with_error(paths::text_of(error)));
    }

    /// Shows an error with the given text.
    pub fn fail(&mut self, error: &str)
        ensures
            final(self)@ == old(self)@.with_error(Some(error@)),
    {
        self.set_error(Some(error.to_owned()));
    }

    /// Puts one more effect in the queue.
    pub fn ask(&mut self, effect: Effect)
        ensures
            final(self)@ == old(self)@.with_effect(effect@),
    {
        let ghost before = self.effects@;
        self.effects.push(effect);
        assert(effect_views(self.effects@) =~= effect_views(before).push(effect@));
        assert(self@ =~= old(self)@.with_effect(effect@));
    }

    /// Takes the effects out of the queue, in order.
    pub fn take_effects(&mut self) -> (effects: Vec<Effect>)
        ensures
            effect_views(effects@) == old(self)@.effects,
            final(self)@ == (AppView { effects: Seq::empty(), ..old(self)@ }),
    {
        let mut effects: Vec<Effect> = Vec::new();
        std::mem::swap(&mut effects, &mut self.effects);
        assert(effect_views(self.effects@) =~= Seq::empty());
        assert(self@ =~= (AppView { effects: Seq::empty(), ..old(self)@ }));
        effects
    }

    /// Replaces the playlist at a position.
    pub fn replace_playlist(&mut self, index: usize, replacement: Playlist) -> (replaced: Playlist)
        requires
            index < old(self)@.state.playlists.len(),
        ensures
            replaced@ == old(self)@.state.playlists[index as int],
            final(self)@ == old(self)@.with_playlists(
                old(self)@.state.playlists.update(index as int, replacement@),
            ),
    {
        let ghost before = self.state.playlists@;
        let mut other = replacement;
        std::mem::swap(&mut other, &mut self.state.playlists[index]);
        assert(playlist::playlist_views(self.state.playlists@) =~= playlist::playlist_views(
            before,
        ).update(index as int, replacement@));
        assert(self@ =~= old(self)@.with_playlists(
            old(self)@.state.playlists.update(index as int, replacement@),
        ));
        other
    }
}

} // verus!
