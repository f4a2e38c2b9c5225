//! The window: its size in either mode, how often it is drawn, and what is typed into it.

use crate::app::{AppView, AudioOrbitApp, BrowsingView, MainContentTab, PlayerStatus};
use crate::seeking;
use crate::settings::{
    UiView, WindowGeometry, LEAST_WINDOW_HEIGHT_BITS, LEAST_WINDOW_WIDTH_BITS,
};
use crate::state::StateView;
use vstd::prelude::*;
use vstd::string::*;

verus! {

// ---------------------------------------------------------------------------
// Size and position
// ---------------------------------------------------------------------------

/// How long the window is left to settle after a change of mode, in milliseconds.
pub const MODE_CHANGE_SETTLE_MILLIS: u64 = 450;

/// The bit pattern is that of a number below the given positive number.
pub open spec fn is_number_below(bits: u32, least: u32) -> bool {
    bits < least || 0x8000_0000 <= bits <= 0xff80_0000
}

/// The greater of a finite positive number and a limit, by their bit patterns.
pub open spec fn at_least_limit(bits: u32, limit: u32) -> u32 {
    if limit <= 0x7f80_0000 && limit > bits {
        limit
    } else {
        bits
    }
}

/// Whether the bit pattern is that of a number below the given positive number.
fn number_is_below(bits: u32, least: u32) -> (below: bool)
    ensures
        below == is_number_below(bits, least),
{
    bits < least || (bits >= 0x8000_0000 && bits <= 0xff80_0000)
}

/// The greater of a finite positive number and a limit, by their bit patterns.
fn raise_to_limit(bits: u32, limit: u32) -> (raised: u32)
    ensures
        raised == at_least_limit(bits, limit),
{
    if limit <= 0x7f80_0000 && limit > bits {
        limit
    } else {
        bits
    }
}

impl AppView {
    /// Whether the window is settling after a change of mode.
    pub open spec fn window_is_settling(self, now: u64) -> bool {
        match self.browsing.suppress_window_geometry_save_until {
            Some(until) => until > now,
            None => false,
        }
    }

    /// The layout with the window where it stands, for the mode it is in.
    pub open spec fn layout_with_window(self, geometry: WindowGeometry) -> UiView {
        if self.browsing.player_only_mode {
            UiView {
                window_geometry: Some(geometry),
                player_only_window_geometry: Some(geometry),
                ..self.state.ui
            }
        } else {
            UiView {
                window_geometry: Some(geometry),
                full_layout_window_geometry: Some(geometry),
                ..self.state.ui
            }
        }
    }

    /// The application with the window remembered, unless it is settling or too small.
    pub open spec fn with_window_remembered(
        self,
        geometry: Option<WindowGeometry>,
        now: u64,
    ) -> AppView {
        if self.window_is_settling(now) || geometry is None || is_number_below(
            geometry->0.width_bits,
            LEAST_WINDOW_WIDTH_BITS,
        ) || is_number_below(geometry->0.height_bits, LEAST_WINDOW_HEIGHT_BITS) {
            self
        } else {
            self.with_layout(self.layout_with_window(geometry->0))
        }
    }

    /// The size that the window had in a mode, but at least the given one; the default size
    /// where none is known.
    pub open spec fn window_size(
        self,
        player_only: bool,
        least: (u32, u32),
        default_size: (u32, u32),
    ) -> (u32, u32) {
        let kept = if player_only {
            self.state.ui.player_only_window_geometry
        } else {
            self.state.ui.full_layout_window_geometry
        };
        match kept {
            Some(geometry) => if geometry.is_usable() {
                (
                    at_least_limit(geometry.width_bits, least.0),
                    at_least_limit(geometry.height_bits, least.1),
                )
            } else {
                default_size
            },
            None => default_size,
        }
    }

    /// The application with only the player shown, or all of it again.
    pub open spec fn with_mode_toggled(
        self,
        geometry: Option<WindowGeometry>,
        now: u64,
    ) -> AppView {
        let kept = self.with_window_remembered(geometry, now);
        let player_only = !self.browsing.player_only_mode;
        (AppView {
            browsing: BrowsingView {
                player_only_mode: player_only,
                suppress_window_geometry_save_until: Some(
                    seeking::later(now, MODE_CHANGE_SETTLE_MILLIS),
                ),
                ..kept.browsing
            },
            ..kept
        }).with_layout(UiView { player_only_mode: player_only, ..kept.state.ui }).saved()
    }
}

impl AudioOrbitApp {
    /// Remembers where the window stands, unless it is settling or too small. The window has
    /// no place while it is hidden.
    pub fn remember_window_geometry(&mut self, geometry: Option<WindowGeometry>, now: u64)
        ensures
            final(self)@ == old(self)@.with_window_remembered(geometry, now),
    {
        if let Some(until) = self.browsing.suppress_window_geometry_save_until {
            if until > now {
                return;
            }
        }
        let geometry = match geometry {
            Some(geometry) => geometry,
            None => return,
        };
        if number_is_below(geometry.width_bits, LEAST_WINDOW_WIDTH_BITS) || number_is_below(
            geometry.height_bits,
            LEAST_WINDOW_HEIGHT_BITS,
        ) {
            return;
        }
        let ghost start = self@;
        if self.browsing.player_only_mode {
            self.state.ui.player_only_window_geometry = Some(geometry);
        } else {
            self.state.ui.full_layout_window_geometry = Some(geometry);
        }
        self.state.ui.window_geometry = Some(geometry);
        assert(self.state@ =~= (StateView {
            ui: start.layout_with_window(geometry),
            ..start.state
        }));
    }

    /// The size that the window had in a mode, but at least the given one; the default size
    /// where none is known. Sizes are widths and heights, as bit patterns of single precision
    /// numbers.
    pub fn saved_window_size_for_mode(
        &self,
        player_only_mode: bool,
        least: (u32, u32),
        default_size: (u32, u32),
    ) -> (size: (u32, u32))
        ensures
            size == self@.window_size(player_only_mode, least, default_size),
    {
        let kept = if player_only_mode {
            self.state.ui.player_only_window_geometry
        } else {
            self.state.ui.full_layout_window_geometry
        };
        match kept {
            Some(geometry) => if geometry.is_valid() {
                (
                    raise_to_limit(geometry.width_bits, least.0),
                    raise_to_limit(geometry.height_bits, least.1),
                )
            } else {
                default_size
            },
            None => default_size,
        }
    }

    /// Keeps in the state whether only the player is shown.
    fn keep_player_only(&mut self, player_only: bool)
        ensures
            final(self)@ == old(self)@.with_layout(
                UiView { player_only_mode: player_only, ..old(self)@.state.ui },
            ),
    {
        self.state.ui.player_only_mode = player_only;
        assert(self.state@ =~= (StateView {
            ui: UiView { player_only_mode: player_only, ..old(self)@.state.ui },
            ..old(self)@.state
        }));
    }

    /// Shows only the player, or all of the window again.
    pub fn toggle_player_only_mode(&mut self, geometry: Option<WindowGeometry>, now: u64)
        ensures
            final(self)@ == old(self)@.with_mode_toggled(geometry, now),
    {
        self.remember_window_geometry(geometry, now);
        let player_only = !self.browsing.player_only_mode;
        self.browsing.player_only_mode = player_only;
        self.browsing.suppress_window_geometry_save_until = Some(
            seeking::time_after(now, MODE_CHANGE_SETTLE_MILLIS),
        );
        self.keep_player_only(player_only);
        self.save_state_silently();
    }
}

/// A window that is remembered in a mode is found again in that mode, at its own size where
/// that is not too small.
pub proof fn remembered_window_is_found(
    view: AppView,
    geometry: WindowGeometry,
    now: u64,
    least: (u32, u32),
    default_size: (u32, u32),
)
    requires
        !view.window_is_settling(now),
        geometry.is_usable(),
        least.0 <= geometry.width_bits,
        least.1 <= geometry.height_bits,
    ensures
        view.with_window_remembered(Some(geometry), now).window_size(
            view.browsing.player_only_mode,
            least,
            default_size,
        ) == (geometry.width_bits, geometry.height_bits),
{
}

// ---------------------------------------------------------------------------
// Drawing
// ---------------------------------------------------------------------------

/// How soon the window is drawn again.
#[derive(Clone, Copy, Debug, PartialEq, Eq, Structural)]
pub enum RepaintRate {
    ActiveInput,
    DevMetrics,
    WaveformLoading,
    Radio,
    Playback,
    BackgroundWork,
    Status,
    Idle,
}

impl AppView {
    /// Whether the waveform of what is playing is still being made.
    pub open spec fn waveform_is_loading(self) -> bool {
        &&& self.radio.active_index is None
        &&& self.active_track_path is Some || self.pending_track_switch is Some
        &&& self.last_playback is Some && self.last_playback->0.waveform.len() == 0
    }

    /// Whether work in the background is going to change what is shown.
    pub open spec fn has_background_work(self, now: u64) -> bool {
        ||| self.jobs.prepared_track
        ||| self.seeking.fast is Some
        ||| self.seeking.prepare is Some
        ||| self.jobs.folder_scan
        ||| self.jobs.library_sync
        ||| self.jobs.track_file_operation
        ||| self.jobs.dj_mix
        ||| self.watch.sync_at is Some
        ||| self.jobs.update_check
        ||| self.jobs.update_install
        ||| self.radio.title_lookup_running
        ||| self.jobs.profile_apply_at is Some
        ||| self.jobs.profile_applied_until is Some && self.jobs.profile_applied_until->0 > now
        ||| self.output.detected_change is Some
        ||| self.browsing.focus_track_search
        ||| self.browsing.focus_radio_search
        ||| self.browsing.scroll_to_active_track_requested
        ||| self.browsing.scroll_to_track_path_requested is Some
        ||| self.browsing.scroll_to_active_radio_requested
        ||| self.browsing.scroll_to_folder_group_requested is Some
    }

    /// How soon the window is drawn again: the first of the reasons that holds.
    pub open spec fn repaint_rate(
        self,
        live_input: bool,
        metrics_shown: bool,
        status: PlayerStatus,
        now: u64,
    ) -> RepaintRate {
        if live_input || self.seeking.drag_position_bits is Some {
            RepaintRate::ActiveInput
        } else if metrics_shown {
            RepaintRate::DevMetrics
        } else if self.waveform_is_loading() {
            RepaintRate::WaveformLoading
        } else if self.radio.active_index is Some {
            RepaintRate::Radio
        } else if (status.available && status.playing) || self.pending_track_switch is Some {
            RepaintRate::Playback
        } else if self.has_background_work(now) {
            RepaintRate::BackgroundWork
        } else if self.apply_notice(now) is Some || self.messages.status.len() > 0
            || self.messages.error is Some {
            RepaintRate::Status
        } else {
            RepaintRate::Idle
        }
    }
}

impl AudioOrbitApp {
    /// Whether the waveform of what is playing is still being made.
    pub fn waveform_loading_animation_is_active(&self) -> (loading: bool)
        ensures
            loading == self@.waveform_is_loading(),
    {
        if self.radio.active_index.is_some() {
            return false;
        }
        if self.active_track_path.is_none() && self.pending_track_switch.is_none() {
            return false;
        }
        match &self.last_playback {
            Some(info) => info.waveform.len() == 0,
            None => false,
        }
    }

    /// Whether work in the background is going to change what is shown.
    pub fn has_background_ui_work(&self, now: u64) -> (working: bool)
        ensures
            working == self@.has_background_work(now),
    {
        let notice = match self.jobs.profile_applied_until {
            Some(until) => until > now,
            None => false,
        };
        self.jobs.prepared_track || self.seeking.fast.is_some() || self.seeking.prepare.is_some()
            || self.jobs.folder_scan || self.jobs.library_sync || self.jobs.track_file_operation
            || self.jobs.dj_mix || self.watch.sync_at.is_some() || self.jobs.update_check
            || self.jobs.update_install || self.radio.title_lookup_running
            || self.jobs.profile_apply_at.is_some() || notice
            || self.output.detected_change.is_some() || self.browsing.focus_track_search
            || self.browsing.focus_radio_search
            || self.browsing.scroll_to_active_track_requested
            || self.browsing.scroll_to_track_path_requested.is_some()
            || self.browsing.scroll_to_active_radio_requested
            || self.browsing.scroll_to_folder_group_requested.is_some()
    }

    /// How soon the window is drawn again.
    pub fn next_repaint_rate(
        &self,
        live_input: bool,
        metrics_shown: bool,
        status: PlayerStatus,
        now: u64,
    ) -> (rate: RepaintRate)
        ensures
            rate == self@.repaint_rate(live_input, metrics_shown, status, now),
    {
        if live_input || self.seeking.drag_position_bits.is_some() {
            RepaintRate::ActiveInput
        } else if metrics_shown {
            RepaintRate::DevMetrics
        } else if self.waveform_loading_animation_is_active() {
            RepaintRate::WaveformLoading
        } else if self.radio.active_index.is_some() {
            RepaintRate::Radio
        } else if (status.available && status.playing) || self.pending_track_switch.is_some() {
            RepaintRate::Playback
        } else if self.has_background_ui_work(now) {
            RepaintRate::BackgroundWork
        } else if self.profile_apply_status_text(now).is_some()
            || !self.messages.status.as_str().is_empty() || self.messages.error.is_some() {
            RepaintRate::Status
        } else {
            RepaintRate::Idle
        }
    }
}

// ---------------------------------------------------------------------------
// Keys
// ---------------------------------------------------------------------------

/// Which keys were pressed, and which are held down with them.
#[derive(Clone, Copy, Debug, PartialEq, Eq, Structural)]
pub struct PressedKeys {
    pub ctrl: bool,
    pub command: bool,
    pub z: bool,
    pub space: bool,
    pub enter: bool,
    pub s: bool,
    pub right: bool,
    pub left: bool,
    pub f: bool,
    pub m: bool,
    pub l: bool,
    pub p: bool,
}

/// A key of the keyboard that drives the player.
#[derive(Clone, Copy, Debug, PartialEq, Eq, Structural)]
pub enum MediaKeyCommand {
    Previous,
    PlayPause,
    Stop,
    Next,
}

/// What the user has asked for.
#[derive(Clone, Copy, Debug, PartialEq, Eq, Structural)]
pub enum UserCommand {
    UndoOrder,
    PauseOrResume,
    PlaySelected,
    PlayStation { index: usize },
    Stop,
    PlayNext,
    PlayPrevious,
    SeekForward,
    SeekBackward,
    ToggleSearch,
    TogglePlayerOnly,
    ToggleLibraryPanel,
    ToggleProfilePanel,
}

/// A command where the condition holds, else none.
pub open spec fn command_where(holds: bool, command: UserCommand) -> Seq<UserCommand> {
    if holds {
        seq![command]
    } else {
        Seq::empty()
    }
}

/// The commands of the keys, in the order in which they are carried out.
pub open spec fn key_commands(keys: PressedKeys, active: bool) -> Seq<UserCommand> {
    command_where(
        keys.space,
        if active {
            UserCommand::PauseOrResume
        } else {
            UserCommand::PlaySelected
        },
    ) + command_where(keys.enter, UserCommand::PlaySelected) + command_where(
        keys.s,
        UserCommand::Stop,
    ) + command_where(keys.right && keys.ctrl, UserCommand::PlayNext) + command_where(
        keys.left && keys.ctrl,
        UserCommand::PlayPrevious,
    ) + command_where(keys.right && !keys.ctrl, UserCommand::SeekForward) + command_where(
        keys.left && !keys.ctrl,
        UserCommand::SeekBackward,
    ) + command_where(keys.f && keys.ctrl, UserCommand::ToggleSearch) + command_where(
        keys.m,
        UserCommand::TogglePlayerOnly,
    ) + command_where(keys.l && keys.ctrl, UserCommand::ToggleLibraryPanel) + command_where(
        keys.p && keys.ctrl,
        UserCommand::ToggleProfilePanel,
    )
}

/// Puts a command at the end of a list where the condition holds.
fn add_command(commands: &mut Vec<UserCommand>, holds: bool, command: UserCommand)
    ensures
        final(commands)@ == old(commands)@ + command_where(holds, command),
{
    if holds {
        commands.push(command);
        assert(commands@ =~= old(commands)@ + seq![command]);
    } else {
        assert(commands@ =~= old(commands)@ + Seq::empty());
    }
}

impl AppView {
    /// Whether a dialog is open that takes the keys.
    pub open spec fn dialog_takes_keys(self) -> bool {
        ||| self.dialogs.show_folder_import_modal
        ||| self.dialogs.active_panel_modal is Some
        ||| self.dialogs.show_radio_add_modal
        ||| self.dialogs.show_new_playlist_modal
        ||| self.dialogs.pending_track_delete_confirmation is Some
        ||| self.dialogs.details_modal is Some
    }

    /// The commands of the keyboard. A dialog takes the keys, and so does a text field but for
    /// the undoing of a change of order.
    pub open spec fn commands_of_keys(
        self,
        keys: PressedKeys,
        typing: bool,
        status: PlayerStatus,
    ) -> Seq<UserCommand> {
        if self.dialog_takes_keys() {
            Seq::empty()
        } else if keys.z && (keys.ctrl || keys.command) {
            seq![UserCommand::UndoOrder]
        } else if typing {
            Seq::empty()
        } else {
            key_commands(keys, status.active())
        }
    }

    /// The command of a key that drives the player.
    pub open spec fn command_of_media_key(
        self,
        key: MediaKeyCommand,
        status: PlayerStatus,
    ) -> Option<UserCommand> {
        match key {
            MediaKeyCommand::Previous => Some(UserCommand::PlayPrevious),
            MediaKeyCommand::PlayPause => if status.active() {
                Some(UserCommand::PauseOrResume)
            } else if self.browsing.active_tab == MainContentTab::Radio {
                match self.state.selected_radio_index {
                    Some(index) => Some(UserCommand::PlayStation { index }),
                    None => None,
                }
            } else {
                Some(UserCommand::PlaySelected)
            },
            MediaKeyCommand::Stop => Some(UserCommand::Stop),
            MediaKeyCommand::Next => Some(UserCommand::PlayNext),
        }
    }
}

impl AudioOrbitApp {
    /// The commands of the keyboard, in the order in which they are carried out.
    pub fn process_keyboard_shortcuts(
        &self,
        keys: PressedKeys,
        typing: bool,
        status: PlayerStatus,
    ) -> (commands: Vec<UserCommand>)
        ensures
            commands@ == self@.commands_of_keys(keys, typing, status),
    {
        let mut commands: Vec<UserCommand> = Vec::new();
        if self.dialogs.show_folder_import_modal || self.dialogs.active_panel_modal.is_some()
            || self.dialogs.show_radio_add_modal || self.dialogs.show_new_playlist_modal
            || self.dialogs.pending_track_delete_confirmation.is_some()
            || self.dialogs.details_modal.is_some() {
            assert(commands@ =~= Seq::empty());
            return commands;
        }
        if keys.z && (keys.ctrl || keys.command) {
            commands.push(UserCommand::UndoOrder);
            assert(commands@ =~= seq![UserCommand::UndoOrder]);
            return commands;
        }
        if typing {
            assert(commands@ =~= Seq::empty());
            return commands;
        }
        let play = if status.is_active() {
            UserCommand::PauseOrResume
        } else {
            UserCommand::PlaySelected
        };
        add_command(&mut commands, keys.space, play);
        assert(commands@ =~= command_where(keys.space, play));
        add_command(&mut commands, keys.enter, UserCommand::PlaySelected);
        add_command(&mut commands, keys.s, UserCommand::Stop);
        add_command(&mut commands, keys.right && keys.ctrl, UserCommand::PlayNext);
        add_command(&mut commands, keys.left && keys.ctrl, UserCommand::PlayPrevious);
        add_command(&mut commands, keys.right && !keys.ctrl, UserCommand::SeekForward);
        add_command(&mut commands, keys.left && !keys.ctrl, UserCommand::SeekBackward);
        add_command(&mut commands, keys.f && keys.ctrl, UserCommand::ToggleSearch);
        add_command(&mut commands, keys.m, UserCommand::TogglePlayerOnly);
        add_command(&mut commands, keys.l && keys.ctrl, UserCommand::ToggleLibraryPanel);
        add_command(&mut commands, keys.p && keys.ctrl, UserCommand::ToggleProfilePanel);
        commands
    }

    /// The command of a key that drives the player.
    pub fn handle_media_key_command(&self, key: MediaKeyCommand, status: PlayerStatus) -> (command:
        Option<UserCommand>)
        ensures
            command == self@.command_of_media_key(key, status),
    {
        match key {
            MediaKeyCommand::Previous => Some(UserCommand::PlayPrevious),
            MediaKeyCommand::PlayPause => if status.is_active() {
                Some(UserCommand::PauseOrResume)
            } else if self.browsing.active_tab == MainContentTab::Radio {
                match self.state.selected_radio_index {
                    Some(index) => Some(UserCommand::PlayStation { index }),
                    None => None,
                }
            } else {
                Some(UserCommand::PlaySelected)
            },
            MediaKeyCommand::Stop => Some(UserCommand::Stop),
            MediaKeyCommand::Next => Some(UserCommand::PlayNext),
        }
    }
}

} // verus!
