//! What holds of the window, the keys, the work on files and what is kept between runs.

use crate::app::{AppView, MainContentTab, PlayerStatus};
use crate::counting;
use crate::metrics;
use crate::metrics::BackgroundJob;
use crate::playlist::{PlaylistKind, PlaylistView};
use crate::settings::WindowGeometry;
use crate::state;
use crate::state::StateView;
use crate::track_files;
use crate::track_files::{CopyOutcome, DeleteOutcome};
use crate::window;
use crate::window::{MediaKeyCommand, PressedKeys, RepaintRate, UserCommand};
use vstd::prelude::*;

verus! {

// ---------------------------------------------------------------------------
// What is kept between runs
// ---------------------------------------------------------------------------

/// A state that was read refers to playlists, a profile and a station that are there; what it
/// referred to before is kept where it is there, and so are all tracks.
pub proof fn read_state_refers_to_what_is_there(given: StateView)
    ensures
        ({
            let valid = state::valid_view(given);
            &&& valid.selected_playlist_index < valid.playlists.len()
            &&& given.selected_playlist_index < given.playlists.len()
                ==> valid.selected_playlist_index == given.selected_playlist_index
            &&& given.playlists.len() > 0 ==> valid.playlists.len() == given.playlists.len()
            &&& forall|i: int|
                0 <= i < given.playlists.len() ==> (#[trigger] valid.playlists[i]).name
                    == given.playlists[i].name && valid.playlists[i].kind
                    == given.playlists[i].kind && valid.playlists[i].tracks.len()
                    == given.playlists[i].tracks.len()
            &&& given.profiles.len() > 0 ==> valid.selected_profile_index < given.profiles.len()
            &&& given.selected_profile_index < given.profiles.len()
                ==> valid.selected_profile_index == given.selected_profile_index
            &&& valid.selected_radio_index matches Some(index) ==> index
                < given.radio_stations.len() && given.selected_radio_index == Some(index)
            &&& given.selected_radio_index matches Some(index) ==> index
                < given.radio_stations.len() ==> valid.selected_radio_index == Some(index)
            &&& valid.profiles == given.profiles
            &&& valid.radio_stations == given.radio_stations
            &&& valid.playback == given.playback
        }),
{
}

/// What is written to disk has the other playlists in their order, and the selected one is the
/// same as before, unless it is the one for temporary playback.
pub proof fn selected_playlist_is_written(given: StateView, temporary: usize, other: int)
    requires
        given.playlists.len() <= usize::MAX,
        state::first_of_kind(given.playlists, PlaylistKind::Temporary) == Some(temporary),
        given.selected_playlist_index < given.playlists.len(),
        given.selected_playlist_index != temporary,
        0 <= other < given.playlists.len(),
        other != temporary,
    ensures
        ({
            let written = state::persisted_view(given);
            &&& written.playlists.len() == given.playlists.len() - 1
            &&& written.playlists[written.selected_playlist_index as int]
                == given.playlists[given.selected_playlist_index as int]
            &&& written.playlists[if other < temporary {
                other
            } else {
                other - 1
            }] == given.playlists[other]
            &&& given.last_played_track matches Some(last) ==> last.playlist_index
                < given.playlists.len() ==> last.playlist_index != temporary ==> (
            written.last_played_track matches Some(kept) && kept.track_path == last.track_path
                && written.playlists[kept.playlist_index as int]
                == given.playlists[last.playlist_index as int])
        }),
{
    counting::first_where_holds(
        given.playlists.len(),
        |i: int| given.playlists[i].kind == PlaylistKind::Temporary,
    );
}

// ---------------------------------------------------------------------------
// The window
// ---------------------------------------------------------------------------

/// The place of a window is remembered for the mode that it is in, and what is remembered for the
/// other mode stays; a window that is hidden or settles is not remembered.
pub proof fn window_is_remembered_for_its_mode(view: AppView, geometry: WindowGeometry, now: u64)
    requires
        geometry.is_usable(),
    ensures
        ({
            let settles = view.browsing.suppress_window_geometry_save_until is Some
                && view.browsing.suppress_window_geometry_save_until->0 > now;
            let after = view.with_window_remembered(Some(geometry), now);
            &&& settles ==> after == view
            &&& !settles && view.browsing.player_only_mode
                ==> after.state.ui.player_only_window_geometry == Some(geometry)
                && after.state.ui.full_layout_window_geometry
                == view.state.ui.full_layout_window_geometry
            &&& !settles && !view.browsing.player_only_mode
                ==> after.state.ui.full_layout_window_geometry == Some(geometry)
                && after.state.ui.player_only_window_geometry
                == view.state.ui.player_only_window_geometry
            &&& view.with_window_remembered(None, now) == view
        }),
{
}

/// The size of a window is never below the least size, whatever is remembered.
pub proof fn window_has_least_size(
    view: AppView,
    player_only: bool,
    least: (u32, u32),
    default_size: (u32, u32),
)
    requires
        least.0 <= default_size.0,
        least.1 <= default_size.1,
        default_size.0 < 0x7f80_0000,
        default_size.1 < 0x7f80_0000,
    ensures
        view.window_size(player_only, least, default_size).0 >= least.0,
        view.window_size(player_only, least, default_size).1 >= least.1,
{
}

/// The mode is the other one after it was toggled, in the window as in what is saved, and the same
/// as before after it was toggled again.
pub proof fn toggled_mode_comes_back(
    view: AppView,
    geometry: Option<WindowGeometry>,
    now: u64,
    other: Option<WindowGeometry>,
    later: u64,
)
    ensures
        ({
            let once = view.with_mode_toggled(geometry, now);
            let twice = once.with_mode_toggled(other, later);
            &&& once.browsing.player_only_mode == !view.browsing.player_only_mode
            &&& once.state.ui.player_only_mode == !view.browsing.player_only_mode
            &&& twice.browsing.player_only_mode == view.browsing.player_only_mode
            &&& once.state.playlists.len() == view.state.playlists.len()
            &&& once.state.radio_stations == view.state.radio_stations
        }),
{
}

/// The window is drawn again soon while something is heard or goes on.
pub proof fn window_follows_playback(view: AppView, status: PlayerStatus, now: u64)
    ensures
        ({
            let rate = view.repaint_rate(false, false, status, now);
            let quiet = view.seeking.drag_position_bits is None && !view.waveform_is_loading();
            &&& view.repaint_rate(true, false, status, now) == RepaintRate::ActiveInput
            &&& quiet && view.radio.active_index is Some ==> rate == RepaintRate::Radio
            &&& quiet && view.radio.active_index is None && status.available && status.playing
                ==> rate == RepaintRate::Playback
            &&& rate == RepaintRate::Idle ==> !(status.available && status.playing)
                && view.radio.active_index is None && view.pending_track_switch is None
                && !view.jobs.folder_scan && !view.jobs.library_sync
                && !view.jobs.track_file_operation && !view.jobs.dj_mix
                && view.messages.status.len() == 0 && view.messages.error is None
        }),
{
}

// ---------------------------------------------------------------------------
// The keys
// ---------------------------------------------------------------------------

/// A list with a part added that may be there holds what was in it, and the part where it is
/// there.
proof fn part_is_added<T>(list: Seq<T>, part: Seq<T>, holds: bool, entry: T, wanted: T)
    requires
        part == if holds {
            seq![entry]
        } else {
            Seq::<T>::empty()
        },
    ensures
        (list + part).contains(wanted) <==> list.contains(wanted) || holds && wanted == entry,
{
    if list.contains(wanted) {
        let k = list.index_of(wanted);
        assert((list + part)[k] == wanted);
    }
    if holds && wanted == entry {
        assert((list + part)[list.len() as int] == wanted);
    }
    if (list + part).contains(wanted) {
        let k = (list + part).index_of(wanted);
        if k < list.len() {
            assert(list[k] == wanted);
        } else {
            assert(part[k - list.len()] == wanted);
        }
    }
}

/// A list holds a command.
#[verifier::opaque]
spec fn holds_command(list: Seq<UserCommand>, wanted: UserCommand) -> bool {
    list.contains(wanted)
}

/// A list with a command added that may be there.
proof fn one_command(list: Seq<UserCommand>, holds: bool, entry: UserCommand, wanted: UserCommand)
    ensures
        holds_command(list + window::command_where(holds, entry), wanted) <==> holds_command(
            list,
            wanted,
        ) || holds && wanted == entry,
        holds_command(window::command_where(holds, entry), wanted) <==> holds && wanted == entry,
{
    reveal(holds_command);
    let part = window::command_where(holds, entry);
    part_is_added(list, part, holds, entry, wanted);
    part_is_added(Seq::empty(), part, holds, entry, wanted);
    assert(Seq::<UserCommand>::empty() + part =~= part);
}

/// The commands of the keys, one by one.
proof fn commands_one_by_one(keys: PressedKeys, active: bool, wanted: UserCommand)
    ensures
        holds_command(window::key_commands(keys, active), wanted) <==> match wanted {
            UserCommand::PauseOrResume => keys.space && active,
            UserCommand::PlaySelected => keys.enter || keys.space && !active,
            UserCommand::Stop => keys.s,
            UserCommand::PlayNext => keys.ctrl && keys.right,
            UserCommand::PlayPrevious => keys.ctrl && keys.left,
            UserCommand::SeekForward => keys.right && !keys.ctrl,
            UserCommand::SeekBackward => keys.left && !keys.ctrl,
            UserCommand::ToggleSearch => keys.ctrl && keys.f,
            UserCommand::TogglePlayerOnly => keys.m,
            UserCommand::ToggleLibraryPanel => keys.ctrl && keys.l,
            UserCommand::ToggleProfilePanel => keys.ctrl && keys.p,
            _ => false,
        },
{
    let spaced = if active {
        UserCommand::PauseOrResume
    } else {
        UserCommand::PlaySelected
    };
    let c0 = window::command_where(keys.space, spaced);
    one_command(c0, keys.space, spaced, wanted);
    one_command(c0, keys.enter, UserCommand::PlaySelected, wanted);
    let c1 = c0 + window::command_where(keys.enter, UserCommand::PlaySelected);
    one_command(c1, keys.s, UserCommand::Stop, wanted);
    let c2 = c1 + window::command_where(keys.s, UserCommand::Stop);
    one_command(c2, keys.right && keys.ctrl, UserCommand::PlayNext, wanted);
    let c3 = c2 + window::command_where(keys.right && keys.ctrl, UserCommand::PlayNext);
    one_command(c3, keys.left && keys.ctrl, UserCommand::PlayPrevious, wanted);
    let c4 = c3 + window::command_where(keys.left && keys.ctrl, UserCommand::PlayPrevious);
    one_command(c4, keys.right && !keys.ctrl, UserCommand::SeekForward, wanted);
    let c5 = c4 + window::command_where(keys.right && !keys.ctrl, UserCommand::SeekForward);
    one_command(c5, keys.left && !keys.ctrl, UserCommand::SeekBackward, wanted);
    let c6 = c5 + window::command_where(keys.left && !keys.ctrl, UserCommand::SeekBackward);
    one_command(c6, keys.f && keys.ctrl, UserCommand::ToggleSearch, wanted);
    let c7 = c6 + window::command_where(keys.f && keys.ctrl, UserCommand::ToggleSearch);
    one_command(c7, keys.m, UserCommand::TogglePlayerOnly, wanted);
    let c8 = c7 + window::command_where(keys.m, UserCommand::TogglePlayerOnly);
    one_command(c8, keys.l && keys.ctrl, UserCommand::ToggleLibraryPanel, wanted);
    let c9 = c8 + window::command_where(keys.l && keys.ctrl, UserCommand::ToggleLibraryPanel);
    one_command(c9, keys.p && keys.ctrl, UserCommand::ToggleProfilePanel, wanted);
}

/// A key gives its command, and no other key does: the arrows seek, and step from track to track
/// with the control key; space pauses what plays, and else plays what is selected.
pub proof fn keys_give_their_commands(keys: PressedKeys, active: bool, wanted: UserCommand)
    ensures
        window::key_commands(keys, active).contains(wanted) <==> match wanted {
            UserCommand::PauseOrResume => keys.space && active,
            UserCommand::PlaySelected => keys.enter || keys.space && !active,
            UserCommand::Stop => keys.s,
            UserCommand::PlayNext => keys.ctrl && keys.right,
            UserCommand::PlayPrevious => keys.ctrl && keys.left,
            UserCommand::SeekForward => keys.right && !keys.ctrl,
            UserCommand::SeekBackward => keys.left && !keys.ctrl,
            UserCommand::ToggleSearch => keys.ctrl && keys.f,
            UserCommand::TogglePlayerOnly => keys.m,
            UserCommand::ToggleLibraryPanel => keys.ctrl && keys.l,
            UserCommand::ToggleProfilePanel => keys.ctrl && keys.p,
            _ => false,
        },
{
    commands_one_by_one(keys, active, wanted);
    reveal(holds_command);
}

/// An open dialog takes every key, and a text field all of them but the one that undoes a change
/// of order.
pub proof fn typed_keys_are_no_commands(view: AppView, keys: PressedKeys, status: PlayerStatus)
    ensures
        view.dialogs.show_folder_import_modal || view.dialogs.active_panel_modal is Some
            || view.dialogs.show_radio_add_modal || view.dialogs.show_new_playlist_modal
            || view.dialogs.pending_track_delete_confirmation is Some
            || view.dialogs.details_modal is Some ==> view.commands_of_keys(
            keys,
            false,
            status,
        ).len() == 0 && view.commands_of_keys(keys, true, status).len() == 0,
        !(keys.z && (keys.ctrl || keys.command)) ==> view.commands_of_keys(
            keys,
            true,
            status,
        ).len() == 0,
        !view.dialog_takes_keys() && keys.z && keys.ctrl ==> view.commands_of_keys(
            keys,
            true,
            status,
        ) == seq![UserCommand::UndoOrder],
        !view.dialog_takes_keys() && !keys.z ==> view.commands_of_keys(keys, false, status)
            == window::key_commands(keys, status.available && (status.playing || status.paused)),
{
}

/// The keys of a player step through the tracks, stop, and pause what plays; where nothing plays
/// they play what is selected in the shown tab.
pub proof fn player_keys_drive_player(view: AppView, status: PlayerStatus)
    ensures
        view.command_of_media_key(MediaKeyCommand::Next, status) == Some(UserCommand::PlayNext),
        view.command_of_media_key(MediaKeyCommand::Previous, status) == Some(
            UserCommand::PlayPrevious,
        ),
        view.command_of_media_key(MediaKeyCommand::Stop, status) == Some(UserCommand::Stop),
        status.available && (status.playing || status.paused) ==> view.command_of_media_key(
            MediaKeyCommand::PlayPause,
            status,
        ) == Some(UserCommand::PauseOrResume),
        !status.available || !status.playing && !status.paused ==> view.command_of_media_key(
            MediaKeyCommand::PlayPause,
            status,
        ) == if view.browsing.active_tab == MainContentTab::Radio {
            match view.state.selected_radio_index {
                Some(index) => Some(UserCommand::PlayStation { index }),
                None => None,
            }
        } else {
            Some(UserCommand::PlaySelected)
        },
{
}

// ---------------------------------------------------------------------------
// Work in the background
// ---------------------------------------------------------------------------

/// Work is listed where it goes on, and only there.
#[verifier::rlimit(30)]
pub proof fn running_work_is_listed(view: AppView, wanted: BackgroundJob)
    ensures
        view.running_jobs().contains(wanted) <==> match wanted {
            BackgroundJob::AudioPrepare => view.jobs.prepared_track,
            BackgroundJob::FolderScan => view.jobs.folder_scan,
            BackgroundJob::CrossfadeSwitch => view.pending_track_switch is Some,
            BackgroundJob::UpdateCheck => view.jobs.update_check,
            BackgroundJob::UpdateInstall => view.jobs.update_install,
            BackgroundJob::RadioMetadata => view.radio.title_lookup_running,
            BackgroundJob::ProfileCountdown => view.jobs.profile_apply_at is Some,
        },
{
    let none = Seq::<BackgroundJob>::empty();
    let c0 = metrics::job_where(view.jobs.prepared_track, BackgroundJob::AudioPrepare);
    part_is_added(none, c0, view.jobs.prepared_track, BackgroundJob::AudioPrepare, wanted);
    assert(none + c0 =~= c0);
    let p1 = metrics::job_where(view.jobs.folder_scan, BackgroundJob::FolderScan);
    part_is_added(c0, p1, view.jobs.folder_scan, BackgroundJob::FolderScan, wanted);
    let c1 = c0 + p1;
    let switches = view.pending_track_switch is Some;
    let p2 = metrics::job_where(switches, BackgroundJob::CrossfadeSwitch);
    part_is_added(c1, p2, switches, BackgroundJob::CrossfadeSwitch, wanted);
    let c2 = c1 + p2;
    let p3 = metrics::job_where(view.jobs.update_check, BackgroundJob::UpdateCheck);
    part_is_added(c2, p3, view.jobs.update_check, BackgroundJob::UpdateCheck, wanted);
    let c3 = c2 + p3;
    let p4 = metrics::job_where(view.jobs.update_install, BackgroundJob::UpdateInstall);
    part_is_added(c3, p4, view.jobs.update_install, BackgroundJob::UpdateInstall, wanted);
    let c4 = c3 + p4;
    let looks = view.radio.title_lookup_running;
    let p5 = metrics::job_where(looks, BackgroundJob::RadioMetadata);
    part_is_added(c4, p5, looks, BackgroundJob::RadioMetadata, wanted);
    let c5 = c4 + p5;
    let counts = view.jobs.profile_apply_at is Some;
    let p6 = metrics::job_where(counts, BackgroundJob::ProfileCountdown);
    part_is_added(c5, p6, counts, BackgroundJob::ProfileCountdown, wanted);
    assert(view.running_jobs() == c5 + p6);
}

/// Two libraries hold as many tracks together as each on its own.
pub proof fn tracks_add_up(first: Seq<PlaylistView>, second: Seq<PlaylistView>)
    ensures
        metrics::tracks_anywhere(first + second) == metrics::tracks_anywhere(first)
            + metrics::tracks_anywhere(second),
        forall|list: PlaylistView| #[trigger]
            metrics::tracks_anywhere(seq![list]) == list.tracks.len(),
    decreases second.len(),
{
    if second.len() == 0 {
        assert(first + second =~= first);
    } else {
        tracks_add_up(first, second.drop_last());
        assert((first + second).drop_last() =~= first + second.drop_last());
    }
    assert forall|list: PlaylistView| #[trigger]
        metrics::tracks_anywhere(seq![list]) == list.tracks.len() by {
        assert(seq![list].drop_last() =~= Seq::<PlaylistView>::empty());
        assert(metrics::tracks_anywhere(seq![list].drop_last()) == 0);
    }
}

/// Of the files that were to be copied, each was copied, was not there, or has an error.
pub proof fn copying_is_accounted_for(outcomes: Seq<CopyOutcome>)
    ensures
        track_files::outcomes_where(outcomes, track_files::was_copied())
            + track_files::outcomes_where(outcomes, track_files::was_skipped())
            + track_files::copy_errors(outcomes).len() == outcomes.len(),
    decreases outcomes.len(),
{
    reveal(Seq::filter);
    if outcomes.len() > 0 {
        copying_is_accounted_for(outcomes.drop_last());
    }
}

/// The message of a copy that failed is among the errors.
pub proof fn failed_copy_is_said(outcomes: Seq<CopyOutcome>, index: int)
    requires
        0 <= index < outcomes.len(),
    ensures
        outcomes[index] matches CopyOutcome::Failed { message } ==> track_files::copy_errors(
            outcomes,
        ).contains(message@),
    decreases outcomes.len(),
{
    if let CopyOutcome::Failed { message } = outcomes[index] {
        let before = track_files::copy_errors(outcomes.drop_last());
        let all = track_files::copy_errors(outcomes);
        if index == outcomes.len() - 1 {
            assert(all.last() == message@);
        } else {
            failed_copy_is_said(outcomes.drop_last(), index);
            assert(outcomes.drop_last()[index] == outcomes[index]);
            let k = before.index_of(message@);
            assert(all[k] == message@);
        }
    }
}

/// A path is among those that are gone where its file was deleted or was not there, and only
/// there.
pub proof fn gone_files_are_named(outcomes: Seq<(Seq<char>, DeleteOutcome)>, path: Seq<char>)
    ensures
        track_files::gone_paths(outcomes).contains(path) <==> exists|i: int|
            0 <= i < outcomes.len() && (#[trigger] outcomes[i]).0 == path && !(outcomes[i].1 is Failed),
    decreases outcomes.len(),
{
    let all = track_files::gone_paths(outcomes);
    if outcomes.len() > 0 {
        let rest = outcomes.drop_last();
        let before = track_files::gone_paths(rest);
        gone_files_are_named(rest, path);
        if all.contains(path) {
            let k = all.index_of(path);
            if k < before.len() {
                assert(before[k] == path);
                let i = choose|i: int|
                    0 <= i < rest.len() && (#[trigger] rest[i]).0 == path && !(rest[i].1 is Failed);
                assert(outcomes[i].0 == path);
            } else {
                assert(outcomes[outcomes.len() - 1].0 == path);
            }
        }
        if exists|i: int|
            0 <= i < outcomes.len() && (#[trigger] outcomes[i]).0 == path && !(outcomes[i].1
                is Failed) {
            let i = choose|i: int|
                0 <= i < outcomes.len() && (#[trigger] outcomes[i]).0 == path && !(outcomes[i].1
                    is Failed);
            if i < rest.len() {
                assert(rest[i] == outcomes[i]);
                let k = before.index_of(path);
                assert(all[k] == path);
            } else {
                assert(all.last() == path);
            }
        }
    }
}

/// A playlist is exported with the files of all its tracks, in their order, while nothing else is
/// done with files; while something is, that is said and nothing is exported.
pub proof fn whole_playlist_is_exported(view: AppView, index: int)
    requires
        view.state.selected_playlist_index < view.state.playlists.len(),
        0 <= index < view.state.playlists[view.state.selected_playlist_index as int].tracks.len(),
    ensures
        ({
            let shown = view.state.playlists[view.state.selected_playlist_index as int];
            let busy = view.jobs.track_file_operation || view.jobs.folder_scan
                || view.jobs.library_sync;
            &&& busy ==> view.export_selection() is None
                && view.with_export_chosen().messages.error is Some
            &&& !busy ==> (view.export_selection() matches Some(chosen) && chosen.0.len()
                == shown.tracks.len() && chosen.0[index] == shown.tracks[index].path)
            &&& !busy ==> view.with_export_chosen() == view
        }),
{
}

/// While something is done with files, nothing is deleted and no deletion is asked about.
pub proof fn files_in_use_stay(view: AppView, index: usize, list: Seq<Seq<char>>)
    requires
        view.jobs.track_file_operation || view.jobs.folder_scan || view.jobs.library_sync,
    ensures
        view.files_to_delete(list) is None,
        view.with_deletion_started(list).jobs == view.jobs,
        view.with_deletion_started(list).messages.error is Some,
        view.with_playlist_deletion_asked().dialogs == view.dialogs,
        view.with_playlist_deletion_asked().messages.error is Some,
        view.with_selection_deletion_asked(index).dialogs == view.dialogs,
        view.with_selection_deletion_asked(index).messages.error is Some,
        view.copy_selection(index) is None,
{
}

} // verus!
