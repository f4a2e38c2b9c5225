//! What holds of dialogs, panels and notices.

use crate::app::{AppView, PlayerStatus};
use crate::file_operations;
use crate::settings::RadioStationView;
use crate::text;
use crate::track_files::{TrackFileOperationEvent, TrackFileOperationResult};
use crate::updates;
use crate::updates::UpdateCheckView;
use crate::version;
use vstd::prelude::*;
use vstd::string::*;

verus! {

// ---------------------------------------------------------------------------
// Dialogs and panels
// ---------------------------------------------------------------------------

/// The escape key closes one thing: an open panel first, then a dialog, then a search; it leaves
/// all else as it is, and does nothing where nothing is open.
pub proof fn escape_closes_one_thing(view: AppView)
    ensures
        ({
            let after = view.with_topmost_closed();
            let no_panel = view.dialogs.active_panel_modal is None;
            let no_import = no_panel && !view.dialogs.show_folder_import_modal;
            let no_station = no_import && !view.dialogs.show_radio_add_modal;
            let no_playlist = no_station && !view.dialogs.show_new_playlist_modal;
            let no_question = no_playlist
                && view.dialogs.pending_track_delete_confirmation is None;
            let no_details = no_question && view.dialogs.details_modal is None;
            &&& !no_panel && view.dialogs.panel_modal_history.len() == 0
                ==> after.dialogs.active_panel_modal is None
            &&& !no_panel ==> after.dialogs.show_folder_import_modal
                == view.dialogs.show_folder_import_modal && after.browsing == view.browsing
            &&& no_panel && view.dialogs.show_folder_import_modal
                ==> !after.dialogs.show_folder_import_modal && after.browsing == view.browsing
            &&& no_import && view.dialogs.show_radio_add_modal
                ==> !after.dialogs.show_radio_add_modal && after.browsing == view.browsing
            &&& no_station && view.dialogs.show_new_playlist_modal
                ==> !after.dialogs.show_new_playlist_modal && after.browsing == view.browsing
            &&& no_playlist && view.dialogs.pending_track_delete_confirmation is Some
                ==> after.dialogs.pending_track_delete_confirmation is None
                && after.dialogs.details_modal == view.dialogs.details_modal
            &&& no_question && view.dialogs.details_modal is Some
                ==> after.dialogs.details_modal is None && after.browsing == view.browsing
            &&& no_details && view.browsing.show_track_search
                ==> !after.browsing.show_track_search && after.browsing.show_radio_search
                == view.browsing.show_radio_search && after.dialogs == view.dialogs
            &&& no_details && !view.browsing.show_track_search && view.browsing.show_radio_search
                ==> !after.browsing.show_radio_search
                && after.browsing.radio_search_query.len() == 0 && after.dialogs == view.dialogs
            &&& no_details && !view.browsing.show_track_search && !view.browsing.show_radio_search
                ==> after == view
            &&& after.jobs == view.jobs
            &&& after.active_track_path == view.active_track_path
        }),
{
}

/// A panel beside the list is shown where it was hidden, and hidden where it was shown, in the
/// window as in what is saved; where only the player is shown it stays as it is.
pub proof fn toggled_panels_come_back(view: AppView)
    ensures
        ({
            let library = view.with_library_panel_toggled();
            let profile = view.with_profile_panel_toggled();
            &&& view.browsing.player_only_mode ==> library == view && profile == view
            &&& !view.browsing.player_only_mode ==> {
                &&& library.browsing.show_library_panel == !view.browsing.show_library_panel
                &&& library.state.ui.show_library_panel == !view.browsing.show_library_panel
                &&& library.browsing.show_profile_panel == view.browsing.show_profile_panel
                &&& profile.browsing.show_profile_panel == !view.browsing.show_profile_panel
                &&& profile.state.ui.show_profile_panel == !view.browsing.show_profile_panel
                &&& profile.browsing.show_library_panel == view.browsing.show_library_panel
            }
        }),
{
}

/// What is copied of a station that plays is the title of its stream, else the name that the
/// stream gives, else the name of the station; where none plays, that is said and nothing is
/// copied.
pub proof fn playing_title_is_copied(view: AppView, index: usize, title: Seq<char>)
    ensures
        view.radio.active_index is None ==> view.with_radio_title_copied().dialogs == view.dialogs
            && view.with_radio_title_copied().messages.error is Some,
        view.radio.active_index == Some(index) && view.radio.title == Some(title)
            && !text::is_blank_text(title)
            ==> view.with_radio_title_copied().dialogs.pending_clipboard_text == Some(title),
        view.radio.active_index == Some(index) && view.radio.title is None
            && view.radio.station_name is None && index < view.state.radio_stations.len()
            ==> view.with_radio_title_copied().dialogs.pending_clipboard_text == Some(
            view.state.radio_stations[index as int].name,
        ),
{
}

/// A station that plays is shown under the name that its stream gives, and under its own name
/// where the stream has given none.
pub proof fn station_is_shown_by_name(view: AppView, station: RadioStationView, name: Seq<char>)
    ensures
        view.radio.station_name == Some(name) && !text::is_blank_text(name)
            ==> view.shown_station_name(station) == name,
        view.radio.station_name is None && station.last_station_name is None
            ==> view.shown_station_name(station) == station.name,
{
}

// ---------------------------------------------------------------------------
// Notices
// ---------------------------------------------------------------------------

/// Another output device is noticed once: it is kept as noticed, and said unless playback switches
/// to it by itself; once the old device is back the notice is taken back.
pub proof fn other_device_is_noticed(view: AppView, now: u64, current: Seq<char>)
    ensures
        ({
            let after = view.with_output_checked(now, current);
            &&& after.output.last_check_at == now
            &&& after.output.last_known_name == view.output.last_known_name
            &&& after.state == view.state
            &&& current != view.output.last_known_name ==> after.output.detected_change == Some(
                current,
            )
            &&& current == view.output.last_known_name ==> after.output.detected_change is None
            &&& current != view.output.last_known_name && view.output.detected_change != Some(
                current,
            ) && !view.state.playback.auto_switch_output_device
                ==> after.messages.status == "Output device changed to "@ + current
                + ". Refresh output to continue on the new device."@
            &&& view.output.detected_change == Some(current) && current
                != view.output.last_known_name ==> after.messages == view.messages
        }),
{
}

/// The end of work on files is noted whatever came of it; copying changes no playlist, and work
/// that got lost is said.
pub proof fn ended_work_is_noted(view: AppView, event: TrackFileOperationEvent)
    ensures
        ({
            let after = view.with_file_operation_ended(event);
            &&& !after.jobs.track_file_operation
            &&& event is Lost ==> after.messages.error is Some && after.state == view.state
            &&& event matches TrackFileOperationEvent::Done { result } ==> result is Copy
                ==> after.state == view.state
            &&& event matches TrackFileOperationEvent::Done { result } ==> (result matches
                TrackFileOperationResult::Copy { errors, .. } ==> (after.messages.error is None
                <==> errors@.len() == 0))
        }),
{
}

/// Errors are said where there are some; how many more there are is said behind the first three.
pub proof fn errors_are_said(prefix: Seq<char>, errors: Seq<Seq<char>>)
    ensures
        file_operations::errors_text(prefix, errors) is None <==> errors.len() == 0,
        errors.len() == 1 ==> file_operations::errors_text(prefix, errors) == Some(
            prefix + ": "@ + errors[0],
        ),
        errors.len() > 3 ==> ({
            let said = file_operations::errors_text(prefix, errors)->0;
            let more = " | and "@ + text::decimal((errors.len() - 3) as nat) + " more error(s)"@;
            more.len() <= said.len() && said.subrange(said.len() - more.len(), said.len() as int)
                == more
        }),
{
    reveal_strlit(" | and ");
    if errors.len() == 1 {
        let first = crate::paths::first_entries(errors, 3);
        assert(first =~= errors);
        assert(errors.drop_last() =~= Seq::<Seq<char>>::empty());
        assert(text::joined(errors, " | "@) == errors[0]);
    }
    if errors.len() > 3 {
        let said = file_operations::errors_text(prefix, errors)->0;
        let more = " | and "@ + text::decimal((errors.len() - 3) as nat) + " more error(s)"@;
        let details = prefix + ": "@ + text::joined(
            crate::paths::first_entries(errors, 3),
            " | "@,
        );
        assert(said =~= details + more);
        assert(said.subrange(said.len() - more.len(), said.len() as int) =~= more);
    }
}

/// A release can be installed where it is newer, has a file to download, and nothing else is
/// looked for or installed.
pub proof fn newer_release_can_be_installed(check: UpdateCheckView, busy: bool)
    ensures
        ({
            let report = updates::release_report(check, busy);
            &&& report.can_install <==> check.is_update_available && check.asset_download_url
                is Some && !busy
            &&& report.current_text == "Current version: v"@ + check.current_version
            &&& check.prerelease ==> report.type_text == "Release type: prerelease"@
            &&& !check.prerelease ==> report.type_text == "Release type: stable"@
        }),
{
    reveal_strlit("Release type: ");
    reveal_strlit("prerelease");
    reveal_strlit("stable");
    reveal_strlit("Release type: prerelease");
    reveal_strlit("Release type: stable");
    assert("Release type: "@ + "prerelease"@ =~= "Release type: prerelease"@);
    assert("Release type: "@ + "stable"@ =~= "Release type: stable"@);
}

/// Going back to the stable release no longer asks for others, and installs it once.
pub proof fn stable_release_is_asked_for(
    view: AppView,
    status: PlayerStatus,
    position: u32,
    now: u64,
)
    ensures
        ({
            let after = view.with_stable_install_started(status, position, now);
            &&& view.jobs.update_install ==> after.state == view.state && after.jobs == view.jobs
            &&& !view.jobs.update_install ==> {
                &&& after.jobs.update_install
                &&& !after.state.update_settings.include_prereleases
                &&& after.updates.last_check is None
                &&& after.messages.error is None
            }
        }),
{
}

/// The version of a developer begins with a `v` and is never empty; in a release it is that of the
/// package.
pub proof fn version_begins_with_letter(
    value: Seq<char>,
    package: Seq<char>,
    developer: Option<Seq<char>>,
    commit: Option<Seq<char>>,
)
    ensures
        version::developer_version(value).len() > 0,
        version::developer_version(value)[0] == 'v',
        version::shown_version(true, package, developer, commit) == "v"@ + package,
        version::shown_version(false, package, Some(value), commit) == version::developer_version(
            value,
        ),
{
    reveal_strlit("v");
    reveal_strlit("v0.0.0-dev");
}

} // verus!
