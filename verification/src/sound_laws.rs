//! What holds of sound profiles, known silence, output devices and updates.

use crate::app::{AppView, Crossfade, EffectView, PlayerStatus};
use crate::counting;
use crate::output_device;
use crate::output_device::OutputDeviceChangeAction;
use crate::paths;
use crate::profiles;
use crate::radio_laws;
use crate::session_laws;
use crate::settings::DspSettings;
use crate::silence;
use crate::silence::{FileIdentity, SilenceEntryView};
use crate::text;
use crate::updates;
use crate::updates::{UpdateCheck, UpdateCheckEvent, UpdateCheckView, UpdateInstallEvent};
use vstd::prelude::*;
use vstd::string::*;

verus! {

// ---------------------------------------------------------------------------
// Sound profiles
// ---------------------------------------------------------------------------

/// A new profile comes last, is selected, and sounds as the selected one did; the others stay as
/// they are.
pub proof fn new_profile_sounds_as_selected(view: AppView, fallback: DspSettings)
    requires
        view.state.profiles.len() < usize::MAX,
    ensures
        ({
            let after = view.with_profile_added(fallback);
            &&& after.state.profiles.len() == view.state.profiles.len() + 1
            &&& after.state.selected_profile_index == view.state.profiles.len()
            &&& forall|i: int|
                0 <= i < view.state.profiles.len() ==> #[trigger] after.state.profiles[i]
                    == view.state.profiles[i]
            &&& after.state.profiles.last().settings == if view.state.selected_profile_index
                < view.state.profiles.len() {
                view.state.profiles[view.state.selected_profile_index as int].settings
            } else {
                fallback
            }
            &&& after.state.profiles.last().name == "Profile "@ + text::decimal(
                view.state.profiles.len() + 1,
            )
        }),
{
}

/// The selected profile is removed, and no other, where there is another one; then one that is
/// there is selected, and the change is heard soon. The last one stays, and an error says so.
pub proof fn removed_profile_is_gone(view: AppView, now: u64)
    requires
        view.state.selected_profile_index < view.state.profiles.len() <= usize::MAX,
        now <= u64::MAX - profiles::PROFILE_APPLY_DELAY_MILLIS,
    ensures
        ({
            let after = view.with_profile_removed(now);
            let at = view.state.selected_profile_index as int;
            if view.state.profiles.len() > 1 {
                &&& after.state.profiles.len() == view.state.profiles.len() - 1
                &&& forall|i: int|
                    0 <= i < at ==> #[trigger] after.state.profiles[i] == view.state.profiles[i]
                &&& forall|i: int|
                    at <= i < after.state.profiles.len() ==> #[trigger] after.state.profiles[i]
                        == view.state.profiles[i + 1]
                &&& after.state.selected_profile_index < after.state.profiles.len()
                &&& after.jobs.profile_apply_at == Some(
                    (now + profiles::PROFILE_APPLY_DELAY_MILLIS) as u64,
                )
            } else {
                after.state == view.state && after.messages.error is Some && after.jobs
                    == view.jobs
            }
        }),
{
}

/// Another profile that is selected is heard soon, not at once; selecting the selected one again
/// changes nothing.
pub proof fn selected_profile_is_heard_soon(view: AppView, index: usize, now: u64)
    requires
        now <= u64::MAX - profiles::PROFILE_APPLY_DELAY_MILLIS,
    ensures
        index == view.state.selected_profile_index ==> view.with_profile_selected(index, now)
            == view,
        index != view.state.selected_profile_index ==> {
            let after = view.with_profile_selected(index, now);
            &&& after.state.selected_profile_index == index
            &&& after.state.profiles == view.state.profiles
            &&& after.jobs.profile_apply_at == Some(
                (now + profiles::PROFILE_APPLY_DELAY_MILLIS) as u64,
            )
            &&& after.effects == view.effects.push(EffectView::SaveState)
        },
        index < view.state.profiles.len() && index != view.state.selected_profile_index
            ==> view.with_profile_selected(index, now).sound_settings() == Some(
            view.state.profiles[index as int].settings,
        ),
{
}

/// A profile is applied to what plays: the playing track goes on at its position without a fade,
/// and the stream of the playing station is opened again. Where nothing plays nothing is asked
/// for.
pub proof fn profile_is_applied_to_what_plays(
    view: AppView,
    status: PlayerStatus,
    position: u32,
)
    requires
        status.available,
    ensures
        ({
            let after = view.with_profile_applied(status, position);
            &&& !(status.playing || status.paused) ==> after == view
            &&& view.radio.active_index is None && view.active_track_path is None ==> after == view
            &&& (status.playing || status.paused) && view.radio.active_index is None && (
            view.active_track_path is Some) ==> {
                &&& after.effects == view.effects.push(after.effects.last())
                &&& after.effects.last() matches EffectView::PlayTrack {
                    path,
                    track_index,
                    start_bits,
                    crossfade,
                    continues_live,
                }
                &&& path == view.active_track_path->0
                &&& track_index == view.active_track_index
                &&& start_bits == position
                &&& crossfade == Crossfade::Off
                &&& continues_live == status.playing
            }
            &&& view.radio.active_index matches Some(index) ==> (status.playing || status.paused)
                && index < view.state.radio_stations.len() ==> {
                &&& after.effects == view.effects.push(after.effects.last())
                &&& after.effects.last() matches EffectView::OpenRadioStream {
                    station_index,
                    url,
                    reopens,
                    ..
                }
                &&& station_index == index
                &&& url == view.state.radio_stations[index as int].url
                &&& reopens
            }
            &&& after.state == view.state
        }),
{
    let after = view.with_profile_applied(status, position);
    if after != view {
        assert(after.effects =~= view.effects.push(after.effects.last()));
    }
}

/// A change that is due is applied to what plays, and not before it is due.
pub proof fn due_change_is_applied(
    view: AppView,
    now: u64,
    status: PlayerStatus,
    position: u32,
    time: u64,
)
    requires
        view.jobs.profile_apply_at == Some(time),
        view.jobs.profile_applied_until is None,
        status.available && (status.playing || status.paused),
        view.radio.active_index is None,
        view.active_track_path is Some,
    ensures
        now < time ==> view.with_apply_checked(now, status, position) == view,
        now >= time ==> {
            let after = view.with_apply_checked(now, status, position);
            &&& after.jobs.profile_apply_at is None
            &&& after.effects.last() matches EffectView::PlayTrack { path, start_bits, .. }
            &&& path == view.active_track_path->0
            &&& start_bits == position
        },
{
}

// ---------------------------------------------------------------------------
// Known silence
// ---------------------------------------------------------------------------

/// What a search for silence depends on is exactly this: whether silence is skipped, how long it
/// must be, how quiet, and whether the end is trimmed. A time in milliseconds counts before one
/// in seconds.
pub proof fn silence_settings_decide(left: DspSettings, right: DspSettings)
    requires
        left.silence_trigger_millis > 0,
        right.silence_trigger_millis > 0,
    ensures
        silence::fingerprint(left) == silence::fingerprint(right) <==> {
            &&& left.skip_silence_enabled == right.skip_silence_enabled
            &&& left.silence_trigger_millis == right.silence_trigger_millis
            &&& left.silence_threshold_db == right.silence_threshold_db
            &&& left.silence_trim_end_regardless_of_duration
                == right.silence_trim_end_regardless_of_duration
        },
        silence::fingerprint(left).trigger_millis == left.silence_trigger_millis,
        silence::fingerprint(
            DspSettings { silence_trigger_millis: 0, ..left },
        ).trigger_millis == if left.silence_threshold_seconds == 0 {
            1000
        } else {
            left.silence_threshold_seconds * 1000
        },
{
}

/// Silent passages are known only of a file that has not changed, under the settings under which
/// they were found, and only while silence is skipped.
pub proof fn changed_file_is_searched_again(
    cache: Seq<SilenceEntryView>,
    path: Seq<char>,
    settings: DspSettings,
    identity: FileIdentity,
)
    requires
        cache.len() <= usize::MAX,
    ensures
        silence::known_ranges(cache, path, settings, identity) matches Some(ranges) ==> {
            &&& settings.skip_silence_enabled
            &&& exists|i: int|
                {
                    &&& 0 <= i < cache.len()
                    &&& paths::compared_parts((#[trigger] cache[i]).path)
                        == paths::compared_parts(path)
                    &&& cache[i].identity == identity
                    &&& cache[i].settings == silence::fingerprint(settings)
                    &&& cache[i].ranges == ranges
                }
        },
        silence::with_ranges(
            cache,
            path,
            DspSettings { skip_silence_enabled: false, ..settings },
            identity,
            Seq::empty(),
        ) == cache,
{
    let holds = silence::is_about(cache, path);
    counting::first_where_holds(cache.len(), holds);
    if let Some(index) = counting::first_where(cache.len(), holds) {
        assert(holds(index as int));
        assert(cache[index as int] == cache[index as int]);
    }
}

// ---------------------------------------------------------------------------
// Output devices
// ---------------------------------------------------------------------------

/// Where another device shows up, playback moves to it exactly where that is switched on; else
/// the user is told, once. Where the device in use is back, the notice of another one goes.
pub proof fn device_change_is_handled(
    known: Seq<char>,
    detected: Option<Seq<char>>,
    current: Seq<char>,
    auto_switch: bool,
)
    ensures
        ({
            let action = output_device::change_action(known, detected, current, auto_switch);
            &&& action == OutputDeviceChangeAction::Refresh <==> current != known && detected
                != Some(current) && auto_switch
            &&& action == OutputDeviceChangeAction::Notify <==> current != known && detected
                != Some(current) && !auto_switch
            &&& action == OutputDeviceChangeAction::ClearPending <==> current == known
                && detected is Some
        }),
{
}

/// After the player has moved to another device, what was playing goes on: the same track from
/// its position, or the same station; it is paused again where it was paused, and recorded again
/// where it was recorded. Where nothing was playing nothing is asked for.
pub proof fn playback_moves_along(
    view: AppView,
    name: Seq<char>,
    before: PlayerStatus,
    position: u32,
)
    ensures
        ({
            let after = view.with_output_refreshed(name, before, position);
            let n = view.effects.len() as int;
            &&& after.output.last_known_name == name
            &&& after.output.detected_change is None
            &&& after.state == view.state
            &&& !(before.available && (before.playing || before.paused)) ==> after.effects
                == view.effects
            &&& before.available && (before.playing || before.paused)
                && view.radio.active_index is None && view.active_track_path is Some ==> {
                &&& after.effects.len() == n + if before.paused {
                    2int
                } else {
                    1int
                }
                &&& after.effects[n] matches EffectView::PlayTrack {
                    path,
                    track_index,
                    start_bits,
                    ..
                }
                &&& path == view.active_track_path->0
                &&& track_index == view.active_track_index
                &&& start_bits == position
                &&& before.paused ==> after.effects.last() == EffectView::PauseAgain
            }
            &&& view.radio.active_index matches Some(index) ==> before.available && (
            before.playing || before.paused) && index < view.state.radio_stations.len() ==> {
                &&& after.effects.len() > n
                &&& after.effects[n] matches EffectView::OpenRadioStream {
                    station_index,
                    url,
                    ..
                }
                &&& station_index == index
                &&& url == view.state.radio_stations[index as int].url
                &&& before.recording <==> after.effects.skip(n).contains(EffectView::RecordAgain)
                &&& before.paused ==> after.effects.last() == EffectView::PauseAgain
            }
        }),
{
    let ready = (AppView {
        output: crate::app::OutputDeviceView {
            detected_change: None,
            last_known_name: name,
            ..view.output
        },
        ..view
    }).with_status("Output refreshed: "@ + name + "."@).with_error(None);
    let after = ready.with_playback_resumed(before, position);
    let n = view.effects.len() as int;
    let quiet = crate::app::stopped_player();
    if before.available && (before.playing || before.paused) {
        if let Some(index) = view.radio.active_index {
            radio_laws::requested_station_is_opened(ready, index, quiet);
            let asked = ready.with_station_requested(index, quiet);
            let added = after.effects.skip(n);
            if index < view.state.radio_stations.len() {
                assert(added[0] == asked.effects[n]);
                if before.recording {
                    assert(added[1] == EffectView::RecordAgain);
                    assert(added.contains(EffectView::RecordAgain));
                } else {
                    assert forall|i: int| 0 <= i < added.len() implies added[i]
                        != EffectView::RecordAgain by {}
                }
            }
        } else if let Some(path) = view.active_track_path {
            session_laws::path_is_asked_for(
                ready,
                path,
                view.active_track_index,
                position,
                quiet,
            );
        }
    }
}

// ---------------------------------------------------------------------------
// Updates
// ---------------------------------------------------------------------------

/// A release is installed exactly where it is newer, it has a file to install, and no installation
/// is running; then the session is saved first.
pub proof fn only_newer_release_is_installed(
    view: AppView,
    check: UpdateCheckView,
    status: PlayerStatus,
    position: u32,
    now: u64,
)
    ensures
        view.can_install(check) <==> check.is_update_available && check.asset_download_url is Some
            && !view.jobs.update_install,
        ({
            let after = view.with_release_install_started(check, status, position, now);
            &&& after.jobs.update_install <==> view.jobs.update_install || view.can_install(check)
            &&& view.can_install(check) ==> after.effects == view.effects.push(
                EffectView::SaveState,
            )
            &&& !view.can_install(check) ==> after.state == view.state && after.effects
                == view.effects
        }),
{
}

/// The application looks for a newer release of its own accord exactly where it is no development
/// build, neither looks nor installs already, and has not looked before or long enough ago.
pub proof fn releases_are_looked_for_in_time(
    view: AppView,
    development: bool,
    seconds: u64,
)
    ensures
        view.update_check_is_due(development, seconds) <==> {
            &&& !development
            &&& !view.jobs.update_check
            &&& !view.jobs.update_install
            &&& {
                ||| view.state.update_settings.last_auto_check_unix_seconds == 0
                ||| seconds >= view.state.update_settings.last_auto_check_unix_seconds
                    + updates::UPDATE_CHECK_INTERVAL_SECONDS
            }
        },
        view.releases_to_look_for() == if view.jobs.update_check {
            None
        } else {
            Some(view.state.update_settings.include_prereleases)
        },
{
}

/// What was found of releases is kept and said; where the look has failed the error is shown and
/// what was known stays.
pub proof fn found_release_is_kept(view: AppView, check: UpdateCheck, error: String)
    ensures
        ({
            let after = view.with_update_check_ended(UpdateCheckEvent::Found { check });
            &&& after.updates.last_check == Some(check@)
            &&& !after.jobs.update_check
            &&& after.messages.error is None
            &&& after.state == view.state
            &&& check@.is_update_available ==> after.messages.status == (if check@.prerelease {
                "Prerelease update available: v"@
            } else {
                "Stable update available: v"@
            }) + check@.latest_version + "."@
        }),
        ({
            let after = view.with_update_check_ended(UpdateCheckEvent::Failed { error });
            &&& after.updates.last_check == view.updates.last_check
            &&& !after.jobs.update_check
            &&& after.messages.error == Some(error@)
        }),
        ({
            let after = view.with_update_install_ended(UpdateInstallEvent::Failed { error });
            &&& !after.jobs.update_install
            &&& after.messages.error == Some(error@)
            &&& after.state == view.state
        }),
        !view.with_update_install_ended(UpdateInstallEvent::Finished).jobs.update_install,
        view.with_update_install_ended(UpdateInstallEvent::Finished).messages.error is None,
{
    reveal_strlit("Prerelease");
    reveal_strlit("Stable");
    reveal_strlit(" update available: v");
    reveal_strlit("Prerelease update available: v");
    reveal_strlit("Stable update available: v");
    assert("Prerelease"@ + " update available: v"@ =~= "Prerelease update available: v"@);
    assert("Stable"@ + " update available: v"@ =~= "Stable update available: v"@);
}

/// The notice of a change of profile counts the seconds down that are left, each begun one with
/// it, and says afterwards that the change was applied.
pub proof fn notice_counts_down(view: AppView, at: u64, now: u64)
    ensures
        now < at ==> ({
            let seconds = profiles::seconds_left(at, now);
            (seconds - 1) * 1000 < at - now <= seconds * 1000
        }),
        now >= at ==> profiles::seconds_left(at, now) == 1,
        view.jobs.profile_apply_at == Some(at) ==> view.apply_notice(now) == Some(
            "Apply in "@ + text::decimal(profiles::seconds_left(at, now)) + "s..."@,
        ),
        view.jobs.profile_apply_at is None && view.jobs.profile_applied_until == Some(at) ==> (
        view.apply_notice(now) is Some <==> now < at),
        view.jobs.profile_apply_at is None && view.jobs.profile_applied_until is None
            ==> view.apply_notice(now) is None,
{
}

/// The seconds that work has taken are the whole ones since it began.
pub proof fn work_takes_whole_seconds(started: u64, now: u64)
    ensures
        updates::work_seconds(None, now) == 0,
        now < started ==> updates::work_seconds(Some(started), now) == 0,
        started <= now ==> ({
            let seconds = updates::work_seconds(Some(started), now);
            seconds * 1000 <= now - started < (seconds + 1) * 1000
        }),
{
}

} // verus!
