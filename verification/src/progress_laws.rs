//! What holds as things go on: switches and jumps, stations that are moved, files that are asked
//! for, and names that are made.

use crate::app::{AppView, PendingTrackSwitchView, PlaybackInfoView, PlayerStatus, WaveformView};
use crate::file_operations;
use crate::live_source;
use crate::lookup;
use crate::moving;
use crate::open_requests;
use crate::paths;
use crate::playlist;
use crate::playlist::PlaylistKind;
use crate::scan_laws;
use crate::seeking;
use crate::seeking::SeekTargetView;
use crate::selection;
use crate::settings;
use crate::settings::{DspSettings, RadioStationView};
use crate::sorting;
use crate::state;
use crate::submenu::PlaylistSubmenuAction;
use crate::text;
use crate::track::AudioFileView;
use crate::track_list::HoveredRow;
use vstd::prelude::*;
use vstd::string::*;

verus! {

// ---------------------------------------------------------------------------
// Switches and jumps
// ---------------------------------------------------------------------------

/// After a planned switch the other track is the playing one, and no switch is planned.
pub proof fn switched_track_plays(
    view: AppView,
    pending: PendingTrackSwitchView,
    size: Option<u64>,
    status: PlayerStatus,
    position: u32,
)
    ensures
        ({
            let after = view.with_switch_done(pending, size, status, position);
            &&& after.active_track_path == Some(pending.info.path)
            &&& after.active_playlist_index == Some(pending.playlist_index)
            &&& after.active_track_index == pending.index
            &&& after.pending_track_switch is None
            &&& after.crossfade_started_for_path is None
            &&& after.last_playback == Some(pending.info)
            &&& after.state.playlists.len() == view.state.playlists.len()
        }),
{
}

/// After a jump the track that it was in is the playing one, nothing more is to be jumped to, and
/// the track is prepared only where that was asked for.
pub proof fn jumped_track_plays_on(
    view: AppView,
    target: SeekTargetView,
    info: PlaybackInfoView,
    ranges: Option<Seq<(u32, u32)>>,
    waveform: Option<WaveformView>,
    now: u64,
    debounce: u64,
    shown: Seq<char>,
    size: Option<u64>,
    status: PlayerStatus,
    displayed: u32,
)
    ensures
        ({
            let after = view.with_seek_done(
                target,
                info,
                ranges,
                waveform,
                now,
                debounce,
                shown,
                size,
                status,
                displayed,
            );
            &&& after.active_track_path == Some(info.path)
            &&& after.active_playlist_index == Some(target.playlist_index)
            &&& after.seeking.fast is None
            &&& after.seeking.drag_position_bits is None
            &&& after.seeking.last_started_at == Some(now)
            &&& after.messages.error is None
            &&& after.radio.active_index is None
            &&& target.prepare_after_streaming <==> after.seeking.prepare is Some
            &&& after.seeking.prepare matches Some(prepare) ==> prepare.path == target.path
                && prepare.start_bits == target.position_bits && prepare.requested_at == now
        }),
{
}

/// A jump that fails leaves what plays as it is, and says why.
pub proof fn failed_jump_changes_nothing(view: AppView, now: u64, error: Seq<char>)
    ensures
        ({
            let after = view.with_seek_failed(now, error);
            &&& after.messages.error == Some(error)
            &&& after.state == view.state
            &&& after.active_track_path == view.active_track_path
            &&& after.seeking.drag_position_bits is None
            &&& after.effects == view.effects
        }),
{
}

/// Time that has passed is the time between two moments, and a moment that lies behind another is
/// not before it.
pub proof fn time_goes_on(now: u64, since: u64, millis: u64)
    ensures
        since <= now ==> seeking::elapsed(now, since) + since == now,
        now < since ==> seeking::elapsed(now, since) == 0,
        seeking::later(now, millis) >= now,
        now + millis <= u64::MAX ==> seeking::elapsed(seeking::later(now, millis), now) == millis,
{
}

/// The playing track is found in the playlist that it is played from, at its first place there.
pub proof fn playing_track_has_place(view: AppView, list: usize, path: Seq<char>)
    requires
        view.active_playlist_index == Some(list),
        view.active_track_path == Some(path),
        list < view.state.playlists.len(),
        view.state.playlists[list as int].tracks.len() <= usize::MAX,
    ensures
        ({
            let tracks = view.state.playlists[list as int].tracks;
            match view.playing_position_anywhere() {
                Some(index) => index < tracks.len() && text::lowercase(tracks[index as int].path)
                    == text::lowercase(path),
                None => !playlist::has_path(tracks, path),
            }
        }),
{
    lookup::path_is_found(view.state.playlists[list as int].tracks, path);
}

/// No more is cut off the front of a prepared track than it has: whole frames of two samples, and
/// something is always left.
pub proof fn cut_track_has_sound(frames: usize, count: nat)
    ensures
        count > 0 ==> live_source::trimmed_samples(frames, count) < count,
        live_source::trimmed_samples(frames, count) == 0 || live_source::trimmed_samples(
            frames,
            count,
        ) == 2 * frames,
        2 * frames < count ==> live_source::trimmed_samples(frames, count) == 2 * frames,
{
}

// ---------------------------------------------------------------------------
// Stations
// ---------------------------------------------------------------------------

/// A station that is moved by a step changes places with the one before or behind it, and stays
/// where there is none.
pub proof fn stepped_station_changes_places(view: AppView, index: usize, delta: isize)
    requires
        index < view.state.radio_stations.len() <= usize::MAX,
        delta == 1 || delta == -1,
    ensures
        ({
            let was = view.state.radio_stations;
            let kept = view.with_station_moved(index, delta).state.radio_stations;
            &&& kept.len() == was.len()
            &&& 0 <= index + delta < was.len() ==> {
                &&& kept[index + delta] == was[index as int]
                &&& kept[index as int] == was[index + delta]
                &&& forall|i: int|
                    0 <= i < was.len() && i != index && i != index + delta ==> (
                    #[trigger] kept[i]) == was[i]
            }
            &&& !(0 <= index + delta < was.len()) ==> kept == was
        }),
{
}

/// A station that is let go over the upper half of a row is moved before it, and over the lower
/// half behind it; let go over itself it stays.
pub proof fn dragged_station_is_dropped(view: AppView, row: HoveredRow, from: usize)
    requires
        view.browsing.dragging_radio_index == Some(from),
        view.state.radio_stations.len() <= usize::MAX,
    ensures
        ({
            let place = if !row.lower_half {
                row.index
            } else {
                match row.next_track {
                    Some(next) => next,
                    None => view.state.radio_stations.len() as usize,
                }
            };
            let after = view.with_station_dragged(Some(row), true, false);
            let idle = view.with_station_drag(None, None);
            &&& place == from || place == from + 1 ==> after == idle && after.state == view.state
            &&& place != from && place != from + 1 ==> after == idle.with_station_moved_to(
                from,
                place,
            )
            &&& idle.browsing.dragging_radio_index is None
            &&& idle.browsing.radio_drop_target_index is None
            &&& view.with_station_dragged(Some(row), false, true).state == view.state
        }),
{
}

/// As many stations are counted as favorites as are marked so.
pub proof fn favorite_stations_are_counted(view: AppView)
    ensures
        view.favorite_stations() == view.state.radio_stations.filter(
            |station: RadioStationView| station.favorite,
        ).len(),
{
    let stations = view.state.radio_stations;
    let keep = |station: RadioStationView| station.favorite;
    let holds = crate::station_list::is_favorite_station(stations);
    assert forall|i: int| 0 <= i < stations.len() implies #[trigger] holds(i) == keep(
        stations[i],
    ) by {}
    scan_laws::count_is_filter(stations, keep, holds);
}

/// The playing station is marked, and so is the one that a user has selected; the playing one is
/// looked for until its row is shown.
pub proof fn playing_station_is_marked(view: AppView, index: usize, other: usize)
    ensures
        view.radio.active_index == Some(index) ==> view.station_is_marked(index),
        view.radio.active_index == Some(index) && !view.radio.selection_was_user_set && other
            != index ==> !view.station_is_marked(other),
        view.radio.selection_was_user_set && view.state.selected_radio_index == Some(index)
            ==> view.station_is_marked(index),
        view.with_station_chosen(index).station_is_marked(index),
        view.radio.active_index == Some(index) ==> !view.with_station_row_shown(
            index,
        ).browsing.scroll_to_active_radio_requested,
        view.radio.active_index == Some(index) && other != index ==> view.with_station_row_shown(
            other,
        ).browsing.scroll_to_active_radio_requested
            == view.browsing.scroll_to_active_radio_requested,
{
}

// ---------------------------------------------------------------------------
// Files that are asked for
// ---------------------------------------------------------------------------

/// The requests of a folder are the files among its files that end in `.json`, each as often as it
/// is there, and no others.
pub proof fn requests_are_found(files: Seq<Seq<char>>, path: Seq<char>)
    requires
        files.len() <= usize::MAX,
    ensures
        open_requests::requests_in(files).contains(path) <==> files.contains(path)
            && paths::file_name_of(path) is Some && paths::extension_of_name(
            paths::file_name_of(path)->0,
        ) == Some("json"@),
{
    let keep = |path: Seq<char>| open_requests::is_request(path);
    let kept = files.filter(keep);
    let sorted = open_requests::requests_in(files);
    let at_most = open_requests::by_components();
    files.lemma_filter_len(keep);
    assert forall|left: Seq<char>, right: Seq<char>| #[trigger] at_most(left, right) || at_most(
        right,
        left,
    ) by {
        paths::path_order_total(paths::compared_parts(left), paths::compared_parts(right));
    }
    assert forall|first: Seq<char>, second: Seq<char>, third: Seq<char>| #[trigger]
        at_most(first, second) && #[trigger] at_most(second, third) implies at_most(
        first,
        third,
    ) by {
        let a = paths::compared_parts(first);
        let b = paths::compared_parts(second);
        let c = paths::compared_parts(third);
        paths::path_order_total(a, b);
        paths::path_order_total(b, c);
        if paths::parts_before(c, a) {
            if a != b {
                paths::path_order_transitive(c, a, b);
            }
        }
    }
    sorting::stable_sort_exists(kept, at_most);
    sorting::stable_sort_keeps_items(sorted, kept, open_requests::by_components());
    crate::grouping::filter_entries(files, keep);
    crate::sync_laws::contains_by_multiset(sorted, kept, path);
    if files.contains(path) && keep(path) {
        let k = files.index_of(path);
        assert(keep(files[k]));
        files.lemma_filter_contains(keep, k);
    }
    if kept.contains(path) {
        let k = kept.index_of(path);
        assert(keep(kept[k]));
        assert(files.contains(kept[k]));
    }
}

/// An entry of the menu does what it says: it adds tracks to the playlist that it names, shows the
/// track in the playlist that it names, or asks for the name of a new playlist of the files.
pub proof fn menu_entry_does_what_it_says(
    view: AppView,
    files: Seq<AudioFileView>,
    list: usize,
    path: String,
)
    ensures
        view.with_submenu_chosen(
            PlaylistSubmenuAction::Add { playlist_index: list },
            files,
        ) == view.with_tracks_added(files, list),
        view.with_submenu_chosen(
            PlaylistSubmenuAction::Search { found_in: list, track_path: path },
            files,
        ) == view.with_track_found(list, path@),
        files.len() > 0 ==> view.with_submenu_chosen(
            PlaylistSubmenuAction::New,
            files,
        ).dialogs.show_new_playlist_modal,
{
    let list = files.map_values(|file: AudioFileView| file.path);
    if files.len() > 0 {
        file_operations::distinct_paths_cover(list, 0);
    }
}

/// The dialog for a new playlist has each file once, and begins without a name.
pub proof fn new_playlist_has_each_file_once(view: AppView, list: Seq<Seq<char>>, index: int)
    requires
        0 <= index < list.len(),
    ensures
        ({
            let asked = view.with_new_playlist_asked(list).dialogs;
            &&& asked.show_new_playlist_modal
            &&& asked.pending_new_playlist_name.len() == 0
            &&& exists|k: int|
                0 <= k < asked.pending_new_playlist_tracks.len() && text::lowercase(
                    #[trigger] asked.pending_new_playlist_tracks[k],
                ) == text::lowercase(list[index])
            &&& forall|i: int, j: int|
                0 <= i < j < asked.pending_new_playlist_tracks.len() ==> text::lowercase(
                    #[trigger] asked.pending_new_playlist_tracks[i],
                ) != text::lowercase(#[trigger] asked.pending_new_playlist_tracks[j])
        }),
{
    file_operations::distinct_paths_cover(list, index);
    file_operations::distinct_paths_differ(list);
}

/// An action on a track that is not among the selected ones is about its file alone.
pub proof fn action_is_about_file(view: AppView, index: usize)
    requires
        view.state.selected_playlist_index < view.state.playlists.len(),
        index < view.state.playlists[view.state.selected_playlist_index as int].tracks.len(),
        !view.multi_selected_track_indexes.contains(index),
    ensures
        view.action_paths(index) == seq![
            view.state.playlists[view.state.selected_playlist_index as int].tracks[index as int].path,
        ],
{
    let tracks = view.state.playlists[view.state.selected_playlist_index as int].tracks;
    let one = seq![index];
    assert(one.drop_last() =~= Seq::<usize>::empty());
    assert(selection::paths_at(tracks, one.drop_last()).len() == 0);
    assert(view.action_indexes(index) == one);
    assert(selection::paths_at(tracks, one) =~= seq![tracks[index as int].path]);
}

/// A folder that is chosen for import is kept, and names the playlist unless a user has.
pub proof fn chosen_folder_names_playlist(view: AppView, folder: Seq<char>, name: Seq<char>)
    ensures
        view.with_folder_chosen(folder).dialogs.pending_folder_path == Some(folder),
        !text::is_blank_text(view.dialogs.pending_playlist_name)
            && view.dialogs.pending_playlist_name != "Local music"@ ==> view.with_folder_chosen(
            folder,
        ).dialogs.pending_playlist_name == view.dialogs.pending_playlist_name,
        view.dialogs.pending_playlist_name == "Local music"@ && paths::file_name_of(folder)
            == Some(name) && !text::is_blank_text(name) ==> view.with_folder_chosen(
            folder,
        ).dialogs.pending_playlist_name == name,
{
}

// ---------------------------------------------------------------------------
// Names, folders and first states
// ---------------------------------------------------------------------------

/// What is left at the front of a text is not dropped, and no other character is lost.
proof fn front_is_cut(given: Seq<char>, drops: spec_fn(char) -> bool)
    ensures
        ({
            let cut = text::without_leading(given, drops);
            &&& cut.len() <= given.len()
            &&& cut == given.skip(given.len() - cut.len())
            &&& cut.len() > 0 ==> !drops(cut[0])
        }),
    decreases given.len(),
{
    if given.len() > 0 && drops(given[0]) {
        front_is_cut(given.drop_first(), drops);
        let cut = text::without_leading(given, drops);
        assert(given.drop_first().skip(given.len() - 1 - cut.len()) =~= given.skip(
            given.len() - cut.len(),
        ));
    } else {
        assert(given.skip(0) =~= given);
    }
}

/// What is left at the end of a text is not dropped, and no other character is lost.
proof fn end_is_cut(given: Seq<char>, drops: spec_fn(char) -> bool)
    ensures
        ({
            let cut = text::without_trailing(given, drops);
            &&& cut.len() <= given.len()
            &&& cut == given.take(cut.len() as int)
            &&& cut.len() > 0 ==> !drops(cut.last())
        }),
    decreases given.len(),
{
    if given.len() > 0 && drops(given.last()) {
        end_is_cut(given.drop_last(), drops);
        let cut = text::without_trailing(given, drops);
        assert(given.drop_last().take(cut.len() as int) =~= given.take(cut.len() as int));
    } else {
        assert(given.take(given.len() as int) =~= given);
    }
}

/// A part of a file name that is made safe is not empty, holds no character that a file name may
/// not hold, and neither begins nor ends with a dot or a space.
pub proof fn safe_name_is_safe(given: Seq<char>, index: int)
    requires
        0 <= index < text::sanitized_segment(given).len(),
    ensures
        ({
            let safe = text::sanitized_segment(given);
            &&& safe.len() > 0
            &&& safe[0] != '.' && safe[0] != ' '
            &&& safe.last() != '.' && safe.last() != ' '
            &&& safe[index] != '<' && safe[index] != '>' && safe[index] != ':' && safe[index]
                != '"' && safe[index] != '/' && safe[index] != '\\' && safe[index] != '|'
                && safe[index] != '?' && safe[index] != '*'
        }),
{
    reveal_strlit("unknown");
    let drops = |c: char| text::is_dot_or_space(c);
    let dashed = text::with_dashes(given);
    let front = text::without_leading(dashed, drops);
    front_is_cut(dashed, drops);
    end_is_cut(front, drops);
    let middle = text::without_trailing(front, drops);
    if middle.len() > 0 {
        assert(middle[0] == front[0]);
        assert(!drops(front[0]));
        assert(!drops(middle.last()));
        assert(middle[index] == dashed[index + dashed.len() - front.len()]);
    }
}

/// At most the last entries of a list are kept, in their order.
pub proof fn last_entries_are_kept<T>(entries: Seq<T>, count: nat, index: int)
    requires
        0 <= index < moving::last_entries(entries, count).len(),
    ensures
        moving::last_entries(entries, count).len() == if entries.len() < count {
            entries.len()
        } else {
            count
        },
        moving::last_entries(entries, count)[index] == entries[index + entries.len()
            - moving::last_entries(entries, count).len()],
{
}

/// Recordings go to the folder that was chosen.
pub proof fn recordings_go_to_chosen_folder(folder: Seq<char>, executable: Option<Seq<char>>)
    ensures
        settings::resolved_folder(Some(folder), executable) == folder,
        executable is None ==> settings::resolved_folder(None, executable)
            == ".audio-orbit-records"@,
        executable is None ==> settings::data_folder(executable) is None,
{
}

/// A new library has the favorites and a list for local music, which is shown, both of them empty;
/// nothing plays, and nothing is repeated or shuffled.
pub proof fn new_library_is_empty(base: DspSettings)
    ensures
        ({
            let made = state::new_state(base);
            &&& made.playlists.len() == 2
            &&& made.playlists[0].kind == PlaylistKind::Favorites
            &&& made.playlists[1].kind == PlaylistKind::Manual
            &&& made.playlists[0].tracks.len() == 0 && made.playlists[1].tracks.len() == 0
            &&& made.selected_playlist_index == 1
            &&& made.profiles.len() == 2
            &&& made.profiles[0].settings == base
            &&& made.radio_stations.len() == 0
            &&& made.selected_radio_index is None
            &&& made.last_played_track is None
            &&& !made.playback_session.was_active
            &&& made.playback.volume_percent == 100 && !made.playback.muted
            &&& !made.playback.shuffle_enabled && !made.playback.crossfade_enabled
            &&& made.playback.auto_advance
        }),
{
}

} // verus!
