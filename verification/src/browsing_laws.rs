//! What holds of browsing: messages, searches, selections, renaming, and what the buttons of the
//! player do.

use crate::app::{AppView, MainContentTab, MessagesView, PlayerStatus};
use crate::counting;
use crate::grouping;
use crate::index_set;
use crate::lookup;
use crate::navigation;
use crate::panels::{PlayButton, WaveformPointer};
use crate::playlist;
use crate::playlist::{PlaylistKind, PlaylistView};
use crate::selection;
use crate::settings::{DspProfileView, PlaybackSettings, RepeatMode};
use crate::text;
use crate::window::UserCommand;
use vstd::prelude::*;

verus! {

// ---------------------------------------------------------------------------
// Messages
// ---------------------------------------------------------------------------

/// A status line stays until it has been shown long enough, and goes then; a new one is shown
/// anew.
pub proof fn status_goes_after_its_time(messages: MessagesView, now: u64, later: u64)
    requires
        messages.status.len() > 0,
        messages.status != messages.status_last_seen,
        now <= later,
    ensures
        ({
            let seen = navigation::aged_messages(messages, now);
            let after = navigation::aged_messages(seen, later);
            &&& seen.status == messages.status
            &&& later - now < navigation::MESSAGE_LIFETIME_MILLIS ==> after.status
                == messages.status
            &&& later - now >= navigation::MESSAGE_LIFETIME_MILLIS ==> after.status.len() == 0
        }),
{
}

/// An error stays until it has been shown long enough, and goes then.
pub proof fn error_goes_after_its_time(messages: MessagesView, now: u64, later: u64)
    requires
        messages.error is Some,
        messages.error != messages.error_last_seen,
        now <= later,
    ensures
        ({
            let seen = navigation::aged_messages(messages, now);
            let after = navigation::aged_messages(seen, later);
            &&& seen.error == messages.error
            &&& later - now < navigation::MESSAGE_LIFETIME_MILLIS ==> after.error
                == messages.error
            &&& later - now >= navigation::MESSAGE_LIFETIME_MILLIS ==> after.error is None
        }),
{
}

// ---------------------------------------------------------------------------
// The buttons of the player
// ---------------------------------------------------------------------------

/// The button of the player pauses or resumes what plays in the shown tab, and else plays what is
/// selected there: the selected station, or the selected track.
pub proof fn play_button_acts_on_shown_tab(view: AppView, status: PlayerStatus)
    ensures
        ({
            let plays = status.available && (status.playing || status.paused) && if (
            view.browsing.active_tab == MainContentTab::Radio) {
                view.radio.active_index is Some
            } else {
                view.active_track_path is Some || view.pending_track_switch is Some
            };
            &&& plays ==> view.play_command(status) == Some(UserCommand::PauseOrResume)
            &&& plays && status.playing ==> view.play_button(status) == PlayButton::Pause
            &&& plays && !status.playing ==> view.play_button(status) == PlayButton::Resume
            &&& !plays ==> view.play_button(status) == PlayButton::Play
            &&& !plays && view.browsing.active_tab == MainContentTab::Radio ==> view.play_command(
                status,
            ) == match view.state.selected_radio_index {
                Some(index) => Some(UserCommand::PlayStation { index }),
                None => None,
            }
            &&& !plays && view.browsing.active_tab != MainContentTab::Radio ==> view.play_command(
                status,
            ) == Some(UserCommand::PlaySelected)
        }),
{
}

/// Switching the repeat mode on and on goes through every mode and comes back to where it began;
/// repetition that is off is switched to that of the track first.
pub proof fn repeat_modes_go_round(mode: RepeatMode, wanted: RepeatMode)
    ensures
        mode.following() != mode,
        mode.following().following() != mode,
        mode.following().following().following() == mode,
        wanted == mode || wanted == mode.following() || wanted == mode.following().following(),
        mode == RepeatMode::Off ==> mode.following() == RepeatMode::Track,
{
}

/// A jump on the waveform goes where it was clicked, or where the drag was let go; while it is
/// dragged there is none.
pub proof fn waveform_jumps_where_let_go(view: AppView, pointer: WaveformPointer, at: u32)
    requires
        pointer.position_bits == Some(at),
    ensures
        pointer.clicked && !pointer.drag_stopped ==> view.waveform_target(pointer) == Some(at),
        pointer.drag_stopped && pointer.dragged ==> view.waveform_target(pointer) == Some(at),
        pointer.drag_stopped && !pointer.dragged && view.seeking.drag_position_bits is None
            ==> view.waveform_target(pointer) == Some(at),
        !pointer.clicked && !pointer.drag_stopped ==> view.waveform_target(pointer) is None,
        pointer.clicked || pointer.drag_stopped ==> view.with_waveform_pointer(
            pointer,
        ).seeking.drag_position_bits is None,
        pointer.dragged && pointer.pressed && !pointer.clicked && !pointer.drag_stopped
            ==> view.with_waveform_pointer(pointer).seeking.drag_position_bits == Some(at),
{
}

/// Other playback settings are taken over as they are; the ones in use change nothing.
pub proof fn playback_settings_are_taken_over(view: AppView, playback: PlaybackSettings)
    ensures
        ({
            let after = view.with_playback_settings(playback);
            &&& after.state.playback == playback
            &&& playback == view.state.playback ==> after == view
            &&& playback != view.state.playback ==> after.effects.last()
                == crate::app::EffectView::SaveState
            &&& after.state.radio_stations == view.state.radio_stations
            &&& after.state.profiles == view.state.profiles
            &&& after.active_track_path == view.active_track_path
        }),
{
}

/// A change of the selected profile changes that profile alone, and is heard soon.
pub proof fn edited_profile_is_heard_soon(view: AppView, edited: DspProfileView, now: u64)
    requires
        view.state.selected_profile_index < view.state.profiles.len(),
        view.state.profiles[view.state.selected_profile_index as int] != edited,
    ensures
        ({
            let after = view.with_profile_edited(edited, now);
            let at = view.state.selected_profile_index as int;
            &&& after.state.profiles.len() == view.state.profiles.len()
            &&& after.state.profiles[at] == edited
            &&& forall|i: int|
                0 <= i < view.state.profiles.len() && i != at ==> #[trigger] after.state.profiles[i]
                    == view.state.profiles[i]
            &&& after.jobs.profile_apply_at is Some
            &&& after.sound_settings() == Some(edited.settings)
        }),
{
}

// ---------------------------------------------------------------------------
// Searches, groups and names
// ---------------------------------------------------------------------------

/// A search that is closed is hidden and asks for nothing any more, so that every track is
/// visible again.
pub proof fn closed_search_hides_nothing(view: AppView)
    requires
        view.browsing.show_track_search,
    ensures
        !view.with_track_search_closed().browsing.show_track_search,
        view.with_track_search_closed().browsing.track_search_query.len() == 0,
        !view.with_track_search_closed().state.ui.show_track_search,
        view.browsing.active_tab == MainContentTab::Music ==> view.with_search_toggled().browsing.track_search_query.len()
            == 0 && !view.with_search_toggled().browsing.show_track_search,
{
}

/// A playlist that a user may rename gets the name, and no other playlist does; the favorites and
/// the playlist for temporary playback keep theirs.
pub proof fn renamed_playlist_has_name(view: AppView, index: usize, name: Seq<char>)
    requires
        index < view.state.playlists.len(),
    ensures
        ({
            let after = view.with_playlist_renamed(index, name);
            let kind = view.state.playlists[index as int].kind;
            &&& after.state.playlists.len() == view.state.playlists.len()
            &&& kind == PlaylistKind::Manual || kind == PlaylistKind::Folder
                ==> after.state.playlists[index as int].name == name
            &&& kind == PlaylistKind::Favorites || kind == PlaylistKind::Temporary
                ==> after.state.playlists[index as int].name
                == view.state.playlists[index as int].name
            &&& forall|i: int|
                0 <= i < view.state.playlists.len() ==> (
                #[trigger] after.state.playlists[i]).tracks == view.state.playlists[i].tracks && (i
                    != index ==> after.state.playlists[i].name == view.state.playlists[i].name)
        }),
{
}

/// A group of the shown playlist that is chosen is the selected one, where a track is of it; the
/// tracks stay as they are.
pub proof fn chosen_group_is_selected(view: AppView, group: Seq<char>)
    requires
        view.state.selected_playlist_index < view.state.playlists.len(),
    ensures
        ({
            let at = view.state.selected_playlist_index as int;
            let was = view.state.playlists[at];
            let after = view.with_group_chosen(Some(group));
            &&& (exists|i: int|
                0 <= i < was.tracks.len() && (#[trigger] was.tracks[i]).group == group)
                ==> after.state.playlists[at].selected_group == Some(group)
            &&& after.state.playlists[at].tracks == was.tracks
            &&& view.with_group_chosen(None).state.playlists[at].selected_group is None
            &&& view.with_group_chosen(None).state.playlists[at].tracks == was.tracks
        }),
{
    let was = view.state.playlists[view.state.selected_playlist_index as int];
    if exists|i: int| 0 <= i < was.tracks.len() && (#[trigger] was.tracks[i]).group == group {
        let i = choose|i: int|
            0 <= i < was.tracks.len() && (#[trigger] was.tracks[i]).group == group;
        assert(playlist::has_group(was.tracks, group));
    }
}

/// A path is located in the first playlist that holds it, at its first place there, whatever the
/// case of letters; where none holds it there is no place.
pub proof fn path_is_located(playlists: Seq<PlaylistView>, path: Seq<char>)
    requires
        playlists.len() <= usize::MAX,
        forall|i: int|
            0 <= i < playlists.len() ==> (#[trigger] playlists[i]).tracks.len() <= usize::MAX,
    ensures
        match navigation::location_of(playlists, path) {
            Some(place) => {
                &&& place.0 < playlists.len()
                &&& place.1 < playlists[place.0 as int].tracks.len()
                &&& text::lowercase(playlists[place.0 as int].tracks[place.1 as int].path)
                    == text::lowercase(path)
                &&& forall|i: int|
                    0 <= i < place.0 ==> !playlist::has_path(
                        (#[trigger] playlists[i]).tracks,
                        path,
                    )
            },
            None => forall|i: int|
                0 <= i < playlists.len() ==> !playlist::has_path(
                    (#[trigger] playlists[i]).tracks,
                    path,
                ),
        },
{
    let holds = navigation::holds_path(playlists, path);
    counting::first_where_holds(playlists.len(), holds);
    match counting::first_where(playlists.len(), holds) {
        Some(index) => {
            assert(holds(index as int));
            lookup::path_is_found(playlists[index as int].tracks, path);
            assert forall|i: int| 0 <= i < index implies !playlist::has_path(
                (#[trigger] playlists[i]).tracks,
                path,
            ) by {
                assert(!holds(i));
            }
        },
        None => {
            assert forall|i: int| 0 <= i < playlists.len() implies !playlist::has_path(
                (#[trigger] playlists[i]).tracks,
                path,
            ) by {
                assert(!holds(i));
            }
        },
    }
}

/// What plays is brought into view: the station that plays, or the track that plays in the
/// playlist that it is played from.
pub proof fn now_playing_is_brought_into_view(view: AppView, list: usize, path: Seq<char>)
    requires
        view.radio.active_index is None,
        view.active_track_path == Some(path),
        view.active_playlist_index == Some(list),
        list < view.state.playlists.len(),
        view.state.playlists[list as int].tracks.len() <= usize::MAX,
        playlist::has_path(view.state.playlists[list as int].tracks, path),
    ensures
        ({
            let after = view.with_now_playing_in_view();
            let tracks = view.state.playlists[list as int].tracks;
            &&& after.state.selected_playlist_index == list
            &&& after.selected_track_index matches Some(index)
            &&& index < tracks.len()
            &&& text::lowercase(tracks[index as int].path) == text::lowercase(path)
            &&& after.browsing.active_tab == MainContentTab::Music
            &&& after.browsing.scroll_to_active_track_requested
            &&& after.state.playlists[list as int].tracks == tracks
        }),
{
    lookup::path_is_found(view.state.playlists[list as int].tracks, path);
}

/// A station that plays is brought into view, whatever was searched for.
pub proof fn playing_station_is_brought_into_view(view: AppView, index: usize)
    requires
        view.radio.active_index == Some(index),
    ensures
        ({
            let after = view.with_now_playing_in_view();
            &&& after.state.selected_radio_index == Some(index)
            &&& after.browsing.active_tab == MainContentTab::Radio
            &&& after.browsing.radio_search_query.len() == 0
            &&& !after.browsing.radio_show_favorites_only
            &&& after.browsing.scroll_to_active_radio_requested
        }),
{
}

// ---------------------------------------------------------------------------
// Selections
// ---------------------------------------------------------------------------

/// A plain click selects the track that was clicked, and no other.
pub proof fn plain_click_selects_one(view: AppView, index: usize)
    requires
        view.state.selected_playlist_index < view.state.playlists.len(),
        index < view.state.playlists[view.state.selected_playlist_index as int].tracks.len(),
    ensures
        ({
            let after = view.with_track_clicked(index, false, false);
            &&& after.selected_track_index == Some(index)
            &&& after.multi_selected_track_indexes == seq![index]
            &&& after.track_selection_anchor_index == Some(index)
            &&& after.state == view.state
        }),
{
}

/// A click that extends the selection selects exactly the visible tracks from the one that the
/// selection began with to the one that was clicked, both of them with it.
pub proof fn extending_click_selects_range(
    view: AppView,
    anchor: usize,
    index: usize,
    from: int,
    to: int,
    place: int,
)
    requires
        view.state.selected_playlist_index < view.state.playlists.len(),
        view.state.playlists[view.state.selected_playlist_index as int].tracks.len() <= usize::MAX,
        index < view.state.playlists[view.state.selected_playlist_index as int].tracks.len(),
        view.track_selection_anchor_index == Some(anchor),
        0 <= from <= to < view.visible().len(),
        view.visible()[from] == anchor && view.visible()[to] == index || view.visible()[from]
            == index && view.visible()[to] == anchor,
        0 <= place < view.visible().len(),
    ensures
        ({
            let after = view.with_track_clicked(index, true, false);
            &&& after.multi_selected_track_indexes.contains(view.visible()[place]) <==> from
                <= place <= to
            &&& after.selected_track_index == Some(index)
        }),
{
    let visible = view.visible();
    let shown = view.state.playlists[view.state.selected_playlist_index as int];
    let holds = selection::is_visible(shown, text::trimmed(view.browsing.track_search_query));
    counting::indexes_where_holds(shown.tracks.len(), holds);
    visible_fits(shown.tracks.len(), holds);
    position_in_visible(visible, from);
    position_in_visible(visible, to);
    let range = visible.subrange(from, to + 1);
    let first = index_set::position_of(visible, anchor)->0;
    let second = index_set::position_of(visible, index)->0;
    assert(view.visible_range(first, second) =~= range);
    index_set::with_indexes_holds(Seq::empty(), range);
    let selected = index_set::with_indexes(Seq::empty(), range);
    let wanted = visible[place];
    assert(range.contains(wanted) <==> from <= place <= to) by {
        if from <= place <= to {
            assert(range[place - from] == wanted);
        }
        if range.contains(wanted) {
            let k = range.index_of(wanted);
            assert(visible[from + k] == visible[place]);
            if from + k < place {
                assert(visible[from + k] < visible[place]);
            } else if place < from + k {
                assert(visible[place] < visible[from + k]);
            }
        }
    }
    assert(!Seq::<usize>::empty().contains(wanted));
    assert(selected.contains(wanted) <==> range.contains(wanted));
}

/// No more tracks are visible than there are.
pub(crate) proof fn visible_fits(length: nat, holds: spec_fn(int) -> bool)
    ensures
        counting::indexes_where(length, holds).len() <= length,
    decreases length,
{
    if length > 0 {
        visible_fits((length - 1) as nat, holds);
    }
}

/// In an ascending list an entry is found where it stands.
proof fn position_in_visible(visible: Seq<usize>, place: int)
    requires
        0 <= place < visible.len() <= usize::MAX,
        forall|i: int, j: int|
            0 <= i < j < visible.len() ==> #[trigger] visible[i] < #[trigger] visible[j],
    ensures
        index_set::position_of(visible, visible[place]) == Some(place as usize),
{
    let holds = index_set::holds_at(visible, visible[place]);
    assert(holds(place));
    assert forall|i: int| 0 <= i < place implies !#[trigger] holds(i) by {
        assert(visible[i] < visible[place]);
    }
    counting::first_where_is(visible.len(), holds, place);
}

/// An action on a track is about all selected tracks where it is one of them, and about the track
/// alone where it is not.
pub proof fn action_is_about_selection(view: AppView, index: usize, other: usize)
    requires
        view.state.selected_playlist_index < view.state.playlists.len(),
        view.state.playlists[view.state.selected_playlist_index as int].tracks.len() <= usize::MAX,
        index < view.state.playlists[view.state.selected_playlist_index as int].tracks.len(),
        other < view.state.playlists[view.state.selected_playlist_index as int].tracks.len(),
    ensures
        view.multi_selected_track_indexes.contains(index) ==> (view.action_indexes(index).contains(
            other,
        ) <==> view.multi_selected_track_indexes.contains(other)),
        !view.multi_selected_track_indexes.contains(index) ==> view.action_indexes(index)
            == seq![index],
{
    let shown = view.state.playlists[view.state.selected_playlist_index as int];
    let selected = view.multi_selected_track_indexes;
    let keep = index_set::below(shown.tracks.len() as usize);
    let kept = selected.filter(keep);
    grouping::filter_entries(selected, keep);
    if selected.contains(other) {
        let k = selected.index_of(other);
        assert(keep(selected[k]));
        selected.lemma_filter_contains(keep, k);
    }
    if kept.contains(other) {
        let k = kept.index_of(other);
        assert(selected.contains(kept[k]));
    }
}

/// It is said how many tracks the shown playlist has, and how many of them a search has found
/// where it has not found all; nothing is said of an empty playlist, nor beside the radio.
pub proof fn shown_tracks_are_counted(view: AppView)
    requires
        view.state.selected_playlist_index < view.state.playlists.len(),
    ensures
        ({
            let total = view.state.playlists[view.state.selected_playlist_index as int].tracks.len();
            let searches = view.browsing.show_track_search && !text::is_blank_text(
                view.browsing.track_search_query,
            ) && view.visible().len() != total;
            &&& view.browsing.active_tab == MainContentTab::Radio || total == 0
                ==> view.count_label() is None
            &&& view.browsing.active_tab == MainContentTab::Music && total > 0 && !searches
                ==> view.count_label() == Some(text::decimal(total) + " tracks"@)
            &&& view.browsing.active_tab == MainContentTab::Music && total > 0 && searches
                ==> view.count_label() == Some(
                text::decimal(view.visible().len()) + "/"@ + text::decimal(total) + " tracks"@,
            )
        }),
{
}

} // verus!
