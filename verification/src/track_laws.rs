//! What holds of tracks: what is known of them, how they begin to play, and how they are selected,
//! found, added and grouped.

use crate::app::{AppView, Crossfade, EffectView, PlayerStatus};
use crate::app_laws;
use crate::counting;
use crate::grouping;
use crate::library_sync;
use crate::lookup;
use crate::membership_laws;
use crate::moving;
use crate::ordering;
use crate::paths;
use crate::playlist;
use crate::playlist::{PlaylistKind, PlaylistView};
use crate::selection;
use crate::starting;
use crate::starting::StartKind;
use crate::state;
use crate::text;
use crate::text_set;
use crate::track;
use crate::track::{AudioFileView, TrackView};
use vstd::prelude::*;
use vstd::string::*;

verus! {

// ---------------------------------------------------------------------------
// What is known of a track
// ---------------------------------------------------------------------------

/// The track of a file has its path and its size, and is missing where the file has none; nothing
/// was learned of its sound yet.
pub proof fn file_becomes_track(file: AudioFileView, root: Option<Seq<char>>, depth: nat)
    ensures
        ({
            let made = track::new_track(file, root, depth);
            &&& made.path == file.path
            &&& made.metadata.size_bytes == file.size_bytes
            &&& made.missing <==> file.size_bytes is None
            &&& made.waveform.len() == 0
            &&& made.waveform_brightness.len() == 0
            &&& made.metadata.duration_seconds_bits is None
            &&& made.favorite_added_sequence is None
        }),
{
}

/// A track that was played has the duration, the sample rate and the channels of its sound, and is
/// there; its waveform is replaced only by a whole one, and what else is known of it stays.
pub proof fn played_track_is_known(
    before: TrackView,
    duration: u32,
    rate: u32,
    channels: u16,
    waveform: Seq<u32>,
    brightness: Seq<u32>,
    size: Option<u64>,
)
    ensures
        ({
            let after = track::played_track(
                before,
                duration,
                rate,
                channels,
                waveform,
                brightness,
                size,
            );
            &&& !after.missing
            &&& after.metadata.duration_seconds_bits == Some(duration)
            &&& after.metadata.sample_rate_hz == Some(rate)
            &&& after.metadata.channels is Some
            &&& channels <= 255 ==> after.metadata.channels->0 == channels
            &&& channels > 255 ==> after.metadata.channels->0 == 255
            &&& before.metadata.size_bytes is Some ==> after.metadata.size_bytes
                == before.metadata.size_bytes
            &&& before.metadata.size_bytes is None ==> after.metadata.size_bytes == size
            &&& waveform.len() > 0 && brightness.len() > 0 ==> after.waveform == waveform
                && after.waveform_brightness == brightness
            &&& waveform.len() == 0 || brightness.len() == 0 ==> after.waveform
                == before.waveform && after.waveform_brightness == before.waveform_brightness
            &&& after.path == before.path && after.title == before.title && after.group
                == before.group && after.favorite_added_sequence == before.favorite_added_sequence
        }),
{
}

/// What is known of a path is known of a track of the shown playlist with that path, whatever the
/// case of letters; the track at the given place comes first. A duration that is known is above
/// zero, and a waveform is not empty.
pub proof fn known_track_has_path(view: AppView, index: Option<usize>, path: Seq<char>)
    requires
        view.state.selected_playlist_index < view.state.playlists.len(),
        view.state.playlists[view.state.selected_playlist_index as int].tracks.len() <= usize::MAX,
    ensures
        ({
            let tracks = view.state.playlists[view.state.selected_playlist_index as int].tracks;
            &&& view.known_track(index, path) is Some <==> playlist::has_path(tracks, path)
            &&& view.known_track(index, path) matches Some(known) ==> text::lowercase(known.path)
                == text::lowercase(path) && tracks.contains(known)
            &&& index matches Some(at) ==> at < tracks.len() ==> text::lowercase(
                tracks[at as int].path,
            ) == text::lowercase(path) ==> view.known_track(index, path) == Some(
                tracks[at as int],
            )
            &&& view.known_duration(index, path) matches Some(bits) ==> 0 < bits < 0x7f80_0000
                && view.known_track(index, path)->0.metadata.duration_seconds_bits == Some(bits)
            &&& view.known_waveform(index, path) matches Some(waveform) ==> waveform.levels.len()
                > 0 && waveform.brightness.len() > 0 && waveform.levels == view.known_track(
                index,
                path,
            )->0.waveform
        }),
{
    let tracks = view.state.playlists[view.state.selected_playlist_index as int].tracks;
    lookup::path_is_found(tracks, path);
    if let Some(at) = view.known_position(index, path) {
        assert(tracks[at as int] == view.known_track(index, path)->0);
        assert(paths::same_key(tracks[at as int].path, path));
    }
}

/// Once it is known whether a file is there, every track with its path is marked so in every
/// playlist, and no other track is changed; that a file is not there is said.
pub proof fn tracks_are_marked_by_file(
    view: AppView,
    path: Seq<char>,
    present: bool,
    list: int,
    index: int,
)
    requires
        0 <= list < view.state.playlists.len(),
        0 <= index < view.state.playlists[list].tracks.len(),
    ensures
        ({
            let before = view.state.playlists[list].tracks[index];
            let lists = view.lists_with_presence(path, present);
            &&& lists.len() == view.state.playlists.len()
            &&& lists[list].tracks.len() == view.state.playlists[list].tracks.len()
            &&& lists[list].name == view.state.playlists[list].name
            &&& text::lowercase(before.path) == text::lowercase(path)
                ==> lists[list].tracks[index].missing == !present
            &&& text::lowercase(before.path) != text::lowercase(path)
                ==> lists[list].tracks[index] == before
            &&& lists[list].tracks[index].path == before.path
            &&& !present ==> view.with_presence(path, present).messages.error == Some(
                "File not found: "@ + path,
            )
            &&& present ==> view.with_presence(path, present).messages == view.messages
        }),
{
}

// ---------------------------------------------------------------------------
// How a track begins
// ---------------------------------------------------------------------------

/// A track that is asked for is the one that begins, from the given position; without an output
/// device nothing begins, and that is said.
pub proof fn asked_track_begins(
    view: AppView,
    path: Seq<char>,
    index: Option<usize>,
    start: u32,
    fade: Crossfade,
    live: bool,
    status: PlayerStatus,
)
    ensures
        ({
            let after = view.with_track_requested(path, index, start, fade, live, status);
            &&& status.available ==> after.effects == view.effects.push(
                EffectView::PlayTrack {
                    path,
                    track_index: index,
                    start_bits: start,
                    crossfade: fade,
                    continues_live: live,
                },
            )
            &&& !status.available ==> after.effects == view.effects
                && after.messages.error is Some
            &&& after.state == view.state
        }),
{
}

/// The selected track is played where it is shown, from its start, or from where it was paused.
pub proof fn selected_track_is_played(view: AppView, index: usize, status: PlayerStatus)
    requires
        view.state.selected_playlist_index < view.state.playlists.len(),
        view.selected_track_index == Some(index),
        index < view.state.playlists[view.state.selected_playlist_index as int].tracks.len(),
        view.state.playlists[view.state.selected_playlist_index as int].selected_group is None,
        status.available,
    ensures
        ({
            let shown = view.state.playlists[view.state.selected_playlist_index as int];
            let wanted = shown.tracks[index as int].path;
            let after = view.with_selected_requested(status);
            &&& after.effects.len() == view.effects.len() + 1
            &&& after.effects.last() matches EffectView::PlayTrack {
                path,
                track_index,
                start_bits,
                crossfade,
                continues_live,
            }
            &&& path == wanted
            &&& track_index == Some(index)
            &&& !continues_live
            &&& !view.state.playback_session.was_paused ==> start_bits == 0
            &&& start_bits != 0 ==> view.state.playback_session.track_path is Some
                && text::lowercase(view.state.playback_session.track_path->0) == text::lowercase(
                wanted,
            ) && start_bits == view.state.playback_session.position_seconds_bits
        }),
{
}

/// A fade that can be heard is said to be one; what goes on with another profile is not said to
/// begin; after a quick start the prepared track takes over without a fade of its own.
pub proof fn start_is_said_as_it_is(seconds: u8, live: bool, quick: bool, fade: Crossfade)
    ensures
        seconds > 0 ==> starting::direct_start(false, Crossfade::Seconds(seconds))
            == StartKind::Crossfading,
        starting::direct_start(false, Crossfade::Seconds(0)) == StartKind::Playing,
        starting::direct_start(false, Crossfade::Off) == StartKind::Playing,
        starting::direct_start(true, fade) == StartKind::Continued,
        seconds > 0 ==> starting::quick_start(Crossfade::Seconds(seconds))
            == StartKind::CrossfadingAtOnce,
        starting::quick_start(Crossfade::Off) == StartKind::PlayingAtOnce,
        starting::prepared_start(true, live, fade) == StartKind::SilenceSkipReady,
        starting::prepared_start(false, live, fade) == starting::direct_start(live, fade),
        quick ==> starting::background_plan(quick, fade, live).crossfade == Crossfade::Off
            && starting::background_plan(quick, fade, live).continues_live,
        !quick ==> starting::background_plan(quick, fade, live).crossfade == fade
            && starting::background_plan(quick, fade, live).continues_live == live,
        starting::background_plan(quick, fade, live).background_upgrade == quick,
{
}

// ---------------------------------------------------------------------------
// Selection
// ---------------------------------------------------------------------------

/// The first track that can be played is selected: it is there and of the selected group, and no
/// track before it is.
pub proof fn first_playable_track_is_selected(view: AppView)
    requires
        view.state.selected_playlist_index < view.state.playlists.len(),
        view.state.playlists[view.state.selected_playlist_index as int].tracks.len() <= usize::MAX,
    ensures
        ({
            let shown = view.state.playlists[view.state.selected_playlist_index as int];
            let playable = |i: int|
                !shown.tracks[i].missing && (shown.selected_group is None
                    || shown.selected_group == Some(shown.tracks[i].group));
            match view.with_first_eligible_selected().selected_track_index {
                Some(index) => index < shown.tracks.len() && playable(index as int) && forall|
                    i: int,
                |
                    0 <= i < index ==> !#[trigger] playable(i),
                None => forall|i: int| 0 <= i < shown.tracks.len() ==> !#[trigger] playable(i),
            }
        }),
{
    let shown = view.state.playlists[view.state.selected_playlist_index as int];
    let holds = selection::is_eligible(shown);
    let playable = |i: int|
        !shown.tracks[i].missing && (shown.selected_group is None || shown.selected_group == Some(
            shown.tracks[i].group,
        ));
    counting::indexes_where_holds(shown.tracks.len(), holds);
    let eligible = view.eligible();
    assert forall|i: int| 0 <= i < shown.tracks.len() implies #[trigger] playable(i) == holds(
        i,
    ) by {}
    if eligible.len() > 0 {
        let index = eligible[0];
        assert(holds(index as int));
        assert forall|i: int| 0 <= i < index implies !#[trigger] playable(i) by {
            if holds(i) {
                assert(eligible.contains(i as usize));
                let k = eligible.index_of(i as usize);
                if k > 0 {
                    assert(eligible[0] < eligible[k]);
                }
            }
        }
    } else {
        assert forall|i: int| 0 <= i < shown.tracks.len() implies !#[trigger] playable(i) by {
            if holds(i) {
                assert(eligible.contains(i as usize));
            }
        }
    }
}

/// A selected track that is of the selected group stays selected.
pub proof fn shown_selection_stays(view: AppView, index: usize)
    requires
        view.state.selected_playlist_index < view.state.playlists.len(),
        view.selected_track_index == Some(index),
        index < view.state.playlists[view.state.selected_playlist_index as int].tracks.len(),
        ({
            let shown = view.state.playlists[view.state.selected_playlist_index as int];
            shown.selected_group is None || shown.selected_group == Some(
                shown.tracks[index as int].group,
            )
        }),
    ensures
        view.with_visible_selection() == view,
        view.selected_path() == Some(
            view.state.playlists[view.state.selected_playlist_index as int].tracks[index as int].path,
        ),
{
}

/// How far a playlist was scrolled is found again.
pub proof fn scrolled_place_is_found_again(view: AppView, bits: u32)
    requires
        bits <= 0x7f80_0000,
        view.state.ui.playlist_scroll_offsets.len() < usize::MAX,
    ensures
        view.with_scroll_offset(bits).scroll_offset() == bits,
        view.with_scroll_offset(bits).state.playlists == view.state.playlists,
{
    if let Some(shown) = view.current() {
        let key = selection::scroll_key(view.state.selected_playlist_index, shown);
        offset_is_kept(view.state.ui.playlist_scroll_offsets, key, bits);
    }
}

/// An offset that is kept under a key is the one that is found under it.
proof fn offset_is_kept(offsets: Seq<(Seq<char>, u32)>, key: Seq<char>, bits: u32)
    requires
        offsets.len() < usize::MAX,
    ensures
        selection::offset_for(selection::with_offset(offsets, key, bits), key) == Some(bits),
{
    let after = selection::with_offset(offsets, key, bits);
    let keys = selection::offset_keys(offsets);
    counting::count_at_most(keys.len(), |i: int| text::text_before(keys[i], key));
    assert(text_set::place_of(keys, key) <= offsets.len());
    counting::first_where_holds(offsets.len(), selection::offset_has_key(offsets, key));
    counting::first_where_holds(after.len(), selection::offset_has_key(after, key));
    match counting::first_where(offsets.len(), selection::offset_has_key(offsets, key)) {
        Some(index) => {
            assert(selection::offset_has_key(after, key)(index as int));
            let found = counting::first_where(
                after.len(),
                selection::offset_has_key(after, key),
            )->0;
            if found < index {
                assert(!selection::offset_has_key(offsets, key)(found as int));
                assert(after[found as int] == offsets[found as int]);
            }
        },
        None => {
            let place = text_set::place_of(keys, key) as int;
            assert(after[place] == (key, bits));
            assert(selection::offset_has_key(after, key)(place));
            let found = counting::first_where(
                after.len(),
                selection::offset_has_key(after, key),
            )->0;
            if found < place {
                assert(!selection::offset_has_key(offsets, key)(found as int));
                assert(after[found as int] == offsets[found as int]);
            }
        },
    }
}

/// A track that is looked for in a playlist is selected there, and the playlist is shown; where
/// the playlist has no such track nothing changes.
pub proof fn looked_for_track_is_shown(view: AppView, list: usize, path: Seq<char>)
    requires
        list < view.state.playlists.len(),
        view.state.playlists[list as int].tracks.len() <= usize::MAX,
    ensures
        ({
            let tracks = view.state.playlists[list as int].tracks;
            let after = view.with_track_found(list, path);
            &&& !playlist::has_path(tracks, path) ==> after == view
            &&& playlist::has_path(tracks, path) ==> {
                &&& after.state.selected_playlist_index == list
                &&& after.selected_track_index matches Some(index)
                &&& index < tracks.len()
                &&& text::lowercase(tracks[index as int].path) == text::lowercase(path)
                &&& after.browsing.track_search_query.len() == 0
                &&& after.browsing.scroll_to_track_path_requested is Some
            }
        }),
{
    let tracks = view.state.playlists[list as int].tracks;
    lookup::path_is_found(tracks, path);
    if let Some(position) = lookup::position_of_path(tracks, path) {
        let exact = tracks[position as int].path;
        assert(paths::same_key(tracks[position as int].path, exact));
        assert(playlist::has_path(tracks, exact));
        lookup::path_is_found(tracks, exact);
    }
}

/// The track that was played last is selected at the start where it is still there.
pub proof fn last_played_track_is_selected(view: AppView, list: usize, path: Seq<char>)
    requires
        list < view.state.playlists.len(),
        view.state.playlists[list as int].tracks.len() <= usize::MAX,
        view.state.last_played_track matches Some(last) && last.playlist_index == list
            && last.track_path == path,
    ensures
        ({
            let tracks = view.state.playlists[list as int].tracks;
            let after = view.with_last_played_selected();
            &&& !playlist::has_path(tracks, path) ==> after == view
            &&& playlist::has_path(tracks, path) ==> {
                &&& after.state.selected_playlist_index == list
                &&& after.selected_track_index matches Some(index)
                &&& index < tracks.len()
                &&& text::lowercase(tracks[index as int].path) == text::lowercase(path)
            }
            &&& after.state.playlists == view.state.playlists
            &&& after.effects == view.effects
        }),
{
    lookup::path_is_found(view.state.playlists[list as int].tracks, path);
}

// ---------------------------------------------------------------------------
// Files that are added
// ---------------------------------------------------------------------------

/// Files that are added to the shown playlist are there afterwards, and so is what was there; a
/// playlist that is made from a folder takes none, and that is said.
pub proof fn added_files_are_there(view: AppView, files: Seq<AudioFileView>, path: Seq<char>)
    requires
        view.state.selected_playlist_index < view.state.playlists.len(),
        view.state.playlists[view.state.selected_playlist_index as int].tracks.len() + files.len()
            <= usize::MAX,
    ensures
        ({
            let at = view.state.selected_playlist_index as int;
            let list = view.state.playlists[at];
            let after = view.with_audio_files_added(files);
            &&& list.kind == PlaylistKind::Folder || list.kind == PlaylistKind::Temporary
                ==> after.state == view.state && after.messages.error is Some
            &&& list.kind == PlaylistKind::Manual || list.kind == PlaylistKind::Favorites ==> (
            playlist::has_path(after.state.playlists[at].tracks, path) <==> playlist::has_path(
                list.tracks,
                path,
            ) || exists|k: int|
                0 <= k < files.len() && text::lowercase(#[trigger] files[k].path)
                    == text::lowercase(path)) && after.messages.error is None
        }),
{
    let list = view.state.playlists[view.state.selected_playlist_index as int];
    membership_laws::files_add_their_paths(
        list,
        files,
        list.source_folder,
        list.folder_depth as nat,
        path,
    );
}

/// Files that are opened for temporary playback have a track afterwards, those that were there
/// first before them, and none has two.
pub proof fn opened_files_have_tracks(
    tracks: Seq<TrackView>,
    files: Seq<AudioFileView>,
    path: Seq<char>,
)
    ensures
        ({
            let after = playlist::with_temporary_files(tracks, files).0;
            &&& tracks.len() <= after.len() <= tracks.len() + files.len()
            &&& forall|i: int| 0 <= i < tracks.len() ==> (#[trigger] after[i]) == tracks[i]
            &&& playlist::has_path(after, path) <==> playlist::has_path(tracks, path) || exists|
                k: int,
            |
                0 <= k < files.len() && text::lowercase(#[trigger] files[k].path)
                    == text::lowercase(path)
            &&& playlist::with_temporary_files(tracks, files).1.len() == after.len()
                - tracks.len()
        }),
    decreases files.len(),
{
    if files.len() > 0 {
        let rest = files.drop_last();
        let file = files.last();
        opened_files_have_tracks(tracks, rest, path);
        let before = playlist::with_temporary_files(tracks, rest).0;
        let after = playlist::with_temporary_files(tracks, files).0;
        assert(forall|k: int| 0 <= k < rest.len() ==> (#[trigger] rest[k]) == files[k]);
        if playlist::has_path(before, path) {
            let i = choose|i: int|
                0 <= i < before.len() && paths::same_key((#[trigger] before[i]).path, path);
            assert(paths::same_key(after[i].path, path));
        }
        if text::lowercase(file.path) == text::lowercase(path) {
            assert(files[files.len() - 1] == file);
            if playlist::has_path(before, file.path) {
                let i = choose|i: int|
                    0 <= i < before.len() && paths::same_key(
                        (#[trigger] before[i]).path,
                        file.path,
                    );
                assert(paths::same_key(after[i].path, path));
            } else {
                assert(paths::same_key(after.last().path, path));
                assert(after[after.len() - 1] == after.last());
            }
        }
        if exists|k: int|
            0 <= k < files.len() && text::lowercase(#[trigger] files[k].path) == text::lowercase(
                path,
            ) {
            let k = choose|k: int|
                0 <= k < files.len() && text::lowercase(#[trigger] files[k].path)
                    == text::lowercase(path);
            if k < rest.len() {
                assert(text::lowercase(rest[k].path) == text::lowercase(path));
            }
        }
        if exists|k: int|
            0 <= k < rest.len() && text::lowercase(#[trigger] rest[k].path) == text::lowercase(
                path,
            ) {
            let k = choose|k: int|
                0 <= k < rest.len() && text::lowercase(#[trigger] rest[k].path)
                    == text::lowercase(path);
            assert(text::lowercase(files[k].path) == text::lowercase(path));
        }
        if playlist::has_path(after, path) {
            let i = choose|i: int|
                0 <= i < after.len() && paths::same_key((#[trigger] after[i]).path, path);
            if i < before.len() {
                assert(paths::same_key(before[i].path, path));
            } else {
                assert(text::lowercase(file.path) == text::lowercase(path));
                assert(files[files.len() - 1].path == file.path);
            }
        }
    }
}

/// There is a playlist for temporary playback once it was asked for, at the place that is named,
/// and asking again makes no other.
pub proof fn temporary_playlist_is_there(view: AppView)
    requires
        view.state.playlists.len() < usize::MAX,
    ensures
        ({
            let after = view.with_temporary_playlist();
            let at = view.temporary_index();
            &&& at < after.state.playlists.len()
            &&& after.state.playlists[at as int].kind == PlaylistKind::Temporary
            &&& after.with_temporary_playlist() == after
            &&& after.temporary_index() == at
            &&& forall|i: int|
                0 <= i < view.state.playlists.len() ==> (#[trigger] after.state.playlists[i])
                    == view.state.playlists[i]
        }),
{
    let lists = view.state.playlists;
    let after = view.with_temporary_playlist().state.playlists;
    counting::first_where_holds(
        lists.len(),
        |i: int| lists[i].kind == PlaylistKind::Temporary,
    );
    let made = |i: int| after[i].kind == PlaylistKind::Temporary;
    counting::first_where_holds(after.len(), made);
    if state::first_of_kind(lists, PlaylistKind::Temporary) is None {
        assert(made(lists.len() as int));
        let found = counting::first_where(after.len(), made)->0;
        if found < lists.len() {
            assert(after[found as int] == lists[found as int]);
            assert(!(|i: int| lists[i].kind == PlaylistKind::Temporary)(found as int));
        }
    }
}

/// A missing track that is removed is gone from the shown playlist, and the others stay in their
/// order; a track that is there is not removed this way.
pub proof fn only_missing_track_is_dropped(view: AppView, index: usize)
    requires
        view.state.selected_playlist_index < view.state.playlists.len(),
        index < view.state.playlists[view.state.selected_playlist_index as int].tracks.len(),
    ensures
        ({
            let at = view.state.selected_playlist_index as int;
            let tracks = view.state.playlists[at].tracks;
            let after = view.with_missing_track_removed(index);
            &&& !tracks[index as int].missing ==> after.state == view.state
                && after.messages.error is Some
            &&& tracks[index as int].missing ==> after.state.playlists[at].tracks
                == tracks.remove(index as int) && after.messages.error is None
        }),
{
}

/// Two libraries miss as many tracks together as each on its own.
pub proof fn missing_tracks_add_up(first: Seq<PlaylistView>, second: Seq<PlaylistView>)
    ensures
        library_sync::missing_anywhere(first + second) == library_sync::missing_anywhere(first)
            + library_sync::missing_anywhere(second),
    decreases second.len(),
{
    if second.len() == 0 {
        assert(first + second =~= first);
    } else {
        missing_tracks_add_up(first, second.drop_last());
        assert((first + second).drop_last() =~= first + second.drop_last());
    }
}

// ---------------------------------------------------------------------------
// Groups that are moved
// ---------------------------------------------------------------------------

/// Behind tracks, tracks of one other group come as that group.
proof fn one_more_group(tracks: Seq<TrackView>, added: Seq<TrackView>, group: Seq<char>)
    requires
        added.len() > 0,
        forall|i: int| 0 <= i < added.len() ==> (#[trigger] added[i]).group == group,
        !ordering::groups_in_order(tracks).contains(group),
    ensures
        ordering::groups_in_order(tracks + added) == ordering::groups_in_order(tracks).push(group),
    decreases added.len(),
{
    let rest = added.drop_last();
    let all = tracks + added;
    assert(all.drop_last() =~= tracks + rest);
    assert(all.last() == added[added.len() - 1]);
    if rest.len() == 0 {
        assert(tracks + rest =~= tracks);
    } else {
        assert forall|i: int| 0 <= i < rest.len() implies (#[trigger] rest[i]).group == group by {
            assert(rest[i] == added[i]);
        }
        one_more_group(tracks, rest, group);
        let before = ordering::groups_in_order(tracks).push(group);
        assert(before[before.len() - 1] == group);
    }
}

/// Tracks that are put together group by group have those groups, in that order, and the tracks of
/// each group in the order that they had.
proof fn groups_stand_as_given(tracks: Seq<TrackView>, groups: Seq<Seq<char>>, group: Seq<char>)
    requires
        forall|i: int, j: int|
            0 <= i < j < groups.len() ==> #[trigger] groups[i] != #[trigger] groups[j],
        forall|i: int|
            0 <= i < groups.len() ==> grouping::in_group(tracks, #[trigger] groups[i]).len() > 0,
    ensures
        ordering::groups_in_order(ordering::by_groups(tracks, groups)) == groups,
        grouping::in_group(ordering::by_groups(tracks, groups), group) == if groups.contains(
            group,
        ) {
            grouping::in_group(tracks, group)
        } else {
            Seq::empty()
        },
    decreases groups.len(),
{
    let keep = |track: TrackView| track.group == group;
    reveal(Seq::filter);
    if groups.len() > 0 {
        let rest = groups.drop_last();
        let last = groups.last();
        assert forall|i: int, j: int| 0 <= i < j < rest.len() implies #[trigger] rest[i]
            != #[trigger] rest[j] by {
            assert(groups[i] != groups[j]);
        }
        assert forall|i: int| 0 <= i < rest.len() implies grouping::in_group(
            tracks,
            #[trigger] rest[i],
        ).len() > 0 by {
            assert(rest[i] == groups[i]);
        }
        groups_stand_as_given(tracks, rest, group);
        let block = grouping::in_group(tracks, last);
        let of_last = |track: TrackView| track.group == last;
        grouping::filter_entries(tracks, of_last);
        assert forall|i: int| 0 <= i < block.len() implies (#[trigger] block[i]).group == last by {
            assert(of_last(block[i]));
        }
        assert(!rest.contains(last)) by {
            if rest.contains(last) {
                let k = rest.index_of(last);
                assert(groups[k] != groups[groups.len() - 1]);
            }
        }
        assert(grouping::in_group(tracks, groups[groups.len() - 1]).len() > 0);
        one_more_group(ordering::by_groups(tracks, rest), block, last);
        assert(rest.push(last) =~= groups);
        Seq::filter_distributes_over_add(ordering::by_groups(tracks, rest), block, keep);
        grouping::filter_all_or_none(block, keep);
        if group == last {
            assert(groups[groups.len() - 1] == group);
            assert(block.filter(keep) == block);
            assert(Seq::<TrackView>::empty() + block =~= block);
        } else {
            assert(groups.contains(group) <==> rest.contains(group)) by {
                if groups.contains(group) {
                    let k = groups.index_of(group);
                    assert(rest[k] == group);
                }
                if rest.contains(group) {
                    let k = rest.index_of(group);
                    assert(groups[k] == group);
                }
            }
            assert(block.filter(keep).len() == 0);
            let before = ordering::by_groups(tracks, rest).filter(keep);
            assert(before + block.filter(keep) =~= before);
        }
    } else {
        assert(Seq::<TrackView>::empty().filter(keep) =~= Seq::<TrackView>::empty());
    }
}

/// A group that is moved changes places with the group before or behind it, and stays where there
/// is none; all other groups stay where they are, and the tracks of each keep their order.
pub proof fn moved_group_changes_places(
    view: AppView,
    position: int,
    delta: isize,
    group: Seq<char>,
)
    requires
        view.state.selected_playlist_index < view.state.playlists.len(),
        view.state.playlists[view.state.selected_playlist_index as int].tracks.len() <= usize::MAX,
        delta == 1 || delta == -1,
        0 <= position < ordering::groups_in_order(
            view.state.playlists[view.state.selected_playlist_index as int].tracks,
        ).len(),
    ensures
        ({
            let at = view.state.selected_playlist_index as int;
            let tracks = view.state.playlists[at].tracks;
            let groups = ordering::groups_in_order(tracks);
            let moved = view.with_group_moved(groups[position], delta).state.playlists[at].tracks;
            let after = ordering::groups_in_order(moved);
            &&& 0 <= position + delta < groups.len() ==> {
                &&& after.len() == groups.len()
                &&& after[position + delta] == groups[position]
                &&& after[position] == groups[position + delta]
                &&& forall|i: int|
                    0 <= i < groups.len() && i != position && i != position + delta ==> (
                    #[trigger] after[i]) == groups[i]
                &&& groups.contains(group) ==> grouping::in_group(moved, group)
                    == grouping::in_group(tracks, group)
                &&& moved.to_multiset() == tracks.to_multiset()
            }
            &&& !(0 <= position + delta < groups.len()) ==> moved == tracks
        }),
{
    let at = view.state.selected_playlist_index as int;
    let tracks = view.state.playlists[at].tracks;
    let groups = ordering::groups_in_order(tracks);
    app_laws::groups_cover(tracks);
    groups_fit(tracks);
    let wanted = groups[position];
    let holds = ordering::is_group_at(groups, wanted);
    assert forall|i: int| 0 <= i < position implies !#[trigger] holds(i) by {
        assert(groups[i] != groups[position]);
    }
    assert(holds(position));
    counting::first_where_is(groups.len(), holds, position);
    if 0 <= position + delta < groups.len() {
        let to = position + delta;
        let swapped = moving::swapped(groups, position, to);
        assert forall|i: int| 0 <= i < swapped.len() implies grouping::in_group(
            tracks,
            #[trigger] swapped[i],
        ).len() > 0 by {
            let a = if i == position {
                to
            } else if i == to {
                position
            } else {
                i
            };
            assert(swapped[i] == groups[a]);
            group_has_track(tracks, groups[a]);
        }
        assert forall|i: int, j: int| 0 <= i < j < swapped.len() implies #[trigger] swapped[i]
            != #[trigger] swapped[j] by {
            let a = if i == position {
                to
            } else if i == to {
                position
            } else {
                i
            };
            let b = if j == position {
                to
            } else if j == to {
                position
            } else {
                j
            };
            assert(swapped[i] == groups[a] && swapped[j] == groups[b]);
            if a < b {
                assert(groups[a] != groups[b]);
            } else {
                assert(groups[b] != groups[a]);
            }
        }
        groups_stand_as_given(tracks, swapped, group);
        app_laws::group_move_keeps_tracks(tracks, position, to);
        if groups.contains(group) {
            let k = groups.index_of(group);
            let m = if k == position {
                to
            } else if k == to {
                position
            } else {
                k
            };
            assert(swapped[m] == group);
        }
    }
}

/// There are no more groups than tracks.
proof fn groups_fit(tracks: Seq<TrackView>)
    ensures
        ordering::groups_in_order(tracks).len() <= tracks.len(),
    decreases tracks.len(),
{
    if tracks.len() > 0 {
        groups_fit(tracks.drop_last());
    }
}

/// Every group of the tracks has a track.
proof fn group_has_track(tracks: Seq<TrackView>, group: Seq<char>)
    requires
        ordering::groups_in_order(tracks).contains(group),
    ensures
        grouping::in_group(tracks, group).len() > 0,
    decreases tracks.len(),
{
    reveal(Seq::filter);
    let before = ordering::groups_in_order(tracks.drop_last());
    if tracks.last().group != group {
        let all = ordering::groups_in_order(tracks);
        let k = all.index_of(group);
        assert(before[k] == group);
        group_has_track(tracks.drop_last(), group);
    }
}

/// The title of a new track is the name of its file up to the last dot, and the whole name where
/// that leaves nothing to read.
pub proof fn title_is_name_of_file(path: Seq<char>, stem: Seq<char>, ending: Seq<char>)
    requires
        paths::file_name_of(path) == Some(stem + "."@ + ending),
        stem.len() > 0,
        !ending.contains('.'),
    ensures
        !text::is_blank_text(stem) ==> track::title_for_path(path) == stem,
        text::is_blank_text(stem) ==> track::title_for_path(path) == stem + "."@ + ending,
{
    reveal_strlit(".");
    let name = stem + "."@ + ending;
    last_dot_is(name, stem.len() as int);
    assert(name.take(stem.len() as int) =~= stem);
}

/// A dot with no dot behind it is the last one.
proof fn last_dot_is(name: Seq<char>, at: int)
    requires
        0 <= at < name.len(),
        name[at] == '.',
        forall|i: int| at < i < name.len() ==> #[trigger] name[i] != '.',
    ensures
        paths::last_dot(name) == at,
    decreases name.len(),
{
    if at < name.len() - 1 {
        assert(name[name.len() - 1] != '.');
        last_dot_is(name.drop_last(), at);
    }
}

} // verus!
