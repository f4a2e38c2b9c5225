//! What holds of what is played and kept: opened files, tracks that have begun, jumps, and the
//! session that the next run goes on with.

use crate::app::{AppView, Crossfade, EffectView, MainContentTab, PlaybackInfoView, PlayerStatus};
use crate::app_laws;
use crate::counting;
use crate::external_files;
use crate::lookup;
use crate::paths;
use crate::playlist;
use crate::playlist::PlaylistKind;
use crate::radio_laws;
use crate::seeking;
use crate::seeking::SeekTargetView;
use crate::settings::DspSettings;
use crate::state;
use crate::state::StateView;
use crate::text;
use crate::track::{AudioFileView, TrackView};
use vstd::prelude::*;
use vstd::string::*;

verus! {

// ---------------------------------------------------------------------------
// Asking for a track
// ---------------------------------------------------------------------------

/// A track that is asked for by its path is asked for at that path and from that position. It
/// fades in only where it plays from the start, crossfading is switched on and something is
/// playing. Without an output device nothing is asked for, and an error says so.
pub proof fn path_is_asked_for(
    view: AppView,
    path: Seq<char>,
    index: Option<usize>,
    start: u32,
    status: PlayerStatus,
)
    ensures
        ({
            let after = view.with_path_requested(path, index, start, status);
            &&& after.state == view.state
            &&& status.available ==> {
                &&& after.effects == view.effects.push(after.effects.last())
                &&& after.effects.last() matches EffectView::PlayTrack {
                    path: asked,
                    track_index,
                    start_bits,
                    crossfade,
                    continues_live,
                }
                &&& asked == path
                &&& track_index == index
                &&& start_bits == start
                &&& !continues_live
                &&& crossfade != Crossfade::Off <==> view.state.playback.crossfade_enabled
                    && status.playing && (start <= 0x3d4c_cccd || 0x8000_0000 <= start
                    <= 0xff80_0000)
            }
            &&& !status.available ==> after.effects == view.effects && after.messages.error is Some
        }),
{
    let after = view.with_path_requested(path, index, start, status);
    if status.available {
        assert(after.effects =~= view.effects.push(after.effects.last()));
    }
}

// ---------------------------------------------------------------------------
// Opened files
// ---------------------------------------------------------------------------

/// A path names an audio file by what follows the last dot of its file name, whatever the case
/// of letters.
pub proof fn audio_files_by_extension(path: Seq<char>, stem: Seq<char>, extension: Seq<char>)
    requires
        paths::file_name_of(path) == Some(stem + "."@ + extension),
        stem.len() > 0,
        !extension.contains('.'),
    ensures
        paths::is_audio_path(path) <==> {
            let kind = text::lowercase(extension);
            ||| kind == "mp3"@
            ||| kind == "wav"@
            ||| kind == "flac"@
            ||| kind == "ogg"@
            ||| kind == "opus"@
            ||| kind == "m4a"@
            ||| kind == "mp4"@
            ||| kind == "aac"@
            ||| kind == "aiff"@
            ||| kind == "aif"@
            ||| kind == "ape"@
            ||| kind == "wv"@
        },
        paths::stem_of_name(stem + "."@ + extension) == stem,
{
    reveal_strlit(".");
    let name = stem + "."@ + extension;
    dot_before_extension(stem, extension);
    assert(name.skip(stem.len() as int + 1) =~= extension);
    assert(name.take(stem.len() as int) =~= stem);
}

/// The last dot of a name stands before an extension without one.
pub(crate) proof fn dot_before_extension(stem: Seq<char>, extension: Seq<char>)
    requires
        !extension.contains('.'),
    ensures
        paths::last_dot(stem + "."@ + extension) == stem.len(),
    decreases extension.len(),
{
    reveal_strlit(".");
    let name = stem + "."@ + extension;
    if extension.len() == 0 {
        assert(name.last() == '.');
    } else {
        let rest = extension.drop_last();
        assert(extension.contains(extension.last()));
        assert forall|i: int| 0 <= i < rest.len() implies rest[i] != '.' by {
            assert(extension.contains(extension[i]));
        }
        dot_before_extension(stem, rest);
        assert(name.drop_last() =~= stem + "."@ + rest);
        assert(name.last() == extension.last());
    }
}

/// Of the paths that were opened exactly the audio files are played, each once, in the order in
/// which they were opened.
pub proof fn opened_audio_files_are_played(opened: Seq<(AudioFileView, bool)>, index: int)
    requires
        0 <= index < opened.len(),
    ensures
        ({
            let files = external_files::playable_files(opened);
            &&& opened[index].1 && paths::is_audio_path(opened[index].0.path) ==> exists|k: int|
                0 <= k < files.len() && text::lowercase(#[trigger] files[k].path)
                    == text::lowercase(opened[index].0.path)
            &&& forall|k: int|
                0 <= k < files.len() ==> paths::is_audio_path((#[trigger] files[k]).path)
                    && opened.contains((files[k], true))
        }),
    decreases opened.len(),
{
    let files = external_files::playable_files(opened);
    let rest = opened.drop_last();
    let before = external_files::playable_files(rest);
    let last = opened.last();
    if rest.len() > 0 {
        if index < rest.len() {
            opened_audio_files_are_played(rest, index);
            if opened[index].1 && paths::is_audio_path(opened[index].0.path) {
                let k = choose|k: int|
                    0 <= k < before.len() && text::lowercase(#[trigger] before[k].path)
                        == text::lowercase(opened[index].0.path);
                assert(files[k] == before[k]);
            }
        } else {
            opened_audio_files_are_played(rest, 0);
        }
    }
    if index == rest.len() && last.1 && paths::is_audio_path(last.0.path) {
        if external_files::lists_file(before, last.0.path) {
            let k = choose|k: int|
                0 <= k < before.len() && paths::same_key(#[trigger] before[k].path, last.0.path);
            assert(files[k] == before[k]);
            assert(text::lowercase(files[k].path) == text::lowercase(last.0.path));
        } else {
            assert(files[before.len() as int] == last.0);
            assert(text::lowercase(files[before.len() as int].path) == text::lowercase(
                last.0.path,
            ));
        }
    }
    assert forall|k: int| 0 <= k < files.len() implies paths::is_audio_path(
        (#[trigger] files[k]).path,
    ) && opened.contains((files[k], true)) by {
        if k < before.len() {
            assert(files[k] == before[k]);
            assert(rest.contains((before[k], true)));
            let m = rest.index_of((before[k], true));
            assert(opened[m] == (files[k], true));
        } else {
            assert(opened[opened.len() - 1] == (files[k], true));
        }
    }
}

/// Temporary files keep what was there and add the files that were not.
proof fn temporary_files_hold(tracks: Seq<TrackView>, files: Seq<AudioFileView>, index: int)
    requires
        0 <= index < files.len(),
    ensures
        playlist::has_path(playlist::with_temporary_files(tracks, files).0, files[index].path),
        playlist::with_temporary_files(tracks, files).0.len() >= tracks.len(),
        playlist::with_temporary_files(tracks, files).0.take(tracks.len() as int) == tracks,
        playlist::with_temporary_files(tracks, files).0.len() <= tracks.len() + files.len(),
    decreases files.len(),
{
    let rest = files.drop_last();
    let before = playlist::with_temporary_files(tracks, rest).0;
    let after = playlist::with_temporary_files(tracks, files).0;
    if rest.len() > 0 {
        temporary_files_hold(
            tracks,
            rest,
            if index < rest.len() {
                index
            } else {
                0
            },
        );
    } else {
        assert(before =~= tracks);
    }
    assert(before.take(tracks.len() as int) =~= tracks);
    assert(after.take(tracks.len() as int) =~= tracks) by {
        assert forall|i: int| 0 <= i < tracks.len() implies after[i] == tracks[i] by {
            assert(before.take(tracks.len() as int)[i] == before[i]);
        }
    }
    if index < rest.len() {
        let i = choose|i: int|
            0 <= i < before.len() && paths::same_key(#[trigger] before[i].path, files[index].path);
        assert(after[i] == before[i]);
        assert(paths::same_key(after[i].path, files[index].path));
    } else if !playlist::has_path(before, files.last().path) {
        assert(paths::same_key(after[before.len() as int].path, files[index].path));
    }
}

/// Where the playlist for temporary playback stands, with the files in it.
proof fn temporary_tracks_hold(view: AppView, files: Seq<AudioFileView>, index: int)
    requires
        0 <= index < files.len(),
        view.state.playlists.len() < usize::MAX,
    ensures
        ({
            let added = view.with_temporary_tracks(files);
            let at = view.temporary_index() as int;
            &&& at < added.state.playlists.len()
            &&& view.state.playlists.len() <= added.state.playlists.len()
            &&& added.state.playlists[at].kind == PlaylistKind::Temporary
            &&& playlist::has_path(added.state.playlists[at].tracks, files[index].path)
            &&& forall|other: int|
                0 <= other < view.state.playlists.len() && other != at ==> (
                #[trigger] added.state.playlists[other]) == view.state.playlists[other]
            &&& at < view.state.playlists.len() ==> {
                let was = view.state.playlists[at].tracks;
                added.state.playlists[at].tracks.take(was.len() as int) == was
            }
            &&& added.effects == view.effects
            &&& added.active_track_path == view.active_track_path
            &&& added.browsing == view.browsing
        }),
{
    let lists = view.state.playlists;
    let at = view.temporary_index();
    let is_temporary = |i: int| lists[i].kind == PlaylistKind::Temporary;
    counting::first_where_holds(lists.len(), is_temporary);
    let ready = view.with_temporary_playlist();
    let list = ready.state.playlists[at as int];
    temporary_files_hold(list.tracks, files, index);
}

/// Files that are opened go to the playlist for temporary playback, behind what is there; that
/// playlist is shown, and the other playlists keep their tracks. Nothing is asked of the player
/// where the files are not to be played.
pub proof fn opened_files_are_shown(
    view: AppView,
    files: Seq<AudioFileView>,
    status: PlayerStatus,
    index: int,
)
    requires
        0 <= index < files.len(),
        view.state.playlists.len() < usize::MAX,
    ensures
        ({
            let after = view.with_files_opened(files, false, status);
            let at = after.state.selected_playlist_index as int;
            &&& at < after.state.playlists.len()
            &&& after.state.playlists[at].kind == PlaylistKind::Temporary
            &&& playlist::has_path(after.state.playlists[at].tracks, files[index].path)
            &&& forall|other: int|
                0 <= other < view.state.playlists.len() && other != at ==> (
                #[trigger] after.state.playlists[other]).tracks
                    == view.state.playlists[other].tracks
            &&& after.browsing.active_tab == MainContentTab::Music
            &&& after.messages.error is None
            &&& after.active_track_path == view.active_track_path
            &&& after.effects == view.effects.push(EffectView::SaveState)
        }),
{
    temporary_tracks_hold(view, files, index);
    shown_files(view, files);
}

/// Of files that are opened to be played the first one is asked for, from its start, once what
/// played before was stopped.
pub proof fn first_opened_file_is_played(
    view: AppView,
    files: Seq<AudioFileView>,
    status: PlayerStatus,
)
    requires
        files.len() > 0,
        view.state.playlists.len() < usize::MAX,
        status.available,
    ensures
        ({
            let after = view.with_files_opened(files, true, status);
            &&& after.effects.last() matches EffectView::PlayTrack {
                path,
                start_bits,
                crossfade,
                ..
            }
            &&& path == files[0].path
            &&& start_bits == 0
            &&& crossfade == Crossfade::Off
            &&& after.effects.contains(EffectView::StopPlayer)
        }),
{
    let quiet = view.stopped();
    let k = view.effects.len() as int;
    assert(quiet.state.playlists.len() == view.state.playlists.len());
    assert(quiet.effects[k] == EffectView::StopPlayer && k < quiet.effects.len());
    temporary_tracks_hold(quiet, files, 0);
    shown_files(quiet, files);
    let shown = quiet.with_files_shown(files);
    played_after(view, shown, files, status, k);
}

/// What is asked for once files are shown.
proof fn played_after(
    view: AppView,
    shown: AppView,
    files: Seq<AudioFileView>,
    status: PlayerStatus,
    k: int,
)
    requires
        files.len() > 0,
        status.available,
        shown == view.stopped().with_files_shown(files),
        0 <= k < shown.effects.len(),
        shown.effects[k] == EffectView::StopPlayer,
    ensures
        ({
            let after = view.with_files_opened(files, true, status);
            &&& after.effects.last() matches EffectView::PlayTrack {
                path,
                start_bits,
                crossfade,
                ..
            }
            &&& path == files[0].path
            &&& start_bits == 0
            &&& crossfade == Crossfade::Off
            &&& after.effects.contains(EffectView::StopPlayer)
        }),
{
    let quiet = external_files::after_stop(status);
    let after = shown.with_path_requested(
        files[0].path,
        shown.selected_track_index,
        0,
        quiet,
    );
    path_is_asked_for(shown, files[0].path, shown.selected_track_index, 0, quiet);
    assert(after.effects[k] == EffectView::StopPlayer);
}

/// Where no file can be played nothing changes, and an error says so.
pub proof fn nothing_opened_is_said(view: AppView, autoplay: bool, status: PlayerStatus)
    ensures
        view.with_files_opened(Seq::empty(), autoplay, status).state == view.state,
        view.with_files_opened(Seq::empty(), autoplay, status).effects == view.effects,
        view.with_files_opened(Seq::empty(), autoplay, status).messages.error is Some,
{
}

/// What the selection of a playlist leaves of the application.
proof fn saved_keeps(view: AppView)
    ensures
        ({
            let after = view.saved();
            &&& after.state.selected_playlist_index == view.state.selected_playlist_index
            &&& after.state.playlists.len() == view.state.playlists.len()
            &&& forall|i: int|
                0 <= i < view.state.playlists.len() ==> (
                #[trigger] after.state.playlists[i]).tracks == view.state.playlists[i].tracks
                    && after.state.playlists[i].kind == view.state.playlists[i].kind
            &&& after.browsing == view.browsing
            &&& after.messages == view.messages
            &&& after.active_track_path == view.active_track_path
            &&& after.active_track_index == view.active_track_index
            &&& after.effects == view.effects.push(EffectView::SaveState)
            &&& after.selected_track_index == view.selected_track_index
        }),
{
}

/// A playlist that is selected is shown, from its first track that can be played. No playlist
/// changes its tracks, and what plays goes on.
pub proof fn selected_playlist_is_shown(view: AppView, index: usize)
    requires
        index < view.state.playlists.len(),
    ensures
        ({
            let after = view.with_playlist_selected(index);
            &&& after.state.selected_playlist_index == index
            &&& after.state.playlists.len() == view.state.playlists.len()
            &&& forall|i: int|
                0 <= i < view.state.playlists.len() ==> (
                #[trigger] after.state.playlists[i]).tracks == view.state.playlists[i].tracks
                    && after.state.playlists[i].kind == view.state.playlists[i].kind
            &&& after.browsing.active_tab == view.browsing.active_tab
            &&& after.messages == view.messages
            &&& after.active_track_path == view.active_track_path
            &&& after.active_track_index == view.active_track_index
            &&& after.effects == view.effects.push(EffectView::SaveState)
            &&& after.multi_selected_track_indexes.len() == 0
        }),
{
    let kept = view.with_repeat_kept();
    assert(kept.state.playlists.len() == view.state.playlists.len());
    assert forall|i: int| 0 <= i < view.state.playlists.len() implies (
    #[trigger] kept.state.playlists[i]).tracks == view.state.playlists[i].tracks
        && kept.state.playlists[i].kind == view.state.playlists[i].kind by {}
    let left = kept.with_scroll_offset(kept.state.ui.playlist_scroll_offset_bits);
    assert(left.state.playlists == kept.state.playlists);
    let chosen = AppView {
        state: StateView { selected_playlist_index: index, ..left.state },
        ..left
    };
    let shown =
        chosen.with_repeat_restored().without_multi_selection().with_first_eligible_selected();
    assert(shown.state == chosen.state);
    let cleared = AppView {
        browsing: crate::app::BrowsingView {
            collapsed_groups: Seq::empty(),
            scroll_to_track_path_requested: None,
            search_cursor: 0,
            ..shown.browsing
        },
        watch: crate::app::no_watch(),
        ..shown
    };
    saved_keeps(cleared);
    assert(view.with_playlist_selected(index) == cleared.saved());
}

/// What is shown once files were opened.
proof fn shown_files(view: AppView, files: Seq<AudioFileView>)
    requires
        view.temporary_index() < view.with_temporary_tracks(files).state.playlists.len(),
    ensures
        ({
            let added = view.with_temporary_tracks(files);
            let shown = view.with_files_shown(files);
            &&& shown.state.selected_playlist_index == view.temporary_index()
            &&& shown.state.playlists.len() == added.state.playlists.len()
            &&& forall|i: int|
                0 <= i < added.state.playlists.len() ==> (
                #[trigger] shown.state.playlists[i]).tracks == added.state.playlists[i].tracks
                    && shown.state.playlists[i].kind == added.state.playlists[i].kind
            &&& shown.browsing.active_tab == MainContentTab::Music
            &&& shown.messages.error is None
            &&& shown.active_track_path == view.active_track_path
            &&& shown.effects == view.effects.push(EffectView::SaveState)
        }),
{
    let added = view.with_temporary_tracks(files);
    let index = view.temporary_index();
    let first = files[0].path;
    let position = lookup::position_of_path(added.state.playlists[index as int].tracks, first);
    let music = added.with_tab(MainContentTab::Music);
    selected_playlist_is_shown(music, index);
    scrolled_keeps(
        music.with_playlist_selected(index),
        position,
        first,
        external_files::opened_status(files),
    );
}

/// What scrolling to a track and saying so leaves of the application.
proof fn scrolled_keeps(
    view: AppView,
    position: Option<usize>,
    path: Seq<char>,
    status: Seq<char>,
)
    ensures
        ({
            let after = view.with_scroll_to(position, path).with_status(status).with_error(None);
            &&& after.state == view.state
            &&& after.browsing.active_tab == view.browsing.active_tab
            &&& after.messages.error is None
            &&& after.active_track_path == view.active_track_path
            &&& after.effects == view.effects
        }),
{
}

// ---------------------------------------------------------------------------
// A track that has begun
// ---------------------------------------------------------------------------

/// Once a track has begun it is the playing one in place of any station, it is kept as the one
/// that was played last, and the session is about it, at its position.
pub proof fn started_track_plays(
    view: AppView,
    playlist_index: usize,
    index: usize,
    info: PlaybackInfoView,
    status_text: Seq<char>,
    size: Option<u64>,
    status: PlayerStatus,
    position: u32,
)
    requires
        status.available && (status.playing || status.paused),
    ensures
        ({
            let after = view.with_track_started(
                playlist_index,
                Some(index),
                info,
                status_text,
                size,
                status,
                position,
            );
            &&& after.active_track_path == Some(info.path)
            &&& after.active_track_index == Some(index)
            &&& after.active_playlist_index == Some(playlist_index)
            &&& after.selected_track_index == Some(index)
            &&& after.radio.active_index is None
            &&& after.browsing.active_tab == MainContentTab::Music
            &&& after.crossfade_started_for_path is None
            &&& after.pending_track_switch is None
            &&& after.last_playback == Some(info)
            &&& after.state.last_played_track matches Some(last)
            &&& last.track_path == info.path
            &&& last.playlist_index == playlist_index
            &&& after.state.playback_session.source == "track"@
            &&& after.state.playback_session.track_path == Some(info.path)
            &&& after.state.playback_session.playlist_index == Some(playlist_index)
            &&& after.state.playback_session.was_active
            &&& after.state.playback_session.was_paused == status.paused
            &&& position <= 0x7f80_0000 ==> after.state.playback_session.position_seconds_bits
                == position
            &&& after.messages.error is None
            &&& after.messages.status == status_text
        }),
{
}

/// What playback has learned is kept with every track of that file, whatever the case of its
/// path, and with no other: its duration, and that it is there.
pub proof fn learned_of_file_is_kept(
    view: AppView,
    info: PlaybackInfoView,
    size: Option<u64>,
    list: int,
    index: int,
)
    requires
        0 <= list < view.state.playlists.len(),
        0 <= index < view.state.playlists[list].tracks.len(),
    ensures
        ({
            let was = view.state.playlists[list].tracks[index];
            let kept = view.with_metadata(info, size).state.playlists[list].tracks[index];
            &&& view.with_metadata(info, size).state.playlists.len() == view.state.playlists.len()
            &&& view.with_metadata(info, size).state.playlists[list].tracks.len()
                == view.state.playlists[list].tracks.len()
            &&& kept.path == was.path && kept.title == was.title && kept.group == was.group
            &&& text::lowercase(was.path) != text::lowercase(info.path) ==> kept == was
            &&& text::lowercase(was.path) == text::lowercase(info.path) ==> {
                &&& !kept.missing
                &&& kept.metadata.duration_seconds_bits == Some(info.original_duration_bits)
                &&& kept.metadata.sample_rate_hz == Some(info.sample_rate)
                &&& was.metadata.size_bytes is Some ==> kept.metadata.size_bytes
                    == was.metadata.size_bytes
                &&& info.waveform.len() > 0 && info.waveform_brightness.len() > 0 ==> kept.waveform
                    == info.waveform && kept.waveform_brightness == info.waveform_brightness
                &&& info.waveform.len() == 0 ==> kept.waveform == was.waveform
            }
        }),
{
}

// ---------------------------------------------------------------------------
// Jumps
// ---------------------------------------------------------------------------

/// A jump goes to the asked position of the playing track, in the playlist that it is played
/// from; where nothing plays there is none.
pub proof fn jump_is_within_playing_track(
    view: AppView,
    position: u32,
    settings: DspSettings,
    status: PlayerStatus,
)
    ensures
        match view.seek_target(position, settings, status) {
            Some(target) => {
                &&& view.active_track_path == Some(target.path)
                &&& target.position_bits == position
                &&& target.index == view.active_track_index
                &&& view.active_playlist_index is Some ==> target.playlist_index
                    == view.active_playlist_index->0
                &&& target.settings == settings
                &&& target.prepare_after_streaming == settings.skip_silence_enabled
            },
            None => view.active_track_path is None || !status.available || !(status.playing
                || status.paused),
        },
        view.active_track_path is Some && status.available && (status.playing || status.paused)
            ==> view.seek_target(position, settings, status) is Some,
{
}

/// A jump is made at once where none waits and the last one is at least the interval ago; else it
/// waits for the interval, and only the latest one waits.
pub proof fn jumps_wait_their_turn(
    view: AppView,
    position: u32,
    settings: DspSettings,
    now: u64,
    interval: u64,
    time_text: Seq<char>,
    status: PlayerStatus,
    displayed: u32,
)
    requires
        view.active_track_path is Some,
        status.available && (status.playing || status.paused),
        view.seeking.last_started_at is Some,
        view.seeking.last_started_at->0 <= now,
        now + interval <= u64::MAX,
    ensures
        view.seeks_at_once(now, interval) <==> view.seeking.fast is None && now
            - view.seeking.last_started_at->0 >= interval,
        !view.seeks_at_once(now, interval) ==> {
            let after = view.with_seek_requested(
                position,
                settings,
                now,
                interval,
                time_text,
                status,
                displayed,
            );
            &&& after.seeking.fast matches Some(waiting)
            &&& waiting.run_after == now + interval
            &&& waiting.position_bits == position
            &&& Some(waiting.path) == view.active_track_path
        },
{
}

// ---------------------------------------------------------------------------
// The next run
// ---------------------------------------------------------------------------

/// A track that played when the application was left is asked for in the next run, from where it
/// stood; a track that was paused is selected and not asked for.
pub proof fn track_plays_on_in_next_run(
    view: AppView,
    status: PlayerStatus,
    position: u32,
    list: usize,
    track: usize,
    next: AppView,
    player: PlayerStatus,
)
    requires
        status.available && status.playing && !status.paused,
        view.radio.active_index is None,
        view.active_track_path is Some,
        view.active_playlist_index == Some(list),
        list < view.state.playlists.len() <= usize::MAX,
        lookup::position_of_present_path(
            view.state.playlists[list as int].tracks,
            view.active_track_path->0,
        ) == Some(track),
        state::first_of_kind(view.state.playlists, PlaylistKind::Temporary) is None,
        view.state.selected_playlist_index < view.state.playlists.len(),
        next.state == state::persisted_view(view.with_session(status, position).state),
        player.available,
        position <= 0x7f80_0000,
    ensures
        ({
            let after = next.with_session_restored(player);
            &&& after.effects == next.effects.push(after.effects.last())
            &&& after.effects.last() matches EffectView::PlayTrack {
                path,
                track_index,
                start_bits,
                ..
            }
            &&& path == view.state.playlists[list as int].tracks[track as int].path
            &&& track_index == Some(track)
            &&& start_bits == position
            &&& after.state.selected_playlist_index == list
            &&& after.selected_track_index == Some(track)
        }),
{
    app_laws::session_is_resumed(view, status, position, list, track, next, player);
    let selected = next.with_track_in_view(list, track);
    let path = view.state.playlists[list as int].tracks[track as int].path;
    path_is_asked_for(selected, path, Some(track), position, player);
}

/// A station that played when the application was left is opened again in the next run; one that
/// was paused, or that did not play, is selected and not opened.
pub proof fn station_plays_on_in_next_run(next: AppView, index: usize, player: PlayerStatus)
    requires
        next.state.playback_session.source == "radio"@,
        next.state.playback_session.radio_index == Some(index),
        index < next.state.radio_stations.len(),
        player.available,
    ensures
        ({
            let after = next.with_session_restored(player);
            &&& after.state.selected_radio_index == Some(index)
            &&& after.browsing.active_tab == MainContentTab::Radio
            &&& if next.state.playback_session.was_active
                && !next.state.playback_session.was_paused {
                &&& after.effects == next.effects.push(after.effects.last())
                &&& after.effects.last() matches EffectView::OpenRadioStream {
                    station_index,
                    url,
                    ..
                }
                &&& station_index == index
                &&& url == next.state.radio_stations[index as int].url
            } else {
                after.effects == next.effects
            }
        }),
{
    radio_laws::requested_station_is_opened(next.with_station_in_view(index), index, player);
}

/// A paused track is selected in the next run, and nothing is asked of the player.
pub proof fn paused_track_waits_in_next_run(next: AppView, player: PlayerStatus)
    requires
        next.state.playback_session.was_paused || !next.state.playback_session.was_active,
        next.state.playback_session.source == "track"@,
    ensures
        next.with_session_restored(player).effects == next.effects,
        next.with_session_restored(player).active_track_path == next.active_track_path,
{
    reveal_strlit("track");
    reveal_strlit("radio");
    assert("track"@[0] == 't');
    assert("radio"@[0] == 'r');
}

/// A jump that has waited is made as it was asked for: in the same track, to the same position.
pub proof fn waiting_jump_is_made(
    view: AppView,
    target: SeekTargetView,
    now: u64,
    interval: u64,
    time_text: Seq<char>,
    status: PlayerStatus,
    displayed: u32,
)
    ensures
        ({
            let waiting = view.with_seek_waiting(
                target,
                now,
                interval,
                time_text,
                status,
                displayed,
            );
            &&& waiting.seeking.fast matches Some(pending)
            &&& seeking::waited_target(pending) == target
            &&& now + interval <= u64::MAX ==> pending.run_after == now + interval
            &&& waiting.seeking.drag_position_bits is None
        }),
{
}

} // verus!
