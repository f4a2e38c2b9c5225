//! What holds of a mix: which tracks come into it, which part of each is used, and what comes of
//! its export.

use crate::app::AppView;
use crate::browsing_laws;
use crate::counting;
use crate::dj_mix;
use crate::dj_mix::{
    DjBridgeMode, DjMixEvent, DjTrackSectionMode, FavoriteRange, PreviewRequest, RangeEdit,
};
use crate::mix_builder;
use crate::mix_builder::MixDefaults;
use crate::navigation;
use crate::playlist::{PlaylistKind, PlaylistView};
use crate::text;
use crate::text_laws;
use crate::track::TrackView;
use vstd::prelude::*;
use vstd::string::*;

verus! {

// ---------------------------------------------------------------------------
// The tracks of a mix
// ---------------------------------------------------------------------------

/// A track comes into a mix exactly where it is not marked as missing, its file is there, and it
/// is one of those that are wanted; it comes with its own path and title.
pub proof fn available_tracks_come_into_mix(
    tracks: Seq<TrackView>,
    present: Seq<bool>,
    wanted: Option<Seq<Seq<char>>>,
    mode: DjTrackSectionMode,
    range: FavoriteRange,
    index: int,
)
    requires
        tracks.len() == present.len(),
        tracks.len() <= usize::MAX,
        0 <= index < tracks.len(),
    ensures
        ({
            let mixed = mix_builder::mixed_tracks(tracks, present, wanted, mode, range);
            &&& !tracks[index].missing && present[index] && (wanted matches Some(list)
                ==> exists|k: int|
                0 <= k < list.len() && text::lowercase(#[trigger] list[k]) == text::lowercase(
                    tracks[index].path,
                )) ==> exists|k: int|
                0 <= k < mixed.len() && (#[trigger] mixed[k]).path == tracks[index].path
                    && mixed[k].title == tracks[index].title
            &&& forall|k: int|
                0 <= k < mixed.len() ==> exists|i: int|
                    {
                        &&& 0 <= i < tracks.len()
                        &&& (#[trigger] mixed[k]).path == (#[trigger] tracks[i]).path
                        &&& !tracks[i].missing
                        &&& present[i]
                        &&& wanted matches Some(list) ==> exists|m: int|
                            0 <= m < list.len() && text::lowercase(#[trigger] list[m])
                                == text::lowercase(tracks[i].path)
                    }
            &&& forall|k: int|
                0 <= k < mixed.len() ==> (#[trigger] mixed[k]).section_mode == mode
                    && mixed[k].range == range
        }),
{
    let holds = mix_builder::is_mixable(tracks, present, wanted);
    let places = counting::indexes_where(tracks.len(), holds);
    let mixed = mix_builder::mixed_tracks(tracks, present, wanted, mode, range);
    counting::indexes_where_holds(tracks.len(), holds);
    if !tracks[index].missing && present[index] && (wanted matches Some(list) ==> exists|k: int|
        0 <= k < list.len() && text::lowercase(#[trigger] list[k]) == text::lowercase(
            tracks[index].path,
        )) {
        if let Some(list) = wanted {
            let k = choose|k: int|
                0 <= k < list.len() && text::lowercase(#[trigger] list[k]) == text::lowercase(
                    tracks[index].path,
                );
            assert(crate::paths::same_key(list[k], tracks[index].path));
        }
        assert(holds(index));
        let k = places.index_of(index as usize);
        assert(places[k] == index as usize);
        assert(mixed[k].path == tracks[index].path);
    }
    assert forall|k: int| 0 <= k < mixed.len() implies exists|i: int|
        {
            &&& 0 <= i < tracks.len()
            &&& (#[trigger] mixed[k]).path == (#[trigger] tracks[i]).path
            &&& !tracks[i].missing
            &&& present[i]
            &&& wanted matches Some(list) ==> exists|m: int|
                0 <= m < list.len() && text::lowercase(#[trigger] list[m]) == text::lowercase(
                    tracks[i].path,
                )
        } by {
        let i = places[k] as int;
        assert(holds(i));
        assert(mixed[k].path == tracks[i].path);
        if let Some(list) = wanted {
            let m = choose|m: int|
                0 <= m < list.len() && crate::paths::same_key(
                    #[trigger] list[m],
                    tracks[i].path,
                );
            assert(text::lowercase(list[m]) == text::lowercase(tracks[i].path));
        }
    }
}

/// A mix is opened of at least two tracks, and only while none is being exported; the playlist
/// for temporary playback is not mixed. Otherwise the dialog stays as it is, and an error says so.
pub proof fn mix_needs_two_tracks(
    view: AppView,
    shown: PlaylistView,
    present: Seq<bool>,
    wanted: Option<Seq<Seq<char>>>,
    defaults: MixDefaults,
)
    requires
        view.state.selected_playlist_index < view.state.playlists.len(),
        view.state.playlists[view.state.selected_playlist_index as int] == shown,
    ensures
        ({
            let tracks = mix_builder::mixed_tracks(
                shown.tracks,
                present,
                wanted,
                defaults.section_mode,
                defaults.range,
            );
            let after = view.with_mix_of_shown(present, wanted, defaults);
            if shown.kind != PlaylistKind::Temporary && !view.jobs.dj_mix && tracks.len() >= 2 {
                &&& after.mix is Some
                &&& after.mix->0.tracks == tracks
                &&& !after.mix->0.completed
                &&& after.mix->0.output_path is None
                &&& after.messages == view.messages
            } else {
                after.mix == view.mix && after.messages.error is Some
            }
        }),
{
}

/// An export begins only of a mix of at least two tracks, while none is running, and with the
/// custom bridge there where one is asked for; then it is running, and nothing is finished yet.
pub proof fn export_begins_when_ready(view: AppView, bridge_is_file: bool, now: u64)
    ensures
        ({
            let after = view.with_mix_started(bridge_is_file, now);
            let ready = !view.jobs.dj_mix && view.mix is Some && view.mix->0.tracks.len() >= 2;
            let bridged = view.mix is Some && view.mix->0.options.bridge_mode
                == DjBridgeMode::Custom ==> view.mix->0.custom_bridge_path is Some
                && bridge_is_file;
            &&& ready && bridged ==> {
                &&& after.jobs.dj_mix
                &&& after.mix is Some
                &&& after.mix->0.tracks == view.mix->0.tracks
                &&& !after.mix->0.completed
                &&& after.mix->0.output_path is None
                &&& after.mix->0.started_at == Some(now)
            }
            &&& ready && !bridged ==> after.jobs == view.jobs && after.mix == view.mix
                && after.messages.error is Some
            &&& !ready ==> after == view
        }),
{
}

/// What comes of an export is shown: how far it is, where the finished mix is, or what went wrong;
/// it is running no longer once it has ended.
pub proof fn export_is_reported(view: AppView, event: DjMixEvent, now: u64)
    requires
        view.mix is Some,
        view.jobs.dj_mix,
    ensures
        ({
            let after = view.with_mix_event(event, now);
            &&& after.mix is Some
            &&& after.mix->0.tracks == view.mix->0.tracks
            &&& match event {
                DjMixEvent::Progress { stage, progress_bits } => {
                    &&& after.jobs.dj_mix
                    &&& after.mix->0.stage == stage@
                    &&& after.mix->0.progress_bits == progress_bits
                    &&& after.mix->0.completed == view.mix->0.completed
                },
                DjMixEvent::Completed { output_path, report_path, .. } => {
                    &&& !after.jobs.dj_mix
                    &&& after.mix->0.completed
                    &&& after.mix->0.output_path == Some(output_path@)
                    &&& after.mix->0.report_path == Some(report_path@)
                },
                DjMixEvent::Cancelled => {
                    &&& !after.jobs.dj_mix
                    &&& after.mix->0.completed == view.mix->0.completed
                    &&& after.mix->0.progress_bits == 0
                },
                DjMixEvent::Failed { error } => {
                    &&& !after.jobs.dj_mix
                    &&& after.messages.error == Some(error@)
                    &&& after.mix->0.completed == view.mix->0.completed
                },
            }
        }),
{
}

// ---------------------------------------------------------------------------
// The part of a track that is used
// ---------------------------------------------------------------------------

/// However the part of a track is changed, it lies within the track and is at least a second
/// long.
pub proof fn changed_range_fits(edit: RangeEdit, range: FavoriteRange, duration: u32)
    requires
        duration >= 1,
    ensures
        ({
            let changed = edit.applied(range, duration);
            changed.start < changed.end <= duration
        }),
{
}

/// The handle that is dragged goes where it is dragged, as far as the other one lets it, and the
/// other one stays.
pub proof fn dragged_handle_follows(range: FavoriteRange, duration: u32, to: u32, released: bool)
    requires
        range.start < range.end <= duration,
    ensures
        ({
            let changed = (RangeEdit::DragStart { to, released }).applied(range, duration);
            &&& changed.end == range.end
            &&& to < range.end ==> changed.start == to
            &&& to >= range.end ==> changed.start == range.end - 1
        }),
        ({
            let changed = (RangeEdit::DragEnd { to, released }).applied(range, duration);
            &&& changed.start == range.start
            &&& range.start < to <= duration ==> changed.end == to
            &&& to <= range.start ==> changed.end == range.start + 1
            &&& to > duration ==> changed.end == duration
        }),
{
    dj_mix::settled_range_stays(range, duration);
}

/// A start that is set or typed in counts wherever it lies within the track, and the end gives way
/// where it must; an end that is typed in counts wherever it lies behind the start.
pub proof fn entered_bounds_count(range: FavoriteRange, duration: u32, to: u32)
    requires
        range.start < range.end <= duration,
        to < duration,
    ensures
        ({
            let changed = (RangeEdit::SetStart { to }).applied(range, duration);
            &&& changed.start == to
            &&& changed.end == if range.end > to {
                range.end as int
            } else {
                to + 1
            }
        }),
        (RangeEdit::EnterStart { to }).applied(range, duration).start == to,
        to > range.start ==> (RangeEdit::EnterEnd { to }).applied(range, duration) == (
        FavoriteRange { start: range.start, end: to }),
        to < range.end ==> (RangeEdit::StartAtPlayhead { to }).applied(range, duration) == (
        FavoriteRange { start: to, end: range.end }),
        to > range.start ==> (RangeEdit::EndAtPlayhead { to }).applied(range, duration) == (
        FavoriteRange { start: range.start, end: to }),
{
    dj_mix::settled_range_stays(range, duration);
}

/// A preview that follows a change or a click never stops before it begins, and it stops at the
/// end of the part that is used, or of the track where it begins behind that part. A handle that
/// is still being dragged is not heard.
pub proof fn preview_stays_in_range(
    edit: RangeEdit,
    range: FavoriteRange,
    duration: u32,
    position: u32,
    active: bool,
)
    requires
        range.start < range.end <= duration,
    ensures
        match dj_mix::preview_of_edit(edit, range, active) {
            PreviewRequest::Nothing => true,
            PreviewRequest::Play { from, stop } => !active && from == range.start && stop
                == range.end,
            PreviewRequest::Seek { to, stop } => active && to == range.start && stop == range.end,
            PreviewRequest::StopAt { stop } => active && stop == range.end,
        },
        dj_mix::preview_of_edit(
            RangeEdit::DragStart { to: position, released: false },
            range,
            active,
        ) == PreviewRequest::Nothing,
        dj_mix::preview_of_edit(
            RangeEdit::DragStart { to: position, released: true },
            range,
            active,
        ) != PreviewRequest::Nothing,
        position <= duration ==> dj_mix::preview_of_click(position, range, duration, active) == {
            let stop = if position < range.end {
                range.end
            } else {
                duration
            };
            if active {
                PreviewRequest::Seek { to: position, stop }
            } else {
                PreviewRequest::Play { from: position, stop }
            }
        },
{
}

// ---------------------------------------------------------------------------
// The file of a mix
// ---------------------------------------------------------------------------

/// The name that is offered for the file of a mix ends as a sound file does and says when it was
/// made; where the name of the playlist can stand in a file name it begins with that name.
pub proof fn mix_file_is_named_after_playlist(name: Seq<char>, seconds: u64)
    requires
        name.len() > 0,
        forall|i: int|
            0 <= i < name.len() ==> 'a' <= #[trigger] name[i] <= 'z' || 'A' <= name[i] <= 'Z'
                || '0' <= name[i] <= '9' || name[i] == '-' || name[i] == '_',
    ensures
        mix_builder::mix_file_name(name, seconds) == name + "-dj-mix-"@ + text::decimal(
            seconds as nat,
        ) + ".mp3"@,
{
    assert(mix_builder::with_underscores(name) =~= name);
    assert(!text::is_white_space(name[0]));
    assert(name.last() == name[name.len() - 1]);
    assert(!text::is_white_space(name.last()));
    text_laws::trimmed_text_stays(name);
}

/// Characters that cannot stand in a file name are not in the name that is offered for a mix.
pub proof fn mix_file_name_is_safe(name: Seq<char>, index: int)
    requires
        0 <= index < name.len(),
    ensures
        mix_builder::with_underscores(name).len() == name.len(),
        ({
            let kept = mix_builder::with_underscores(name)[index];
            &&& 'a' <= kept <= 'z' || 'A' <= kept <= 'Z' || '0' <= kept <= '9' || kept == '-'
                || kept == '_' || kept == ' '
            &&& kept == name[index] || kept == '_'
        }),
{
}

/// The preview of the track that plays shows the waveform that is heard; that of another track
/// shows what a playlist knows of it, and nothing where none does.
pub proof fn preview_shows_waveform_of_track(view: AppView, path: Seq<char>)
    requires
        view.state.playlists.len() <= usize::MAX,
        forall|i: int|
            0 <= i < view.state.playlists.len() ==> (#[trigger] view.state.playlists[i]).tracks.len()
                <= usize::MAX,
    ensures
        ({
            let shown = view.preview_waveform(path);
            let plays = view.last_playback is Some && text::lowercase(view.last_playback->0.path)
                == text::lowercase(path);
            &&& plays ==> shown.0 == view.last_playback->0.waveform && shown.1 == Some(
                view.last_playback->0.original_duration_bits,
            )
            &&& !plays && shown.0.len() > 0 ==> exists|i: int, j: int|
                #![trigger view.state.playlists[i].tracks[j]]
                {
                    &&& 0 <= i < view.state.playlists.len()
                    &&& 0 <= j < view.state.playlists[i].tracks.len()
                    &&& text::lowercase(view.state.playlists[i].tracks[j].path) == text::lowercase(
                        path,
                    )
                    &&& view.state.playlists[i].tracks[j].waveform == shown.0
                }
        }),
{
    browsing_laws::path_is_located(view.state.playlists, path);
    if let Some(place) = navigation::location_of(view.state.playlists, path) {
        assert(text::lowercase(
            view.state.playlists[place.0 as int].tracks[place.1 as int].path,
        ) == text::lowercase(path));
    }
}

/// A track counts as long as it is known to be; where that is not known it counts as a minute, or
/// as long as its range reaches. It never counts as less than a second.
pub proof fn counted_duration_covers_range(known: Option<u32>, range: FavoriteRange)
    ensures
        ({
            let duration = dj_mix::counted_duration(known, range);
            &&& duration >= 1
            &&& known matches Some(seconds) ==> seconds >= 1 ==> duration == seconds
            &&& known is None ==> duration >= 60 && duration >= range.end && (duration == 60
                || duration == range.end)
        }),
{
}

} // verus!
