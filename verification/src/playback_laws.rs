//! What holds of playback: which track follows, what is asked of the player, and when one track
//! fades into the next.

use crate::app::{AppView, Crossfade, EffectView, PlayerStatus};
use crate::app_laws;
use crate::counting;
use crate::grouping;
use crate::index_set;
use crate::lookup;
use crate::playback;
use crate::playback::ClockReading;
use crate::playlist::PlaylistView;
use crate::settings::{PlaybackSettings, RepeatMode};
use crate::text;
use vstd::prelude::*;
use vstd::string::*;

verus! {

// ---------------------------------------------------------------------------
// What playback goes through
// ---------------------------------------------------------------------------

/// Playback goes through a track of the shown playlist exactly where its file is there, it is
/// of the selected group, the search has found it where playback keeps to the search, and it is
/// one of the repeated tracks where those are repeated. It goes through them in their order.
pub proof fn playback_goes_through_playable_tracks(view: AppView, shown: PlaylistView, index: int)
    requires
        view.state.selected_playlist_index < view.state.playlists.len(),
        view.state.playlists[view.state.selected_playlist_index as int] == shown,
        0 <= index < shown.tracks.len() <= usize::MAX,
    ensures
        view.sequence().contains(index as usize) <==> {
            &&& !shown.tracks[index].missing
            &&& shown.selected_group matches Some(group) ==> shown.tracks[index].group == group
            &&& view.browsing.show_track_search && view.browsing.search_playback_filtered_only
                ==> lookup::found_by_query(
                shown.tracks[index],
                text::trimmed(view.browsing.track_search_query),
            )
            &&& view.state.playback.repeat_mode == RepeatMode::Selection
                && view.selected_track_indexes.len() > 0 ==> view.selected_track_indexes.contains(
                index as usize,
            )
        },
        forall|i: int, j: int|
            0 <= i < j < view.sequence().len() ==> #[trigger] view.sequence()[i]
                < #[trigger] view.sequence()[j],
        forall|i: int|
            0 <= i < view.sequence().len() ==> #[trigger] view.sequence()[i] < shown.tracks.len(),
{
    let holds = view.is_in_sequence(shown);
    counting::indexes_where_holds(shown.tracks.len(), holds);
    assert(view.current() == Some(shown));
    let sequence = view.sequence();
    if sequence.contains(index as usize) {
        let k = sequence.index_of(index as usize);
        assert(sequence[k] == index as usize);
        assert(holds(index));
    }
    if holds(index) {
        assert(sequence.contains(index as usize));
    }
}

/// Nothing follows exactly where playback goes through nothing; what follows, and what comes
/// before, is always one of the tracks that playback goes through.
pub proof fn followers_are_playable(view: AppView, clocks: ClockReading)
    requires
        view.state.selected_playlist_index < view.state.playlists.len(),
        view.state.playlists[view.state.selected_playlist_index as int].tracks.len() <= usize::MAX,
    ensures
        view.next_position(clocks) is None <==> view.sequence().len() == 0,
        view.previous_position() is None <==> view.sequence().len() == 0,
        view.next_position(clocks) matches Some(next) ==> view.sequence().contains(next),
        view.previous_position() matches Some(previous) ==> view.sequence().contains(previous),
{
    let shown = view.state.playlists[view.state.selected_playlist_index as int];
    let sequence = view.sequence();
    let current = view.current_track();
    if sequence.len() > 0 {
        assert(sequence.contains(sequence[0]));
        app_laws::sequence_fits(view, shown);
        random_is_listed(sequence, current, clocks);
        places_hold(view, shown);
    }
}

/// A place that is found is one of the sequence.
proof fn places_hold(view: AppView, shown: PlaylistView)
    requires
        view.current() == Some(shown),
        shown.tracks.len() <= usize::MAX,
    ensures
        playback::current_place(view.sequence(), view.current_track()) matches Some(place)
            ==> place < view.sequence().len() && view.current_track() == Some(
            view.sequence()[place as int],
        ),
        playback::current_place(view.sequence(), view.current_track()) is None
            ==> !(view.current_track() is Some && view.sequence().contains(
            view.current_track()->0,
        )),
        forall|i: int|
            #![trigger view.sequence()[i]]
            0 <= i < view.sequence().len() ==> view.sequence().contains(view.sequence()[i]),
{
    app_laws::sequence_fits(view, shown);
    let sequence = view.sequence();
    if let Some(current) = view.current_track() {
        let holds = index_set::holds_at(sequence, current);
        counting::first_where_holds(sequence.len(), holds);
        if sequence.contains(current) {
            let k = sequence.index_of(current);
            assert(holds(k));
        }
    }
}

/// A position that is picked at random is one of those to pick from.
proof fn random_is_listed(indexes: Seq<usize>, current: Option<usize>, clocks: ClockReading)
    requires
        0 < indexes.len() <= usize::MAX,
    ensures
        playback::random_index(indexes, current, clocks) matches Some(picked) && indexes.contains(
            picked,
        ),
{
    let keep = playback::is_not_current(current);
    grouping::filter_entries(indexes, keep);
    assert(indexes.contains(indexes[0]));
    let candidates = playback::random_candidates(indexes, current);
    let count = candidates.len() as usize;
    let at = ((clocks.nanos ^ clocks.status_nanos ^ count) % count) as int;
    assert(0 <= at < candidates.len());
    assert(indexes.contains(candidates[at]));
}

// ---------------------------------------------------------------------------
// What follows
// ---------------------------------------------------------------------------

/// Without shuffling and without one track repeated, the next track is the first after the
/// current one that playback goes through, or the first of all where there is none after it;
/// the track before is the last before the current one, or the last of all.
pub proof fn tracks_follow_in_order(view: AppView, current: usize, clocks: ClockReading)
    requires
        view.state.selected_playlist_index < view.state.playlists.len(),
        view.state.playlists[view.state.selected_playlist_index as int].tracks.len() <= usize::MAX,
        view.state.playback.repeat_mode != RepeatMode::Track,
        view.active_track_index == Some(current) || view.active_track_index is None
            && view.selected_track_index == Some(current),
        view.sequence().contains(current),
    ensures
        !view.state.playback.shuffle_enabled ==> {
            let next = view.next_position(clocks)->0;
            &&& view.next_position(clocks) is Some
            &&& if exists|later: usize| #[trigger]
                view.sequence().contains(later) && later > current {
                next > current && forall|other: usize| #[trigger]
                    view.sequence().contains(other) && other > current ==> next <= other
            } else {
                forall|other: usize| #[trigger] view.sequence().contains(other) ==> next <= other
            }
        },
        ({
            let previous = view.previous_position()->0;
            &&& view.previous_position() is Some
            &&& if exists|earlier: usize| #[trigger]
                view.sequence().contains(earlier) && earlier < current {
                previous < current && forall|other: usize| #[trigger]
                    view.sequence().contains(other) && other < current ==> other <= previous
            } else {
                forall|other: usize| #[trigger]
                    view.sequence().contains(other) ==> other <= previous
            }
        }),
{
    let shown = view.state.playlists[view.state.selected_playlist_index as int];
    let sequence = view.sequence();
    playback::sequence_is_in_range(view, shown);
    app_laws::sequence_fits(view, shown);
    places_hold(view, shown);
    let place = playback::current_place(sequence, view.current_track())->0;
    assert(sequence[place as int] == current);
    assert forall|other: usize| #[trigger] sequence.contains(other) implies exists|k: int|
        0 <= k < sequence.len() && sequence[k] == other by {
        let k = sequence.index_of(other);
        assert(sequence[k] == other);
    }
    if place + 1 < sequence.len() {
        assert(sequence.contains(sequence[place + 1]));
        assert(sequence[place as int] < sequence[place + 1]);
    }
    if place > 0 {
        assert(sequence.contains(sequence[place - 1]));
        assert(sequence[place - 1] < sequence[place as int]);
    }
    assert forall|other: usize| #[trigger] sequence.contains(other) implies {
        let k = sequence.index_of(other);
        &&& 0 <= k < sequence.len() && sequence[k] == other
        &&& (k > place) == (other > current)
        &&& (k < place) == (other < current)
        &&& place + 1 < sequence.len() && k > place ==> sequence[place + 1] <= other
        &&& place > 0 && k < place ==> other <= sequence[place - 1]
        &&& sequence[0] <= other
        &&& other <= sequence.last()
    } by {
        let k = sequence.index_of(other);
        assert(sequence[k] == other);
        if k > 0 {
            assert(sequence[0] < sequence[k]);
        }
        if k < sequence.len() - 1 {
            assert(sequence[k] < sequence[sequence.len() - 1]);
        }
        if k > place {
            assert(sequence[place as int] < sequence[k]);
            if k > place + 1 {
                assert(sequence[place + 1] < sequence[k]);
            }
        }
        if k < place {
            assert(sequence[k] < sequence[place as int]);
            if k < place - 1 {
                assert(sequence[k] < sequence[place - 1]);
            }
        }
    }
}

/// Where the current track is none that playback goes through, the first one that it goes
/// through comes next, unless tracks are picked at random.
pub proof fn playback_begins_with_the_first(view: AppView, clocks: ClockReading)
    requires
        view.state.selected_playlist_index < view.state.playlists.len(),
        view.state.playlists[view.state.selected_playlist_index as int].tracks.len() <= usize::MAX,
        view.sequence().len() > 0,
        !(view.active_track_index is Some && view.sequence().contains(view.active_track_index->0)),
        view.active_track_index is None ==> !(view.selected_track_index is Some
            && view.sequence().contains(view.selected_track_index->0)),
        !view.state.playback.shuffle_enabled || view.state.playback.repeat_mode
            == RepeatMode::Track,
    ensures
        view.next_position(clocks) is Some,
        view.sequence().contains(view.next_position(clocks)->0),
        forall|other: usize| #[trigger]
            view.sequence().contains(other) ==> view.next_position(clocks)->0 <= other,
{
    let shown = view.state.playlists[view.state.selected_playlist_index as int];
    let sequence = view.sequence();
    playback::sequence_is_in_range(view, shown);
    places_hold(view, shown);
    assert(sequence.contains(sequence[0]));
    assert(!(view.current_track() is Some && sequence.contains(view.current_track()->0)));
    if let Some(place) = playback::current_place(sequence, view.current_track()) {
        assert(sequence.contains(sequence[place as int]));
    }
    assert forall|other: usize| #[trigger] sequence.contains(other) implies sequence[0] <= other by {
        let k = sequence.index_of(other);
        assert(sequence[k] == other);
        if k > 0 {
            assert(sequence[0] < sequence[k]);
        }
    }
}

/// With shuffling, and without one track repeated, another track than the current one comes
/// next wherever there is another, and each other track comes next at some reading of the
/// clocks.
pub proof fn shuffling_picks_another_track(view: AppView, clocks: ClockReading)
    requires
        view.state.selected_playlist_index < view.state.playlists.len(),
        view.state.playlists[view.state.selected_playlist_index as int].tracks.len() <= usize::MAX,
        view.state.playback.repeat_mode != RepeatMode::Track,
        view.state.playback.shuffle_enabled,
        view.sequence().len() >= 2,
    ensures
        ({
            let current = match view.active_track_index {
                Some(index) => Some(index),
                None => view.selected_track_index,
            };
            &&& view.next_position(clocks) is Some
            &&& view.sequence().contains(view.next_position(clocks)->0)
            &&& view.next_position(clocks) != current
            &&& forall|other: usize| #[trigger]
                view.sequence().contains(other) && current != Some(other)
                    ==> exists|reading: ClockReading| #[trigger]
                    view.next_position(reading) == Some(other)
        }),
{
    let shown = view.state.playlists[view.state.selected_playlist_index as int];
    let sequence = view.sequence();
    let current = view.current_track();
    let keep = playback::is_not_current(current);
    let others = sequence.filter(keep);
    playback::sequence_is_in_range(view, shown);
    app_laws::sequence_fits(view, shown);
    random_is_listed(sequence, current, clocks);
    grouping::filter_entries(sequence, keep);
    assert(sequence[0] < sequence[1]);
    if current == Some(sequence[0]) {
        assert(keep(sequence[1]));
        sequence.lemma_filter_contains(keep, 1);
    } else {
        assert(keep(sequence[0]));
        sequence.lemma_filter_contains(keep, 0);
    }
    assert(others.len() > 0);
    let count = others.len() as usize;
    let at = ((clocks.nanos ^ clocks.status_nanos ^ count) % count) as int;
    assert(0 <= at < others.len());
    assert(keep(others[at]));
    assert(view.next_position(clocks) == Some(others[at]));
    assert forall|other: usize| #[trigger] sequence.contains(other) && current != Some(
        other,
    ) implies exists|reading: ClockReading| #[trigger]
        view.next_position(reading) == Some(other) by {
        let k = sequence.index_of(other);
        assert(keep(sequence[k]));
        sequence.lemma_filter_contains(keep, k);
        let wanted = others.index_of(other) as usize;
        let nanos: usize = wanted ^ count;
        let reading = ClockReading { nanos, status_nanos: 0 };
        assert((wanted ^ count) ^ 0usize ^ count == wanted) by (bit_vector);
        assert((nanos ^ reading.status_nanos ^ count) == wanted);
        assert(wanted % count == wanted) by (nonlinear_arith)
            requires
                wanted < count,
        ;
        assert(view.next_position(reading) == Some(other));
    }
}

// ---------------------------------------------------------------------------
// What is asked of the player
// ---------------------------------------------------------------------------

/// A crossfade that the user causes is as long as is set, but at least one second; there is
/// none where crossfading is switched off or nothing is playing.
pub proof fn manual_crossfade_is_as_set(view: AppView, status: PlayerStatus)
    ensures
        view.manual_crossfade(status) != Crossfade::Off <==> {
            &&& view.state.playback.crossfade_enabled
            &&& status.available
            &&& status.playing
        },
        view.manual_crossfade(status) != Crossfade::Off ==> match view.manual_crossfade(status) {
            Crossfade::Seconds(seconds) => seconds >= 1 && seconds
                >= view.state.playback.crossfade_seconds && (seconds == 1 || seconds
                == view.state.playback.crossfade_seconds),
            _ => false,
        },
{
}

/// Where a track follows and an output device is there, exactly that track is asked for, from
/// its start, and it becomes the selected one. Without an output device nothing is asked for,
/// and an error says so. Nothing else changes.
pub proof fn following_track_is_asked_for(
    view: AppView,
    position: usize,
    crossfade: Crossfade,
    status: PlayerStatus,
)
    requires
        view.state.selected_playlist_index < view.state.playlists.len(),
        position < view.state.playlists[view.state.selected_playlist_index as int].tracks.len(),
    ensures
        ({
            let after = view.with_position_requested(Some(position), crossfade, status);
            let shown = view.state.playlists[view.state.selected_playlist_index as int];
            &&& after.selected_track_index == Some(position)
            &&& after.state == view.state
            &&& after.active_track_index == view.active_track_index
            &&& after.active_track_path == view.active_track_path
            &&& status.available ==> {
                &&& after.effects == view.effects.push(after.effects.last())
                &&& after.effects.last() matches EffectView::PlayTrack {
                    path,
                    track_index,
                    start_bits,
                    crossfade: fade,
                    continues_live,
                }
                &&& path == shown.tracks[position as int].path
                &&& track_index == Some(position)
                &&& start_bits == 0
                &&& fade == crossfade
                &&& !continues_live
                &&& after.messages == view.messages
            }
            &&& !status.available ==> after.effects == view.effects && after.messages.error is Some
        }),
        view.with_position_requested(None, crossfade, status) == view,
{
    let after = view.with_position_requested(Some(position), crossfade, status);
    if status.available {
        assert(after.effects =~= view.effects.push(after.effects.last()));
    }
}

/// A track that the user asks for plays from where a paused session has left that very track,
/// else from its start.
pub proof fn paused_track_goes_on(view: AppView, path: Seq<char>)
    ensures
        view.resume_position(path) is Some <==> {
            let session = view.state.playback_session;
            &&& session.was_paused
            &&& session.source == "track"@
            &&& session.track_path is Some
            &&& text::lowercase(session.track_path->0) == text::lowercase(path)
        },
        view.resume_position(path) matches Some(bits) ==> if bits == 0 {
            let kept = view.state.playback_session.position_seconds_bits;
            kept == 0 || kept > 0x7f80_0000
        } else {
            bits == view.state.playback_session.position_seconds_bits && bits <= 0x7f80_0000
        },
{
}

// ---------------------------------------------------------------------------
// The end of a track
// ---------------------------------------------------------------------------

/// Where crossfading is switched off no track fades into the next by itself: nothing is asked
/// for before the playing track has ended, and what follows then begins without a fade.
pub proof fn no_fade_where_switched_off(
    view: AppView,
    due: Option<u32>,
    status: PlayerStatus,
    clocks: ClockReading,
)
    requires
        !view.state.playback.crossfade_enabled,
    ensures
        !view.may_crossfade(status),
        view.with_crossfade_started(due, status, clocks) == view,
        !status.finished ==> view.with_playback_checked(due, status, clocks) == view,
        ({
            let after = view.with_playback_checked(due, status, clocks);
            &&& view.effects.len() <= after.effects.len()
            &&& forall|i: int|
                view.effects.len() <= i < after.effects.len() ==> (
                #[trigger] after.effects[i] matches EffectView::PlayTrack { crossfade, .. }
                    && crossfade == Crossfade::Off)
        }),
{
}

/// Where crossfading is switched on, playback goes on by itself, a track is playing for which no
/// fade has begun, and a fade is due, the next track is asked for with a fade of the due
/// length, and it is kept that the fade has begun: it does not begin a second time.
pub proof fn due_fade_begins_once(
    view: AppView,
    due: u32,
    status: PlayerStatus,
    clocks: ClockReading,
    later: ClockReading,
)
    requires
        view.state.selected_playlist_index < view.state.playlists.len(),
        view.state.playlists[view.state.selected_playlist_index as int].tracks.len() <= usize::MAX,
        view.state.playback.crossfade_enabled,
        view.state.playback.auto_advance || view.state.playback.repeat_mode != RepeatMode::Off,
        status.available,
        status.playing,
        view.active_track_path is Some,
        view.crossfade_started_for_path matches Some(started) ==> text::lowercase(started)
            != text::lowercase(view.active_track_path->0),
        view.sequence().len() > 0,
    ensures
        view.may_crossfade(status),
        ({
            let after = view.with_playback_checked(Some(due), status, clocks);
            let shown = view.state.playlists[view.state.selected_playlist_index as int];
            let next = view.next_position(clocks);
            &&& next is Some
            &&& after == view.with_crossfade_started(Some(due), status, clocks)
            &&& after.effects == view.effects.push(after.effects.last())
            &&& after.effects.last() matches EffectView::PlayTrack {
                path,
                track_index,
                start_bits,
                crossfade,
                ..
            }
            &&& track_index == next
            &&& path == shown.tracks[next->0 as int].path
            &&& start_bits == 0
            &&& crossfade == Crossfade::Exact(due)
            &&& after.selected_track_index == next
            &&& after.crossfade_started_for_path == view.active_track_path
            &&& after.active_track_path == view.active_track_path
            &&& !status.finished ==> after.with_playback_checked(Some(due), status, later) == after
        }),
        !status.finished ==> view.with_playback_checked(None, status, clocks) == view,
{
    let shown = view.state.playlists[view.state.selected_playlist_index as int];
    let after = view.with_playback_checked(Some(due), status, clocks);
    let started = AppView { crossfade_started_for_path: view.active_track_path, ..view };
    assert(started.current() == view.current());
    assert(started.is_in_sequence(shown) =~= view.is_in_sequence(shown));
    assert(started.sequence() == view.sequence());
    assert(started.next_position(clocks) == view.next_position(clocks));
    followers_are_playable(view, clocks);
    playback::sequence_is_in_range(view, shown);
    let next = view.next_position(clocks)->0;
    let k = view.sequence().index_of(next);
    assert(view.sequence()[k] == next);
    following_track_is_asked_for(started, next, Crossfade::Exact(due), status);
    assert(!after.may_crossfade(status));
}

/// The playing track fades into the next one only where playback goes on by itself, and only
/// while a track is playing.
pub proof fn fade_needs_playback_that_goes_on(
    view: AppView,
    due: Option<u32>,
    status: PlayerStatus,
    clocks: ClockReading,
)
    requires
        !status.available || !status.playing || view.active_track_path is None || due is None
            || !view.state.playback.auto_advance && view.state.playback.repeat_mode
            == RepeatMode::Off,
    ensures
        view.with_crossfade_started(due, status, clocks) == view,
        !status.finished ==> view.with_playback_checked(due, status, clocks) == view,
{
}

/// A track that has ended is followed by the next one where playback goes on by itself; else
/// nothing is asked for, and nothing plays any more.
pub proof fn ended_track_is_followed(
    view: AppView,
    status: PlayerStatus,
    clocks: ClockReading,
)
    requires
        view.state.selected_playlist_index < view.state.playlists.len(),
        view.state.playlists[view.state.selected_playlist_index as int].tracks.len() <= usize::MAX,
        status.available,
        status.finished,
        view.active_track_index is Some,
    ensures
        ({
            let after = view.with_playback_checked(None, status, clocks);
            let goes_on = view.state.playback.auto_advance || view.state.playback.repeat_mode
                != RepeatMode::Off;
            let shown = view.state.playlists[view.state.selected_playlist_index as int];
            let next = view.next_position(clocks);
            &&& goes_on && view.sequence().len() > 0 ==> {
                &&& after.effects == view.effects.push(after.effects.last())
                &&& after.effects.last() matches EffectView::PlayTrack {
                    path,
                    track_index,
                    start_bits,
                    crossfade,
                    ..
                }
                &&& next is Some
                &&& track_index == next
                &&& path == shown.tracks[next->0 as int].path
                &&& start_bits == 0
                &&& crossfade == Crossfade::Off
            }
            &&& goes_on && view.sequence().len() == 0 ==> after == view
            &&& !goes_on ==> {
                &&& after.effects == view.effects
                &&& after.active_track_index is None
                &&& after.active_playlist_index is None
                &&& after.active_track_path is None
                &&& after.crossfade_started_for_path is None
                &&& after.state == view.state
            }
        }),
{
    let shown = view.state.playlists[view.state.selected_playlist_index as int];
    followers_are_playable(view, clocks);
    playback::sequence_is_in_range(view, shown);
    if view.sequence().len() > 0 {
        let next = view.next_position(clocks)->0;
        let k = view.sequence().index_of(next);
        assert(view.sequence()[k] == next);
        following_track_is_asked_for(view, next, Crossfade::Off, status);
    }
}

// ---------------------------------------------------------------------------
// Volume
// ---------------------------------------------------------------------------

/// The volume is set to what is asked for, up to 100 percent, and the player is told; a volume
/// of zero is silence.
pub proof fn volume_is_as_asked(view: AppView, percent: u8)
    ensures
        ({
            let after = view.with_volume(percent);
            &&& after.state.playback.volume_percent <= 100
            &&& percent <= 100 ==> after.state.playback.volume_percent == percent
            &&& percent > 100 ==> after.state.playback.volume_percent == 100
            &&& after.state.playback.muted == (percent == 0)
            &&& after != view ==> after.effects.contains(
                EffectView::SetVolume { percent: after.state.playback.volume_percent },
            )
        }),
{
    let after = view.with_volume(percent);
    if after != view {
        let wanted = EffectView::SetVolume { percent: after.state.playback.volume_percent };
        assert(after.effects[view.effects.len() as int] == wanted);
    }
}

/// The volume changes by as much as is asked for, within 0 and 100 percent, from what is heard.
pub proof fn volume_changes_by_steps(view: AppView, delta: int)
    requires
        view.state.playback.volume_percent <= 100,
    ensures
        ({
            let heard = if view.state.playback.muted {
                0
            } else {
                view.state.playback.volume_percent as int
            };
            let next = view.adjusted_volume(delta);
            &&& next <= 100
            &&& 0 <= heard + delta <= 100 ==> next == heard + delta
            &&& heard + delta < 0 ==> next == 0
            &&& heard + delta > 100 ==> next == 100
        }),
{
}

/// Sound that is switched off is not heard, and comes back as loud as it was; from a volume of
/// zero it comes back at half volume.
pub proof fn muted_sound_comes_back(playback: PlaybackSettings)
    requires
        playback.volume_percent <= 100,
    ensures
        ({
            let once = playback::mute_toggled(playback);
            let twice = playback::mute_toggled(once);
            &&& !playback.muted && playback.volume_percent > 0 ==> once.muted
                && playback::effective_volume(once) == 0 && twice == playback
            &&& playback.muted && playback.volume_percent > 0 ==> !once.muted
                && playback::effective_volume(once) == playback.volume_percent
            &&& playback.volume_percent == 0 ==> !once.muted && once.volume_percent == 50
                && playback::effective_volume(once) == 50
            &&& once.crossfade_enabled == playback.crossfade_enabled
            &&& once.repeat_mode == playback.repeat_mode
        }),
{
}

} // verus!
