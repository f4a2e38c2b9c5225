//! What holds of internet radio: which stream is opened, what is learned of a station, and what
//! is shown and recorded of it.

use crate::app::{AppView, Crossfade, EffectView, MainContentTab, PlayerStatus};
use crate::counting;
use crate::radio::StreamMetadataView;
use crate::settings::RadioStationView;
use crate::station_list;
use crate::text;
use crate::text_laws;
use vstd::prelude::*;
use vstd::string::*;

verus! {

// ---------------------------------------------------------------------------
// Adding stations
// ---------------------------------------------------------------------------

/// A station is added exactly where its address, without the white space around it, is one of a
/// web stream. It comes last and has that address; its name is the one that was typed in, else
/// the one that the stream gives, else the fallback. The other stations stay as they are.
pub proof fn typed_station_is_added(
    view: AppView,
    metadata: Option<StreamMetadataView>,
    fallback: Seq<char>,
)
    ensures
        ({
            let after = view.with_station_added(metadata, fallback).state.radio_stations;
            let before = view.state.radio_stations;
            let url = text::trimmed(view.dialogs.pending_radio_url);
            let name = text::trimmed(view.dialogs.pending_radio_name);
            if url.len() >= 7 && url.take(7) == "http://"@ || url.len() >= 8 && url.take(8)
                == "https://"@ {
                &&& after.len() == before.len() + 1
                &&& forall|i: int| 0 <= i < before.len() ==> #[trigger] after[i] == before[i]
                &&& after.last().url == url
                &&& !after.last().favorite
                &&& name.len() > 0 ==> after.last().name == name
                &&& name.len() == 0 ==> match metadata {
                    Some(metadata) => {
                        &&& metadata.station_name matches Some(given) ==> after.last().name
                            == given
                        &&& metadata.station_name is None ==> after.last().name == fallback
                        &&& after.last().last_stream_title == metadata.stream_title
                    },
                    None => after.last().name == fallback,
                }
                &&& view.with_station_added(metadata, fallback).messages.error is None
            } else {
                &&& after == before
                &&& view.with_station_added(metadata, fallback).messages.error is Some
                &&& view.with_station_added(metadata, fallback).dialogs == view.dialogs
            }
        }),
{
    reveal_strlit("http://");
    reveal_strlit("https://");
    assert("http://"@.len() == 7);
    assert("https://"@.len() == 8);
    let url = text::trimmed(view.dialogs.pending_radio_url);
    if url.len() == 0 {
        assert(view.with_station_added(metadata, fallback).state.radio_stations
            == view.state.radio_stations);
    }
}

// ---------------------------------------------------------------------------
// Playing a station
// ---------------------------------------------------------------------------

/// Where a station of the list is asked for and an output device is there, the stream that is
/// opened is that of this very station, and the status line names it. Without an output device
/// nothing is asked for, and an error says so; nothing happens for a station that is not there.
pub proof fn requested_station_is_opened(view: AppView, index: usize, status: PlayerStatus)
    ensures
        index >= view.state.radio_stations.len() ==> view.with_station_requested(index, status)
            == view,
        index < view.state.radio_stations.len() ==> {
            let after = view.with_station_requested(index, status);
            let station = view.state.radio_stations[index as int];
            &&& after.state == view.state
            &&& after.radio == view.radio
            &&& after.active_track_path == view.active_track_path
            &&& status.available ==> {
                &&& after.effects == view.effects.push(after.effects.last())
                &&& after.effects.last() matches EffectView::OpenRadioStream {
                    station_index,
                    url,
                    crossfade,
                    reopens,
                }
                &&& station_index == index
                &&& url == station.url
                &&& crossfade != Crossfade::Off <==> view.state.playback.crossfade_enabled
                    && status.playing
                &&& !reopens
                &&& after.messages.error is None
                &&& after.messages.status == (if view.state.playback.crossfade_enabled
                    && status.playing {
                    "Crossfading to internet radio: "@
                } else {
                    "Opening internet radio: "@
                }) + station.name + "..."@
            }
            &&& !status.available ==> after.effects == view.effects && after.messages.error is Some
        },
{
    let after = view.with_station_requested(index, status);
    if index < view.state.radio_stations.len() && status.available {
        assert(after.effects =~= view.effects.push(after.effects.last()));
    }
}

/// Once the stream of a station was opened, that station plays in place of any track, it is the
/// selected one, the radio is shown, the session is about it, and its stream is asked for its
/// title. The stations stay as they are.
pub proof fn opened_station_plays(
    view: AppView,
    index: usize,
    crossfade: Crossfade,
    now: u64,
    status: PlayerStatus,
    position_bits: u32,
)
    requires
        index < view.state.radio_stations.len(),
    ensures
        ({
            let after = view.with_station_opened(
                index,
                crossfade,
                false,
                now,
                status,
                position_bits,
            );
            let station = view.state.radio_stations[index as int];
            &&& after.radio.active_index == Some(index)
            &&& after.state.selected_radio_index == Some(index)
            &&& after.active_track_path is None
            &&& after.active_track_index is None
            &&& after.active_playlist_index is None
            &&& after.browsing.active_tab == MainContentTab::Radio
            &&& after.state.radio_stations == view.state.radio_stations
            &&& after.state.playback_session.source == "radio"@
            &&& after.state.playback_session.radio_index == Some(index)
            &&& after.state.playback_session.was_active == (status.available && (status.playing
                || status.paused))
            &&& after.radio.title == station.last_stream_title
            &&& after.radio.station_name == station.last_station_name
            &&& after.radio.title_lookup_running
            &&& after.effects.last() == (EffectView::LookUpRadioTitle {
                station_index: index,
                url: station.url,
            })
        }),
{
}

/// A stream that was opened again plays on as it was: what plays and what is selected stay.
pub proof fn reopened_station_plays_on(
    view: AppView,
    index: usize,
    crossfade: Crossfade,
    now: u64,
    status: PlayerStatus,
    position_bits: u32,
)
    ensures
        ({
            let after = view.with_station_opened(index, crossfade, true, now, status, position_bits);
            &&& after.radio.active_index == view.radio.active_index
            &&& after.active_track_path == view.active_track_path
            &&& after.state.radio_stations == view.state.radio_stations
            &&& after.messages.status == view.messages.status
        }),
{
}

// ---------------------------------------------------------------------------
// What is learned of a station
// ---------------------------------------------------------------------------

/// What a stream answers is kept with the station that was asked, and with no other; what it
/// leaves out stays as it was. It is shown as what plays only where that station plays.
pub proof fn answer_is_kept_with_its_station(
    view: AppView,
    index: usize,
    metadata: StreamMetadataView,
    other: int,
)
    requires
        0 <= other < view.state.radio_stations.len(),
    ensures
        ({
            let after = view.with_title_answer(index, Some(metadata));
            let was = view.state.radio_stations[other];
            let kept = after.state.radio_stations[other];
            &&& after.state.radio_stations.len() == view.state.radio_stations.len()
            &&& kept.name == was.name && kept.url == was.url && kept.favorite == was.favorite
            &&& other != index ==> kept == was
            &&& other == index ==> {
                &&& metadata.stream_title is Some ==> kept.last_stream_title == metadata.stream_title
                &&& metadata.stream_title is None ==> kept.last_stream_title == was.last_stream_title
                &&& metadata.station_name is Some ==> kept.last_station_name == metadata.station_name
                &&& metadata.station_name is None ==> kept.last_station_name == was.last_station_name
            }
            &&& view.radio.active_index != Some(index) ==> after.radio == view.radio
            &&& view.radio.active_index == Some(index) ==> {
                &&& metadata.stream_title is Some ==> after.radio.title == metadata.stream_title
                &&& metadata.stream_title is None ==> after.radio.title == view.radio.title
                &&& metadata.station_name is Some ==> after.radio.station_name
                    == metadata.station_name
                &&& metadata.station_name is None ==> after.radio.station_name
                    == view.radio.station_name
                &&& after.radio.active_index == view.radio.active_index
            }
        }),
{
}

/// Of several answers of one stream the last one counts.
pub proof fn last_answer_counts(
    view: AppView,
    answers: Seq<(usize, Option<StreamMetadataView>)>,
    index: usize,
    metadata: StreamMetadataView,
)
    requires
        index < view.state.radio_stations.len(),
        answers.len() > 0,
        answers.last() == (index, Some(metadata)),
        metadata.stream_title is Some,
    ensures
        view.with_title_answers(answers).state.radio_stations[index as int].last_stream_title
            == metadata.stream_title,
        view.with_title_answers(answers).state.radio_stations.len()
            == view.state.radio_stations.len(),
{
    let rest = answers.drop_last();
    answers_keep_stations(view, rest);
    let before = view.with_title_answers(rest);
    answer_is_kept_with_its_station(before, index, metadata, index as int);
}

/// Answers neither add nor remove stations.
proof fn answers_keep_stations(
    view: AppView,
    answers: Seq<(usize, Option<StreamMetadataView>)>,
)
    ensures
        view.with_title_answers(answers).state.radio_stations.len()
            == view.state.radio_stations.len(),
    decreases answers.len(),
{
    if answers.len() > 0 {
        answers_keep_stations(view, answers.drop_last());
    }
}

/// The playing station is asked for its title again once the interval is over since it was
/// last asked, not earlier, and not while it is being asked.
pub proof fn title_is_asked_for_again(view: AppView, index: usize, now: u64, interval: u64)
    requires
        view.radio.active_index == Some(index),
        index < view.state.radio_stations.len(),
        view.radio.last_title_lookup_at is Some,
        view.radio.last_title_lookup_at->0 <= now,
    ensures
        view.due_title_lookup(now, interval) == (if !view.radio.title_lookup_running && now
            - view.radio.last_title_lookup_at->0 >= interval {
            Some(index)
        } else {
            None
        }),
        (AppView {
            radio: crate::app::RadioPlaybackView { active_index: None, ..view.radio },
            ..view
        }).due_title_lookup(now, interval) is None,
{
}

// ---------------------------------------------------------------------------
// What is shown and recorded
// ---------------------------------------------------------------------------

/// While a station plays, the title of its stream is shown where it has one that says more than
/// its name; else the name by which the stream calls itself, or else its own name. A recording
/// goes by the name of the station, never by the title.
pub proof fn playing_station_is_named(view: AppView, index: usize, station: RadioStationView)
    requires
        view.radio.active_index == Some(index),
        index < view.state.radio_stations.len(),
        view.state.radio_stations[index as int] == station,
    ensures
        view.radio.title matches Some(title) ==> (
        exists|i: int| 0 <= i < title.len() && !text::is_white_space(#[trigger] title[i]))
            && !text::same_ignoring_ascii_case(title, station.name) ==> view.playing_title()
            == title,
        view.radio.title is None && station.last_stream_title is None ==> view.playing_title()
            == view.recording_name(),
        view.radio.station_name matches Some(name) ==> (
        exists|i: int| 0 <= i < name.len() && !text::is_white_space(#[trigger] name[i]))
            ==> view.recording_name() == name,
        view.radio.station_name is None ==> (station.last_station_name matches Some(name) ==> (
        exists|i: int| 0 <= i < name.len() && !text::is_white_space(#[trigger] name[i]))
            ==> view.recording_name() == name),
        view.radio.station_name is None && station.last_station_name is None
            ==> view.recording_name() == station.name,
{
    if let Some(title) = view.radio.title {
        text_laws::blank_is_white(title);
    }
    if let Some(name) = view.radio.station_name {
        text_laws::blank_is_white(name);
    }
    if let Some(name) = station.last_station_name {
        text_laws::blank_is_white(name);
    }
}

// ---------------------------------------------------------------------------
// The list of stations
// ---------------------------------------------------------------------------

/// A station is shown exactly where its name, its address or what its stream has told holds what
/// is searched for, whatever the case of letters, and it is a favorite where only those are
/// shown. The shown stations stay in order.
pub proof fn shown_stations_match(view: AppView, index: int)
    requires
        0 <= index < view.state.radio_stations.len() <= usize::MAX,
    ensures
        ({
            let station = view.state.radio_stations[index];
            let query = text::lowercase(text::trimmed(view.browsing.radio_search_query));
            view.shown_stations().contains(index as usize) <==> {
                &&& view.browsing.radio_show_favorites_only ==> station.favorite
                &&& {
                    ||| query.len() == 0
                    ||| text::occurs_in(query, text::lowercase(station.name))
                    ||| text::occurs_in(query, text::lowercase(station.url))
                    ||| station.last_station_name is Some && text::occurs_in(
                        query,
                        text::lowercase(station.last_station_name->0),
                    )
                    ||| station.last_stream_title is Some && text::occurs_in(
                        query,
                        text::lowercase(station.last_stream_title->0),
                    )
                }
            }
        }),
        forall|i: int, j: int|
            0 <= i < j < view.shown_stations().len() ==> #[trigger] view.shown_stations()[i]
                < #[trigger] view.shown_stations()[j],
{
    let stations = view.state.radio_stations;
    let holds = station_list::is_station_shown(
        stations,
        view.browsing.radio_show_favorites_only,
        text::lowercase(text::trimmed(view.browsing.radio_search_query)),
    );
    counting::indexes_where_holds(stations.len(), holds);
    let shown = view.shown_stations();
    if shown.contains(index as usize) {
        let k = shown.index_of(index as usize);
        assert(shown[k] == index as usize);
        assert(holds(index));
    }
    if holds(index) {
        assert(shown.contains(index as usize));
    }
}

/// Making a station a favorite changes that station alone, and doing it again takes it back.
pub proof fn station_favorite_toggles(view: AppView, index: usize, other: int)
    requires
        index < view.state.radio_stations.len(),
        0 <= other < view.state.radio_stations.len(),
    ensures
        ({
            let once = view.with_station_favorite_toggled(index);
            let twice = once.with_station_favorite_toggled(index);
            let before = view.state.radio_stations;
            &&& once.state.radio_stations.len() == before.len()
            &&& once.state.radio_stations[index as int].favorite != before[index as int].favorite
            &&& once.state.radio_stations[index as int].url == before[index as int].url
            &&& other != index ==> once.state.radio_stations[other] == before[other]
            &&& twice.state.radio_stations == before
        }),
{
    let twice = view.with_station_favorite_toggled(index).with_station_favorite_toggled(index);
    assert(twice.state.radio_stations =~= view.state.radio_stations);
}

/// The row of a station shows the title of what it plays, where that says more than its name,
/// with its name behind it; else its name alone.
pub proof fn station_row_names_station(station: RadioStationView)
    ensures
        ({
            let row = station_list::station_row(station);
            let titled = station.last_stream_title is Some && !text::same_ignoring_ascii_case(
                station.last_stream_title->0,
                station.name,
            ) && exists|i: int|
                0 <= i < station.last_stream_title->0.len() && !text::is_white_space(
                    #[trigger] station.last_stream_title->0[i],
                );
            if titled {
                row.0 == station.last_stream_title->0 && row.1 == station.name
            } else {
                row.0 == station.name && row.1.len() == 0
            }
        }),
{
    if let Some(title) = station.last_stream_title {
        text_laws::blank_is_white(title);
    }
}

/// The selected station that is removed is gone, and the others stay in their order; where it
/// plays it stops, and the station behind it is selected, or the last.
pub proof fn removed_station_is_gone(view: AppView, index: usize)
    requires
        view.state.selected_radio_index == Some(index),
        index < view.state.radio_stations.len() <= usize::MAX,
    ensures
        ({
            let was = view.state.radio_stations;
            let after = view.with_station_removed();
            let kept = after.state.radio_stations;
            &&& kept.len() == was.len() - 1
            &&& forall|i: int| 0 <= i < index ==> (#[trigger] kept[i]) == was[i]
            &&& forall|i: int| index <= i < kept.len() ==> (#[trigger] kept[i]) == was[i + 1]
            &&& view.radio.active_index == Some(index) ==> after.radio.active_index is None
            &&& view.radio.active_index != Some(index) ==> after.radio == view.radio
            &&& kept.len() == 0 ==> after.state.selected_radio_index is None
            &&& index < kept.len() ==> after.state.selected_radio_index == Some(index)
            &&& 0 < kept.len() && index == kept.len() ==> after.state.selected_radio_index == Some(
                (index - 1) as usize,
            )
        }),
{
}

} // verus!
