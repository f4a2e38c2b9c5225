//! Internet radio: stations, streams, titles and recordings.

use crate::app::{
    AppView, AudioOrbitApp, BrowsingView, Crossfade, DialogsView, Effect, EffectView,
    MainContentTab, PlayerStatus, RadioPlaybackView,
};
use crate::paths;
use crate::player::RadioRecordingInfo;
use crate::session;
use crate::settings;
use crate::settings::{RadioStation, RadioStationView};
use crate::state::StateView;
use crate::text;
use crate::track;
use vstd::prelude::*;
use vstd::string::*;

verus! {

/// What a radio stream says of itself.
#[derive(Debug)]
pub struct StreamMetadata {
    pub station_name: Option<String>,
    pub stream_title: Option<String>,
}

/// The model of what a stream says of itself.
#[verifier::ext_equal]
pub struct StreamMetadataView {
    pub station_name: Option<Seq<char>>,
    pub stream_title: Option<Seq<char>>,
}

impl View for StreamMetadata {
    type V = StreamMetadataView;

    open spec fn view(&self) -> StreamMetadataView {
        StreamMetadataView {
            station_name: paths::text_of(self.station_name),
            stream_title: paths::text_of(self.stream_title),
        }
    }
}

/// The model of what a stream may say of itself.
pub open spec fn metadata_view(metadata: Option<StreamMetadata>) -> Option<StreamMetadataView> {
    match metadata {
        Some(metadata) => Some(metadata@),
        None => None,
    }
}

// ---------------------------------------------------------------------------
// Adding and removing stations
// ---------------------------------------------------------------------------

/// Whether an address is one of a web stream.
pub open spec fn is_stream_url(url: Seq<char>) -> bool {
    text::has_prefix(url, "http://"@) || text::has_prefix(url, "https://"@)
}

/// The station that was typed in. A name that was not typed comes from the stream, or else
/// from the fallback.
pub open spec fn typed_station(
    name: Seq<char>,
    url: Seq<char>,
    metadata: Option<StreamMetadataView>,
    fallback: Seq<char>,
) -> RadioStationView {
    if name.len() > 0 {
        settings::new_station(name, url)
    } else {
        match metadata {
            Some(metadata) => RadioStationView {
                name: match metadata.station_name {
                    Some(name) => name,
                    None => fallback,
                },
                url,
                last_station_name: metadata.station_name,
                last_stream_title: metadata.stream_title,
                favorite: false,
            },
            None => settings::new_station(fallback, url),
        }
    }
}

impl AppView {
    /// The address that was typed in.
    pub open spec fn typed_url(self) -> Seq<char> {
        text::trimmed(self.dialogs.pending_radio_url)
    }

    /// The name that was typed in.
    pub open spec fn typed_name(self) -> Seq<char> {
        text::trimmed(self.dialogs.pending_radio_name)
    }

    /// Whether the stream is asked for the name of the station.
    pub open spec fn asks_for_name(self) -> bool {
        is_stream_url(self.typed_url()) && self.typed_name().len() == 0
    }

    /// The application after a station was typed in.
    pub open spec fn with_station_added(
        self,
        metadata: Option<StreamMetadataView>,
        fallback: Seq<char>,
    ) -> AppView {
        if self.typed_url().len() == 0 {
            self.with_error(Some("Radio stream URL is required."@))
        } else if !is_stream_url(self.typed_url()) {
            self.with_error(
                Some("Internet radio stream URL must start with http:// or https://."@),
            )
        } else {
            (AppView {
                state: StateView {
                    radio_stations: self.state.radio_stations.push(
                        typed_station(self.typed_name(), self.typed_url(), metadata, fallback),
                    ),
                    selected_radio_index: None,
                    ..self.state
                },
                radio: RadioPlaybackView { selection_was_user_set: false, ..self.radio },
                dialogs: DialogsView {
                    pending_radio_name: Seq::empty(),
                    pending_radio_url: Seq::empty(),
                    ..self.dialogs
                },
                ..self
            }).with_status("Added internet radio station."@).with_error(None).saved()
        }
    }

    /// The application without the selected station. Where it is playing, playback stops.
    pub open spec fn with_station_removed(self) -> AppView {
        match self.state.selected_radio_index {
            Some(index) => if index < self.state.radio_stations.len() {
                let start = if self.radio.active_index == Some(index) {
                    self.stopped()
                } else {
                    self
                };
                let stations = start.state.radio_stations.remove(index as int);
                (AppView {
                    state: StateView {
                        radio_stations: stations,
                        selected_radio_index: if stations.len() == 0 {
                            None
                        } else if index < stations.len() {
                            Some(index)
                        } else {
                            Some((stations.len() - 1) as usize)
                        },
                        ..start.state
                    },
                    ..start
                }).saved()
            } else {
                self
            },
            None => self,
        }
    }
}

impl AudioOrbitApp {
    /// Returns the address of the stream to ask for the name of the station, where none was
    /// typed in.
    pub fn pending_station_lookup(&mut self) -> (url: Option<String>)
        ensures
            paths::text_of(url) == (if old(self)@.asks_for_name() {
                Some(old(self)@.typed_url())
            } else {
                None
            }),
            final(self)@ == (if old(self)@.asks_for_name() {
                old(self)@.with_status("Reading internet radio station name..."@)
            } else {
                old(self)@
            }),
    {
        let url = text::trim(self.dialogs.pending_radio_url.as_str());
        if text::is_blank(self.dialogs.pending_radio_name.as_str()) && (text::starts_with(
            url.as_str(),
            "http://",
        ) || text::starts_with(url.as_str(), "https://")) {
            self.set_status("Reading internet radio station name...".to_owned());
            Some(url)
        } else {
            None
        }
    }

    /// Adds the station that was typed in; returns whether it was added.
    pub fn add_radio_station(
        &mut self,
        metadata: Option<StreamMetadata>,
        fallback_name: &str,
    ) -> (added: bool)
        ensures
            added == is_stream_url(old(self)@.typed_url()),
            final(self)@ == old(self)@.with_station_added(
                metadata_view(metadata),
                fallback_name@,
            ),
    {
        let ghost start = self@;
        let name = text::trim(self.dialogs.pending_radio_name.as_str());
        let url = text::trim(self.dialogs.pending_radio_url.as_str());
        proof {
            reveal_strlit("http://");
            reveal_strlit("https://");
        }
        if url.as_str().is_empty() {
            self.fail("Radio stream URL is required.");
            return false;
        }
        if !(text::starts_with(url.as_str(), "http://") || text::starts_with(
            url.as_str(),
            "https://",
        )) {
            self.fail("Internet radio stream URL must start with http:// or https://.");
            return false;
        }
        let ghost wanted = typed_station(name@, url@, metadata_view(metadata), fallback_name@);
        let station = if !name.as_str().is_empty() {
            RadioStation::new(name.as_str(), url.as_str())
        } else {
            match metadata {
                Some(metadata) => {
                    let station_name = match &metadata.station_name {
                        Some(station_name) => station_name.clone(),
                        None => fallback_name.to_owned(),
                    };
                    RadioStation {
                        name: station_name,
                        url,
                        last_station_name: metadata.station_name,
                        last_stream_title: metadata.stream_title,
                        favorite: false,
                    }
                },
                None => RadioStation::new(fallback_name, url.as_str()),
            }
        };
        assert(station@ =~= wanted);
        let ghost before = self.state.radio_stations@;
        self.state.radio_stations.push(station);
        assert(settings::station_views(self.state.radio_stations@) =~= settings::station_views(
            before,
        ).push(wanted));
        self.finish_adding_station();
        true
    }

    /// Clears what was typed in for a station.
    fn finish_adding_station(&mut self)
        ensures
            final(self)@ == (AppView {
                state: StateView { selected_radio_index: None, ..old(self)@.state },
                radio: RadioPlaybackView { selection_was_user_set: false, ..old(self)@.radio },
                dialogs: DialogsView {
                    pending_radio_name: Seq::empty(),
                    pending_radio_url: Seq::empty(),
                    ..old(self)@.dialogs
                },
                ..old(self)@
            }).with_status("Added internet radio station."@).with_error(None).saved(),
    {
        self.state.selected_radio_index = None;
        self.radio.selection_was_user_set = false;
        self.dialogs.pending_radio_name = String::new();
        self.dialogs.pending_radio_url = String::new();
        self.set_status("Added internet radio station.".to_owned());
        self.set_error(None);
        self.save_state_silently();
    }

    /// Removes the selected station.
    pub fn remove_selected_radio_station(&mut self)
        ensures
            final(self)@ == old(self)@.with_station_removed(),
    {
        let index: usize = match self.state.selected_radio_index {
            Some(index) => index,
            None => return,
        };
        if index >= self.state.radio_stations.len() {
            return;
        }
        if self.radio.active_index == Some(index) {
            self.stop();
        }
        let ghost start = self@;
        assert(start.state.radio_stations.len() == old(self)@.state.radio_stations.len());
        self.state.radio_stations.remove(index);
        assert(settings::station_views(self.state.radio_stations@)
            =~= start.state.radio_stations.remove(index as int));
        let count: usize = self.state.radio_stations.len();
        self.state.selected_radio_index = if count == 0 {
            None
        } else if index < count {
            Some(index)
        } else {
            Some(count - 1)
        };
        self.save_state_silently();
    }
}

// ---------------------------------------------------------------------------
// Playing a station
// ---------------------------------------------------------------------------

/// What is said when a stream is opened.
pub open spec fn opening_status(crossfade: Crossfade, name: Seq<char>) -> Seq<char> {
    (if crossfade.audible() {
        "Crossfading to internet radio: "@
    } else {
        "Opening internet radio: "@
    }) + name + "..."@
}

/// What is said when a stream plays.
pub open spec fn playing_status(crossfade: Crossfade, name: Seq<char>) -> Seq<char> {
    (if crossfade.audible() {
        "Crossfading to internet radio: "@
    } else {
        "Playing internet radio: "@
    }) + name + "."@
}

impl AppView {
    /// The station at a position.
    pub open spec fn station(self, index: usize) -> Option<RadioStationView> {
        if index < self.state.radio_stations.len() {
            Some(self.state.radio_stations[index as int])
        } else {
            None
        }
    }

    /// The application once it has asked for a station, or said that there is no output
    /// device.
    pub open spec fn with_station_requested(self, index: usize, status: PlayerStatus) -> AppView {
        let crossfade = self.manual_crossfade(status);
        match self.station(index) {
            Some(station) => if status.available {
                self.with_status(opening_status(crossfade, station.name)).with_error(
                    None,
                ).with_effect(
                    EffectView::OpenRadioStream {
                        station_index: index,
                        url: station.url,
                        crossfade,
                        reopens: false,
                    },
                )
            } else {
                self.with_error(
                    Some("No audio output device is available. Try Refresh output device."@),
                )
            },
            None => self,
        }
    }

    /// The application once it has asked a stream for its title.
    pub open spec fn with_title_lookup(self, index: usize, url: Seq<char>) -> AppView {
        (AppView {
            radio: RadioPlaybackView { title_lookup_running: true, ..self.radio },
            ..self
        }).with_effect(EffectView::LookUpRadioTitle { station_index: index, url })
    }

    /// The application with the radio shown, and what is known of a station.
    pub open spec fn with_station_shown(self, station: RadioStationView, now: u64) -> AppView {
        AppView {
            browsing: BrowsingView { active_tab: MainContentTab::Radio, ..self.browsing },
            radio: RadioPlaybackView {
                station_name: station.last_station_name,
                title: station.last_stream_title,
                started_at: Some(now),
                last_title_lookup_at: Some(now),
                ..self.radio
            },
            ..self
        }
    }

    /// The application with a station in place of a track.
    pub open spec fn with_station_active(self, index: usize) -> AppView {
        AppView {
            state: StateView { selected_radio_index: Some(index), ..self.state },
            active_track_index: None,
            active_playlist_index: None,
            active_track_path: None,
            last_playback: None,
            pending_track_switch: None,
            radio: RadioPlaybackView {
                active_index: Some(index),
                selection_was_user_set: true,
                ..self.radio
            },
            ..self
        }
    }

    /// The application after the stream of a station was opened.
    pub open spec fn with_station_opened(
        self,
        index: usize,
        crossfade: Crossfade,
        reopens: bool,
        now: u64,
        status: PlayerStatus,
        position_bits: u32,
    ) -> AppView {
        match self.station(index) {
            Some(station) => {
                let shown = self.with_station_shown(station, now);
                (if reopens {
                    shown.with_error(None)
                } else {
                    shown.with_station_active(index).with_status(
                        playing_status(crossfade, station.name),
                    )
                }).with_session(status, position_bits).saved().with_title_lookup(
                    index,
                    station.url,
                )
            },
            None => self,
        }
    }
}

impl AudioOrbitApp {
    /// Asks for a station.
    pub fn play_radio_station(&mut self, index: usize, status: PlayerStatus)
        ensures
            final(self)@ == old(self)@.with_station_requested(index, status),
    {
        if index >= self.state.radio_stations.len() {
            return;
        }
        assert(self@.state.radio_stations[index as int]
            == self.state.radio_stations@[index as int]@);
        let crossfade = self.configured_manual_crossfade(status);
        if !status.available {
            self.fail("No audio output device is available. Try Refresh output device.");
            return;
        }
        let mut text = if crossfade.is_audible() {
            "Crossfading to internet radio: ".to_owned()
        } else {
            "Opening internet radio: ".to_owned()
        };
        text.append(self.state.radio_stations[index].name.as_str());
        text.append("...");
        let url = self.state.radio_stations[index].url.clone();
        self.set_status(text);
        self.set_error(None);
        self.ask(
            Effect::OpenRadioStream { station_index: index, url, crossfade, reopens: false },
        );
    }

    /// Asks a stream for its title.
    pub fn start_radio_title_lookup(&mut self, index: usize, url: String)
        ensures
            final(self)@ == old(self)@.with_title_lookup(index, url@),
    {
        self.radio.title_lookup_running = true;
        self.ask(Effect::LookUpRadioTitle { station_index: index, url });
    }

    /// Shows the radio, with what is known of a station.
    fn show_station(&mut self, index: usize, now: u64)
        requires
            index < old(self)@.state.radio_stations.len(),
        ensures
            final(self)@ == old(self)@.with_station_shown(
                old(self)@.state.radio_stations[index as int],
                now,
            ),
    {
        assert(self@.state.radio_stations[index as int]
            == self.state.radio_stations@[index as int]@);
        let station_name = self.state.radio_stations[index].last_station_name.clone();
        let title = self.state.radio_stations[index].last_stream_title.clone();
        self.browsing.active_tab = MainContentTab::Radio;
        self.radio.station_name = station_name;
        self.radio.title = title;
        self.radio.started_at = Some(now);
        self.radio.last_title_lookup_at = Some(now);
        assert(self@ =~= old(self)@.with_station_shown(
            old(self)@.state.radio_stations[index as int],
            now,
        ));
    }

    /// Takes note that a station plays in place of a track.
    fn activate_station(&mut self, index: usize)
        ensures
            final(self)@ == old(self)@.with_station_active(index),
    {
        self.radio.active_index = Some(index);
        self.active_track_index = None;
        self.active_playlist_index = None;
        self.active_track_path = None;
        self.last_playback = None;
        self.pending_track_switch = None;
        self.state.selected_radio_index = Some(index);
        self.radio.selection_was_user_set = true;
        assert(self@ =~= old(self)@.with_station_active(index));
    }

    /// Takes note that the stream of a station was opened.
    pub fn radio_stream_opened(
        &mut self,
        index: usize,
        crossfade: Crossfade,
        reopens: bool,
        now: u64,
        status: PlayerStatus,
        position_bits: u32,
    )
        ensures
            final(self)@ == old(self)@.with_station_opened(
                index,
                crossfade,
                reopens,
                now,
                status,
                position_bits,
            ),
    {
        if index >= self.state.radio_stations.len() {
            return;
        }
        assert(self@.state.radio_stations[index as int]
            == self.state.radio_stations@[index as int]@);
        let mut text = if crossfade.is_audible() {
            "Crossfading to internet radio: ".to_owned()
        } else {
            "Playing internet radio: ".to_owned()
        };
        text.append(self.state.radio_stations[index].name.as_str());
        text.append(".");
        let url = self.state.radio_stations[index].url.clone();
        self.show_station(index, now);
        if reopens {
            self.set_error(None);
        } else {
            self.activate_station(index);
            self.set_status(text);
        }
        self.persist_playback_session(status, position_bits);
        self.save_state_silently();
        self.start_radio_title_lookup(index, url);
    }

    /// Takes note that the stream of a station could not be opened.
    pub fn radio_stream_failed(&mut self, reopens: bool, error: String)
        ensures
            final(self)@ == (if reopens {
                old(self)@.with_error(Some(error@))
            } else {
                old(self)@.with_error(Some(error@)).with_status(
                    "Internet radio playback failed."@,
                )
            }),
    {
        self.set_error(Some(error));
        if !reopens {
            self.set_status("Internet radio playback failed.".to_owned());
        }
    }
}

// ---------------------------------------------------------------------------
// Titles
// ---------------------------------------------------------------------------

/// A station with what its stream says.
pub open spec fn station_with_metadata(
    station: RadioStationView,
    metadata: StreamMetadataView,
) -> RadioStationView {
    RadioStationView {
        last_station_name: session::either(metadata.station_name, station.last_station_name),
        last_stream_title: session::either(metadata.stream_title, station.last_stream_title),
        ..station
    }
}

impl AppView {
    /// The application after a stream has answered.
    pub open spec fn with_title_answer(
        self,
        index: usize,
        metadata: Option<StreamMetadataView>,
    ) -> AppView {
        match metadata {
            Some(metadata) => (AppView {
                radio: if self.radio.active_index == Some(index) {
                    RadioPlaybackView {
                        station_name: session::either(
                            metadata.station_name,
                            self.radio.station_name,
                        ),
                        title: session::either(metadata.stream_title, self.radio.title),
                        ..self.radio
                    }
                } else {
                    self.radio
                },
                state: if index < self.state.radio_stations.len() {
                    StateView {
                        radio_stations: self.state.radio_stations.update(
                            index as int,
                            station_with_metadata(
                                self.state.radio_stations[index as int],
                                metadata,
                            ),
                        ),
                        ..self.state
                    }
                } else {
                    self.state
                },
                ..self
            }).saved(),
            None => self,
        }
    }

    /// The application after streams have answered, one after the other.
    pub open spec fn with_title_answers(
        self,
        answers: Seq<(usize, Option<StreamMetadataView>)>,
    ) -> AppView
        decreases answers.len(),
    {
        if answers.len() == 0 {
            self
        } else {
            self.with_title_answers(answers.drop_last()).with_title_answer(
                answers.last().0,
                answers.last().1,
            )
        }
    }

    /// The station whose title is asked for again, where that is due.
    pub open spec fn due_title_lookup(self, now: u64, interval: u64) -> Option<usize> {
        match self.radio.active_index {
            Some(index) => if !self.radio.title_lookup_running
                && self.radio.last_title_lookup_at is Some && crate::seeking::elapsed(
                now,
                self.radio.last_title_lookup_at->0,
            ) >= interval && index < self.state.radio_stations.len() {
                Some(index)
            } else {
                None
            },
            None => None,
        }
    }
}

/// The model of one answer.
pub open spec fn answer_view(answer: (usize, Option<StreamMetadata>)) -> (
    usize,
    Option<StreamMetadataView>,
) {
    (answer.0, metadata_view(answer.1))
}

/// The models of a list of answers.
pub open spec fn answer_views(answers: Seq<(usize, Option<StreamMetadata>)>) -> Seq<
    (usize, Option<StreamMetadataView>),
> {
    answers.map_values(|answer: (usize, Option<StreamMetadata>)| answer_view(answer))
}

/// Takes over what the stream of a station has answered.
fn learn_of_station(station: &mut RadioStation, metadata: StreamMetadata)
    ensures
        final(station)@ == station_with_metadata(old(station)@, metadata@),
{
    if metadata.station_name.is_some() {
        station.last_station_name = metadata.station_name;
    }
    if metadata.stream_title.is_some() {
        station.last_stream_title = metadata.stream_title;
    }
}

impl AudioOrbitApp {
    /// Takes over what the playing stream has answered.
    fn learn_of_stream(&mut self, metadata: &StreamMetadata)
        ensures
            final(self)@ == (AppView {
                radio: RadioPlaybackView {
                    station_name: session::either(
                        metadata@.station_name,
                        old(self)@.radio.station_name,
                    ),
                    title: session::either(metadata@.stream_title, old(self)@.radio.title),
                    ..old(self)@.radio
                },
                ..old(self)@
            }),
    {
        if metadata.station_name.is_some() {
            self.radio.station_name = metadata.station_name.clone();
        }
        if metadata.stream_title.is_some() {
            self.radio.title = metadata.stream_title.clone();
        }
    }

    /// Takes over what one stream has answered.
    fn take_title_answer(&mut self, index: usize, metadata: StreamMetadata)
        ensures
            final(self)@ == old(self)@.with_title_answer(index, Some(metadata@)),
    {
        if self.radio.active_index == Some(index) {
            self.learn_of_stream(&metadata);
        }
        let ghost start = self@;
        if index < self.state.radio_stations.len() {
            let ghost answered = metadata@;
            assert(start.state.radio_stations[index as int]
                == self.state.radio_stations@[index as int]@);
            learn_of_station(&mut self.state.radio_stations[index], metadata);
            assert(settings::station_views(self.state.radio_stations@)
                =~= start.state.radio_stations.update(
                index as int,
                station_with_metadata(start.state.radio_stations[index as int], answered),
            ));
        }
        self.save_state_silently();
    }

    /// Takes over what streams have answered.
    pub fn process_radio_title_events(&mut self, answers: Vec<(usize, Option<StreamMetadata>)>)
        ensures
            final(self)@ == (if !old(self)@.radio.title_lookup_running || answers@.len() == 0 {
                old(self)@
            } else {
                let answered = old(self)@.with_title_answers(answer_views(answers@));
                AppView {
                    radio: RadioPlaybackView {
                        title_lookup_running: false,
                        ..answered.radio
                    },
                    ..answered
                }
            }),
    {
        if !self.radio.title_lookup_running || answers.len() == 0 {
            return;
        }
        let ghost start = self@;
        let ghost all = answer_views(answers@);
        assert(all.take(0) =~= Seq::empty());
        for answer in iter: answers
            invariant
                all == answer_views(iter.seq()),
                self@ == start.with_title_answers(all.take(iter.index())),
        {
            assert(all.take(iter.index() + 1).drop_last() =~= all.take(iter.index()));
            assert(all.take(iter.index() + 1).last() == answer_view(answer));
            let (index, metadata) = answer;
            if let Some(metadata) = metadata {
                self.take_title_answer(index, metadata);
            }
        }
        assert(all.take(all.len() as int) =~= all);
        self.radio.title_lookup_running = false;
    }

    /// Asks the playing stream for its title again, where that is due.
    pub fn refresh_radio_title_periodically(&mut self, now: u64, interval: u64)
        ensures
            final(self)@ == (match old(self)@.due_title_lookup(now, interval) {
                Some(index) => (AppView {
                    radio: RadioPlaybackView {
                        last_title_lookup_at: Some(now),
                        ..old(self)@.radio
                    },
                    ..old(self)@
                }).with_title_lookup(index, old(self)@.state.radio_stations[index as int].url),
                None => old(self)@,
            }),
    {
        let index: usize = match self.radio.active_index {
            Some(index) => index,
            None => return,
        };
        if self.radio.title_lookup_running {
            return;
        }
        let last: u64 = match self.radio.last_title_lookup_at {
            Some(last) => last,
            None => return,
        };
        if crate::seeking::time_since(now, last) < interval {
            return;
        }
        if index >= self.state.radio_stations.len() {
            return;
        }
        assert(self@.state.radio_stations[index as int]
            == self.state.radio_stations@[index as int]@);
        let url = self.state.radio_stations[index].url.clone();
        self.radio.last_title_lookup_at = Some(now);
        self.start_radio_title_lookup(index, url);
    }
}

// ---------------------------------------------------------------------------
// Names
// ---------------------------------------------------------------------------

/// A text, where it is not blank.
pub open spec fn not_blank(value: Option<Seq<char>>) -> Option<Seq<char>> {
    match value {
        Some(value) => if text::is_blank_text(value) {
            None
        } else {
            Some(value)
        },
        None => None,
    }
}

impl AppView {
    /// The name under which a playing station is shown: as its stream says, or as it was
    /// saved.
    pub open spec fn shown_station_name(self, station: RadioStationView) -> Seq<char> {
        match not_blank(session::either(self.radio.station_name, station.last_station_name)) {
            Some(name) => name,
            None => station.name,
        }
    }

    /// The title of the playing stream, where it says more than the name of the station.
    pub open spec fn shown_stream_title(self, station: RadioStationView) -> Option<Seq<char>> {
        match not_blank(session::either(self.radio.title, station.last_stream_title)) {
            Some(title) => if text::same_ignoring_ascii_case(title, station.name) {
                None
            } else {
                Some(title)
            },
            None => None,
        }
    }

    /// The playing station.
    pub open spec fn playing_station(self) -> Option<RadioStationView> {
        match self.radio.active_index {
            Some(index) => self.station(index),
            None => None,
        }
    }

    /// The name for a recording of the radio.
    pub open spec fn recording_name(self) -> Seq<char> {
        match self.playing_station() {
            Some(station) => self.shown_station_name(station),
            None => "internet-radio"@,
        }
    }

    /// The title that is shown for what is playing.
    pub open spec fn playing_title(self) -> Seq<char> {
        match self.playing_station() {
            Some(station) => match self.shown_stream_title(station) {
                Some(title) => title,
                None => self.shown_station_name(station),
            },
            None => match self.active_track_path {
                Some(path) => paths::display_name(path),
                None => "No track playing"@,
            },
        }
    }
}

/// A copy of the first text, or else of the second.
fn first_text(first: &Option<String>, second: &Option<String>) -> (result: Option<String>)
    ensures
        paths::text_of(result) == session::either(
            paths::text_of(*first),
            paths::text_of(*second),
        ),
{
    if first.is_some() {
        first.clone()
    } else {
        second.clone()
    }
}

impl AudioOrbitApp {
    /// The playing station.
    pub(crate) fn active_station(&self) -> (station: Option<&RadioStation>)
        ensures
            match station {
                Some(station) => self@.playing_station() == Some(station@),
                None => self@.playing_station() is None,
            },
    {
        match self.radio.active_index {
            Some(index) => if index < self.state.radio_stations.len() {
                assert(self@.state.radio_stations[index as int]
                    == self.state.radio_stations@[index as int]@);
                Some(&self.state.radio_stations[index])
            } else {
                None
            },
            None => None,
        }
    }

    /// The name under which a playing station is shown.
    pub fn station_name_to_show(&self, station: &RadioStation) -> (name: String)
        ensures
            name@ == self@.shown_station_name(station@),
    {
        match first_text(&self.radio.station_name, &station.last_station_name) {
            Some(name) => if text::is_blank(name.as_str()) {
                station.name.clone()
            } else {
                name
            },
            None => station.name.clone(),
        }
    }

    /// The name for a recording of the radio.
    pub fn current_radio_recording_name(&self) -> (name: String)
        ensures
            name@ == self@.recording_name(),
    {
        match self.active_station() {
            Some(station) => self.station_name_to_show(station),
            None => "internet-radio".to_owned(),
        }
    }

    /// The title that is shown for what is playing.
    pub fn active_track_title(&self) -> (title: String)
        ensures
            title@ == self@.playing_title(),
    {
        if let Some(station) = self.active_station() {
            if let Some(title) = first_text(&self.radio.title, &station.last_stream_title) {
                if !text::is_blank(title.as_str()) && !text::eq_ignore_ascii_case(
                    title.as_str(),
                    station.name.as_str(),
                ) {
                    return title;
                }
            }
            return self.station_name_to_show(station);
        }
        match &self.active_track_path {
            Some(path) => paths::display_file_name(path.as_str()),
            None => "No track playing".to_owned(),
        }
    }
}

// ---------------------------------------------------------------------------
// Recording
// ---------------------------------------------------------------------------

/// What is to be done when the user asks for recording to begin or to end.
pub enum RecordingAction {
    /// Nothing, for a reason that the user is told.
    Refused,
    /// The recording ends.
    Stop,
    /// A recording begins.
    Start { folder: String, station_name: String, stream_title: Option<String> },
}

impl AudioOrbitApp {
    /// Decides what is to be done when the user asks for recording to begin or to end.
    pub fn toggle_radio_recording(
        &mut self,
        status: PlayerStatus,
        executable: Option<&str>,
    ) -> (action: RecordingAction)
        ensures
            match action {
                RecordingAction::Refused => if !status.available {
                    final(self)@ == old(self)@.with_error(
                        Some(
                            "No audio output device is available. Try Refresh output device."@,
                        ),
                    )
                } else {
                    !status.recording && old(self)@.radio.active_index is None && final(self)@
                        == old(self)@.with_error(
                        Some("Start an internet radio station before recording."@),
                    )
                },
                RecordingAction::Stop => status.available && status.recording && final(self)@
                    == old(self)@,
                RecordingAction::Start { folder, station_name, stream_title } => {
                    &&& status.available
                    &&& !status.recording
                    &&& old(self)@.radio.active_index is Some
                    &&& final(self)@ == old(self)@
                    &&& folder@ == settings::resolved_folder(
                        old(self)@.state.recording,
                        track::optional_text(executable),
                    )
                    &&& station_name@ == old(self)@.recording_name()
                    &&& paths::text_of(stream_title) == old(self)@.radio.title
                },
            },
    {
        if !status.available {
            self.fail("No audio output device is available. Try Refresh output device.");
            return RecordingAction::Refused;
        }
        if status.recording {
            return RecordingAction::Stop;
        }
        if self.radio.active_index.is_none() {
            self.fail("Start an internet radio station before recording.");
            return RecordingAction::Refused;
        }
        RecordingAction::Start {
            folder: self.state.recording.resolved_output_folder(executable),
            station_name: self.current_radio_recording_name(),
            stream_title: self.radio.title.clone(),
        }
    }

    /// Takes note that a recording has ended; `size_text` shows how long it has become.
    pub fn radio_recording_stopped(
        &mut self,
        info: Option<RadioRecordingInfo>,
        size_text: &str,
    )
        ensures
            final(self)@ == (match info {
                Some(info) => old(self)@.with_status(
                    "Saved radio recording: "@ + info.path@ + " ("@ + size_text@ + ")."@,
                ).with_error(None),
                None => old(self)@.with_status("No active radio recording."@),
            }),
    {
        match info {
            Some(info) => {
                let mut text = "Saved radio recording: ".to_owned();
                text.append(info.path.as_str());
                text.append(" (");
                text.append(size_text);
                text.append(").");
                self.set_status(text);
                self.set_error(None);
            },
            None => {
                self.set_status("No active radio recording.".to_owned());
            },
        }
    }

    /// Takes note that a recording has begun.
    pub fn radio_recording_started(&mut self, path: &str)
        ensures
            final(self)@ == old(self)@.with_status(
                "Recording internet radio to "@ + path@ + "."@,
            ).with_error(None),
    {
        let mut text = "Recording internet radio to ".to_owned();
        text.append(path);
        text.append(".");
        self.set_status(text);
        self.set_error(None);
    }

    /// Takes over the folder that was chosen for recordings.
    pub fn choose_recording_folder(&mut self, folder: String)
        ensures
            final(self)@ == (AppView {
                state: StateView { recording: Some(folder@), ..old(self)@.state },
                ..old(self)@
            }).with_status("Radio recordings folder set to "@ + folder@ + "."@).with_error(
                None,
            ).saved(),
    {
        let mut text = "Radio recordings folder set to ".to_owned();
        text.append(folder.as_str());
        text.append(".");
        self.state.recording.output_folder = Some(folder);
        self.set_status(text);
        self.set_error(None);
        self.save_state_silently();
    }

    /// Takes note of whether the folder for recordings could be opened.
    pub fn recording_folder_opened(&mut self, folder: &str, error: Option<String>)
        ensures
            final(self)@ == (match error {
                Some(error) => old(self)@.with_error(
                    Some("Failed to open recording folder: "@ + error@),
                ),
                None => old(self)@.with_status(
                    "Opened radio recordings folder: "@ + folder@ + "."@,
                ).with_error(None),
            }),
    {
        match error {
            Some(error) => {
                let mut text = "Failed to open recording folder: ".to_owned();
                text.append(error.as_str());
                self.set_error(Some(text));
            },
            None => {
                let mut text = "Opened radio recordings folder: ".to_owned();
                text.append(folder);
                text.append(".");
                self.set_status(text);
                self.set_error(None);
            },
        }
    }
}

/// A stream that says nothing changes nothing.
pub proof fn silent_answer(view: AppView, index: usize)
    ensures
        view.with_title_answer(index, None) == view,
{
}

/// Removing the selected station keeps the others in order, and the selection is one of them.
pub proof fn removed_station_leaves_selection(view: AppView, index: usize)
    requires
        view.state.selected_radio_index == Some(index),
        index < view.state.radio_stations.len(),
    ensures
        view.with_station_removed().state.radio_stations == view.state.radio_stations.remove(
            index as int,
        ),
        match view.with_station_removed().state.selected_radio_index {
            Some(selected) => selected < view.state.radio_stations.len() - 1,
            None => view.state.radio_stations.len() == 1,
        },
{
}

} // verus!
