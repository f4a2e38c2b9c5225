//! The list of radio stations, and what is done with its rows.

use crate::app::{
    AppView, AudioOrbitApp, BrowsingView, DetailsModal, DetailsView, DialogsView, PlayerStatus,
    RadioPlaybackView,
};
use crate::counting;
use crate::listing;
use crate::paths;
use crate::settings;
use crate::settings::{RadioStation, RadioStationView};
use crate::state::StateView;
use crate::text;
use crate::track_list::HoveredRow;
use vstd::prelude::*;
use vstd::string::*;

verus! {

/// Whether the query occurs in a text that may be there, whatever its case.
pub open spec fn occurs_in_optional(query: Seq<char>, value: Option<Seq<char>>) -> bool {
    match value {
        Some(value) => text::occurs_in(query, text::lowercase(value)),
        None => false,
    }
}

/// Whether a station is found by a query, which is in lower case: by its name, its address, or
/// what its stream has told.
pub open spec fn station_matches(station: RadioStationView, query: Seq<char>) -> bool {
    ||| query.len() == 0
    ||| text::occurs_in(query, text::lowercase(station.name))
    ||| text::occurs_in(query, text::lowercase(station.url))
    ||| occurs_in_optional(query, station.last_station_name)
    ||| occurs_in_optional(query, station.last_stream_title)
}

/// The condition that a station is shown.
pub open spec fn is_station_shown(
    stations: Seq<RadioStationView>,
    favorites_only: bool,
    query: Seq<char>,
) -> spec_fn(int) -> bool {
    |i: int| (favorites_only ==> stations[i].favorite) && station_matches(stations[i], query)
}

/// The condition that a station is a favorite.
pub open spec fn is_favorite_station(stations: Seq<RadioStationView>) -> spec_fn(int) -> bool {
    |i: int| stations[i].favorite
}

/// The title of what a station plays, unless it is blank or the name of the station.
pub open spec fn stream_title(station: RadioStationView) -> Option<Seq<char>> {
    match station.last_stream_title {
        Some(title) => if text::is_blank_text(title) || text::same_ignoring_ascii_case(
            title,
            station.name,
        ) {
            None
        } else {
            Some(title)
        },
        None => None,
    }
}

/// What is shown of a station: the title of what it plays, and its name behind it; its name
/// where it plays nothing that has a title.
pub open spec fn station_row(station: RadioStationView) -> (Seq<char>, Seq<char>) {
    match stream_title(station) {
        Some(title) => (title, station.name),
        None => (station.name, Seq::empty()),
    }
}

/// Whether the query occurs in a text that may be there, whatever its case.
fn is_in_optional(query: &str, value: &Option<String>) -> (found: bool)
    ensures
        found == occurs_in_optional(query@, paths::text_of(*value)),
{
    match value {
        Some(value) => text::contains(value.as_str().to_lowercase().as_str(), query),
        None => false,
    }
}

/// Whether a station is found by a query, which is in lower case.
pub fn station_matches_query(station: &RadioStation, query: &str) -> (found: bool)
    ensures
        found == station_matches(station@, query@),
{
    query.is_empty() || text::contains(station.name.as_str().to_lowercase().as_str(), query)
        || text::contains(station.url.as_str().to_lowercase().as_str(), query) || is_in_optional(
        query,
        &station.last_station_name,
    ) || is_in_optional(query, &station.last_stream_title)
}

/// What is shown of a station.
pub fn station_row_texts(station: &RadioStation) -> (row: (String, String))
    ensures
        (row.0@, row.1@) == station_row(station@),
{
    if let Some(title) = &station.last_stream_title {
        if !text::is_blank(title.as_str()) && !text::eq_ignore_ascii_case(
            title.as_str(),
            station.name.as_str(),
        ) {
            return (title.clone(), station.name.clone());
        }
    }
    let nothing = String::new();
    assert(nothing@ =~= Seq::empty());
    (station.name.clone(), nothing)
}

impl AppView {
    /// The stations that are shown.
    pub open spec fn shown_stations(self) -> Seq<usize> {
        counting::indexes_where(
            self.state.radio_stations.len(),
            is_station_shown(
                self.state.radio_stations,
                self.browsing.radio_show_favorites_only,
                text::lowercase(text::trimmed(self.browsing.radio_search_query)),
            ),
        )
    }

    /// How many stations are favorites.
    pub open spec fn favorite_stations(self) -> nat {
        counting::count(
            self.state.radio_stations.len(),
            is_favorite_station(self.state.radio_stations),
        )
    }

    /// Whether a station is marked in the list.
    pub open spec fn station_is_marked(self, index: usize) -> bool {
        self.radio.active_index == Some(index) || (self.radio.selection_was_user_set
            && self.state.selected_radio_index == Some(index))
    }

    /// The application with a station selected by the user.
    pub open spec fn with_station_chosen(self, index: usize) -> AppView {
        AppView {
            state: StateView { selected_radio_index: Some(index), ..self.state },
            radio: RadioPlaybackView { selection_was_user_set: true, ..self.radio },
            ..self
        }
    }

    /// The application with a station made a favorite, or no longer one.
    pub open spec fn with_station_favorite_toggled(self, index: usize) -> AppView {
        if index < self.state.radio_stations.len() {
            let station = self.state.radio_stations[index as int];
            (AppView {
                state: StateView {
                    radio_stations: self.state.radio_stations.update(
                        index as int,
                        RadioStationView { favorite: !station.favorite, ..station },
                    ),
                    ..self.state
                },
                ..self
            }).with_station_chosen(index).saved()
        } else {
            self
        }
    }

    /// The application with a station being dragged, and where it would be dropped.
    pub open spec fn with_station_drag(
        self,
        dragging: Option<usize>,
        target: Option<usize>,
    ) -> AppView {
        AppView {
            browsing: BrowsingView {
                dragging_radio_index: dragging,
                radio_drop_target_index: target,
                ..self.browsing
            },
            ..self
        }
    }

    /// Where the dragged station would be dropped now.
    pub open spec fn hovered_station_place(self, hovered: Option<HoveredRow>) -> Option<usize> {
        match hovered {
            Some(row) => if self.browsing.dragging_radio_index is Some {
                Some(
                    listing::drop_place(
                        row.index,
                        row.next_track,
                        row.lower_half,
                        self.state.radio_stations.len() as usize,
                    ),
                )
            } else {
                None
            },
            None => None,
        }
    }

    /// The application with the dragged station moved along with the pointer. Where it is let
    /// go over another place, it is moved there.
    pub open spec fn with_station_dragged(
        self,
        hovered: Option<HoveredRow>,
        released: bool,
        pressed: bool,
    ) -> AppView {
        let place = self.hovered_station_place(hovered);
        let from = self.browsing.dragging_radio_index;
        if released && place is Some && from->0 != place->0 && from->0 + 1 != place->0 {
            self.with_station_drag(None, None).with_station_moved_to(from->0, place->0)
        } else if !pressed {
            self.with_station_drag(None, None)
        } else if place is Some {
            self.with_station_drag(from, place)
        } else {
            self
        }
    }
}

impl AppView {
    /// The row of a station is to be scrolled to.
    pub open spec fn scrolls_to_station(self, index: usize) -> bool {
        self.browsing.scroll_to_active_radio_requested && self.radio.active_index == Some(index)
    }

    /// The application after the row of a station was shown: the playing station is looked for
    /// until its row is.
    pub open spec fn with_station_row_shown(self, index: usize) -> AppView {
        AppView {
            browsing: BrowsingView {
                scroll_to_active_radio_requested: self.browsing.scroll_to_active_radio_requested
                    && !self.scrolls_to_station(index),
                ..self.browsing
            },
            ..self
        }
    }
}

impl AudioOrbitApp {
    /// Takes note that the row of a station is shown; returns whether it is scrolled to.
    pub fn station_row_shown(&mut self, index: usize) -> (scrolls: bool)
        ensures
            scrolls == old(self)@.scrolls_to_station(index),
            final(self)@ == old(self)@.with_station_row_shown(index),
    {
        let plays = match self.radio.active_index {
            Some(active) => active == index,
            None => false,
        };
        let scrolls = self.browsing.scroll_to_active_radio_requested && plays;
        self.browsing.scroll_to_active_radio_requested =
        self.browsing.scroll_to_active_radio_requested && !plays;
        scrolls
    }

    /// The stations that are shown.
    pub fn visible_station_indexes(&self) -> (indexes: Vec<usize>)
        ensures
            indexes@ == self@.shown_stations(),
    {
        let trimmed = text::trim(self.browsing.radio_search_query.as_str());
        let query = trimmed.as_str().to_lowercase();
        let favorites_only = self.browsing.radio_show_favorites_only;
        let ghost views = self@.state.radio_stations;
        let ghost shown = is_station_shown(views, favorites_only, query@);
        let mut indexes: Vec<usize> = Vec::new();
        let mut index: usize = 0;
        while index < self.state.radio_stations.len()
            invariant
                index <= self.state.radio_stations@.len() == views.len(),
                views == self@.state.radio_stations,
                shown == is_station_shown(views, favorites_only, query@),
                indexes@ == counting::indexes_where(index as nat, shown),
            decreases self.state.radio_stations@.len() - index,
        {
            assert(views[index as int] == self.state.radio_stations@[index as int]@);
            let station = &self.state.radio_stations[index];
            if (!favorites_only || station.favorite) && station_matches_query(
                station,
                query.as_str(),
            ) {
                indexes.push(index);
            }
            index += 1;
        }
        indexes
    }

    /// How many stations are favorites.
    pub fn favorite_station_count(&self) -> (count: usize)
        ensures
            count == self@.favorite_stations(),
    {
        let ghost views = self@.state.radio_stations;
        let ghost favorite = is_favorite_station(views);
        let mut count: usize = 0;
        let mut index: usize = 0;
        while index < self.state.radio_stations.len()
            invariant
                index <= self.state.radio_stations@.len() == views.len(),
                views == self@.state.radio_stations,
                favorite == is_favorite_station(views),
                count <= index,
                count == counting::count(index as nat, favorite),
            decreases self.state.radio_stations@.len() - index,
        {
            assert(views[index as int] == self.state.radio_stations@[index as int]@);
            if self.state.radio_stations[index].favorite {
                count += 1;
            }
            index += 1;
        }
        count
    }

    /// Whether a station is marked in the list.
    pub fn is_station_marked(&self, index: usize) -> (marked: bool)
        ensures
            marked == self@.station_is_marked(index),
    {
        self.radio.active_index == Some(index) || (self.radio.selection_was_user_set
            && self.state.selected_radio_index == Some(index))
    }

    /// Shows all stations, or the favorites only.
    pub fn show_favorite_stations_only(&mut self, favorites_only: bool)
        ensures
            final(self)@ == (AppView {
                browsing: BrowsingView {
                    radio_show_favorites_only: favorites_only,
                    ..old(self)@.browsing
                },
                ..old(self)@
            }),
    {
        self.browsing.radio_show_favorites_only = favorites_only;
    }

    /// Selects a station for the user.
    fn choose_station(&mut self, index: usize)
        ensures
            final(self)@ == old(self)@.with_station_chosen(index),
    {
        self.state.selected_radio_index = Some(index);
        self.radio.selection_was_user_set = true;
    }

    /// Selects a station for the user, now and in the next run.
    pub fn select_station(&mut self, index: usize)
        ensures
            final(self)@ == old(self)@.with_station_chosen(index).saved(),
    {
        self.choose_station(index);
        self.save_state_silently();
    }

    /// Selects a station for the user and plays it.
    pub fn select_and_play_station(&mut self, index: usize, status: PlayerStatus)
        ensures
            final(self)@ == old(self)@.with_station_chosen(index).with_station_requested(
                index,
                status,
            ),
    {
        self.choose_station(index);
        self.play_radio_station(index, status);
    }

    /// Makes a station a favorite, or no longer one.
    pub fn toggle_station_favorite(&mut self, index: usize)
        ensures
            final(self)@ == old(self)@.with_station_favorite_toggled(index),
    {
        let ghost start = self@;
        assert(start.state.radio_stations.len() == self.state.radio_stations@.len());
        if index >= self.state.radio_stations.len() {
            return;
        }
        let ghost station = start.state.radio_stations[index as int];
        assert(station == self.state.radio_stations@[index as int]@);
        let favorite = self.state.radio_stations[index].favorite;
        self.state.radio_stations[index].favorite = !favorite;
        proof {
            let toggled = RadioStationView { favorite: !favorite, ..station };
            assert(self.state.radio_stations@[index as int]@ =~= toggled);
            assert(settings::station_views(self.state.radio_stations@)
                =~= start.state.radio_stations.update(index as int, toggled));
            assert(self.state@ =~= (StateView {
                radio_stations: start.state.radio_stations.update(index as int, toggled),
                ..start.state
            }));
        }
        self.choose_station(index);
        self.save_state_silently();
    }

    /// Shows the details of a station.
    pub fn open_station_details(&mut self, index: usize)
        ensures
            final(self)@ == (AppView {
                dialogs: DialogsView {
                    details_modal: Some(DetailsView::Radio(index)),
                    ..old(self)@.dialogs
                },
                ..old(self)@
            }),
    {
        self.dialogs.details_modal = Some(DetailsModal::Radio(index));
    }

    /// Sets which station is dragged, and where it would be dropped.
    fn set_station_drag(&mut self, dragging: Option<usize>, target: Option<usize>)
        ensures
            final(self)@ == old(self)@.with_station_drag(dragging, target),
    {
        self.browsing.dragging_radio_index = dragging;
        self.browsing.radio_drop_target_index = target;
    }

    /// Begins to drag a station.
    pub fn begin_station_drag(&mut self, index: usize)
        ensures
            final(self)@ == old(self)@.with_station_drag(Some(index), None),
    {
        self.set_station_drag(Some(index), None);
    }

    /// Where the dragged station would be dropped now.
    fn place_for_station(&self, hovered: Option<HoveredRow>) -> (place: Option<usize>)
        ensures
            place == self@.hovered_station_place(hovered),
    {
        assert(self@.state.radio_stations.len() == self.state.radio_stations.len());
        match hovered {
            Some(row) => if self.browsing.dragging_radio_index.is_some() {
                Some(
                    listing::find_drop_place(
                        row.index,
                        row.next_track,
                        row.lower_half,
                        self.state.radio_stations.len(),
                    ),
                )
            } else {
                None
            },
            None => None,
        }
    }

    /// Moves the dragged station along with the pointer, and drops it where it is let go.
    pub fn update_station_drag(
        &mut self,
        hovered: Option<HoveredRow>,
        released: bool,
        pressed: bool,
    )
        ensures
            final(self)@ == old(self)@.with_station_dragged(hovered, released, pressed),
    {
        let from = self.browsing.dragging_radio_index;
        let place = self.place_for_station(hovered);
        if let (Some(from), Some(to)) = (from, place) {
            if released && Self::valid_drop_target(from, to) {
                self.set_station_drag(None, None);
                self.move_radio_station_to_index(from, to);
                return;
            }
        }
        if !pressed {
            self.set_station_drag(None, None);
        } else if place.is_some() {
            self.set_station_drag(from, place);
        }
    }
}

/// A station is found by its own name, whatever its case, and all are found by a blank query.
pub proof fn station_is_found(station: RadioStationView)
    ensures
        station_matches(station, text::lowercase(station.name)),
        station_matches(station, Seq::empty()),
{
    let name = text::lowercase(station.name);
    assert(name.subrange(0, name.len() as int) =~= name);
}

} // verus!
