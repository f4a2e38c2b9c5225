//! The track list of the shown playlist, and what is done with its rows.

use crate::app::{AppView, AudioOrbitApp, BrowsingView, DetailsModal, DetailsView, DialogsView};
use crate::counting;
use crate::grouping;
use crate::index_set;
use crate::listing;
use crate::listing::{EntryPlace, ListEntry};
use crate::paths;
use crate::playlist::PlaylistView;
use crate::settings::UiView;
use crate::state::StateView;
use crate::text;
use crate::text_set;
use crate::track;
use crate::track::{Track, TrackView};
use vstd::prelude::*;
use vstd::string::*;

verus! {

// ---------------------------------------------------------------------------
// The rows
// ---------------------------------------------------------------------------

/// The groups of tracks, as often as they occur.
pub open spec fn groups_of(tracks: Seq<TrackView>) -> Seq<Seq<char>> {
    tracks.map_values(|track: TrackView| track.group)
}

/// Whether the list has headings: all groups are shown, and there is more than one.
pub open spec fn shows_groups(shown: PlaylistView) -> bool {
    shown.selected_group is None && text_set::sorted_distinct(groups_of(shown.tracks)).len() > 1
}

/// The condition that a track is of a group.
pub open spec fn is_of_group(tracks: Seq<TrackView>, group: Seq<char>) -> spec_fn(usize) -> bool {
    |index: usize| index < tracks.len() && tracks[index as int].group == group
}

/// The track list with the place of each entry.
#[derive(Debug)]
pub struct TrackList {
    pub entries: Vec<ListEntry>,
    pub places: Vec<EntryPlace>,
}

/// How a row is shown.
#[derive(Clone, Copy, Debug, PartialEq, Eq, Structural)]
pub struct RowState {
    pub selected: bool,
    pub playing: bool,
    pub favorite: bool,
    pub missing: bool,
    pub repeated: bool,
}

/// The entries that are scrolled to.
#[derive(Clone, Copy, Debug, PartialEq, Eq, Structural)]
pub struct ScrollTargets {
    pub requested_row: Option<usize>,
    pub playing_row: Option<usize>,
    pub heading: Option<usize>,
}

impl AppView {
    /// The entries of the track list.
    pub open spec fn entries(self) -> Seq<listing::EntryView> {
        match self.current() {
            Some(shown) => listing::list_entries(
                shown.tracks,
                self.visible(),
                shows_groups(shown),
                self.browsing.collapsed_groups,
            ),
            None => Seq::empty(),
        }
    }

    /// The visible tracks of a group.
    pub open spec fn visible_of_group(self, group: Seq<char>) -> Seq<usize> {
        match self.current() {
            Some(shown) => self.visible().filter(is_of_group(shown.tracks, group)),
            None => Seq::empty(),
        }
    }

    /// Whether all visible tracks of a group are repeated.
    pub open spec fn group_is_repeated(self, group: Seq<char>) -> bool {
        let of_group = self.visible_of_group(group);
        of_group.len() > 0 && forall|i: int|
            0 <= i < of_group.len() ==> self.selected_track_indexes.contains(
                #[trigger] of_group[i],
            )
    }

    /// The application with tracks repeated, or no longer repeated.
    pub open spec fn with_repeated(self, indexes: Seq<usize>, repeated: bool) -> AppView {
        (AppView {
            selected_track_indexes: if repeated {
                index_set::with_indexes(self.selected_track_indexes, indexes)
            } else {
                index_set::without_indexes(self.selected_track_indexes, indexes)
            },
            ..self
        }).with_repeat_kept().saved()
    }

    /// How the row of a track is shown.
    pub open spec fn row_state(self, index: usize) -> RowState {
        let track = self.current()->0.tracks[index as int];
        RowState {
            selected: if self.multi_selected_track_indexes.len() == 0 {
                self.selected_track_index == Some(index)
            } else {
                self.multi_selected_track_indexes.contains(index)
            },
            playing: self.active_track_path is Some && paths::same_key(
                self.active_track_path->0,
                track.path,
            ),
            favorite: self.has_favorite(track.path),
            missing: track.missing,
            repeated: self.selected_track_indexes.contains(index),
        }
    }

    /// The row of the first track with the key of a path.
    pub open spec fn row_of(self, path: Option<Seq<char>>) -> Option<usize> {
        match path {
            Some(path) => match self.current() {
                Some(shown) => counting::first_where(
                    self.entries().len(),
                    listing::is_row_of_path(self.entries(), shown.tracks, path),
                ),
                None => None,
            },
            None => None,
        }
    }

    /// The entries that are scrolled to.
    pub open spec fn scroll_targets(self) -> ScrollTargets {
        ScrollTargets {
            requested_row: self.row_of(self.browsing.scroll_to_track_path_requested),
            playing_row: if self.browsing.scroll_to_active_track_requested {
                self.row_of(self.active_track_path)
            } else {
                None
            },
            heading: match self.browsing.scroll_to_folder_group_requested {
                Some(group) => counting::first_where(
                    self.entries().len(),
                    listing::is_heading_of(self.entries(), group),
                ),
                None => None,
            },
        }
    }

    /// The application with no row to scroll to.
    pub open spec fn without_row_requests(self) -> AppView {
        AppView {
            browsing: BrowsingView {
                scroll_to_track_path_requested: None,
                scroll_to_active_track_requested: false,
                ..self.browsing
            },
            ..self
        }
    }

    /// The application with no heading to scroll to.
    pub open spec fn without_heading_request(self) -> AppView {
        AppView {
            browsing: BrowsingView { scroll_to_folder_group_requested: None, ..self.browsing },
            ..self
        }
    }

    /// The application with no path to scroll to.
    pub open spec fn without_path_request(self) -> AppView {
        AppView {
            browsing: BrowsingView { scroll_to_track_path_requested: None, ..self.browsing },
            ..self
        }
    }

    /// The application without what was scrolled to. A group that has no heading is looked for
    /// again. Where the list is empty only the path is given up, and where there is no
    /// playlist nothing is.
    pub open spec fn with_scroll_done(self) -> AppView {
        if self.current() is None {
            self
        } else if self.entries().len() == 0 {
            self.without_path_request()
        } else if self.scroll_targets().heading is Some {
            self.without_row_requests().without_heading_request()
        } else {
            self.without_row_requests()
        }
    }

    /// The application with another search result to be next.
    pub open spec fn with_search_cursor(self, cursor: usize) -> AppView {
        AppView { browsing: BrowsingView { search_cursor: cursor, ..self.browsing }, ..self }
    }

    /// The application with the next search result selected.
    pub open spec fn with_next_result(self) -> AppView {
        let results = self.visible();
        if results.len() == 0 || text::is_blank_text(self.browsing.track_search_query) {
            self
        } else {
            let at = self.browsing.search_cursor as int % results.len() as int;
            self.with_only_track_selected(results[at]).with_search_cursor(
                ((at + 1) % results.len() as int) as usize,
            )
        }
    }

    /// The application with playback kept to the search results, or not.
    pub open spec fn with_filtered_playback(self, filtered: bool) -> AppView {
        (AppView {
            browsing: BrowsingView { search_playback_filtered_only: filtered, ..self.browsing },
            ..self
        }).with_layout(
            UiView { search_playback_filtered_only: filtered, ..self.state.ui },
        ).saved()
    }

    /// The application with the details of a track shown.
    pub open spec fn with_track_details(self, path: Seq<char>) -> AppView {
        AppView {
            dialogs: DialogsView {
                details_modal: Some(DetailsView::Track(path)),
                ..self.dialogs
            },
            ..self
        }
    }
}

/// The tracks of a list that are of a group.
fn of_group(tracks: &Vec<Track>, indexes: &Vec<usize>, group: &str) -> (kept: Vec<usize>)
    ensures
        kept@ == indexes@.filter(is_of_group(track::track_views(tracks@), group@)),
{
    let ghost views = track::track_views(tracks@);
    let ghost keep = is_of_group(views, group@);
    let ghost all = indexes@;
    let mut kept: Vec<usize> = Vec::new();
    let mut at: usize = 0;
    proof {
        grouping::filter_all_or_none(all.take(0), keep);
        assert(all.take(0).filter(keep) =~= Seq::empty());
    }
    while at < indexes.len()
        invariant
            at <= indexes@.len(),
            all == indexes@,
            views == track::track_views(tracks@),
            keep == is_of_group(views, group@),
            kept@ == all.take(at as int).filter(keep),
        decreases indexes@.len() - at,
    {
        proof {
            grouping::filter_next(all, keep, at as int);
        }
        let index: usize = indexes[at];
        if index < tracks.len() {
            assert(views[index as int] == tracks@[index as int]@);
            if text::same_text(tracks[index].group.as_str(), group) {
                kept.push(index);
            }
        }
        at += 1;
    }
    assert(all.take(all.len() as int) =~= all);
    kept
}

/// The position behind another one, and after the last the first.
fn position_behind(at: usize, count: usize) -> (behind: usize)
    requires
        at < count,
    ensures
        behind == (at + 1) % count as int,
{
    if at + 1 == count {
        assert((at + 1) % count as int == 0) by (nonlinear_arith)
            requires
                at + 1 == count,
        ;
        0
    } else {
        assert((at + 1) % count as int == at + 1) by (nonlinear_arith)
            requires
                at + 1 < count,
        ;
        at + 1
    }
}

/// Whether all entries of a list are in another one.
fn all_contained(indexes: &Vec<usize>, others: &Vec<usize>) -> (contained: bool)
    ensures
        contained == forall|i: int|
            0 <= i < indexes@.len() ==> others@.contains(#[trigger] indexes@[i]),
{
    let mut at: usize = 0;
    while at < indexes.len()
        invariant
            at <= indexes@.len(),
            forall|i: int| 0 <= i < at ==> others@.contains(#[trigger] indexes@[i]),
        decreases indexes@.len() - at,
    {
        if !index_set::contains_index(others, indexes[at]) {
            assert(!others@.contains(indexes@[at as int]));
            return false;
        }
        at += 1;
    }
    true
}

impl AudioOrbitApp {
    /// The entries of the track list.
    fn track_entries(&self) -> (entries: Vec<ListEntry>)
        ensures
            listing::entry_views(entries@) == self@.entries(),
    {
        match self.current_playlist() {
            Some(shown) => {
                let groups = shown.folder_groups();
                assert(shown@.tracks.map_values(|track: TrackView| track.group)
                    =~= groups_of(shown@.tracks));
                assert(text::texts(groups@).len() == groups@.len());
                let headed = shown.selected_group.is_none() && groups.len() > 1;
                let visible = self.visible_track_indexes();
                listing::build_entries(
                    &shown.tracks,
                    &visible,
                    headed,
                    &self.browsing.collapsed_groups,
                )
            },
            None => {
                let none: Vec<ListEntry> = Vec::new();
                assert(listing::entry_views(none@) =~= Seq::empty());
                none
            },
        }
    }

    /// The track list with the place of each entry.
    pub fn track_list(&self) -> (list: TrackList)
        ensures
            listing::entry_views(list.entries@) == self@.entries(),
            list.places@ == listing::entry_places(self@.entries()),
    {
        let entries = self.track_entries();
        let places = listing::place_entries(&entries);
        TrackList { entries, places }
    }

    /// The visible tracks of a group.
    pub fn visible_tracks_of_group(&self, group: &str) -> (indexes: Vec<usize>)
        ensures
            indexes@ == self@.visible_of_group(group@),
    {
        match self.current_playlist() {
            Some(shown) => {
                let visible = self.visible_track_indexes();
                of_group(&shown.tracks, &visible, group)
            },
            None => Vec::new(),
        }
    }

    /// Whether all visible tracks of a group are repeated.
    pub fn folder_group_is_repeated(&self, group: &str) -> (repeated: bool)
        ensures
            repeated == self@.group_is_repeated(group@),
    {
        let indexes = self.visible_tracks_of_group(group);
        indexes.len() > 0 && all_contained(&indexes, &self.selected_track_indexes)
    }

    /// Repeats tracks, or no longer repeats them.
    fn set_repeated(&mut self, indexes: &Vec<usize>, repeated: bool)
        ensures
            final(self)@ == old(self)@.with_repeated(indexes@, repeated),
    {
        if repeated {
            index_set::insert_indexes(&mut self.selected_track_indexes, indexes);
        } else {
            index_set::remove_indexes(&mut self.selected_track_indexes, indexes);
        }
        self.persist_repeat_selection_for_current_playlist();
        self.save_state_silently();
    }

    /// Repeats a track, or no longer repeats it.
    pub fn set_track_repeated(&mut self, index: usize, repeated: bool)
        ensures
            final(self)@ == old(self)@.with_repeated(seq![index], repeated),
    {
        let mut indexes: Vec<usize> = Vec::new();
        indexes.push(index);
        assert(indexes@ =~= seq![index]);
        self.set_repeated(&indexes, repeated);
    }

    /// Repeats the visible tracks of a group, or no longer repeats them.
    pub fn set_folder_group_repeated(&mut self, group: &str, repeated: bool)
        ensures
            final(self)@ == old(self)@.with_repeated(
                old(self)@.visible_of_group(group@),
                repeated,
            ),
    {
        let indexes = self.visible_tracks_of_group(group);
        self.set_repeated(&indexes, repeated);
    }

    /// How the row of a track is shown; nothing where the track is not there.
    pub fn track_row_state(&self, index: usize) -> (row: Option<RowState>)
        ensures
            row == if self@.has_track(index) {
                Some(self@.row_state(index))
            } else {
                None
            },
    {
        let shown = match self.current_playlist() {
            Some(shown) => shown,
            None => return None,
        };
        assert(shown@.tracks.len() == shown.tracks@.len());
        if index >= shown.tracks.len() {
            return None;
        }
        assert(shown@.tracks[index as int] == shown.tracks@[index as int]@);
        let selected = if self.multi_selected_track_indexes.len() == 0 {
            self.selected_track_index == Some(index)
        } else {
            index_set::contains_index(&self.multi_selected_track_indexes, index)
        };
        let path = &shown.tracks[index].path;
        let playing = match &self.active_track_path {
            Some(active) => paths::same_path(active.as_str(), path.as_str()),
            None => false,
        };
        Some(
            RowState {
                selected,
                playing,
                favorite: self.is_favorite(path.as_str()),
                missing: shown.tracks[index].missing,
                repeated: index_set::contains_index(&self.selected_track_indexes, index),
            },
        )
    }

    /// The row of the first track with the key of a path.
    fn find_row(&self, entries: &Vec<ListEntry>, path: &Option<String>) -> (position: Option<
        usize,
    >)
        requires
            listing::entry_views(entries@) == self@.entries(),
        ensures
            position == self@.row_of(paths::text_of(*path)),
    {
        match path {
            Some(path) => match self.current_playlist() {
                Some(shown) => {
                    assert(entries@.len() == self@.entries().len());
                    listing::find_row_of_path(entries, &shown.tracks, path.as_str())
                },
                None => None,
            },
            None => None,
        }
    }

    /// The entries that are scrolled to; they are not asked for again, but for a group that
    /// has no heading. While the list is empty the playing track is still asked for.
    pub fn take_scroll_requests(&mut self, list: &TrackList) -> (targets: ScrollTargets)
        requires
            listing::entry_views(list.entries@) == old(self)@.entries(),
        ensures
            targets == old(self)@.scroll_targets(),
            final(self)@ == old(self)@.with_scroll_done(),
    {
        let requested_row = self.find_row(
            &list.entries,
            &self.browsing.scroll_to_track_path_requested,
        );
        let playing_row = if self.browsing.scroll_to_active_track_requested {
            self.find_row(&list.entries, &self.active_track_path)
        } else {
            None
        };
        let heading = match &self.browsing.scroll_to_folder_group_requested {
            Some(group) => {
                assert(list.entries@.len() == self@.entries().len());
                listing::find_heading_of(&list.entries, group.as_str())
            },
            None => None,
        };
        assert(list.entries@.len() == self@.entries().len());
        if self.current_playlist().is_some() {
            if list.entries.len() == 0 {
                self.forget_path_request();
            } else {
                self.forget_row_requests();
                if heading.is_some() {
                    self.forget_heading_request();
                }
            }
        }
        ScrollTargets { requested_row, playing_row, heading }
    }

    /// Forgets which path was asked to be scrolled to.
    fn forget_path_request(&mut self)
        ensures
            final(self)@ == old(self)@.without_path_request(),
    {
        self.browsing.scroll_to_track_path_requested = None;
    }

    /// Forgets which row was asked to be scrolled to.
    fn forget_row_requests(&mut self)
        ensures
            final(self)@ == old(self)@.without_row_requests(),
    {
        self.browsing.scroll_to_track_path_requested = None;
        self.browsing.scroll_to_active_track_requested = false;
    }

    /// Forgets which heading was asked to be scrolled to.
    fn forget_heading_request(&mut self)
        ensures
            final(self)@ == old(self)@.without_heading_request(),
    {
        self.browsing.scroll_to_folder_group_requested = None;
    }

    /// Sets which search result is next.
    fn set_search_cursor(&mut self, cursor: usize)
        ensures
            final(self)@ == old(self)@.with_search_cursor(cursor),
    {
        self.browsing.search_cursor = cursor;
    }

    /// Selects the next search result.
    pub fn select_next_search_result(&mut self)
        ensures
            final(self)@ == old(self)@.with_next_result(),
    {
        let results = self.visible_track_indexes();
        if results.len() == 0 || text::is_blank(self.browsing.track_search_query.as_str()) {
            return;
        }
        let at: usize = self.browsing.search_cursor % results.len();
        let next: usize = results[at];
        self.select_only_track_for_action(next);
        self.set_search_cursor(position_behind(at, results.len()));
    }

    /// Keeps in the state whether playback is kept to the search results.
    fn keep_filtered_playback(&mut self, filtered: bool)
        ensures
            final(self)@ == old(self)@.with_layout(
                UiView { search_playback_filtered_only: filtered, ..old(self)@.state.ui },
            ),
    {
        self.state.ui.search_playback_filtered_only = filtered;
        assert(self.state@ =~= (StateView {
            ui: UiView { search_playback_filtered_only: filtered, ..old(self)@.state.ui },
            ..old(self)@.state
        }));
    }

    /// Keeps playback to the search results, or no longer does.
    pub fn set_search_playback_filtered(&mut self, filtered: bool)
        ensures
            final(self)@ == old(self)@.with_filtered_playback(filtered),
    {
        self.browsing.search_playback_filtered_only = filtered;
        self.keep_filtered_playback(filtered);
        self.save_state_silently();
    }

    /// Shows the details of a track.
    pub fn open_track_details(&mut self, path: &str)
        ensures
            final(self)@ == old(self)@.with_track_details(path@),
    {
        self.dialogs.details_modal = Some(DetailsModal::Track(path.to_owned()));
        assert(self@ =~= old(self)@.with_track_details(path@));
    }
}

// ---------------------------------------------------------------------------
// Dragging
// ---------------------------------------------------------------------------

/// The row that the pointer is over while a track is dragged.
#[derive(Clone, Copy, Debug, PartialEq, Eq, Structural)]
pub struct HoveredRow {
    pub index: usize,
    pub next_track: Option<usize>,
    pub lower_half: bool,
}

impl AppView {
    /// The application with a track being dragged, and where it would be dropped.
    pub open spec fn with_drag(self, dragging: Option<usize>, target: Option<usize>) -> AppView {
        AppView {
            browsing: BrowsingView {
                dragging_track_index: dragging,
                track_drop_target_index: target,
                ..self.browsing
            },
            ..self
        }
    }

    /// Where the dragged track would be dropped now.
    pub open spec fn hovered_place(self, hovered: Option<HoveredRow>) -> Option<usize> {
        match hovered {
            Some(row) => if self.browsing.dragging_track_index is Some && self.current() is Some {
                Some(
                    listing::drop_place(
                        row.index,
                        row.next_track,
                        row.lower_half,
                        self.current()->0.tracks.len() as usize,
                    ),
                )
            } else {
                None
            },
            None => None,
        }
    }

    /// The application with the dragged track moved along with the pointer. Where it is let go
    /// over another place, it is moved there.
    pub open spec fn with_track_dragged(
        self,
        hovered: Option<HoveredRow>,
        released: bool,
        pressed: bool,
    ) -> AppView {
        let place = self.hovered_place(hovered);
        let from = self.browsing.dragging_track_index;
        if released && place is Some && from->0 != place->0 && from->0 + 1 != place->0 {
            self.with_drag(None, None).with_track_moved_to(from->0, place->0)
        } else if !pressed {
            self.with_drag(None, None)
        } else if place is Some {
            self.with_drag(from, place)
        } else {
            self
        }
    }
}

impl AudioOrbitApp {
    /// Begins to drag a track.
    pub fn begin_track_drag(&mut self, index: usize)
        ensures
            final(self)@ == old(self)@.with_drag(Some(index), None),
    {
        self.set_track_drag(Some(index), None);
    }

    /// Sets which track is dragged, and where it would be dropped.
    fn set_track_drag(&mut self, dragging: Option<usize>, target: Option<usize>)
        ensures
            final(self)@ == old(self)@.with_drag(dragging, target),
    {
        self.browsing.dragging_track_index = dragging;
        self.browsing.track_drop_target_index = target;
    }

    /// Moves the dragged track along with the pointer, and drops it where it is let go.
    pub fn update_track_drag(
        &mut self,
        hovered: Option<HoveredRow>,
        released: bool,
        pressed: bool,
    )
        ensures
            final(self)@ == old(self)@.with_track_dragged(hovered, released, pressed),
    {
        let from = self.browsing.dragging_track_index;
        let place: Option<usize> = match hovered {
            Some(row) => match self.current_playlist() {
                Some(shown) => {
                    assert(shown@.tracks.len() == shown.tracks.len());
                    if from.is_some() {
                        Some(
                            listing::find_drop_place(
                                row.index,
                                row.next_track,
                                row.lower_half,
                                shown.tracks.len(),
                            ),
                        )
                    } else {
                        None
                    }
                },
                None => None,
            },
            None => None,
        };
        if let (Some(from), Some(to)) = (from, place) {
            if released && Self::valid_drop_target(from, to) {
                self.set_track_drag(None, None);
                self.move_track_to_index_in_current_playlist(from, to);
                return;
            }
        }
        if !pressed {
            self.set_track_drag(None, None);
        } else if place.is_some() {
            self.set_track_drag(from, place);
        }
    }
}

} // verus!
