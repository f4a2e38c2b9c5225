//! Moving about: panels, dialogs, searches, messages and the window.

use crate::app::{
    AppPanelModal, AppView, AudioOrbitApp, BrowsingView, DialogsView, MainContentTab,
    MessagesView,
};
use crate::counting;
use crate::grouping;
use crate::lookup;
use crate::paths;
use crate::playlist;
use crate::playlist::{Playlist, PlaylistView};
use crate::seeking;
use crate::settings::UiView;
use crate::state::StateView;
use crate::text;
use crate::track::Track;
use vstd::prelude::*;
use vstd::string::*;

verus! {

// ---------------------------------------------------------------------------
// Panels, searches and messages
// ---------------------------------------------------------------------------

/// How long a message is shown, in milliseconds.
pub const MESSAGE_LIFETIME_MILLIS: u64 = 10_000;

/// The messages after a look at the clock: a status line or an error that has not changed for
/// long enough goes away.
pub open spec fn aged_messages(messages: MessagesView, now: u64) -> MessagesView {
    let status_aged = if messages.status != messages.status_last_seen {
        MessagesView {
            status_last_seen: messages.status,
            status_updated_at: now,
            ..messages
        }
    } else if messages.status.len() > 0 && seeking::elapsed(now, messages.status_updated_at)
        >= MESSAGE_LIFETIME_MILLIS {
        MessagesView {
            status: Seq::empty(),
            status_last_seen: Seq::empty(),
            status_updated_at: now,
            ..messages
        }
    } else {
        messages
    };
    if status_aged.error != status_aged.error_last_seen {
        MessagesView {
            error_last_seen: status_aged.error,
            error_updated_at: now,
            ..status_aged
        }
    } else if status_aged.error is Some && seeking::elapsed(now, status_aged.error_updated_at)
        >= MESSAGE_LIFETIME_MILLIS {
        MessagesView { error: None, error_last_seen: None, error_updated_at: now, ..status_aged }
    } else {
        status_aged
    }
}

impl AppView {
    /// The application with another layout to save.
    pub open spec fn with_layout(self, ui: UiView) -> AppView {
        AppView { state: StateView { ui, ..self.state }, ..self }
    }

    /// The application with a panel open; one that was open before comes back once it closes.
    pub open spec fn with_panel_open(self, panel: AppPanelModal) -> AppView {
        if self.dialogs.active_panel_modal == Some(panel) {
            self
        } else {
            AppView {
                dialogs: DialogsView {
                    active_panel_modal: Some(panel),
                    panel_modal_history: match self.dialogs.active_panel_modal {
                        Some(current) => self.dialogs.panel_modal_history.push(current),
                        None => self.dialogs.panel_modal_history,
                    },
                    ..self.dialogs
                },
                ..self
            }
        }
    }

    /// The application with the open panel closed.
    pub open spec fn with_panel_closed(self) -> AppView {
        let history = self.dialogs.panel_modal_history;
        AppView {
            dialogs: DialogsView {
                active_panel_modal: if history.len() > 0 {
                    Some(history.last())
                } else {
                    None
                },
                panel_modal_history: if history.len() > 0 {
                    history.drop_last()
                } else {
                    history
                },
                ..self.dialogs
            },
            ..self
        }
    }

    /// The application without what was searched for.
    pub open spec fn without_track_query(self) -> AppView {
        AppView {
            browsing: BrowsingView {
                track_search_query: Seq::empty(),
                search_cursor: 0,
                ..self.browsing
            },
            ..self
        }
    }

    /// The application with the track search shown or hidden; a hidden one forgets its query.
    pub open spec fn with_track_search_shown(self, shown: bool) -> AppView {
        let kept = if shown {
            self
        } else {
            self.without_track_query()
        };
        AppView { browsing: BrowsingView { show_track_search: shown, ..kept.browsing }, ..kept }
    }

    /// The application with the track search shown or hidden, now and in the next run.
    pub open spec fn with_track_search(self, shown: bool) -> AppView {
        self.with_track_search_shown(shown).with_layout(
            UiView { show_track_search: shown, ..self.state.ui },
        ).saved()
    }

    /// The application with the track search closed, where it is open.
    pub open spec fn with_track_search_closed(self) -> AppView {
        if self.browsing.show_track_search {
            self.with_track_search(false)
        } else {
            self
        }
    }

    /// The application with the radio search shown or hidden; a hidden one forgets its query.
    pub open spec fn with_radio_search(self, shown: bool) -> AppView {
        let kept = if shown {
            self
        } else {
            self.without_radio_query()
        };
        AppView { browsing: BrowsingView { show_radio_search: shown, ..kept.browsing }, ..kept }
    }

    /// The application without what was searched for among the stations.
    pub open spec fn without_radio_query(self) -> AppView {
        AppView {
            browsing: BrowsingView { radio_search_query: Seq::empty(), ..self.browsing },
            ..self
        }
    }

    /// The application with the radio search closed, where it is open.
    pub open spec fn with_radio_search_closed(self) -> AppView {
        if self.browsing.show_radio_search {
            self.with_radio_search(false)
        } else {
            self
        }
    }

    /// The application with the search of the shown tab opened, ready to type, or closed.
    pub open spec fn with_search_toggled(self) -> AppView {
        if self.browsing.active_tab == MainContentTab::Radio {
            let shown = !self.browsing.show_radio_search;
            (AppView {
                browsing: BrowsingView { focus_radio_search: shown, ..self.browsing },
                ..self
            }).with_radio_search(shown)
        } else {
            let shown = !self.browsing.show_track_search;
            (AppView {
                browsing: BrowsingView { focus_track_search: shown, ..self.browsing },
                ..self
            }).with_track_search(shown)
        }
    }

    /// The application with the import dialog closed.
    pub open spec fn without_import_dialog(self) -> AppView {
        AppView {
            dialogs: DialogsView { show_folder_import_modal: false, ..self.dialogs },
            ..self
        }
    }

    /// The application with the dialog closed that adds a radio station.
    pub open spec fn without_radio_dialog(self) -> AppView {
        AppView { dialogs: DialogsView { show_radio_add_modal: false, ..self.dialogs }, ..self }
    }

    /// The application with the details closed.
    pub open spec fn without_details(self) -> AppView {
        AppView { dialogs: DialogsView { details_modal: None, ..self.dialogs }, ..self }
    }

    /// The application after the escape key: the topmost of what is open is closed.
    pub open spec fn with_topmost_closed(self) -> AppView {
        if self.dialogs.active_panel_modal is Some {
            self.with_panel_closed()
        } else if self.dialogs.show_folder_import_modal {
            self.without_import_dialog()
        } else if self.dialogs.show_radio_add_modal {
            self.without_radio_dialog()
        } else if self.dialogs.show_new_playlist_modal {
            self.without_new_playlist_asked()
        } else if self.dialogs.pending_track_delete_confirmation is Some {
            self.without_deletion_asked()
        } else if self.dialogs.details_modal is Some {
            self.without_details()
        } else if self.browsing.show_track_search {
            self.with_track_search_closed()
        } else if self.browsing.show_radio_search {
            self.with_radio_search_closed()
        } else {
            self
        }
    }

    /// The application with the library panel shown or hidden, unless only the player is
    /// shown.
    pub open spec fn with_library_panel_toggled(self) -> AppView {
        let shown = !self.browsing.show_library_panel;
        if self.browsing.player_only_mode {
            self
        } else {
            (AppView {
                browsing: BrowsingView { show_library_panel: shown, ..self.browsing },
                ..self
            }).with_layout(UiView { show_library_panel: shown, ..self.state.ui }).saved()
        }
    }

    /// The application with the profile panel shown or hidden, unless only the player is
    /// shown.
    pub open spec fn with_profile_panel_toggled(self) -> AppView {
        let shown = !self.browsing.show_profile_panel;
        if self.browsing.player_only_mode {
            self
        } else {
            (AppView {
                browsing: BrowsingView { show_profile_panel: shown, ..self.browsing },
                ..self
            }).with_layout(UiView { show_profile_panel: shown, ..self.state.ui }).saved()
        }
    }
}

impl AudioOrbitApp {
    /// Opens a panel; one that was open before comes back once it closes.
    pub fn open_panel_modal(&mut self, panel: AppPanelModal)
        ensures
            final(self)@ == old(self)@.with_panel_open(panel),
    {
        let ghost start = self@;
        if let Some(current) = self.dialogs.active_panel_modal {
            if current == panel {
                return;
            }
            self.dialogs.panel_modal_history.push(current);
        }
        self.dialogs.active_panel_modal = Some(panel);
        assert(self@ =~= start.with_panel_open(panel));
    }

    /// Closes the open panel.
    pub fn close_panel_modal(&mut self)
        ensures
            final(self)@ == old(self)@.with_panel_closed(),
    {
        let ghost start = self@;
        self.dialogs.active_panel_modal = self.dialogs.panel_modal_history.pop();
        assert(self@ =~= start.with_panel_closed());
    }

    /// Keeps in the state whether the track search is shown.
    fn keep_track_search(&mut self, shown: bool)
        ensures
            final(self)@ == old(self)@.with_layout(
                UiView { show_track_search: shown, ..old(self)@.state.ui },
            ),
    {
        self.state.ui.show_track_search = shown;
        assert(self.state@ =~= (StateView {
            ui: UiView { show_track_search: shown, ..old(self)@.state.ui },
            ..old(self)@.state
        }));
    }

    /// Keeps in the state whether the library panel is shown.
    fn keep_library_panel(&mut self, shown: bool)
        ensures
            final(self)@ == old(self)@.with_layout(
                UiView { show_library_panel: shown, ..old(self)@.state.ui },
            ),
    {
        self.state.ui.show_library_panel = shown;
        assert(self.state@ =~= (StateView {
            ui: UiView { show_library_panel: shown, ..old(self)@.state.ui },
            ..old(self)@.state
        }));
    }

    /// Keeps in the state whether the profile panel is shown.
    fn keep_profile_panel(&mut self, shown: bool)
        ensures
            final(self)@ == old(self)@.with_layout(
                UiView { show_profile_panel: shown, ..old(self)@.state.ui },
            ),
    {
        self.state.ui.show_profile_panel = shown;
        assert(self.state@ =~= (StateView {
            ui: UiView { show_profile_panel: shown, ..old(self)@.state.ui },
            ..old(self)@.state
        }));
    }

    /// Forgets what was searched for.
    pub fn clear_track_search(&mut self)
        ensures
            final(self)@ == old(self)@.without_track_query(),
    {
        self.browsing.track_search_query = String::new();
        self.browsing.search_cursor = 0;
    }

    /// Shows or hides the track search.
    fn show_track_search(&mut self, shown: bool)
        ensures
            final(self)@ == old(self)@.with_track_search_shown(shown),
    {
        if !shown {
            self.clear_track_search();
        }
        self.browsing.show_track_search = shown;
    }

    /// Shows or hides the track search, now and in the next run.
    fn set_track_search(&mut self, shown: bool)
        ensures
            final(self)@ == old(self)@.with_track_search(shown),
    {
        self.show_track_search(shown);
        self.keep_track_search(shown);
        self.save_state_silently();
    }

    /// Forgets what was searched for among the stations.
    fn clear_radio_query(&mut self)
        ensures
            final(self)@ == old(self)@.without_radio_query(),
    {
        let ghost start = self@;
        let none = String::new();
        assert(none@ =~= Seq::empty());
        self.browsing.radio_search_query = none;
        assert(self@ =~= start.without_radio_query());
    }

    /// Shows or hides the radio search.
    fn set_radio_search(&mut self, shown: bool)
        ensures
            final(self)@ == old(self)@.with_radio_search(shown),
    {
        if !shown {
            self.clear_radio_query();
        }
        self.browsing.show_radio_search = shown;
    }

    /// Closes the track search, where it is open.
    pub fn close_track_search(&mut self)
        ensures
            final(self)@ == old(self)@.with_track_search_closed(),
    {
        if self.browsing.show_track_search {
            self.set_track_search(false);
        }
    }

    /// Closes the radio search, where it is open.
    pub fn close_radio_search(&mut self)
        ensures
            final(self)@ == old(self)@.with_radio_search_closed(),
    {
        if self.browsing.show_radio_search {
            self.set_radio_search(false);
        }
    }

    /// Opens the search of the shown tab, ready to type, or closes it.
    pub fn toggle_search(&mut self)
        ensures
            final(self)@ == old(self)@.with_search_toggled(),
    {
        if self.browsing.active_tab == MainContentTab::Radio {
            let shown = !self.browsing.show_radio_search;
            self.browsing.focus_radio_search = shown;
            self.set_radio_search(shown);
        } else {
            let shown = !self.browsing.show_track_search;
            self.browsing.focus_track_search = shown;
            self.set_track_search(shown);
        }
    }

    /// Closes the import dialog.
    pub fn close_folder_import_modal(&mut self)
        ensures
            final(self)@ == old(self)@.without_import_dialog(),
    {
        self.dialogs.show_folder_import_modal = false;
    }

    /// Closes the dialog that adds a radio station.
    pub fn close_radio_add_modal(&mut self)
        ensures
            final(self)@ == old(self)@.without_radio_dialog(),
    {
        self.dialogs.show_radio_add_modal = false;
    }

    /// Closes the details.
    pub fn close_details_modal(&mut self)
        ensures
            final(self)@ == old(self)@.without_details(),
    {
        self.dialogs.details_modal = None;
    }

    /// Closes the topmost of what is open, where the escape key was pressed.
    pub fn process_escape_navigation(&mut self, escape_pressed: bool)
        ensures
            final(self)@ == if escape_pressed {
                old(self)@.with_topmost_closed()
            } else {
                old(self)@
            },
    {
        if !escape_pressed {
            return;
        }
        if self.dialogs.active_panel_modal.is_some() {
            self.close_panel_modal();
        } else if self.dialogs.show_folder_import_modal {
            self.close_folder_import_modal();
        } else if self.dialogs.show_radio_add_modal {
            self.close_radio_add_modal();
        } else if self.dialogs.show_new_playlist_modal {
            self.close_new_playlist_modal();
        } else if self.dialogs.pending_track_delete_confirmation.is_some() {
            self.cancel_track_deletion();
        } else if self.dialogs.details_modal.is_some() {
            self.close_details_modal();
        } else if self.browsing.show_track_search {
            self.close_track_search();
        } else if self.browsing.show_radio_search {
            self.close_radio_search();
        }
    }

    /// Shows or hides the library panel, unless only the player is shown.
    pub fn toggle_library_panel(&mut self)
        ensures
            final(self)@ == old(self)@.with_library_panel_toggled(),
    {
        if self.browsing.player_only_mode {
            return;
        }
        let shown = !self.browsing.show_library_panel;
        self.browsing.show_library_panel = shown;
        self.keep_library_panel(shown);
        self.save_state_silently();
    }

    /// Shows or hides the profile panel, unless only the player is shown.
    pub fn toggle_profile_panel(&mut self)
        ensures
            final(self)@ == old(self)@.with_profile_panel_toggled(),
    {
        if self.browsing.player_only_mode {
            return;
        }
        let shown = !self.browsing.show_profile_panel;
        self.browsing.show_profile_panel = shown;
        self.keep_profile_panel(shown);
        self.save_state_silently();
    }

    /// Takes messages away that have been shown long enough.
    pub fn sync_status_lifetime(&mut self, now: u64)
        ensures
            final(self)@ == (AppView {
                messages: aged_messages(old(self)@.messages, now),
                ..old(self)@
            }),
    {
        let ghost start = self@.messages;
        if self.messages.status != self.messages.status_last_seen {
            self.messages.status_last_seen = self.messages.status.clone();
            self.messages.status_updated_at = now;
        } else if !self.messages.status.as_str().is_empty() && seeking::time_since(
            now,
            self.messages.status_updated_at,
        ) >= MESSAGE_LIFETIME_MILLIS {
            self.messages.status = String::new();
            self.messages.status_last_seen = String::new();
            self.messages.status_updated_at = now;
        }
        if !same_message(&self.messages.error, &self.messages.error_last_seen) {
            self.messages.error_last_seen = self.messages.error.clone();
            self.messages.error_updated_at = now;
        } else if self.messages.error.is_some() && seeking::time_since(
            now,
            self.messages.error_updated_at,
        ) >= MESSAGE_LIFETIME_MILLIS {
            self.messages.error = None;
            self.messages.error_last_seen = None;
            self.messages.error_updated_at = now;
        }
        assert(self.messages@ =~= aged_messages(start, now));
    }
}

/// Whether two messages are the same.
fn same_message(left: &Option<String>, right: &Option<String>) -> (same: bool)
    ensures
        same == (paths::text_of(*left) == paths::text_of(*right)),
{
    match left {
        Some(left) => match right {
            Some(right) => text::same_text(left.as_str(), right.as_str()),
            None => false,
        },
        None => right.is_none(),
    }
}

/// Closing a panel that was opened over another, or over none, leads back to where it was.
pub proof fn panel_closes_to_where_it_opened(view: AppView, panel: AppPanelModal)
    requires
        view.dialogs.active_panel_modal != Some(panel),
        view.dialogs.active_panel_modal is None ==> view.dialogs.panel_modal_history.len() == 0,
    ensures
        view.with_panel_open(panel).with_panel_closed() == view,
{
    let back = view.with_panel_open(panel).with_panel_closed();
    assert(back.dialogs.panel_modal_history =~= view.dialogs.panel_modal_history);
    assert(back =~= view);
}

// ---------------------------------------------------------------------------
// Finding tracks
// ---------------------------------------------------------------------------

/// The condition that a playlist has a track with the key of a path.
pub open spec fn holds_path(
    playlists: Seq<PlaylistView>,
    path: Seq<char>,
) -> spec_fn(int) -> bool {
    |i: int| playlist::has_path(playlists[i].tracks, path)
}

/// The first playlist with a track that has the key of a path, and where it stands there.
pub open spec fn location_of(playlists: Seq<PlaylistView>, path: Seq<char>) -> Option<
    (usize, usize),
> {
    match counting::first_where(playlists.len(), holds_path(playlists, path)) {
        Some(index) => match lookup::position_of_path(playlists[index as int].tracks, path) {
            Some(position) => Some((index, position)),
            None => None,
        },
        None => None,
    }
}

/// The condition that a group is another one.
pub open spec fn other_group(group: Seq<char>) -> spec_fn(Seq<char>) -> bool {
    |other: Seq<char>| other != group
}

/// The hidden groups with one more, or without it where it is hidden.
pub open spec fn toggled_groups(groups: Seq<Seq<char>>, group: Seq<char>) -> Seq<Seq<char>> {
    if groups.contains(group) {
        groups.filter(other_group(group))
    } else {
        groups.push(group)
    }
}

impl AppView {
    /// Where the playing track is found: in the playlist it is played from, else anywhere.
    pub open spec fn playing_location(self) -> Option<(usize, usize)> {
        match self.active_track_path {
            Some(path) => match self.playing_position_anywhere() {
                Some(position) => Some((self.active_playlist_index->0, position)),
                None => location_of(self.state.playlists, path),
            },
            None => None,
        }
    }

    /// The application with all groups of a playlist shown.
    pub open spec fn with_all_groups(self, index: usize) -> AppView {
        self.with_playlists(
            self.state.playlists.update(
                index as int,
                PlaylistView { selected_group: None, ..self.state.playlists[index as int] },
            ),
        )
    }

    /// The application with the playing station in view.
    pub open spec fn with_playing_station_in_view(self, index: usize) -> AppView {
        (AppView {
            state: StateView { selected_radio_index: Some(index), ..self.state },
            browsing: BrowsingView {
                active_tab: MainContentTab::Radio,
                radio_show_favorites_only: false,
                radio_search_query: Seq::empty(),
                scroll_to_active_radio_requested: true,
                ..self.browsing
            },
            ..self
        }).saved()
    }

    /// The application with what is playing in view.
    pub open spec fn with_now_playing_in_view(self) -> AppView {
        match self.radio.active_index {
            Some(index) => self.with_playing_station_in_view(index),
            None => match self.playing_location() {
                Some(place) => self.with_track_in_view(place.0, place.1).with_all_groups(
                    place.0,
                ).without_track_query().saved(),
                None => self,
            },
        }
    }

    /// The application with a track of a playlist in view, where the playlist has it.
    pub open spec fn with_track_found(self, index: usize, expected: Seq<char>) -> AppView {
        if index >= self.state.playlists.len() {
            self
        } else {
            let list = self.state.playlists[index as int];
            match lookup::position_of_path(list.tracks, expected) {
                Some(position) => {
                    let path = list.tracks[position as int].path;
                    let shown = self.with_playlist_selected(index).without_track_query()
                        .with_all_groups(index);
                    let selected = (AppView {
                        selected_track_index: lookup::position_of_path(list.tracks, path),
                        ..shown
                    }).without_multi_selection();
                    (AppView {
                        browsing: BrowsingView {
                            scroll_to_active_track_requested: false,
                            scroll_to_folder_group_requested: None,
                            scroll_to_track_path_requested: Some(path),
                            ..selected.browsing
                        },
                        ..selected
                    }).with_status(
                        "Found "@ + paths::display_name(path) + " in "@ + list.name + "."@,
                    ).saved()
                },
                None => self,
            }
        }
    }

    /// The application with the tracks of a group hidden or shown, and the group in view.
    pub open spec fn with_group_toggled(self, group: Seq<char>) -> AppView {
        AppView {
            browsing: BrowsingView {
                collapsed_groups: toggled_groups(self.browsing.collapsed_groups, group),
                scroll_to_folder_group_requested: Some(group),
                ..self.browsing
            },
            ..self
        }
    }

    /// What is said of how many tracks are shown.
    pub open spec fn count_label(self) -> Option<Seq<char>> {
        if self.browsing.active_tab != MainContentTab::Music {
            None
        } else {
            match self.current() {
                Some(shown) => {
                    let total = shown.tracks.len();
                    let visible = self.visible().len();
                    if total == 0 {
                        None
                    } else if self.browsing.show_track_search && !text::is_blank_text(
                        self.browsing.track_search_query,
                    ) && visible != total {
                        Some(text::decimal(visible) + "/"@ + text::decimal(total) + " tracks"@)
                    } else {
                        Some(text::decimal(total) + " tracks"@)
                    }
                },
                None => None,
            }
        }
    }

    /// The text that is copied for a playing station.
    pub open spec fn station_text(self, index: usize) -> Seq<char> {
        if self.radio.title is Some && !text::is_blank_text(self.radio.title->0) {
            self.radio.title->0
        } else if self.radio.station_name is Some && !text::is_blank_text(
            self.radio.station_name->0,
        ) {
            self.radio.station_name->0
        } else if index < self.state.radio_stations.len() {
            self.state.radio_stations[index as int].name
        } else {
            "Internet radio"@
        }
    }

    /// The application with what is playing on the radio put on the clipboard.
    pub open spec fn with_radio_title_copied(self) -> AppView {
        match self.radio.active_index {
            Some(index) => {
                let copied = self.station_text(index);
                (AppView {
                    dialogs: DialogsView {
                        pending_clipboard_text: Some(copied),
                        ..self.dialogs
                    },
                    ..self
                }).with_status("Radio info copied: "@ + copied + "."@).with_error(None)
            },
            None => self.with_error(
                Some("Start an internet radio station before copying track info."@),
            ),
        }
    }
}

/// The first playlist with a track that has the key of a path, and where it stands there.
fn find_location(playlists: &Vec<Playlist>, path: &str) -> (place: Option<(usize, usize)>)
    ensures
        place == location_of(playlist::playlist_views(playlists@), path@),
        place matches Some(at) ==> at.0 < playlists@.len() && at.1
            < playlists@[at.0 as int].tracks@.len(),
{
    let ghost views = playlist::playlist_views(playlists@);
    let ghost wanted = holds_path(views, path@);
    let mut index: usize = 0;
    while index < playlists.len()
        invariant
            index <= playlists@.len(),
            views == playlist::playlist_views(playlists@),
            wanted == holds_path(views, path@),
            forall|i: int| 0 <= i < index ==> !#[trigger] wanted(i),
        decreases playlists@.len() - index,
    {
        assert(views[index as int] == playlists@[index as int]@);
        proof {
            assert(playlists@[index as int].tracks.len() == views[index as int].tracks.len());
            lookup::path_is_found(views[index as int].tracks, path@);
        }
        if let Some(position) = lookup::find_path(&playlists[index].tracks, path) {
            proof {
                assert(wanted(index as int));
                assert(playlists.len() == views.len());
                counting::first_where_is(views.len(), wanted, index as int);
            }
            return Some((index, position));
        }
        assert(!wanted(index as int));
        index += 1;
    }
    proof {
        assert(playlists.len() == views.len());
        counting::first_where_none(views.len(), wanted);
    }
    None
}

/// Takes a group out of a list.
fn drop_group(groups: &mut Vec<String>, group: &str)
    ensures
        text::texts(final(groups)@) == text::texts(old(groups)@).filter(other_group(group@)),
{
    let ghost all = text::texts(groups@);
    let ghost keep = other_group(group@);
    let mut items: Vec<String> = Vec::new();
    std::mem::swap(&mut items, groups);
    let mut kept: Vec<String> = Vec::new();
    proof {
        grouping::filter_all_or_none(all.take(0), keep);
        assert(all.take(0).filter(keep) =~= Seq::empty());
        assert(text::texts(kept@) =~= Seq::empty());
    }
    for item in iter: items
        invariant
            all == text::texts(iter.seq()),
            keep == other_group(group@),
            text::texts(kept@) == all.take(iter.index()).filter(keep),
    {
        proof {
            grouping::filter_next(all, keep, iter.index());
            assert(all[iter.index()] == item@);
        }
        if !text::same_text(item.as_str(), group) {
            let ghost before = kept@;
            kept.push(item);
            assert(text::texts(kept@) =~= text::texts(before).push(item@));
        }
    }
    assert(all.take(all.len() as int) =~= all);
    *groups = kept;
}

/// Hides a group, or shows it where it is hidden.
fn toggle_group(groups: &mut Vec<String>, group: &str)
    ensures
        text::texts(final(groups)@) == toggled_groups(text::texts(old(groups)@), group@),
{
    if text::list_contains(groups, group) {
        drop_group(groups, group);
    } else {
        let ghost before = groups@;
        let added = group.to_owned();
        groups.push(added);
        assert(text::texts(groups@) =~= text::texts(before).push(group@));
    }
}

impl AudioOrbitApp {
    /// The first playlist with a track that has the key of a path, and where it stands there.
    pub fn find_track_location(&self, path: &str) -> (place: Option<(usize, usize)>)
        ensures
            place == location_of(self@.state.playlists, path@),
            place matches Some(at) ==> at.0 < self.state.playlists@.len() && at.1
                < self.state.playlists@[at.0 as int].tracks@.len(),
    {
        find_location(&self.state.playlists, path)
    }

    /// The first track anywhere that has the key of a path.
    pub fn find_track_by_path(&self, path: &str) -> (found: Option<&Track>)
        ensures
            match found {
                Some(track) => location_of(self@.state.playlists, path@) matches Some(place)
                    && track@ == self@.state.playlists[place.0 as int].tracks[place.1 as int],
                None => location_of(self@.state.playlists, path@) is None,
            },
    {
        match self.find_track_location(path) {
            Some((playlist_index, track_index)) => {
                assert(self@.state.playlists[playlist_index as int]
                    == self.state.playlists@[playlist_index as int]@);
                Some(&self.state.playlists[playlist_index].tracks[track_index])
            },
            None => None,
        }
    }

    /// Where the playing track is found.
    fn find_playing_location(&self) -> (place: Option<(usize, usize)>)
        ensures
            place == self@.playing_location(),
            place matches Some(at) ==> at.0 < self.state.playlists@.len(),
    {
        match &self.active_track_path {
            Some(path) => match self.active_playlist_index {
                Some(index) => match self.find_playing_anywhere() {
                    Some(position) => Some((index, position)),
                    None => self.find_track_location(path.as_str()),
                },
                None => self.find_track_location(path.as_str()),
            },
            None => None,
        }
    }

    /// Shows all groups of a playlist.
    fn show_all_groups(&mut self, index: usize)
        requires
            index < old(self)@.state.playlists.len(),
        ensures
            final(self)@ == old(self)@.with_all_groups(index),
    {
        let ghost start = self@;
        let ghost before = self.state.playlists@;
        assert(start.state.playlists[index as int] == before[index as int]@);
        self.state.playlists[index].set_selected_group(None);
        assert(playlist::playlist_views(self.state.playlists@) =~= start.state.playlists.update(
            index as int,
            PlaylistView { selected_group: None, ..start.state.playlists[index as int] },
        ));
        assert(self@ =~= start.with_all_groups(index));
    }

    /// Brings the playing station into view.
    fn bring_playing_station_into_view(&mut self, index: usize)
        ensures
            final(self)@ == old(self)@.with_playing_station_in_view(index),
    {
        let ghost start = self@;
        self.browsing.active_tab = MainContentTab::Radio;
        self.browsing.radio_show_favorites_only = false;
        self.browsing.radio_search_query = String::new();
        self.browsing.scroll_to_active_radio_requested = true;
        let ghost browsing = self@.browsing;
        assert(self@ =~= (AppView { browsing, ..start }));
        self.state.selected_radio_index = Some(index);
        assert(self@ =~= (AppView {
            browsing,
            state: StateView { selected_radio_index: Some(index), ..start.state },
            ..start
        }));
        self.save_state_silently();
    }

    /// Brings what is playing into view.
    pub fn jump_to_now_playing(&mut self)
        ensures
            final(self)@ == old(self)@.with_now_playing_in_view(),
    {
        if let Some(index) = self.radio.active_index {
            self.bring_playing_station_into_view(index);
            return;
        }
        let (playlist_index, track_index) = match self.find_playing_location() {
            Some(place) => place,
            None => return,
        };
        self.bring_track_into_view(playlist_index, track_index);
        self.show_all_groups(playlist_index);
        self.clear_track_search();
        self.save_state_silently();
    }

    /// Asks for a path to be scrolled to, and for nothing else.
    fn scroll_to_path(&mut self, path: String)
        ensures
            final(self)@ == (AppView {
                browsing: BrowsingView {
                    scroll_to_active_track_requested: false,
                    scroll_to_folder_group_requested: None,
                    scroll_to_track_path_requested: Some(path@),
                    ..old(self)@.browsing
                },
                ..old(self)@
            }),
    {
        self.browsing.scroll_to_active_track_requested = false;
        self.browsing.scroll_to_folder_group_requested = None;
        self.browsing.scroll_to_track_path_requested = Some(path);
    }

    /// Brings a track of a playlist into view, where the playlist has it.
    pub fn jump_to_track_in_playlist(&mut self, playlist_index: usize, expected_path: &str)
        ensures
            final(self)@ == old(self)@.with_track_found(playlist_index, expected_path@),
    {
        let ghost start = self@;
        if playlist_index >= self.state.playlists.len() {
            return;
        }
        let ghost list = start.state.playlists[playlist_index as int];
        assert(list == self.state.playlists@[playlist_index as int]@);
        assert(list.tracks.len() == self.state.playlists@[playlist_index as int].tracks.len());
        let position: usize = match lookup::find_path(
            &self.state.playlists[playlist_index].tracks,
            expected_path,
        ) {
            Some(position) => position,
            None => return,
        };
        let path = self.state.playlists[playlist_index].tracks[position].path.clone();
        let name = self.state.playlists[playlist_index].name.clone();
        let selected = lookup::find_path(
            &self.state.playlists[playlist_index].tracks,
            path.as_str(),
        );
        self.select_playlist(playlist_index);
        self.clear_track_search();
        assert(self@.state.playlists.len() == start.state.playlists.len());
        self.show_all_groups(playlist_index);
        self.selected_track_index = selected;
        self.clear_multi_track_selection();
        let mut status = "Found ".to_owned();
        status.append(paths::display_file_name(path.as_str()).as_str());
        status.append(" in ");
        status.append(name.as_str());
        status.append(".");
        self.scroll_to_path(path);
        self.set_status(status);
        self.save_state_silently();
    }

    /// Asks for a group to be scrolled to.
    pub fn request_folder_group_top(&mut self, group: &str)
        ensures
            final(self)@ == (AppView {
                browsing: BrowsingView {
                    scroll_to_folder_group_requested: Some(group@),
                    ..old(self)@.browsing
                },
                ..old(self)@
            }),
    {
        self.browsing.scroll_to_folder_group_requested = Some(group.to_owned());
    }

    /// Hides or shows the tracks of a group, and brings the group into view.
    pub fn toggle_folder_group_collapsed_and_focus(&mut self, group: &str)
        ensures
            final(self)@ == old(self)@.with_group_toggled(group@),
    {
        toggle_group(&mut self.browsing.collapsed_groups, group);
        self.request_folder_group_top(group);
    }

    /// What is said of how many tracks are shown.
    pub fn playlist_count_label(&self) -> (label: Option<String>)
        ensures
            paths::text_of(label) == self@.count_label(),
    {
        if self.browsing.active_tab != MainContentTab::Music {
            return None;
        }
        let total: usize = match self.current_playlist() {
            Some(shown) => {
                assert(shown@.tracks.len() == shown.tracks@.len());
                shown.tracks.len()
            },
            None => return None,
        };
        if total == 0 {
            return None;
        }
        let visible: usize = self.visible_track_indexes().len();
        let mut label = String::new();
        if self.browsing.show_track_search && !text::is_blank(
            self.browsing.track_search_query.as_str(),
        ) && visible != total {
            label.append(text::decimal_text(visible as u64).as_str());
            label.append("/");
        }
        label.append(text::decimal_text(total as u64).as_str());
        label.append(" tracks");
        assert(label@ =~= self@.count_label()->0);
        Some(label)
    }

    /// The text that is copied for a playing station.
    fn text_of_station(&self, index: usize) -> (copied: String)
        ensures
            copied@ == self@.station_text(index),
    {
        if let Some(title) = &self.radio.title {
            if !text::is_blank(title.as_str()) {
                return title.clone();
            }
        }
        if let Some(name) = &self.radio.station_name {
            if !text::is_blank(name.as_str()) {
                return name.clone();
            }
        }
        if index < self.state.radio_stations.len() {
            assert(self@.state.radio_stations[index as int]
                == self.state.radio_stations@[index as int]@);
            self.state.radio_stations[index].name.clone()
        } else {
            "Internet radio".to_owned()
        }
    }

    /// Puts what is playing on the radio on the clipboard.
    pub fn copy_current_radio_title(&mut self)
        ensures
            final(self)@ == old(self)@.with_radio_title_copied(),
    {
        let index: usize = match self.radio.active_index {
            Some(index) => index,
            None => {
                self.fail("Start an internet radio station before copying track info.");
                return;
            },
        };
        let copied = self.text_of_station(index);
        let mut status = "Radio info copied: ".to_owned();
        status.append(copied.as_str());
        status.append(".");
        self.dialogs.pending_clipboard_text = Some(copied);
        self.set_status(status);
        self.set_error(None);
    }

    /// Takes the text for the clipboard, where there is one.
    pub fn take_clipboard_text(&mut self) -> (copied: Option<String>)
        ensures
            paths::text_of(copied) == old(self)@.dialogs.pending_clipboard_text,
            final(self)@ == (AppView {
                dialogs: DialogsView { pending_clipboard_text: None, ..old(self)@.dialogs },
                ..old(self)@
            }),
    {
        let mut copied: Option<String> = None;
        std::mem::swap(&mut copied, &mut self.dialogs.pending_clipboard_text);
        copied
    }
}

/// Hiding the tracks of a group and showing them again leaves the hidden groups as they were.
pub proof fn group_toggled_twice(view: AppView, group: Seq<char>)
    requires
        !view.browsing.collapsed_groups.contains(group),
    ensures
        view.with_group_toggled(group).with_group_toggled(group).browsing.collapsed_groups
            == view.browsing.collapsed_groups,
{
    let groups = view.browsing.collapsed_groups;
    let more = groups.push(group);
    assert(more[groups.len() as int] == group);
    assert(more.contains(group));
    reveal(Seq::filter);
    assert(more.drop_last() =~= groups);
    grouping::filter_all_or_none(groups, other_group(group));
    assert forall|i: int| 0 <= i < groups.len() implies other_group(group)(#[trigger] groups[i]) by {
        assert(groups.contains(groups[i]));
    }
}

} // verus!
