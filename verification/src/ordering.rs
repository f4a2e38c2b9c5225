//! The order of playlists, tracks, groups and stations, and how changes of it are undone.

use crate::app;
use crate::app::{AppView, AudioOrbitApp, BrowsingView, OrderUndoSnapshot, OrderUndoView};
use crate::counting;
use crate::grouping;
use crate::index_set;
use crate::lookup;
use crate::moving;
use crate::paths;
use crate::playlist;
use crate::playlist::{Playlist, PlaylistKind, PlaylistView};
use crate::settings;
use crate::settings::{RadioStation, RadioStationView};
use crate::sorting;
use crate::sorting::SortKey;
use crate::state::StateView;
use crate::text;
use crate::track;
use crate::track::{Track, TrackView};
use vstd::prelude::*;
use vstd::string::*;

verus! {

/// How many changes of order can be undone.
pub const MAX_ORDER_UNDO_STEPS: usize = 50;

// ---------------------------------------------------------------------------
// Adding, removing and moving playlists
// ---------------------------------------------------------------------------

/// Where an entry is once the one at `removed` is gone.
pub open spec fn moved_forward(index: Option<usize>, removed: usize) -> Option<usize> {
    match index {
        Some(at) => if at > removed {
            Some((at - 1) as usize)
        } else {
            Some(at)
        },
        None => None,
    }
}

/// Where an entry is once the one at `removed` is gone.
fn move_forward(index: Option<usize>, removed: usize) -> (moved: Option<usize>)
    ensures
        moved == moved_forward(index, removed),
{
    match index {
        Some(at) => if at > removed {
            Some(at - 1)
        } else {
            Some(at)
        },
        None => None,
    }
}

impl AppView {
    /// The application with one more playlist, which is shown.
    pub open spec fn with_playlist_added(self) -> AppView {
        let kept = self.with_repeat_kept();
        let lists = kept.state.playlists.push(
            playlist::empty_playlist(
                "Playlist "@ + text::decimal(self.state.playlists.len() + 1),
                2,
                PlaylistKind::Manual,
            ),
        );
        let shown = (AppView {
            state: StateView {
                playlists: lists,
                selected_playlist_index: self.state.playlists.len() as usize,
                ..kept.state
            },
            ..kept
        }).with_repeat_restored();
        (AppView { selected_track_index: None, ..shown }).with_status(
            "Created a new playlist."@,
        ).saved()
    }

    /// The application with its playback stopped, where it plays from a playlist.
    pub open spec fn with_playlist_silenced(self, index: usize) -> AppView {
        if self.active_playlist_index == Some(index) {
            self.stopped()
        } else {
            self
        }
    }

    /// The application without one of its playlists. The one before it is shown, and playback
    /// from a later one goes on from there.
    pub open spec fn without_playlist(self, removed: usize) -> AppView {
        AppView {
            state: StateView {
                playlists: self.state.playlists.remove(removed as int),
                selected_playlist_index: if removed == 0 {
                    0
                } else {
                    (removed - 1) as usize
                },
                ..self.state
            },
            active_playlist_index: moved_forward(self.active_playlist_index, removed),
            ..self
        }
    }

    /// The application without the shown playlist, and with a track of the next shown one
    /// selected.
    pub open spec fn with_shown_playlist_dropped(self) -> AppView {
        let removed = self.state.selected_playlist_index;
        self.with_playlist_silenced(removed).without_playlist(
            removed,
        ).with_repeat_restored().with_first_eligible_selected()
    }

    /// The application without the shown playlist, where it may be removed. Playback from it
    /// is stopped; other playback goes on.
    pub open spec fn with_playlist_removed(self) -> AppView {
        let removed = self.state.selected_playlist_index;
        match self.current() {
            Some(shown) => if !shown.kind.is_deletable() {
                self.with_error(Some("Favorites is built-in and cannot be deleted."@))
            } else if self.state.playlists.len() <= 1 {
                self.with_error(Some("At least one playlist is required."@))
            } else {
                self.with_shown_playlist_dropped().with_status(
                    if self.active_playlist_index == Some(removed) {
                        "Removed playlist and stopped its active playback."@
                    } else {
                        "Removed playlist. Current playback was left running."@
                    },
                ).saved()
            },
            None => self,
        }
    }

    /// The application with a playlist exchanged with its neighbor.
    pub open spec fn with_playlist_moved(self, from: usize, delta: isize) -> AppView {
        let to = moving::neighbor(from, delta, self.state.playlists.len());
        if from >= self.state.playlists.len() || from == to {
            self
        } else {
            (AppView {
                state: StateView {
                    playlists: moving::swapped(self.state.playlists, from as int, to as int),
                    selected_playlist_index: if self.state.selected_playlist_index == from {
                        to
                    } else if self.state.selected_playlist_index == to {
                        from
                    } else {
                        self.state.selected_playlist_index
                    },
                    ..self.state
                },
                ..self
            }).saved()
        }
    }
}

impl AudioOrbitApp {
    /// Adds a playlist and shows it.
    pub fn add_playlist(&mut self)
        ensures
            final(self)@ == old(self)@.with_playlist_added(),
    {
        self.persist_repeat_selection_for_current_playlist();
        let ghost kept = self@;
        let ghost before = self.state.playlists@;
        assert(kept.state.playlists.len() == old(self)@.state.playlists.len());
        let index: usize = self.state.playlists.len();
        self.state.playlists.push(Playlist::new(""));
        let mut name = "Playlist ".to_owned();
        name.append(text::decimal_text(self.state.playlists.len() as u64).as_str());
        self.state.playlists[index].name = name;
        self.state.selected_playlist_index = index;
        proof {
            let added = playlist::empty_playlist(
                "Playlist "@ + text::decimal(before.len() + 1),
                2,
                PlaylistKind::Manual,
            );
            assert(self.state.playlists@[index as int]@ =~= added);
            assert(playlist::playlist_views(self.state.playlists@) =~= kept.state.playlists.push(
                added,
            ));
        }
        self.restore_repeat_selection_for_current_playlist();
        self.selected_track_index = None;
        self.set_status("Created a new playlist.".to_owned());
        self.save_state_silently();
    }

    /// Stops the playback, where it comes from a playlist.
    fn silence_playlist(&mut self, index: usize)
        ensures
            final(self)@ == old(self)@.with_playlist_silenced(index),
    {
        if self.active_playlist_index == Some(index) {
            self.stop();
        }
    }

    /// Takes a playlist out and shows the one before it.
    fn drop_playlist(&mut self, removed: usize)
        requires
            removed < old(self)@.state.playlists.len(),
        ensures
            final(self)@ == old(self)@.without_playlist(removed),
    {
        let ghost start = self@;
        assert(self.state.playlists.len() == start.state.playlists.len());
        self.state.playlists.remove(removed);
        assert(playlist::playlist_views(self.state.playlists@) =~= start.state.playlists.remove(
            removed as int,
        ));
        self.state.selected_playlist_index = if removed == 0 {
            0
        } else {
            removed - 1
        };
        self.active_playlist_index = move_forward(self.active_playlist_index, removed);
    }

    /// Takes the shown playlist out and selects a track of the next shown one.
    fn drop_shown_playlist(&mut self)
        requires
            old(self)@.state.selected_playlist_index < old(self)@.state.playlists.len(),
        ensures
            final(self)@ == old(self)@.with_shown_playlist_dropped(),
    {
        let removed: usize = self.state.selected_playlist_index;
        self.silence_playlist(removed);
        assert(self@.state.playlists.len() == old(self)@.state.playlists.len());
        self.drop_playlist(removed);
        self.restore_repeat_selection_for_current_playlist();
        self.select_first_eligible_track();
    }

    /// Removes the shown playlist, where it may be removed.
    pub fn remove_current_playlist(&mut self)
        ensures
            final(self)@ == old(self)@.with_playlist_removed(),
    {
        let removed: usize = self.state.selected_playlist_index;
        if removed >= self.state.playlists.len() {
            return;
        }
        assert(self@.state.playlists[removed as int] == self.state.playlists@[removed as int]@);
        if !self.state.playlists[removed].kind.can_delete() {
            self.fail("Favorites is built-in and cannot be deleted.");
            return;
        }
        if self.state.playlists.len() <= 1 {
            self.fail("At least one playlist is required.");
            return;
        }
        let playing = self.active_playlist_index == Some(removed);
        self.drop_shown_playlist();
        if playing {
            self.set_status("Removed playlist and stopped its active playback.".to_owned());
        } else {
            self.set_status("Removed playlist. Current playback was left running.".to_owned());
        }
        self.save_state_silently();
    }

    /// Exchanges a playlist with its neighbor.
    pub fn move_playlist(&mut self, from: usize, delta: isize)
        ensures
            final(self)@ == old(self)@.with_playlist_moved(from, delta),
    {
        let ghost start = self@;
        assert(self.state.playlists.len() == start.state.playlists.len());
        if from >= self.state.playlists.len() {
            return;
        }
        let to: usize = moving::neighbor_of(from, delta, self.state.playlists.len());
        if from == to {
            return;
        }
        moving::swap_entries(&mut self.state.playlists, from, to);
        assert(playlist::playlist_views(self.state.playlists@) =~= moving::swapped(
            start.state.playlists,
            from as int,
            to as int,
        ));
        if self.state.selected_playlist_index == from {
            self.state.selected_playlist_index = to;
        } else if self.state.selected_playlist_index == to {
            self.state.selected_playlist_index = from;
        }
        self.save_state_silently();
    }
}

// ---------------------------------------------------------------------------
// Undo
// ---------------------------------------------------------------------------

/// A position, where it is below a length.
pub open spec fn within(index: Option<usize>, length: nat) -> Option<usize> {
    match index {
        Some(at) => if at < length {
            Some(at)
        } else {
            None
        },
        None => None,
    }
}

/// A position, where it is below a length.
fn keep_within(index: Option<usize>, length: usize) -> (kept: Option<usize>)
    ensures
        kept == within(index, length as nat),
{
    match index {
        Some(at) => if at < length {
            Some(at)
        } else {
            None
        },
        None => None,
    }
}

impl AppView {
    /// The application with one more change that can be undone; only the last ones are kept.
    pub open spec fn with_undo(self, snapshot: OrderUndoView) -> AppView {
        AppView {
            order_undo_stack: moving::last_entries(
                self.order_undo_stack.push(snapshot),
                MAX_ORDER_UNDO_STEPS as nat,
            ),
            ..self
        }
    }

    /// What a change in the shown playlist is undone to.
    pub open spec fn playlist_snapshot(self, shown: PlaylistView) -> OrderUndoView {
        OrderUndoView::Playlist {
            playlist_index: self.state.selected_playlist_index,
            playlist: shown,
            selected_track_index: self.selected_track_index,
            selected_track_indexes: self.selected_track_indexes,
            active_playlist_index: self.active_playlist_index,
            active_track_index: self.active_track_index,
            active_track_path: self.active_track_path,
        }
    }

    /// What a change of the stations is undone to.
    pub open spec fn radio_snapshot(self) -> OrderUndoView {
        OrderUndoView::Radio {
            stations: self.state.radio_stations,
            selected_radio_index: self.state.selected_radio_index,
            active_radio_index: self.radio.active_index,
            radio_selection_was_user_set: self.radio.selection_was_user_set,
        }
    }

    /// The application with the shown playlist kept for undoing.
    pub open spec fn with_playlist_undo(self) -> AppView {
        match self.current() {
            Some(shown) => self.with_undo(self.playlist_snapshot(shown)),
            None => self,
        }
    }

    /// The application with nothing dragged.
    pub open spec fn without_drag(self) -> AppView {
        AppView {
            browsing: BrowsingView {
                dragging_track_index: None,
                dragging_radio_index: None,
                track_drop_target_index: None,
                radio_drop_target_index: None,
                ..self.browsing
            },
            ..self
        }
    }

    /// The application with a snapshot put back.
    pub open spec fn with_snapshot(self, snapshot: OrderUndoView) -> AppView {
        match snapshot {
            OrderUndoView::Playlist {
                playlist_index,
                playlist,
                selected_track_index,
                selected_track_indexes,
                active_playlist_index,
                active_track_index,
                active_track_path,
            } => if playlist_index < self.state.playlists.len() {
                (AppView {
                    state: StateView {
                        playlists: self.state.playlists.update(playlist_index as int, playlist),
                        selected_playlist_index: playlist_index,
                        ..self.state
                    },
                    selected_track_index: within(selected_track_index, playlist.tracks.len()),
                    active_playlist_index,
                    active_track_index,
                    active_track_path,
                    ..self
                }).with_repeat_restored().with_status("Undid playlist order change."@)
            } else {
                self
            },
            OrderUndoView::Radio {
                stations,
                selected_radio_index,
                active_radio_index,
                radio_selection_was_user_set,
            } => (AppView {
                state: StateView {
                    radio_stations: stations,
                    selected_radio_index: within(selected_radio_index, stations.len()),
                    ..self.state
                },
                radio: app::RadioPlaybackView {
                    active_index: within(active_radio_index, stations.len()),
                    selection_was_user_set: radio_selection_was_user_set,
                    ..self.radio
                },
                ..self
            }).with_status("Undid radio order change."@),
        }
    }

    /// The application with the last change of order undone.
    pub open spec fn undone(self) -> AppView {
        if self.order_undo_stack.len() == 0 {
            self.with_status("Nothing to undo."@)
        } else {
            (AppView { order_undo_stack: self.order_undo_stack.drop_last(), ..self })
                .with_snapshot(self.order_undo_stack.last()).without_drag().saved()
        }
    }
}

/// A copy of a list of stations.
fn copy_stations(stations: &Vec<RadioStation>) -> (copy: Vec<RadioStation>)
    ensures
        settings::station_views(copy@) == settings::station_views(stations@),
{
    let copy = stations.clone();
    assert(settings::station_views(copy@) =~= settings::station_views(stations@));
    copy
}

impl AudioOrbitApp {
    /// Keeps a snapshot for undoing.
    fn push_order_undo(&mut self, snapshot: OrderUndoSnapshot)
        ensures
            final(self)@ == old(self)@.with_undo(snapshot@),
    {
        let ghost before = self.order_undo_stack@;
        self.order_undo_stack.push(snapshot);
        let ghost pushed = self.order_undo_stack@;
        assert(app::undo_views(pushed) =~= app::undo_views(before).push(snapshot@));
        self.trim_order_undo_stack();
        assert(self@ =~= old(self)@.with_undo(snapshot@));
    }

    /// Keeps only the last changes that can be undone.
    pub fn trim_order_undo_stack(&mut self)
        ensures
            final(self)@ == (AppView {
                order_undo_stack: moving::last_entries(
                    old(self)@.order_undo_stack,
                    MAX_ORDER_UNDO_STEPS as nat,
                ),
                ..old(self)@
            }),
    {
        let ghost before = self.order_undo_stack@;
        moving::keep_last_entries(&mut self.order_undo_stack, MAX_ORDER_UNDO_STEPS);
        assert(app::undo_views(self.order_undo_stack@) =~= moving::last_entries(
            app::undo_views(before),
            MAX_ORDER_UNDO_STEPS as nat,
        ));
        assert(self@ =~= (AppView {
            order_undo_stack: moving::last_entries(
                old(self)@.order_undo_stack,
                MAX_ORDER_UNDO_STEPS as nat,
            ),
            ..old(self)@
        }));
    }

    /// Keeps the shown playlist for undoing.
    pub fn push_playlist_order_undo(&mut self)
        ensures
            final(self)@ == old(self)@.with_playlist_undo(),
    {
        let copy = match self.current_playlist() {
            Some(shown) => shown.clone(),
            None => return,
        };
        let snapshot = OrderUndoSnapshot::Playlist {
            playlist_index: self.state.selected_playlist_index,
            playlist: copy,
            selected_track_index: self.selected_track_index,
            selected_track_indexes: index_set::copy_indexes(&self.selected_track_indexes),
            active_playlist_index: self.active_playlist_index,
            active_track_index: self.active_track_index,
            active_track_path: self.active_track_path.clone(),
        };
        assert(snapshot@ =~= self@.playlist_snapshot(copy@));
        self.push_order_undo(snapshot);
    }

    /// Keeps the stations for undoing.
    pub fn push_radio_order_undo(&mut self)
        ensures
            final(self)@ == old(self)@.with_undo(old(self)@.radio_snapshot()),
    {
        let snapshot = OrderUndoSnapshot::Radio {
            stations: copy_stations(&self.state.radio_stations),
            selected_radio_index: self.state.selected_radio_index,
            active_radio_index: self.radio.active_index,
            radio_selection_was_user_set: self.radio.selection_was_user_set,
        };
        assert(snapshot@ =~= self@.radio_snapshot());
        self.push_order_undo(snapshot);
    }

    /// Puts a snapshot back.
    fn restore_snapshot(&mut self, snapshot: OrderUndoSnapshot)
        ensures
            final(self)@ == old(self)@.with_snapshot(snapshot@),
    {
        match snapshot {
            OrderUndoSnapshot::Playlist {
                playlist_index,
                playlist,
                selected_track_index,
                selected_track_indexes,
                active_playlist_index,
                active_track_index,
                active_track_path,
            } => {
                if playlist_index < self.state.playlists.len() {
                    let count: usize = playlist.tracks.len();
                    assert(playlist@.tracks.len() == count);
                    self.replace_playlist(playlist_index, playlist);
                    self.state.selected_playlist_index = playlist_index;
                    self.selected_track_index = keep_within(selected_track_index, count);
                    self.active_playlist_index = active_playlist_index;
                    self.active_track_index = active_track_index;
                    self.active_track_path = active_track_path;
                    self.restore_repeat_selection_for_current_playlist();
                    self.set_status("Undid playlist order change.".to_owned());
                }
            },
            OrderUndoSnapshot::Radio {
                stations,
                selected_radio_index,
                active_radio_index,
                radio_selection_was_user_set,
            } => {
                let count: usize = stations.len();
                assert(settings::station_views(stations@).len() == count);
                self.state.radio_stations = stations;
                self.state.selected_radio_index = keep_within(selected_radio_index, count);
                self.radio.active_index = keep_within(active_radio_index, count);
                self.radio.selection_was_user_set = radio_selection_was_user_set;
                self.set_status("Undid radio order change.".to_owned());
            },
        }
        assert(self@ =~= old(self)@.with_snapshot(snapshot@));
    }

    /// Takes the last snapshot off the stack.
    fn pop_order_undo(&mut self) -> (snapshot: Option<OrderUndoSnapshot>)
        ensures
            match snapshot {
                Some(snapshot) => old(self)@.order_undo_stack.len() > 0 && snapshot@
                    == old(self)@.order_undo_stack.last() && final(self)@ == (AppView {
                    order_undo_stack: old(self)@.order_undo_stack.drop_last(),
                    ..old(self)@
                }),
                None => old(self)@.order_undo_stack.len() == 0 && final(self)@ == old(self)@,
            },
    {
        let ghost stack = self.order_undo_stack@;
        let snapshot = self.order_undo_stack.pop();
        proof {
            if snapshot is Some {
                assert(app::undo_views(self.order_undo_stack@) =~= app::undo_views(
                    stack,
                ).drop_last());
                assert(app::undo_views(stack).last() == snapshot->0@);
            }
        }
        snapshot
    }

    /// Forgets what is dragged.
    pub fn clear_drag(&mut self)
        ensures
            final(self)@ == old(self)@.without_drag(),
    {
        self.browsing.dragging_track_index = None;
        self.browsing.dragging_radio_index = None;
        self.browsing.track_drop_target_index = None;
        self.browsing.radio_drop_target_index = None;
        assert(self@ =~= old(self)@.without_drag());
    }

    /// Undoes the last change of order.
    pub fn undo_last_order_change(&mut self)
        ensures
            final(self)@ == old(self)@.undone(),
    {
        match self.pop_order_undo() {
            None => {
                self.set_status("Nothing to undo.".to_owned());
            },
            Some(snapshot) => {
                self.restore_snapshot(snapshot);
                self.clear_drag();
                self.save_state_silently();
            },
        }
    }

    /// Whether a drop at `to` would move the entry at `from`.
    pub fn valid_drop_target(from: usize, to: usize) -> (valid: bool)
        ensures
            valid == (from != to && from + 1 != to),
    {
        from != to && (to == 0 || to - 1 != from)
    }
}

// ---------------------------------------------------------------------------
// Reordering tracks
// ---------------------------------------------------------------------------

impl AppView {
    /// The application with the selected track and the playing track found again by their
    /// paths.
    pub open spec fn with_selection_found(self, selected: Option<Seq<char>>) -> AppView {
        let found = match selected {
            Some(path) => match self.current() {
                Some(shown) => lookup::position_of_path(shown.tracks, path),
                None => None,
            },
            None => None,
        };
        (AppView {
            selected_track_index: if found is Some {
                found
            } else {
                self.selected_track_index
            },
            active_track_index: if self.active_playlist_index == Some(
                self.state.selected_playlist_index,
            ) && self.active_track_path is Some {
                match self.current() {
                    Some(shown) => lookup::position_of_path(
                        shown.tracks,
                        self.active_track_path->0,
                    ),
                    None => None,
                }
            } else {
                self.active_track_index
            },
            ..self
        }).with_repeat_restored()
    }

    /// The application with other tracks in the shown playlist, which can be undone.
    pub open spec fn with_tracks_reordered(
        self,
        tracks: Seq<TrackView>,
        undo: bool,
        status: Seq<char>,
    ) -> AppView {
        let kept = self.with_repeat_kept();
        let pushed = if undo {
            kept.with_playlist_undo()
        } else {
            kept
        };
        (match pushed.current() {
            Some(shown) => pushed.with_current(PlaylistView { tracks, ..shown }),
            None => pushed,
        }).with_selection_found(kept.selected_path()).with_status(status).saved()
    }

    /// The application with the shown playlist sorted by name.
    pub open spec fn with_tracks_sorted(self, ascending: bool) -> AppView {
        let tracks = match self.current() {
            Some(shown) => shown.tracks,
            None => Seq::empty(),
        };
        self.with_tracks_reordered(
            sorting::sorted(
                tracks,
                if ascending {
                    playlist::track_order()
                } else {
                    playlist::reversed_track_order()
                },
            ),
            tracks.len() > 1,
            if ascending {
                "Sorted current playlist A to Z."@
            } else {
                "Sorted current playlist Z to A."@
            },
        )
    }

    /// The application with a track exchanged with its neighbor.
    pub open spec fn with_track_moved(self, index: usize, delta: isize) -> AppView {
        match self.current() {
            Some(shown) => {
                let to = moving::neighbor(index, delta, shown.tracks.len());
                if index >= shown.tracks.len() || index == to {
                    self.with_repeat_kept()
                } else {
                    self.with_tracks_reordered(
                        moving::swapped(shown.tracks, index as int, to as int),
                        true,
                        "Moved track in playlist order."@,
                    )
                }
            },
            None => self.with_repeat_kept(),
        }
    }

    /// The application with a track moved before another one, or to the end.
    pub open spec fn with_track_moved_to(self, from: usize, to: usize) -> AppView {
        match self.current() {
            Some(shown) => if from >= shown.tracks.len() || to > shown.tracks.len() {
                self.with_repeat_kept()
            } else {
                self.with_tracks_reordered(
                    moving::moved(shown.tracks, from as int, to as int),
                    true,
                    "Moved track in playlist order."@,
                )
            },
            None => self.with_repeat_kept(),
        }
    }
}

impl AudioOrbitApp {
    /// Finds the selected track and the playing track again by their paths.
    pub fn restore_track_selection_after_reorder(&mut self, selected_path: Option<String>)
        ensures
            final(self)@ == old(self)@.with_selection_found(paths::text_of(selected_path)),
    {
        let mut found: Option<usize> = None;
        let mut playing: Option<usize> = self.active_track_index;
        let active_is_shown = self.active_playlist_index == Some(
            self.state.selected_playlist_index,
        );
        if let Some(shown) = self.current_playlist() {
            if let Some(path) = &selected_path {
                found = lookup::find_path(&shown.tracks, path.as_str());
            }
        }
        if active_is_shown {
            if let Some(active) = &self.active_track_path {
                playing = match self.current_playlist() {
                    Some(shown) => lookup::find_path(&shown.tracks, active.as_str()),
                    None => None,
                };
            }
        }
        if found.is_some() {
            self.selected_track_index = found;
        }
        self.active_track_index = playing;
        self.restore_repeat_selection_for_current_playlist();
    }

    /// Puts other tracks into the shown playlist, after it was kept for undoing.
    fn reorder_tracks(&mut self, selected_path: Option<String>, tracks: Vec<Track>, status: &str)
        requires
            old(self)@.current() is Some,
        ensures
            ({
                let shown = old(self)@.current()->0;
                final(self)@ == old(self)@.with_current(
                    PlaylistView { tracks: track::track_views(tracks@), ..shown },
                ).with_selection_found(paths::text_of(selected_path)).with_status(
                    status@,
                ).saved()
            }),
    {
        let index: usize = self.state.selected_playlist_index;
        let ghost before = self.state.playlists@;
        assert(self@.state.playlists[index as int] == before[index as int]@);
        self.state.playlists[index].tracks = tracks;
        assert(playlist::playlist_views(self.state.playlists@) =~= playlist::playlist_views(
            before,
        ).update(index as int, self.state.playlists@[index as int]@));
        self.restore_track_selection_after_reorder(selected_path);
        self.set_status(status.to_owned());
        self.save_state_silently();
    }

    /// Takes the tracks of the shown playlist.
    fn copy_shown_tracks(&self) -> (tracks: Option<Vec<Track>>)
        ensures
            match tracks {
                Some(tracks) => self@.current() is Some && track::track_views(tracks@)
                    == self@.current()->0.tracks,
                None => self@.current() is None,
            },
    {
        match self.current_playlist() {
            Some(shown) => {
                let tracks = shown.tracks.clone();
                assert(track::track_views(tracks@) =~= track::track_views(shown.tracks@));
                Some(tracks)
            },
            None => None,
        }
    }

    /// Sorts the shown playlist by group, title and path.
    pub fn sort_current_playlist_by_name(&mut self, ascending: bool)
        ensures
            final(self)@ == old(self)@.with_tracks_sorted(ascending),
    {
        self.persist_repeat_selection_for_current_playlist();
        let ghost kept = self@;
        let selected_path = self.selected_track_path();
        let index: usize = self.state.selected_playlist_index;
        if index < self.state.playlists.len() {
            assert(kept.state.playlists[index as int] == self.state.playlists@[index as int]@);
            assert(kept.current()->0.tracks == old(self)@.current()->0.tracks);
            assert(self.state.playlists@[index as int].tracks@.len()
                == kept.current()->0.tracks.len());
            if self.state.playlists[index].tracks.len() > 1 {
                self.push_playlist_order_undo();
            }
            let ghost before = self.state.playlists@;
            assert(self@.state.playlists[index as int] == before[index as int]@);
            self.state.playlists[index].sort_tracks_by_name(ascending);
            assert(playlist::playlist_views(self.state.playlists@) =~= playlist::playlist_views(
                before,
            ).update(index as int, self.state.playlists@[index as int]@));
        }
        self.restore_track_selection_after_reorder(selected_path);
        if ascending {
            self.set_status("Sorted current playlist A to Z.".to_owned());
        } else {
            self.set_status("Sorted current playlist Z to A.".to_owned());
        }
        self.save_state_silently();
    }

    /// Exchanges a track with its neighbor.
    pub fn move_track_in_current_playlist(&mut self, index: usize, delta: isize)
        ensures
            final(self)@ == old(self)@.with_track_moved(index, delta),
    {
        self.persist_repeat_selection_for_current_playlist();
        let selected_path = self.selected_track_path();
        let mut tracks = match self.copy_shown_tracks() {
            Some(tracks) => tracks,
            None => return,
        };
        let ghost all = track::track_views(tracks@);
        assert(all.len() == tracks.len());
        if index >= tracks.len() {
            return;
        }
        let to: usize = moving::neighbor_of(index, delta, tracks.len());
        if index == to {
            return;
        }
        self.push_playlist_order_undo();
        moving::swap_entries(&mut tracks, index, to);
        assert(track::track_views(tracks@) =~= moving::swapped(all, index as int, to as int));
        self.reorder_tracks(selected_path, tracks, "Moved track in playlist order.");
    }

    /// Moves a track before another one, or to the end.
    pub fn move_track_to_index_in_current_playlist(&mut self, from: usize, to: usize)
        ensures
            final(self)@ == old(self)@.with_track_moved_to(from, to),
    {
        self.persist_repeat_selection_for_current_playlist();
        let selected_path = self.selected_track_path();
        let mut tracks = match self.copy_shown_tracks() {
            Some(tracks) => tracks,
            None => return,
        };
        let ghost all = track::track_views(tracks@);
        assert(all.len() == tracks.len());
        if from >= tracks.len() || to > tracks.len() {
            return;
        }
        self.push_playlist_order_undo();
        moving::move_entry(&mut tracks, from, to);
        assert(track::track_views(tracks@) =~= moving::moved(all, from as int, to as int));
        self.reorder_tracks(selected_path, tracks, "Moved track in playlist order.");
    }
}

// ---------------------------------------------------------------------------
// Moving groups
// ---------------------------------------------------------------------------

/// The groups of the tracks, in the order of their first tracks.
pub open spec fn groups_in_order(tracks: Seq<TrackView>) -> Seq<Seq<char>>
    decreases tracks.len(),
{
    if tracks.len() == 0 {
        Seq::empty()
    } else {
        let before = groups_in_order(tracks.drop_last());
        if before.contains(tracks.last().group) {
            before
        } else {
            before.push(tracks.last().group)
        }
    }
}

/// The tracks group by group, in the given order of the groups.
pub open spec fn by_groups(tracks: Seq<TrackView>, groups: Seq<Seq<char>>) -> Seq<TrackView>
    decreases groups.len(),
{
    if groups.len() == 0 {
        Seq::empty()
    } else {
        by_groups(tracks, groups.drop_last()) + grouping::in_group(tracks, groups.last())
    }
}

/// The condition that a group stands at a place.
pub open spec fn is_group_at(groups: Seq<Seq<char>>, group: Seq<char>) -> spec_fn(int) -> bool {
    |i: int| groups[i] == group
}

impl AppView {
    /// The application with a group of tracks exchanged with its neighbor.
    pub open spec fn with_group_moved(self, group: Seq<char>, delta: isize) -> AppView {
        match self.current() {
            Some(shown) => {
                let groups = groups_in_order(shown.tracks);
                match counting::first_where(groups.len(), is_group_at(groups, group)) {
                    Some(position) => {
                        let to = moving::neighbor(position, delta, groups.len());
                        if position == to {
                            self.with_repeat_kept()
                        } else {
                            self.with_tracks_reordered(
                                by_groups(
                                    shown.tracks,
                                    moving::swapped(groups, position as int, to as int),
                                ),
                                true,
                                "Moved folder group: "@ + group + "."@,
                            )
                        }
                    },
                    None => self.with_repeat_kept(),
                }
            },
            None => self.with_repeat_kept(),
        }
    }
}

/// The groups of the tracks, in the order of their first tracks.
fn list_groups(tracks: &Vec<Track>) -> (groups: Vec<String>)
    ensures
        text::texts(groups@) == groups_in_order(track::track_views(tracks@)),
{
    let ghost all = track::track_views(tracks@);
    let mut groups: Vec<String> = Vec::new();
    let mut index: usize = 0;
    assert(all.take(0) =~= Seq::empty());
    assert(text::texts(groups@) =~= Seq::empty());
    while index < tracks.len()
        invariant
            index <= tracks@.len(),
            all == track::track_views(tracks@),
            text::texts(groups@) == groups_in_order(all.take(index as int)),
        decreases tracks@.len() - index,
    {
        assert(all.take(index + 1).drop_last() =~= all.take(index as int));
        assert(all.take(index + 1).last() == tracks@[index as int]@);
        if !text::list_contains(&groups, tracks[index].group.as_str()) {
            let ghost before = groups@;
            groups.push(tracks[index].group.clone());
            assert(text::texts(groups@) =~= text::texts(before).push(
                tracks@[index as int].group@,
            ));
        }
        index += 1;
    }
    assert(all.take(all.len() as int) =~= all);
    groups
}

/// Where a group stands in a list.
fn find_group(groups: &Vec<String>, group: &str) -> (position: Option<usize>)
    ensures
        position == counting::first_where(
            text::texts(groups@).len(),
            is_group_at(text::texts(groups@), group@),
        ),
        position matches Some(index) ==> index < groups@.len(),
{
    let ghost all = text::texts(groups@);
    let ghost wanted = is_group_at(all, group@);
    let mut index: usize = 0;
    while index < groups.len()
        invariant
            index <= groups@.len(),
            all == text::texts(groups@),
            wanted == is_group_at(all, group@),
            forall|i: int| 0 <= i < index ==> !#[trigger] wanted(i),
        decreases groups@.len() - index,
    {
        if text::same_text(groups[index].as_str(), group) {
            proof {
                assert(all[index as int] == groups@[index as int]@);
                assert(wanted(index as int));
                assert(groups.len() == all.len());
                counting::first_where_is(all.len(), wanted, index as int);
            }
            return Some(index);
        }
        assert(all[index as int] == groups@[index as int]@);
        index += 1;
    }
    proof {
        assert(groups.len() == all.len());
        counting::first_where_none(all.len(), wanted);
    }
    None
}

/// Copies of the tracks of a group, in order.
fn copy_group(tracks: &Vec<Track>, group: &str) -> (matching: Vec<Track>)
    ensures
        track::track_views(matching@) == grouping::in_group(
            track::track_views(tracks@),
            group@,
        ),
{
    let ghost all = track::track_views(tracks@);
    let ghost same = |track: TrackView| track.group == group@;
    let mut matching: Vec<Track> = Vec::new();
    let mut index: usize = 0;
    proof {
        grouping::filter_all_or_none(all.take(0), same);
        assert(all.take(0).filter(same) =~= Seq::empty());
        assert(track::track_views(matching@) =~= Seq::empty());
    }
    while index < tracks.len()
        invariant
            index <= tracks@.len(),
            all == track::track_views(tracks@),
            same == (|track: TrackView| track.group == group@),
            track::track_views(matching@) == all.take(index as int).filter(same),
        decreases tracks@.len() - index,
    {
        proof {
            grouping::filter_next(all, same, index as int);
            assert(all[index as int] == tracks@[index as int]@);
        }
        if text::same_text(tracks[index].group.as_str(), group) {
            let ghost before = matching@;
            matching.push(tracks[index].clone());
            assert(track::track_views(matching@) =~= track::track_views(before).push(
                all[index as int],
            ));
        }
        index += 1;
    }
    assert(all.take(all.len() as int) =~= all);
    matching
}

/// Copies of the tracks group by group, in the given order of the groups.
fn arrange_by_groups(tracks: &Vec<Track>, groups: &Vec<String>) -> (result: Vec<Track>)
    ensures
        track::track_views(result@) == by_groups(
            track::track_views(tracks@),
            text::texts(groups@),
        ),
{
    let ghost all = track::track_views(tracks@);
    let ghost order = text::texts(groups@);
    let mut result: Vec<Track> = Vec::new();
    let mut index: usize = 0;
    assert(order.take(0) =~= Seq::empty());
    assert(track::track_views(result@) =~= Seq::empty());
    while index < groups.len()
        invariant
            index <= groups@.len(),
            all == track::track_views(tracks@),
            order == text::texts(groups@),
            track::track_views(result@) == by_groups(all, order.take(index as int)),
        decreases groups@.len() - index,
    {
        assert(order.take(index + 1).drop_last() =~= order.take(index as int));
        assert(order.take(index + 1).last() == groups@[index as int]@);
        let mut matching = copy_group(tracks, groups[index].as_str());
        let ghost before = result@;
        let ghost added = matching@;
        result.append(&mut matching);
        assert(track::track_views(result@) =~= track::track_views(before) + track::track_views(
            added,
        ));
        index += 1;
    }
    assert(order.take(order.len() as int) =~= order);
    result
}

impl AudioOrbitApp {
    /// Exchanges a group of tracks with its neighbor.
    pub fn move_folder_group_in_current_playlist(&mut self, group: &str, delta: isize)
        ensures
            final(self)@ == old(self)@.with_group_moved(group@, delta),
    {
        self.persist_repeat_selection_for_current_playlist();
        let selected_path = self.selected_track_path();
        let tracks = match self.copy_shown_tracks() {
            Some(tracks) => tracks,
            None => return,
        };
        let mut groups = list_groups(&tracks);
        let ghost order = text::texts(groups@);
        let position: usize = match find_group(&groups, group) {
            Some(position) => position,
            None => return,
        };
        assert(order.len() == groups.len());
        let to: usize = moving::neighbor_of(position, delta, groups.len());
        if position == to {
            return;
        }
        self.push_playlist_order_undo();
        moving::swap_entries(&mut groups, position, to);
        assert(text::texts(groups@) =~= moving::swapped(order, position as int, to as int));
        let reordered = arrange_by_groups(&tracks, &groups);
        let mut status = "Moved folder group: ".to_owned();
        status.append(group);
        status.append(".");
        self.reorder_tracks(selected_path, reordered, status.as_str());
    }
}

// ---------------------------------------------------------------------------
// Reordering stations
// ---------------------------------------------------------------------------

/// Stations by name, whatever the case of letters, then by address.
pub open spec fn station_at_most(left: RadioStationView, right: RadioStationView) -> bool {
    let first = text::lowercase(left.name);
    let second = text::lowercase(right.name);
    if first != second {
        text::text_before(first, second)
    } else {
        !text::text_before(right.url, left.url)
    }
}

/// The order of stations by name and address.
pub open spec fn station_order() -> spec_fn(RadioStationView, RadioStationView) -> bool {
    |left: RadioStationView, right: RadioStationView| station_at_most(left, right)
}

/// The order of stations by name and address, reversed.
pub open spec fn reversed_station_order() -> spec_fn(RadioStationView, RadioStationView) -> bool {
    |left: RadioStationView, right: RadioStationView| station_at_most(right, left)
}

/// The key by which stations are sorted.
pub struct StationKey {
    pub name: String,
    pub url: String,
}

/// Lexicographic order of a name and an address.
pub open spec fn pair_at_most(left: (Seq<char>, Seq<char>), right: (Seq<char>, Seq<char>)) -> bool {
    if left.0 != right.0 {
        text::text_before(left.0, right.0)
    } else {
        !text::text_before(right.1, left.1)
    }
}

impl View for StationKey {
    type V = (Seq<char>, Seq<char>);

    open spec fn view(&self) -> (Seq<char>, Seq<char>) {
        (self.name@, self.url@)
    }
}

impl SortKey for StationKey {
    open spec fn at_most(self, other: Self) -> bool {
        pair_at_most(self@, other@)
    }

    proof fn at_most_total(left: Self, right: Self) {
        text::text_order_total(left@.0, right@.0);
        text::text_order_total(left@.1, right@.1);
    }

    proof fn at_most_transitive(first: Self, second: Self, third: Self) {
        text::text_order_total(first@.0, second@.0);
        text::text_order_total(second@.0, third@.0);
        text::text_order_total(first@.0, third@.0);
        text::text_order_total(first@.1, second@.1);
        text::text_order_total(second@.1, third@.1);
        text::text_order_total(first@.1, third@.1);
        if text::text_before(first@.0, second@.0) && text::text_before(second@.0, third@.0) {
            text::text_order_transitive(first@.0, second@.0, third@.0);
        }
        if text::text_before(first@.1, second@.1) && text::text_before(second@.1, third@.1) {
            text::text_order_transitive(first@.1, second@.1, third@.1);
        }
    }

    fn is_at_most(&self, other: &Self) -> (result: bool) {
        if self.name != other.name {
            text::is_before(self.name.as_str(), other.name.as_str())
        } else {
            !text::is_before(other.url.as_str(), self.url.as_str())
        }
    }
}

/// The stations sorted by name and address.
pub fn sorted_stations(stations: Vec<RadioStation>, ascending: bool) -> (result: Vec<RadioStation>)
    ensures
        settings::station_views(result@) == sorting::sorted(
            settings::station_views(stations@),
            if ascending {
                station_order()
            } else {
                reversed_station_order()
            },
        ),
{
    let ghost views = settings::station_views(stations@);
    let mut keys: Vec<StationKey> = Vec::new();
    let mut index: usize = 0;
    while index < stations.len()
        invariant
            index <= stations@.len(),
            views == settings::station_views(stations@),
            keys@.len() == index,
            forall|i: int|
                0 <= i < index ==> (#[trigger] keys@[i])@ == (
                    text::lowercase(views[i].name),
                    views[i].url,
                ),
        decreases stations@.len() - index,
    {
        assert(views[index as int] == stations@[index as int]@);
        keys.push(
            StationKey {
                name: stations[index].name.as_str().to_lowercase(),
                url: stations[index].url.clone(),
            },
        );
        index += 1;
    }
    proof {
        assert forall|i: int, j: int|
            0 <= i < keys@.len() && 0 <= j < keys@.len() implies station_order()(
            views[i],
            views[j],
        ) == SortKey::at_most(#[trigger] keys@[i], #[trigger] keys@[j]) by {
            assert(keys@[i]@ == (text::lowercase(views[i].name), views[i].url));
            assert(keys@[j]@ == (text::lowercase(views[j].name), views[j].url));
        }
    }
    if ascending {
        let (sorted, Ghost(order)) = sorting::sort_by_keys(stations, &keys);
        proof {
            sorting::stable_order_by_keys(order, keys@, views, station_order());
            assert(settings::station_views(sorted@) =~= sorting::arranged(views, order));
            sorting::sorted_unique(settings::station_views(sorted@), views, station_order());
        }
        sorted
    } else {
        let ghost forward = keys@;
        let reversed = sorting::reverse_keys(keys);
        let (sorted, Ghost(order)) = sorting::sort_by_keys(stations, &reversed);
        proof {
            assert forall|i: int, j: int|
                0 <= i < reversed@.len() && 0 <= j < reversed@.len() implies
            reversed_station_order()(views[i], views[j]) == SortKey::at_most(
                #[trigger] reversed@[i],
                #[trigger] reversed@[j],
            ) by {
                assert(station_order()(views[j], views[i]) == SortKey::at_most(
                    forward[j],
                    forward[i],
                ));
            }
            sorting::stable_order_by_keys(order, reversed@, views, reversed_station_order());
            assert(settings::station_views(sorted@) =~= sorting::arranged(views, order));
            sorting::sorted_unique(
                settings::station_views(sorted@),
                views,
                reversed_station_order(),
            );
        }
        sorted
    }
}

/// The address of the station at a position.
pub open spec fn url_at(stations: Seq<RadioStationView>, index: Option<usize>) -> Option<Seq<char>> {
    match index {
        Some(at) => if at < stations.len() {
            Some(stations[at as int].url)
        } else {
            None
        },
        None => None,
    }
}

/// Where the station with an address stands.
pub open spec fn place_of_url(
    stations: Seq<RadioStationView>,
    url: Option<Seq<char>>,
) -> Option<usize> {
    match url {
        Some(url) => lookup::position_of_url(stations, url),
        None => None,
    }
}

impl AppView {
    /// The application with other stations; the playing and the selected station are found
    /// again by their addresses.
    pub open spec fn with_stations_reordered(
        self,
        stations: Seq<RadioStationView>,
        status: Seq<char>,
    ) -> AppView {
        let active_url = url_at(self.state.radio_stations, self.radio.active_index);
        let selected_url = url_at(self.state.radio_stations, self.state.selected_radio_index);
        let selected = place_of_url(stations, selected_url);
        (AppView {
            state: StateView {
                radio_stations: stations,
                selected_radio_index: selected,
                ..self.state
            },
            radio: app::RadioPlaybackView {
                active_index: place_of_url(stations, active_url),
                selection_was_user_set: selected is Some,
                ..self.radio
            },
            ..self
        }).with_status(status).saved()
    }

    /// The application with its stations sorted by name.
    pub open spec fn with_stations_sorted(self, ascending: bool) -> AppView {
        (if self.state.radio_stations.len() > 1 {
            self.with_undo(self.radio_snapshot())
        } else {
            self
        }).with_stations_reordered(
            sorting::sorted(
                self.state.radio_stations,
                if ascending {
                    station_order()
                } else {
                    reversed_station_order()
                },
            ),
            if ascending {
                "Sorted radio stations A to Z."@
            } else {
                "Sorted radio stations Z to A."@
            },
        )
    }

    /// The application with a station exchanged with its neighbor.
    pub open spec fn with_station_moved(self, index: usize, delta: isize) -> AppView {
        let to = moving::neighbor(index, delta, self.state.radio_stations.len());
        if index >= self.state.radio_stations.len() || index == to {
            self
        } else {
            self.with_undo(self.radio_snapshot()).with_stations_reordered(
                moving::swapped(self.state.radio_stations, index as int, to as int),
                "Moved radio station."@,
            )
        }
    }

    /// The application with a station moved before another one, or to the end.
    pub open spec fn with_station_moved_to(self, from: usize, to: usize) -> AppView {
        if from >= self.state.radio_stations.len() || to > self.state.radio_stations.len() {
            self
        } else {
            self.with_undo(self.radio_snapshot()).with_stations_reordered(
                moving::moved(self.state.radio_stations, from as int, to as int),
                "Moved radio station."@,
            )
        }
    }
}

/// The address of the station at a position.
fn station_url_at(stations: &Vec<RadioStation>, index: Option<usize>) -> (url: Option<String>)
    ensures
        paths::text_of(url) == url_at(settings::station_views(stations@), index),
{
    match index {
        Some(at) => if at < stations.len() {
            assert(settings::station_views(stations@)[at as int] == stations@[at as int]@);
            Some(stations[at].url.clone())
        } else {
            None
        },
        None => None,
    }
}

/// Where the station with an address stands.
fn find_station(stations: &Vec<RadioStation>, url: &Option<String>) -> (position: Option<usize>)
    ensures
        position == place_of_url(settings::station_views(stations@), paths::text_of(*url)),
{
    match url {
        Some(url) => lookup::find_url(stations, url.as_str()),
        None => None,
    }
}

impl AudioOrbitApp {
    /// Puts other stations in place.
    fn reorder_stations(&mut self, stations: Vec<RadioStation>, status: &str)
        ensures
            final(self)@ == old(self)@.with_stations_reordered(
                settings::station_views(stations@),
                status@,
            ),
    {
        let active_url = station_url_at(&self.state.radio_stations, self.radio.active_index);
        let selected_url = station_url_at(
            &self.state.radio_stations,
            self.state.selected_radio_index,
        );
        self.state.radio_stations = stations;
        self.radio.active_index = find_station(&self.state.radio_stations, &active_url);
        self.state.selected_radio_index = find_station(&self.state.radio_stations, &selected_url);
        self.radio.selection_was_user_set = self.state.selected_radio_index.is_some();
        self.set_status(status.to_owned());
        self.save_state_silently();
    }

    /// Sorts the stations by name and address.
    pub fn sort_radio_stations_by_name(&mut self, ascending: bool)
        ensures
            final(self)@ == old(self)@.with_stations_sorted(ascending),
    {
        assert(self.state.radio_stations.len() == self@.state.radio_stations.len());
        if self.state.radio_stations.len() > 1 {
            self.push_radio_order_undo();
        }
        let sorted = sorted_stations(copy_stations(&self.state.radio_stations), ascending);
        if ascending {
            self.reorder_stations(sorted, "Sorted radio stations A to Z.");
        } else {
            self.reorder_stations(sorted, "Sorted radio stations Z to A.");
        }
    }

    /// Exchanges a station with its neighbor.
    pub fn move_radio_station(&mut self, index: usize, delta: isize)
        ensures
            final(self)@ == old(self)@.with_station_moved(index, delta),
    {
        let ghost all = self@.state.radio_stations;
        assert(self.state.radio_stations.len() == all.len());
        if index >= self.state.radio_stations.len() {
            return;
        }
        let to: usize = moving::neighbor_of(index, delta, self.state.radio_stations.len());
        if index == to {
            return;
        }
        self.push_radio_order_undo();
        let mut stations = copy_stations(&self.state.radio_stations);
        let ghost before = stations@;
        assert(stations.len() == settings::station_views(stations@).len());
        moving::swap_entries(&mut stations, index, to);
        assert(settings::station_views(stations@) =~= moving::swapped(
            settings::station_views(before),
            index as int,
            to as int,
        ));
        self.reorder_stations(stations, "Moved radio station.");
    }

    /// Moves a station before another one, or to the end.
    pub fn move_radio_station_to_index(&mut self, from: usize, to: usize)
        ensures
            final(self)@ == old(self)@.with_station_moved_to(from, to),
    {
        let ghost all = self@.state.radio_stations;
        assert(self.state.radio_stations.len() == all.len());
        if from >= self.state.radio_stations.len() || to > self.state.radio_stations.len() {
            return;
        }
        self.push_radio_order_undo();
        let mut stations = copy_stations(&self.state.radio_stations);
        let ghost before = stations@;
        assert(stations.len() == settings::station_views(stations@).len());
        moving::move_entry(&mut stations, from, to);
        assert(settings::station_views(stations@) =~= moving::moved(
            settings::station_views(before),
            from as int,
            to as int,
        ));
        self.reorder_stations(stations, "Moved radio station.");
    }
}

} // verus!
