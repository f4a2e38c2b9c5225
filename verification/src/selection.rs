//! Which playlist and which tracks are shown and selected.

use crate::app::{AppView, AudioOrbitApp, Effect, EffectView, FolderWatch};
use crate::app;
use crate::counting;
use crate::file_operations;
use crate::folder_sync;
use crate::index_set;
use crate::lookup;
use crate::paths;
use crate::playlist;
use crate::playlist::{Playlist, PlaylistView};
use crate::settings;
use crate::settings::{RepeatMode, ScrollOffset, UiView};
use crate::state::StateView;
use crate::text;
use crate::text_set;
use crate::track::TrackView;
use vstd::prelude::*;
use vstd::string::*;

verus! {

// ---------------------------------------------------------------------------
// Scroll offsets
// ---------------------------------------------------------------------------

/// The bit pattern of a single precision number, or that of zero where the number is below
/// zero or not a number.
pub open spec fn at_least_zero(bits: u32) -> u32 {
    if bits <= 0x7f80_0000 {
        bits
    } else {
        0
    }
}

/// The bit pattern of a single precision number, or that of zero where the number is below
/// zero or not a number.
pub fn clamp_to_zero(bits: u32) -> (clamped: u32)
    ensures
        clamped == at_least_zero(bits),
{
    if bits <= 0x7f80_0000 {
        bits
    } else {
        0
    }
}

/// The key under which the scroll offset of a playlist is kept.
pub open spec fn scroll_key(index: usize, shown: PlaylistView) -> Seq<char> {
    text::decimal(index as nat) + "|"@ + shown.name + "|"@ + match shown.selected_group {
        Some(group) => group,
        None => Seq::empty(),
    }
}

/// The key under which the scroll offset of a playlist is kept.
pub fn playlist_scroll_key(index: usize, shown: &Playlist) -> (key: String)
    ensures
        key@ == scroll_key(index, shown@),
{
    let mut key = text::decimal_text(index as u64);
    key.append("|");
    key.append(shown.name.as_str());
    key.append("|");
    if let Some(group) = &shown.selected_group {
        key.append(group.as_str());
    }
    assert(key@ =~= scroll_key(index, shown@));
    key
}

/// The condition that an offset is kept under a key.
pub open spec fn offset_has_key(
    offsets: Seq<(Seq<char>, u32)>,
    key: Seq<char>,
) -> spec_fn(int) -> bool {
    |i: int| offsets[i].0 == key
}

/// The keys of the offsets.
pub open spec fn offset_keys(offsets: Seq<(Seq<char>, u32)>) -> Seq<Seq<char>> {
    offsets.map_values(|offset: (Seq<char>, u32)| offset.0)
}

/// The offset that is kept under a key.
pub open spec fn offset_for(offsets: Seq<(Seq<char>, u32)>, key: Seq<char>) -> Option<u32> {
    match counting::first_where(offsets.len(), offset_has_key(offsets, key)) {
        Some(index) => Some(offsets[index as int].1),
        None => None,
    }
}

/// The offsets with one kept under a key, in the order of the keys.
pub open spec fn with_offset(
    offsets: Seq<(Seq<char>, u32)>,
    key: Seq<char>,
    bits: u32,
) -> Seq<(Seq<char>, u32)> {
    match counting::first_where(offsets.len(), offset_has_key(offsets, key)) {
        Some(index) => offsets.update(index as int, (key, bits)),
        None => offsets.insert(text_set::place_of(offset_keys(offsets), key) as int, (key, bits)),
    }
}

/// Where an offset is kept under a key.
fn find_offset(offsets: &Vec<ScrollOffset>, key: &str) -> (position: Option<usize>)
    ensures
        position == counting::first_where(
            offsets@.len(),
            offset_has_key(settings::offset_views(offsets@), key@),
        ),
        position matches Some(index) ==> index < offsets@.len() && offsets@[index as int].key@
            == key@,
{
    let ghost views = settings::offset_views(offsets@);
    let ghost wanted = offset_has_key(views, key@);
    let mut index: usize = 0;
    while index < offsets.len()
        invariant
            index <= offsets@.len(),
            views == settings::offset_views(offsets@),
            wanted == offset_has_key(views, key@),
            forall|i: int| 0 <= i < index ==> !#[trigger] wanted(i),
        decreases offsets@.len() - index,
    {
        assert(views[index as int] == offsets@[index as int]@);
        if text::same_text(offsets[index].key.as_str(), key) {
            proof {
                assert(wanted(index as int));
                assert(offsets.len() == views.len());
                counting::first_where_is(views.len(), wanted, index as int);
            }
            return Some(index);
        }
        index += 1;
    }
    proof {
        assert(offsets.len() == views.len());
        counting::first_where_none(views.len(), wanted);
    }
    None
}

/// Keeps an offset under a key.
fn keep_offset(offsets: &mut Vec<ScrollOffset>, key: String, bits: u32)
    ensures
        settings::offset_views(final(offsets)@) == with_offset(
            settings::offset_views(old(offsets)@),
            key@,
            bits,
        ),
{
    let ghost before = settings::offset_views(offsets@);
    let ghost key_text = key@;
    if let Some(index) = find_offset(offsets, key.as_str()) {
        offsets[index].offset_bits = bits;
        assert(settings::offset_views(offsets@) =~= before.update(index as int, (key_text, bits)));
        return;
    }
    let ghost keys = offset_keys(before);
    let ghost earlier = |i: int| text::text_before(keys[i], key_text);
    let mut place: usize = 0;
    let mut index: usize = 0;
    while index < offsets.len()
        invariant
            index <= offsets@.len(),
            place <= index,
            before == settings::offset_views(offsets@),
            keys == offset_keys(before),
            key@ == key_text,
            earlier == (|i: int| text::text_before(keys[i], key_text)),
            place == counting::count(index as nat, earlier),
        decreases offsets@.len() - index,
    {
        assert(keys[index as int] == offsets@[index as int].key@);
        if text::is_before(offsets[index].key.as_str(), key.as_str()) {
            place += 1;
        }
        index += 1;
    }
    offsets.insert(place, ScrollOffset { key, offset_bits: bits });
    assert(settings::offset_views(offsets@) =~= before.insert(place as int, (key_text, bits)));
}

/// What is kept under a key is found under it, and nothing else changes.
pub proof fn kept_offset_is_found(
    offsets: Seq<(Seq<char>, u32)>,
    key: Seq<char>,
    bits: u32,
    other: Seq<char>,
)
    requires
        offsets.len() < usize::MAX,
    ensures
        offset_for(with_offset(offsets, key, bits), key) == Some(bits),
        other != key ==> offset_for(with_offset(offsets, key, bits), other) == offset_for(
            offsets,
            other,
        ),
{
    let after = with_offset(offsets, key, bits);
    let here = offset_has_key(offsets, key);
    let there = offset_has_key(after, key);
    let keys = offset_keys(offsets);
    let place = text_set::place_of(keys, key) as int;
    counting::count_at_most(keys.len(), |i: int| text::text_before(keys[i], key));
    counting::first_where_holds(offsets.len(), here);
    let first = counting::first_where(offsets.len(), here);
    match first {
        Some(index) => {
            assert(there(index as int));
            assert forall|i: int| 0 <= i < index implies !#[trigger] there(i) by {
                assert(!here(i));
            }
            counting::first_where_is(after.len(), there, index as int);
        },
        None => {
            assert(there(place));
            assert forall|i: int| 0 <= i < place implies !#[trigger] there(i) by {
                assert(!here(i));
            }
            counting::first_where_is(after.len(), there, place);
        },
    }
    if other != key {
        let was = offset_has_key(offsets, other);
        let is = offset_has_key(after, other);
        counting::first_where_holds(offsets.len(), was);
        counting::first_where_holds(after.len(), is);
        let old_first = counting::first_where(offsets.len(), was);
        let new_first = counting::first_where(after.len(), is);
        match first {
            Some(index) => {
                assert(here(index as int));
                assert forall|i: int| 0 <= i < offsets.len() implies #[trigger] was(i) == is(i) by {}
                match old_first {
                    Some(k) => {
                        assert(is(k as int));
                        assert forall|i: int| 0 <= i < k implies !#[trigger] is(i) by {
                            assert(!was(i));
                        }
                        counting::first_where_is(after.len(), is, k as int);
                        assert(after[k as int] == offsets[k as int]);
                    },
                    None => {
                        assert forall|i: int| 0 <= i < after.len() implies !#[trigger] is(i) by {
                            assert(!was(i));
                        }
                        counting::first_where_none(after.len(), is);
                    },
                }
            },
            None => {
                match old_first {
                    Some(k) => {
                        let m = if k < place { k as int } else { k + 1 };
                        assert(is(m));
                        assert forall|i: int| 0 <= i < m implies !#[trigger] is(i) by {
                            if i < place {
                                assert(!was(i));
                            } else if i > place {
                                assert(!was(i - 1));
                            }
                        }
                        counting::first_where_is(after.len(), is, m);
                    },
                    None => {
                        assert forall|i: int| 0 <= i < after.len() implies !#[trigger] is(i) by {
                            if i < place {
                                assert(!was(i));
                            } else if i > place {
                                assert(!was(i - 1));
                            }
                        }
                        counting::first_where_none(after.len(), is);
                    },
                }
            },
        }
    }
}

// ---------------------------------------------------------------------------
// The model of the selection
// ---------------------------------------------------------------------------

/// The condition that a track is one of the repeated tracks of a playlist.
pub open spec fn is_repeated(shown: PlaylistView) -> spec_fn(int) -> bool {
    |i: int| file_operations::lists_path(shown.repeat_selection, shown.tracks[i].path)
}

/// The condition that a track is shown and its file is there.
pub open spec fn is_eligible(shown: PlaylistView) -> spec_fn(int) -> bool {
    |i: int|
        folder_sync::matches_group(shown, shown.tracks[i]) && !shown.tracks[i].missing
}

/// The condition that a track is shown and found by a query.
pub open spec fn is_visible(shown: PlaylistView, query: Seq<char>) -> spec_fn(int) -> bool {
    |i: int|
        folder_sync::matches_group(shown, shown.tracks[i]) && lookup::found_by_query(
            shown.tracks[i],
            query,
        )
}

/// The paths of the tracks at the given positions; positions past the end are left out.
pub open spec fn paths_at(tracks: Seq<TrackView>, indexes: Seq<usize>) -> Seq<Seq<char>>
    decreases indexes.len(),
{
    if indexes.len() == 0 {
        Seq::empty()
    } else {
        let before = paths_at(tracks, indexes.drop_last());
        if indexes.last() < tracks.len() {
            before.push(tracks[indexes.last() as int].path)
        } else {
            before
        }
    }
}

/// The first entry, where there is one.
pub open spec fn first_of(indexes: Seq<usize>) -> Option<usize> {
    if indexes.len() > 0 {
        Some(indexes[0])
    } else {
        None
    }
}

impl AppView {
    /// The application with the repeated tracks kept in the shown playlist, by path.
    pub open spec fn with_repeat_kept(self) -> AppView {
        match self.current() {
            Some(shown) => self.with_current(
                PlaylistView {
                    repeat_selection: paths_at(shown.tracks, self.selected_track_indexes),
                    ..shown
                },
            ),
            None => self,
        }
    }

    /// The application with the repeated tracks as the shown playlist keeps them.
    pub open spec fn with_repeat_restored(self) -> AppView {
        AppView {
            selected_track_indexes: match self.current() {
                Some(shown) => counting::indexes_where(shown.tracks.len(), is_repeated(shown)),
                None => Seq::empty(),
            },
            ..self
        }
    }

    /// The application with a scroll offset for the shown playlist.
    pub open spec fn with_scroll_offset(self, bits: u32) -> AppView {
        let offset = at_least_zero(bits);
        AppView {
            state: StateView {
                ui: UiView {
                    playlist_scroll_offset_bits: offset,
                    playlist_scroll_offsets: match self.current() {
                        Some(shown) => with_offset(
                            self.state.ui.playlist_scroll_offsets,
                            scroll_key(self.state.selected_playlist_index, shown),
                            offset,
                        ),
                        None => self.state.ui.playlist_scroll_offsets,
                    },
                    ..self.state.ui
                },
                ..self.state
            },
            ..self
        }
    }

    /// The application once it has asked for its state to be saved.
    pub open spec fn saved(self) -> AppView {
        let kept = self.with_repeat_kept();
        kept.with_scroll_offset(kept.state.ui.playlist_scroll_offset_bits).with_effect(
            EffectView::SaveState,
        )
    }

    /// The scroll offset of the shown playlist.
    pub open spec fn scroll_offset(self) -> u32 {
        at_least_zero(
            match self.current() {
                Some(shown) => match offset_for(
                    self.state.ui.playlist_scroll_offsets,
                    scroll_key(self.state.selected_playlist_index, shown),
                ) {
                    Some(bits) => bits,
                    None => self.state.ui.playlist_scroll_offset_bits,
                },
                None => self.state.ui.playlist_scroll_offset_bits,
            },
        )
    }

    /// The positions of the tracks that can be played from the shown playlist.
    pub open spec fn eligible(self) -> Seq<usize> {
        match self.current() {
            Some(shown) => counting::indexes_where(shown.tracks.len(), is_eligible(shown)),
            None => Seq::empty(),
        }
    }

    /// The positions of the tracks that the search leaves visible.
    pub open spec fn visible(self) -> Seq<usize> {
        match self.current() {
            Some(shown) => counting::indexes_where(
                shown.tracks.len(),
                is_visible(shown, text::trimmed(self.browsing.track_search_query)),
            ),
            None => Seq::empty(),
        }
    }

    /// Playback keeps to what the search has found.
    pub open spec fn plays_search_results(self) -> bool {
        self.browsing.show_track_search && self.browsing.search_playback_filtered_only
            && text::trimmed(self.browsing.track_search_query).len() > 0
    }

    /// The condition that playback may come to a track.
    pub open spec fn is_in_sequence(self, shown: PlaylistView) -> spec_fn(int) -> bool {
        |i: int|
            is_eligible(shown)(i) && (self.plays_search_results() ==> is_visible(
                shown,
                text::trimmed(self.browsing.track_search_query),
            )(i)) && (self.state.playback.repeat_mode == RepeatMode::Selection
                && self.selected_track_indexes.len() > 0 ==> self.selected_track_indexes.contains(
                i as usize,
            ))
    }

    /// The positions that playback goes through, in order.
    pub open spec fn sequence(self) -> Seq<usize> {
        match self.current() {
            Some(shown) => counting::indexes_where(
                shown.tracks.len(),
                self.is_in_sequence(shown),
            ),
            None => Seq::empty(),
        }
    }

    /// The path of the selected track.
    pub open spec fn selected_path(self) -> Option<Seq<char>> {
        match self.current() {
            Some(shown) => match self.selected_track_index {
                Some(index) => if index < shown.tracks.len() {
                    Some(shown.tracks[index as int].path)
                } else {
                    None
                },
                None => None,
            },
            None => None,
        }
    }

    /// The application with no tracks selected for an action.
    pub open spec fn without_multi_selection(self) -> AppView {
        AppView {
            multi_selected_track_indexes: Seq::empty(),
            track_selection_anchor_index: None,
            ..self
        }
    }

    /// The application with the first track selected that can be played.
    pub open spec fn with_first_eligible_selected(self) -> AppView {
        AppView { selected_track_index: first_of(self.eligible()), ..self }
    }

    /// Whether the selected track is of the selected group.
    pub open spec fn selection_is_visible(self) -> bool {
        match self.selected_track_index {
            Some(index) => match self.current() {
                Some(shown) => index < shown.tracks.len() && folder_sync::matches_group(
                    shown,
                    shown.tracks[index as int],
                ),
                None => false,
            },
            None => false,
        }
    }

    /// The application with a selection that is visible.
    pub open spec fn with_visible_selection(self) -> AppView {
        if self.selection_is_visible() {
            self
        } else {
            self.with_first_eligible_selected()
        }
    }

    /// Whether the shown playlist has a track at the position.
    pub open spec fn has_track(self, index: usize) -> bool {
        match self.current() {
            Some(shown) => index < shown.tracks.len(),
            None => false,
        }
    }

    /// The application with another playlist shown.
    pub open spec fn with_playlist_selected(self, index: usize) -> AppView {
        if index >= self.state.playlists.len() {
            self
        } else {
            let kept = self.with_repeat_kept();
            let left = kept.with_scroll_offset(kept.state.ui.playlist_scroll_offset_bits);
            let shown = (AppView {
                state: StateView { selected_playlist_index: index, ..left.state },
                ..left
            }).with_repeat_restored().without_multi_selection().with_first_eligible_selected();
            (AppView {
                browsing: app::BrowsingView {
                    collapsed_groups: Seq::empty(),
                    scroll_to_track_path_requested: None,
                    search_cursor: 0,
                    ..shown.browsing
                },
                watch: app::no_watch(),
                ..shown
            }).saved()
        }
    }

    /// The application with one track selected.
    pub open spec fn with_only_track_selected(self, index: usize) -> AppView {
        if self.has_track(index) {
            AppView {
                multi_selected_track_indexes: seq![index],
                track_selection_anchor_index: Some(index),
                selected_track_index: Some(index),
                ..self
            }
        } else {
            self
        }
    }

    /// The positions from one entry of a list to another, both included.
    pub open spec fn visible_range(self, first: usize, second: usize) -> Seq<usize> {
        if first <= second {
            self.visible().subrange(first as int, second + 1)
        } else {
            self.visible().subrange(second as int, first + 1)
        }
    }

    /// The application after a click that extends the selection to a track.
    pub open spec fn with_range_selected(self, index: usize, additive: bool) -> AppView {
        let anchor = match self.track_selection_anchor_index {
            Some(anchor) => anchor,
            None => index,
        };
        let start = if additive {
            self.multi_selected_track_indexes
        } else {
            Seq::empty()
        };
        match (
            index_set::position_of(self.visible(), anchor),
            index_set::position_of(self.visible(), index),
        ) {
            (Some(from), Some(to)) => AppView {
                multi_selected_track_indexes: index_set::with_indexes(
                    start,
                    self.visible_range(from, to),
                ),
                selected_track_index: Some(index),
                ..self
            },
            _ => AppView {
                multi_selected_track_indexes: seq![index],
                track_selection_anchor_index: Some(index),
                selected_track_index: Some(index),
                ..self
            },
        }
    }

    /// The application after a click that adds a track to the selection or takes it out.
    pub open spec fn with_track_toggled(self, index: usize) -> AppView {
        let selected = if self.multi_selected_track_indexes.contains(index) {
            index_set::without_index(self.multi_selected_track_indexes, index)
        } else {
            index_set::with_index(self.multi_selected_track_indexes, index)
        };
        AppView {
            multi_selected_track_indexes: selected,
            selected_track_index: if selected.len() > 0 {
                Some(selected.last())
            } else {
                None
            },
            track_selection_anchor_index: Some(index),
            ..self
        }
    }

    /// The application after a click on a track.
    pub open spec fn with_track_clicked(
        self,
        index: usize,
        shift: bool,
        additive: bool,
    ) -> AppView {
        if !self.has_track(index) {
            self
        } else if shift {
            self.with_range_selected(index, additive)
        } else if additive {
            self.with_track_toggled(index)
        } else {
            self.with_only_track_selected(index)
        }
    }

    /// The positions that an action on a track is about: all that are selected where the
    /// track is one of them, else the track alone.
    pub open spec fn action_indexes(self, index: usize) -> Seq<usize> {
        match self.current() {
            Some(shown) => if self.multi_selected_track_indexes.contains(index) {
                let count = shown.tracks.len() as usize;
                self.multi_selected_track_indexes.filter(index_set::below(count))
            } else if index < shown.tracks.len() {
                seq![index]
            } else {
                Seq::empty()
            },
            None => Seq::empty(),
        }
    }

    /// The paths that an action on a track is about.
    pub open spec fn action_paths(self, index: usize) -> Seq<Seq<char>> {
        match self.current() {
            Some(shown) => paths_at(shown.tracks, self.action_indexes(index)),
            None => Seq::empty(),
        }
    }
}

// ---------------------------------------------------------------------------
// Lists of positions
// ---------------------------------------------------------------------------

/// The positions of the repeated tracks of a playlist.
fn repeated_track_indexes(shown: &Playlist) -> (indexes: Vec<usize>)
    ensures
        indexes@ == counting::indexes_where(shown@.tracks.len(), is_repeated(shown@)),
{
    let ghost wanted = is_repeated(shown@);
    let mut indexes: Vec<usize> = Vec::new();
    let mut index: usize = 0;
    while index < shown.tracks.len()
        invariant
            index <= shown.tracks@.len(),
            wanted == is_repeated(shown@),
            indexes@ == counting::indexes_where(index as nat, wanted),
        decreases shown.tracks@.len() - index,
    {
        assert(shown@.tracks[index as int] == shown.tracks@[index as int]@);
        if file_operations::list_has_path(&shown.repeat_selection, shown.tracks[index].path.as_str()) {
            indexes.push(index);
        }
        index += 1;
    }
    indexes
}

/// The paths of the tracks at the given positions.
fn track_paths_at(shown: &Playlist, indexes: &Vec<usize>) -> (result: Vec<String>)
    ensures
        text::texts(result@) == paths_at(shown@.tracks, indexes@),
{
    let mut result: Vec<String> = Vec::new();
    let mut at: usize = 0;
    assert(indexes@.take(0) =~= Seq::empty());
    assert(text::texts(result@) =~= Seq::empty());
    while at < indexes.len()
        invariant
            at <= indexes@.len(),
            text::texts(result@) == paths_at(shown@.tracks, indexes@.take(at as int)),
        decreases indexes@.len() - at,
    {
        assert(indexes@.take(at + 1).drop_last() =~= indexes@.take(at as int));
        let index: usize = indexes[at];
        if index < shown.tracks.len() {
            let ghost before = result@;
            assert(shown@.tracks[index as int] == shown.tracks@[index as int]@);
            result.push(shown.tracks[index].path.clone());
            assert(text::texts(result@) =~= text::texts(before).push(
                shown@.tracks[index as int].path,
            ));
        }
        at += 1;
    }
    assert(indexes@.take(indexes@.len() as int) =~= indexes@);
    result
}

impl AudioOrbitApp {
    /// The playlist that is shown.
    pub fn current_playlist(&self) -> (shown: Option<&Playlist>)
        ensures
            match shown {
                Some(shown) => self@.current() == Some(shown@),
                None => self@.current() is None,
            },
    {
        let index: usize = self.state.selected_playlist_index;
        if index < self.state.playlists.len() {
            assert(self@.state.playlists[index as int] == self.state.playlists@[index as int]@);
            Some(&self.state.playlists[index])
        } else {
            None
        }
    }

    /// Keeps the repeated tracks in the shown playlist.
    pub fn persist_repeat_selection_for_current_playlist(&mut self)
        ensures
            final(self)@ == old(self)@.with_repeat_kept(),
    {
        let index: usize = self.state.selected_playlist_index;
        if index >= self.state.playlists.len() {
            return;
        }
        let ghost before = self.state.playlists@;
        assert(self@.state.playlists[index as int] == before[index as int]@);
        let selected = track_paths_at(&self.state.playlists[index], &self.selected_track_indexes);
        self.state.playlists[index].repeat_selection = selected;
        assert(playlist::playlist_views(self.state.playlists@) =~= playlist::playlist_views(
            before,
        ).update(index as int, self.state.playlists@[index as int]@));
        assert(self@ =~= old(self)@.with_repeat_kept());
    }

    /// Takes over the repeated tracks that the shown playlist keeps.
    pub fn restore_repeat_selection_for_current_playlist(&mut self)
        ensures
            final(self)@ == old(self)@.with_repeat_restored(),
    {
        let selected = match self.current_playlist() {
            Some(shown) => repeated_track_indexes(shown),
            None => Vec::new(),
        };
        self.selected_track_indexes = selected;
        assert(self@ =~= old(self)@.with_repeat_restored());
    }

    /// The key under which the scroll offset of the shown playlist is kept.
    pub fn current_playlist_scroll_key(&self) -> (key: Option<String>)
        ensures
            paths::text_of(key) == match self@.current() {
                Some(shown) => Some(scroll_key(self@.state.selected_playlist_index, shown)),
                None => None,
            },
    {
        match self.current_playlist() {
            Some(shown) => Some(playlist_scroll_key(self.state.selected_playlist_index, shown)),
            None => None,
        }
    }

    /// The scroll offset of the shown playlist.
    pub fn current_playlist_scroll_offset_y(&self) -> (bits: u32)
        ensures
            bits == self@.scroll_offset(),
    {
        let fallback: u32 = self.state.ui.playlist_scroll_offset_bits;
        let bits: u32 = match self.current_playlist_scroll_key() {
            Some(key) => match find_offset(
                &self.state.ui.playlist_scroll_offsets,
                key.as_str(),
            ) {
                Some(index) => {
                    assert(self@.state.ui.playlist_scroll_offsets[index as int]
                        == self.state.ui.playlist_scroll_offsets@[index as int]@);
                    self.state.ui.playlist_scroll_offsets[index].offset_bits
                },
                None => fallback,
            },
            None => fallback,
        };
        clamp_to_zero(bits)
    }

    /// Keeps the scroll offset of the shown playlist.
    pub fn remember_current_playlist_scroll_offset(&mut self, offset_bits: u32)
        ensures
            final(self)@ == old(self)@.with_scroll_offset(offset_bits),
    {
        let offset: u32 = clamp_to_zero(offset_bits);
        let key = self.current_playlist_scroll_key();
        self.state.ui.playlist_scroll_offset_bits = offset;
        if let Some(key) = key {
            keep_offset(&mut self.state.ui.playlist_scroll_offsets, key, offset);
        }
        assert(self@ =~= old(self)@.with_scroll_offset(offset_bits));
    }

    /// Asks for the state to be saved.
    pub fn save_state_silently(&mut self)
        ensures
            final(self)@ == old(self)@.saved(),
    {
        self.persist_repeat_selection_for_current_playlist();
        let offset: u32 = self.state.ui.playlist_scroll_offset_bits;
        self.remember_current_playlist_scroll_offset(offset);
        self.ask(Effect::SaveState);
    }

    /// The positions of the tracks that can be played from the shown playlist.
    pub fn eligible_track_indexes(&self) -> (indexes: Vec<usize>)
        ensures
            indexes@ == self@.eligible(),
    {
        let mut indexes: Vec<usize> = Vec::new();
        if let Some(shown) = self.current_playlist() {
            let ghost wanted = is_eligible(shown@);
            let mut index: usize = 0;
            while index < shown.tracks.len()
                invariant
                    index <= shown.tracks@.len(),
                    wanted == is_eligible(shown@),
                    indexes@ == counting::indexes_where(index as nat, wanted),
                decreases shown.tracks@.len() - index,
            {
                assert(shown@.tracks[index as int] == shown.tracks@[index as int]@);
                let item = &shown.tracks[index];
                if shown.track_matches_selected_group(item) && !item.missing {
                    indexes.push(index);
                }
                index += 1;
            }
        }
        indexes
    }

    /// The positions of the tracks that the search leaves visible.
    pub fn visible_track_indexes(&self) -> (indexes: Vec<usize>)
        ensures
            indexes@ == self@.visible(),
    {
        let query = text::trim(self.browsing.track_search_query.as_str());
        let mut indexes: Vec<usize> = Vec::new();
        if let Some(shown) = self.current_playlist() {
            let ghost wanted = is_visible(shown@, query@);
            let mut index: usize = 0;
            while index < shown.tracks.len()
                invariant
                    index <= shown.tracks@.len(),
                    wanted == is_visible(shown@, query@),
                    indexes@ == counting::indexes_where(index as nat, wanted),
                decreases shown.tracks@.len() - index,
            {
                assert(shown@.tracks[index as int] == shown.tracks@[index as int]@);
                let item = &shown.tracks[index];
                if shown.track_matches_selected_group(item) && lookup::track_matches_search_query(
                    item,
                    query.as_str(),
                ) {
                    indexes.push(index);
                }
                index += 1;
            }
        }
        indexes
    }

    /// The positions that playback goes through, in order.
    pub fn playback_sequence_indexes(&self) -> (indexes: Vec<usize>)
        ensures
            indexes@ == self@.sequence(),
    {
        let query = text::trim(self.browsing.track_search_query.as_str());
        let restrict_to_search = self.browsing.show_track_search
            && self.browsing.search_playback_filtered_only && !query.as_str().is_empty();
        let restrict_to_selection = self.state.playback.repeat_mode == RepeatMode::Selection
            && self.selected_track_indexes.len() > 0;
        assert(restrict_to_search == self@.plays_search_results());
        let mut indexes: Vec<usize> = Vec::new();
        if let Some(shown) = self.current_playlist() {
            let ghost wanted = self@.is_in_sequence(shown@);
            let mut index: usize = 0;
            while index < shown.tracks.len()
                invariant
                    index <= shown.tracks@.len(),
                    query@ == text::trimmed(self@.browsing.track_search_query),
                    restrict_to_search == self@.plays_search_results(),
                    restrict_to_selection == (self@.state.playback.repeat_mode
                        == RepeatMode::Selection && self@.selected_track_indexes.len() > 0),
                    wanted == self@.is_in_sequence(shown@),
                    indexes@ == counting::indexes_where(index as nat, wanted),
                decreases shown.tracks@.len() - index,
            {
                assert(shown@.tracks[index as int] == shown.tracks@[index as int]@);
                let item = &shown.tracks[index];
                if shown.track_matches_selected_group(item) && !item.missing && (
                !restrict_to_search || lookup::track_matches_search_query(item, query.as_str()))
                    && (!restrict_to_selection || index_set::contains_index(
                    &self.selected_track_indexes,
                    index,
                )) {
                    indexes.push(index);
                }
                index += 1;
            }
        }
        indexes
    }

    /// The path of the selected track.
    pub fn selected_track_path(&self) -> (path: Option<String>)
        ensures
            paths::text_of(path) == self@.selected_path(),
    {
        let shown = match self.current_playlist() {
            Some(shown) => shown,
            None => return None,
        };
        match self.selected_track_index {
            Some(index) => if index < shown.tracks.len() {
                assert(shown@.tracks[index as int] == shown.tracks@[index as int]@);
                Some(shown.tracks[index].path.clone())
            } else {
                None
            },
            None => None,
        }
    }

    /// Selects no tracks for an action.
    pub fn clear_multi_track_selection(&mut self)
        ensures
            final(self)@ == old(self)@.without_multi_selection(),
    {
        self.multi_selected_track_indexes = Vec::new();
        self.track_selection_anchor_index = None;
        assert(self@ =~= old(self)@.without_multi_selection());
    }

    /// Selects the first track that can be played.
    pub fn select_first_eligible_track(&mut self)
        ensures
            final(self)@ == old(self)@.with_first_eligible_selected(),
    {
        let indexes = self.eligible_track_indexes();
        self.selected_track_index = if indexes.len() > 0 {
            Some(indexes[0])
        } else {
            None
        };
        assert(self@ =~= old(self)@.with_first_eligible_selected());
    }

    /// Whether the selected track is of the selected group.
    pub fn selected_track_is_visible(&self) -> (visible: bool)
        ensures
            visible == self@.selection_is_visible(),
    {
        let index: usize = match self.selected_track_index {
            Some(index) => index,
            None => return false,
        };
        match self.current_playlist() {
            Some(shown) => {
                if index < shown.tracks.len() {
                    assert(shown@.tracks[index as int] == shown.tracks@[index as int]@);
                    shown.track_matches_selected_group(&shown.tracks[index])
                } else {
                    false
                }
            },
            None => false,
        }
    }

    /// Selects the first track that can be played where the selection is not visible.
    pub fn ensure_selected_track_visible(&mut self)
        ensures
            final(self)@ == old(self)@.with_visible_selection(),
    {
        if !self.selected_track_is_visible() {
            self.select_first_eligible_track();
        }
    }

    /// Shows another playlist.
    pub fn select_playlist(&mut self, index: usize)
        ensures
            final(self)@ == old(self)@.with_playlist_selected(index),
    {
        if index >= self.state.playlists.len() {
            return;
        }
        self.persist_repeat_selection_for_current_playlist();
        let offset: u32 = self.state.ui.playlist_scroll_offset_bits;
        self.remember_current_playlist_scroll_offset(offset);
        self.state.selected_playlist_index = index;
        self.restore_repeat_selection_for_current_playlist();
        self.clear_multi_track_selection();
        self.select_first_eligible_track();
        self.browsing.collapsed_groups = Vec::new();
        self.browsing.scroll_to_track_path_requested = None;
        self.browsing.search_cursor = 0;
        self.watch = FolderWatch::new();
        assert(text::texts(self.browsing.collapsed_groups@) =~= Seq::empty());
        self.save_state_silently();
    }

    /// Whether the shown playlist has a track at the position.
    pub fn has_track_at(&self, index: usize) -> (found: bool)
        ensures
            found == self@.has_track(index),
    {
        match self.current_playlist() {
            Some(shown) => {
                assert(shown@.tracks.len() == shown.tracks.len());
                index < shown.tracks.len()
            },
            None => false,
        }
    }

    /// Selects one track.
    pub fn select_only_track_for_action(&mut self, index: usize)
        ensures
            final(self)@ == old(self)@.with_only_track_selected(index),
    {
        if !self.has_track_at(index) {
            return;
        }
        let mut selected: Vec<usize> = Vec::new();
        selected.push(index);
        self.multi_selected_track_indexes = selected;
        self.track_selection_anchor_index = Some(index);
        self.selected_track_index = Some(index);
        assert(self@ =~= old(self)@.with_only_track_selected(index));
    }

    /// Selects tracks by a click, with or without the keys that extend the selection.
    pub fn select_track_from_pointer(&mut self, index: usize, shift: bool, additive: bool)
        ensures
            final(self)@ == old(self)@.with_track_clicked(index, shift, additive),
    {
        if !self.has_track_at(index) {
            return;
        }
        if shift {
            let visible = self.visible_track_indexes();
            let anchor: usize = match self.track_selection_anchor_index {
                Some(anchor) => anchor,
                None => index,
            };
            let anchor_position = index_set::find_index(&visible, anchor);
            let target_position = index_set::find_index(&visible, index);
            if let (Some(from), Some(to)) = (anchor_position, target_position) {
                if !additive {
                    self.multi_selected_track_indexes = Vec::new();
                    assert(self.multi_selected_track_indexes@ =~= Seq::empty());
                }
                let start: usize = if from <= to {
                    from
                } else {
                    to
                };
                let end: usize = if from <= to {
                    to
                } else {
                    from
                };
                let mut range: Vec<usize> = Vec::new();
                let mut at: usize = start;
                while at <= end
                    invariant
                        start <= at <= end + 1,
                        end < visible.len(),
                        range@ == visible@.subrange(start as int, at as int),
                    decreases end + 1 - at,
                {
                    range.push(visible[at]);
                    assert(visible@.subrange(start as int, at + 1) =~= visible@.subrange(
                        start as int,
                        at as int,
                    ).push(visible@[at as int]));
                    at += 1;
                }
                index_set::insert_indexes(&mut self.multi_selected_track_indexes, &range);
            } else {
                let mut selected: Vec<usize> = Vec::new();
                selected.push(index);
                self.multi_selected_track_indexes = selected;
                self.track_selection_anchor_index = Some(index);
                assert(self.multi_selected_track_indexes@ =~= seq![index]);
            }
            self.selected_track_index = Some(index);
            assert(self@ =~= old(self)@.with_range_selected(index, additive));
            return;
        }
        if additive {
            if !index_set::insert_index(&mut self.multi_selected_track_indexes, index) {
                index_set::remove_index(&mut self.multi_selected_track_indexes, index);
            }
            let count: usize = self.multi_selected_track_indexes.len();
            self.selected_track_index = if count > 0 {
                Some(self.multi_selected_track_indexes[count - 1])
            } else {
                None
            };
            self.track_selection_anchor_index = Some(index);
            assert(self@ =~= old(self)@.with_track_toggled(index));
            return;
        }
        self.select_only_track_for_action(index);
    }

    /// Selects the track that a menu is opened for, unless it is selected.
    pub fn ensure_track_selected_for_context(&mut self, index: usize)
        ensures
            final(self)@ == (if old(self)@.multi_selected_track_indexes.contains(index) {
                AppView { selected_track_index: Some(index), ..old(self)@ }
            } else {
                old(self)@.with_only_track_selected(index)
            }),
    {
        if !index_set::contains_index(&self.multi_selected_track_indexes, index) {
            self.select_only_track_for_action(index);
        } else {
            self.selected_track_index = Some(index);
            assert(self@ =~= (AppView { selected_track_index: Some(index), ..old(self)@ }));
        }
    }

    /// The positions that an action on a track is about.
    pub fn action_track_indexes_for_context(&self, index: usize) -> (indexes: Vec<usize>)
        ensures
            indexes@ == self@.action_indexes(index),
    {
        let mut indexes: Vec<usize> = Vec::new();
        if let Some(shown) = self.current_playlist() {
            let count: usize = shown.tracks.len();
            assert(shown@.tracks.len() == count);
            if index_set::contains_index(&self.multi_selected_track_indexes, index) {
                indexes = index_set::indexes_below(&self.multi_selected_track_indexes, count);
            } else if index < count {
                indexes.push(index);
                assert(indexes@ =~= seq![index]);
            }
        }
        assert(indexes@ =~= self@.action_indexes(index));
        indexes
    }

    /// The paths that an action on a track is about.
    pub fn action_track_paths_for_context(&self, index: usize) -> (result: Vec<String>)
        ensures
            text::texts(result@) == self@.action_paths(index),
    {
        let indexes = self.action_track_indexes_for_context(index);
        match self.current_playlist() {
            Some(shown) => track_paths_at(shown, &indexes),
            None => {
                let none: Vec<String> = Vec::new();
                assert(text::texts(none@) =~= Seq::empty());
                none
            },
        }
    }
}

} // verus!
