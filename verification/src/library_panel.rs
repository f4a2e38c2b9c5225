//! What the panel of the library shows.

use crate::app::{AppView, AudioOrbitApp};
use crate::paths;
use crate::playlist::{Playlist, PlaylistView};
use crate::text;
use crate::text_set;
use crate::track::TrackView;
use crate::track_menu;
use vstd::prelude::*;
use vstd::string::*;

verus! {

/// A row of the list of playlists.
#[derive(Debug)]
pub struct LibraryRow {
    pub label: String,
    pub count_text: String,
    pub selected: bool,
    /// The name is being edited.
    pub edited: bool,
    /// The playlist can be renamed and moved from here.
    pub has_actions: bool,
}

/// The model of a row.
#[verifier::ext_equal]
pub struct LibraryRowView {
    pub label: Seq<char>,
    pub count_text: Seq<char>,
    pub selected: bool,
    pub edited: bool,
    pub has_actions: bool,
}

impl View for LibraryRow {
    type V = LibraryRowView;

    open spec fn view(&self) -> LibraryRowView {
        LibraryRowView {
            label: self.label@,
            count_text: self.count_text@,
            selected: self.selected,
            edited: self.edited,
            has_actions: self.has_actions,
        }
    }
}

/// The models of a list of rows.
pub open spec fn row_views(rows: Seq<LibraryRow>) -> Seq<LibraryRowView> {
    rows.map_values(|row: LibraryRow| row@)
}

/// The row of a playlist.
pub open spec fn library_row(list: PlaylistView, selected: bool, edited: bool) -> LibraryRowView {
    LibraryRowView {
        label: track_menu::labelled_name(list.kind, list.name),
        count_text: text::decimal(list.tracks.len()) + " track(s)"@,
        selected,
        edited,
        has_actions: selected && list.kind.is_deletable(),
    }
}

/// What is shown of the playlist that is selected.
#[derive(Debug)]
pub struct PlaylistDetails {
    pub type_text: String,
    pub folder_text: Option<String>,
    pub depth_text: Option<String>,
    /// The groups to choose from, where there is more than one.
    pub groups: Vec<String>,
    pub group_label: String,
}

/// The model of what is shown of a playlist.
#[verifier::ext_equal]
pub struct PlaylistDetailsView {
    pub type_text: Seq<char>,
    pub folder_text: Option<Seq<char>>,
    pub depth_text: Option<Seq<char>>,
    pub groups: Seq<Seq<char>>,
    pub group_label: Seq<char>,
}

impl View for PlaylistDetails {
    type V = PlaylistDetailsView;

    open spec fn view(&self) -> PlaylistDetailsView {
        PlaylistDetailsView {
            type_text: self.type_text@,
            folder_text: paths::text_of(self.folder_text),
            depth_text: paths::text_of(self.depth_text),
            groups: text::texts(self.groups@),
            group_label: self.group_label@,
        }
    }
}

/// The groups of a playlist, where there is more than one to choose from.
pub open spec fn choosable_groups(list: PlaylistView) -> Seq<Seq<char>> {
    let groups = text_set::sorted_distinct(list.tracks.map_values(|track: TrackView| track.group));
    if groups.len() > 1 {
        groups
    } else {
        Seq::empty()
    }
}

/// What is shown of a playlist.
pub open spec fn details_of(list: PlaylistView) -> PlaylistDetailsView {
    PlaylistDetailsView {
        type_text: "Type: "@ + track_menu::labelled_name(list.kind, list.kind.kind_label()),
        folder_text: match list.source_folder {
            Some(folder) => Some("Folder: "@ + folder),
            None => None,
        },
        depth_text: match list.source_folder {
            Some(_) => Some(
                "Grouping depth: "@ + text::decimal(list.folder_depth as nat)
                    + " folder level(s)"@,
            ),
            None => None,
        },
        groups: choosable_groups(list),
        group_label: match list.selected_group {
            Some(group) => group,
            None => "Folder filter"@,
        },
    }
}

impl AppView {
    /// The rows of the list of playlists.
    pub open spec fn library_rows(self) -> Seq<LibraryRowView> {
        Seq::new(
            self.state.playlists.len(),
            |index: int|
                library_row(
                    self.state.playlists[index],
                    self.state.selected_playlist_index == index,
                    self.browsing.editing_playlist_index == Some(index as usize),
                ),
        )
    }
}

/// Shows a playlist.
fn details_for(list: &Playlist) -> (details: PlaylistDetails)
    ensures
        details@ == details_of(list@),
{
    let mut type_text = "Type: ".to_owned();
    type_text.append(list.kind.icon().as_str());
    type_text.append(" ");
    type_text.append(list.kind.label());
    assert(type_text@ =~= details_of(list@).type_text);
    let mut folder_text: Option<String> = None;
    let mut depth_text: Option<String> = None;
    if let Some(folder) = &list.source_folder {
        let mut shown = "Folder: ".to_owned();
        shown.append(folder.as_str());
        folder_text = Some(shown);
        let mut depth = "Grouping depth: ".to_owned();
        depth.append(text::decimal_text(list.folder_depth as u64).as_str());
        depth.append(" folder level(s)");
        depth_text = Some(depth);
    }
    let mut groups = list.folder_groups();
    assert(text::texts(groups@).len() == groups@.len());
    if groups.len() <= 1 {
        let none: Vec<String> = Vec::new();
        groups = none;
        assert(text::texts(groups@) =~= Seq::empty());
    }
    let group_label = match &list.selected_group {
        Some(group) => group.clone(),
        None => "Folder filter".to_owned(),
    };
    PlaylistDetails { type_text, folder_text, depth_text, groups, group_label }
}

impl AudioOrbitApp {
    /// The rows of the list of playlists.
    pub fn library_rows(&self) -> (rows: Vec<LibraryRow>)
        ensures
            row_views(rows@) == self@.library_rows(),
    {
        let mut rows: Vec<LibraryRow> = Vec::new();
        let mut index: usize = 0;
        while index < self.state.playlists.len()
            invariant
                index <= self.state.playlists@.len(),
                row_views(rows@) == self@.library_rows().take(index as int),
            decreases self.state.playlists@.len() - index,
        {
            let ghost before = rows@;
            assert(self@.state.playlists[index as int] == self.state.playlists@[index as int]@);
            assert(self.state.playlists@[index as int]@.tracks.len()
                == self.state.playlists@[index as int].tracks.len());
            let selected = self.state.selected_playlist_index == index;
            let edited = match self.browsing.editing_playlist_index {
                Some(edited) => edited == index,
                None => false,
            };
            let list = &self.state.playlists[index];
            let mut count_text = text::decimal_text(list.tracks.len() as u64);
            count_text.append(" track(s)");
            let row = LibraryRow {
                label: track_menu::playlist_label(list),
                count_text,
                selected,
                edited,
                has_actions: selected && list.kind.can_delete(),
            };
            assert(row@ =~= self@.library_rows()[index as int]);
            rows.push(row);
            assert(row_views(rows@) =~= row_views(before).push(row@));
            assert(self@.library_rows().take(index + 1) =~= self@.library_rows().take(
                index as int,
            ).push(self@.library_rows()[index as int]));
            index += 1;
        }
        assert(self@.library_rows().take(self@.library_rows().len() as int)
            =~= self@.library_rows());
        rows
    }

    /// What is shown of the playlist that is selected.
    pub fn current_playlist_details(&self) -> (details: Option<PlaylistDetails>)
        ensures
            match details {
                Some(details) => self@.current() is Some && details@ == details_of(
                    self@.current()->0,
                ),
                None => self@.current() is None,
            },
    {
        match self.current_playlist() {
            Some(shown) => Some(details_for(shown)),
            None => None,
        }
    }
}

/// One row at most is that of the selected playlist.
pub proof fn one_row_is_selected(view: AppView, first: int, second: int)
    requires
        0 <= first < view.library_rows().len(),
        0 <= second < view.library_rows().len(),
        view.library_rows()[first].selected,
        view.library_rows()[second].selected,
    ensures
        first == second,
{
}

} // verus!
