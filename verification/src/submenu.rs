//! The menu beside the menu of a track, from which one of the playlists is chosen.

use crate::app::{AppView, AudioOrbitApp};
use crate::paths;
use crate::text;
use crate::track;
use crate::track::AudioFile;
use vstd::prelude::*;
use vstd::string::*;

verus! {

/// What the playlists of the menu are for.
#[derive(Clone, Copy, Debug, PartialEq, Eq, Structural)]
pub enum PlaylistSubmenuKind {
    Add,
    Search,
}

/// What an entry of the menu does.
#[derive(Debug)]
pub enum PlaylistSubmenuAction {
    /// The tracks are added to a playlist.
    Add { playlist_index: usize },
    /// The tracks are added to a new playlist.
    New,
    /// The track is shown in a playlist.
    Search { found_in: usize, track_path: String },
}

impl Clone for PlaylistSubmenuAction {
    fn clone(&self) -> (copy: PlaylistSubmenuAction)
        ensures
            copy == *self,
    {
        match self {
            PlaylistSubmenuAction::Add { playlist_index } => PlaylistSubmenuAction::Add {
                playlist_index: *playlist_index,
            },
            PlaylistSubmenuAction::New => PlaylistSubmenuAction::New,
            PlaylistSubmenuAction::Search { found_in, track_path } => {
                PlaylistSubmenuAction::Search {
                    found_in: *found_in,
                    track_path: track_path.clone(),
                }
            },
        }
    }
}

/// The menu while it is open. Times are in milliseconds.
#[derive(Debug)]
pub struct PlaylistSubmenuState {
    pub owner_path: String,
    pub action_paths: Vec<String>,
    pub kind: PlaylistSubmenuKind,
    pub entries: Vec<PlaylistSubmenuAction>,
    pub last_hovered_at: u64,
    pub last_rendered_at: u64,
}

/// The model of the menu while it is open.
#[verifier::ext_equal]
pub struct SubmenuView {
    pub owner_path: Seq<char>,
    pub action_paths: Seq<Seq<char>>,
    pub kind: PlaylistSubmenuKind,
    pub entries: Seq<PlaylistSubmenuAction>,
    pub last_hovered_at: u64,
    pub last_rendered_at: u64,
}

impl View for PlaylistSubmenuState {
    type V = SubmenuView;

    open spec fn view(&self) -> SubmenuView {
        SubmenuView {
            owner_path: self.owner_path@,
            action_paths: text::texts(self.action_paths@),
            kind: self.kind,
            entries: self.entries@,
            last_hovered_at: self.last_hovered_at,
            last_rendered_at: self.last_rendered_at,
        }
    }
}

/// The model of the menu where it is open.
pub open spec fn submenu_view(menu: Option<PlaylistSubmenuState>) -> Option<SubmenuView> {
    match menu {
        Some(menu) => Some(menu@),
        None => None,
    }
}

/// How long the menu stays once the pointer has left it.
pub const HOVER_GRACE_MILLIS: u64 = 350;

/// How long the menu may be chosen from once it is no longer shown.
pub const STALE_MILLIS: u64 = 500;

/// More than a number of milliseconds have gone by.
pub open spec fn is_over(now: u64, since: u64, millis: u64) -> bool {
    now > since && now - since > millis
}

impl SubmenuView {
    /// The menu belongs to a track and is of a kind.
    pub open spec fn belongs_to(self, owner: Seq<char>, kind: PlaylistSubmenuKind) -> bool {
        paths::compared_parts(self.owner_path) == paths::compared_parts(owner) && self.kind
            == kind
    }
}

/// Where a menu belongs that is to be shown, and what the pointer does.
#[derive(Debug)]
pub struct SubmenuRequest {
    pub owner_path: String,
    pub action_paths: Vec<String>,
    pub kind: PlaylistSubmenuKind,
    pub entries: Vec<PlaylistSubmenuAction>,
    /// The pointer is over the entry that opens the menu.
    pub hovered: bool,
    /// The pointer is in the menu as it was shown last.
    pub in_menu: bool,
}

/// The menu after it was asked for: it opens under the pointer, stays for a while once the
/// pointer has left it, and closes where there is nothing to choose.
pub open spec fn shown_menu(open: Option<SubmenuView>, request: SubmenuRequest, now: u64) -> Option<
    SubmenuView,
> {
    let belongs = open is Some && open->0.belongs_to(request.owner_path@, request.kind);
    if request.entries@.len() == 0 {
        if belongs {
            None
        } else {
            open
        }
    } else if request.hovered {
        Some(
            SubmenuView {
                owner_path: request.owner_path@,
                action_paths: text::texts(request.action_paths@),
                kind: request.kind,
                entries: request.entries@,
                last_hovered_at: now,
                last_rendered_at: now,
            },
        )
    } else if !belongs {
        open
    } else if !request.in_menu && is_over(now, open->0.last_hovered_at, HOVER_GRACE_MILLIS) {
        None
    } else {
        Some(
            SubmenuView {
                entries: request.entries@,
                last_hovered_at: if request.in_menu {
                    now
                } else {
                    open->0.last_hovered_at
                },
                last_rendered_at: now,
                ..open->0
            },
        )
    }
}

/// The menu is drawn for the request.
pub open spec fn is_drawn(open: Option<SubmenuView>, request: SubmenuRequest, now: u64) -> bool {
    request.entries@.len() > 0 && (request.hovered || (open is Some && open->0.belongs_to(
        request.owner_path@,
        request.kind,
    ) && (request.in_menu || !is_over(now, open->0.last_hovered_at, HOVER_GRACE_MILLIS))))
}

/// Shows the menu. Returns it as it is open afterwards, and whether it is drawn.
pub fn show_submenu(open: Option<PlaylistSubmenuState>, request: SubmenuRequest, now: u64) -> (shown:
    (Option<PlaylistSubmenuState>, bool))
    ensures
        submenu_view(shown.0) == shown_menu(submenu_view(open), request, now),
        shown.1 == is_drawn(submenu_view(open), request, now),
{
    let ghost before = submenu_view(open);
    let belongs = match &open {
        Some(menu) => paths::same_components(
            menu.owner_path.as_str(),
            request.owner_path.as_str(),
        ) && menu.kind == request.kind,
        None => false,
    };
    if request.entries.len() == 0 {
        if belongs {
            return (None, false);
        }
        return (open, false);
    }
    if request.hovered {
        let menu = PlaylistSubmenuState {
            owner_path: request.owner_path,
            action_paths: request.action_paths,
            kind: request.kind,
            entries: request.entries,
            last_hovered_at: now,
            last_rendered_at: now,
        };
        return (Some(menu), true);
    }
    if !belongs {
        return (open, false);
    }
    match open {
        Some(mut menu) => {
            if request.in_menu {
                menu.last_hovered_at = now;
            } else if now > menu.last_hovered_at && now - menu.last_hovered_at
                > HOVER_GRACE_MILLIS {
                return (None, false);
            }
            menu.entries = request.entries;
            menu.last_rendered_at = now;
            assert(menu@ =~= shown_menu(before, request, now)->0);
            (Some(menu), true)
        },
        None => (None, false),
    }
}

/// The menu after it was drawn: the pointer may be in it only now.
pub open spec fn drawn_menu(open: Option<SubmenuView>, in_menu: bool, now: u64) -> Option<
    SubmenuView,
> {
    match open {
        Some(menu) => Some(
            SubmenuView {
                last_hovered_at: if in_menu {
                    now
                } else {
                    menu.last_hovered_at
                },
                ..menu
            },
        ),
        None => None,
    }
}

/// Notes whether the pointer is in the menu as it was just drawn.
pub fn submenu_drawn(open: Option<PlaylistSubmenuState>, in_menu: bool, now: u64) -> (drawn: Option<
    PlaylistSubmenuState,
>)
    ensures
        submenu_view(drawn) == drawn_menu(submenu_view(open), in_menu, now),
{
    match open {
        Some(menu) => {
            let mut menu = menu;
            if in_menu {
                menu.last_hovered_at = now;
            }
            Some(menu)
        },
        None => None,
    }
}

/// The entry of the menu that is pressed, and the menu afterwards: one that is shown no longer
/// is closed, and so is one that was chosen from.
pub fn choose_from_submenu(
    open: Option<PlaylistSubmenuState>,
    pressed: Option<usize>,
    now: u64,
) -> (result: (Option<PlaylistSubmenuState>, Option<(Vec<String>, PlaylistSubmenuAction)>))
    ensures
        ({
            let before = submenu_view(open);
            if before is None || is_over(now, before->0.last_rendered_at, STALE_MILLIS) {
                result.0 is None && result.1 is None
            } else if pressed is Some && pressed->0 < before->0.entries.len() {
                result.0 is None && (result.1 matches Some(chosen) && text::texts(chosen.0@)
                    == before->0.action_paths && chosen.1 == before->0.entries[pressed->0 as int])
            } else {
                submenu_view(result.0) == before && result.1 is None
            }
        }),
{
    let menu = match open {
        Some(menu) => menu,
        None => return (None, None),
    };
    if now > menu.last_rendered_at && now - menu.last_rendered_at > STALE_MILLIS {
        return (None, None);
    }
    match pressed {
        Some(index) => {
            if index < menu.entries.len() {
                let action = menu.entries[index].clone();
                return (None, Some((menu.action_paths, action)));
            }
        },
        None => {},
    }
    (Some(menu), None)
}

impl AppView {
    /// The application after an entry of the menu was chosen; `files` are the tracks that it is
    /// about, as they are found on disk.
    pub open spec fn with_submenu_chosen(
        self,
        action: PlaylistSubmenuAction,
        files: Seq<track::AudioFileView>,
    ) -> AppView {
        match action {
            PlaylistSubmenuAction::Add { playlist_index } => self.with_tracks_added(
                files,
                playlist_index,
            ),
            PlaylistSubmenuAction::New => self.with_new_playlist_asked(
                files.map_values(|file: track::AudioFileView| file.path),
            ),
            PlaylistSubmenuAction::Search { found_in, track_path } => self.with_track_found(
                found_in,
                track_path@,
            ),
        }
    }
}

/// The paths of files.
fn paths_of_files(files: &Vec<AudioFile>) -> (list: Vec<String>)
    ensures
        text::texts(list@) == track::file_views(files@).map_values(
            |file: track::AudioFileView| file.path,
        ),
{
    let ghost all = track::file_views(files@).map_values(
        |file: track::AudioFileView| file.path,
    );
    let mut list: Vec<String> = Vec::new();
    let mut index: usize = 0;
    while index < files.len()
        invariant
            index <= files@.len(),
            all == track::file_views(files@).map_values(
                |file: track::AudioFileView| file.path,
            ),
            text::texts(list@) == all.take(index as int),
        decreases files@.len() - index,
    {
        let ghost before = list@;
        list.push(files[index].path.clone());
        assert(text::texts(list@) =~= text::texts(before).push(files@[index as int].path@));
        assert(all.take(index + 1) =~= all.take(index as int).push(all[index as int]));
        index += 1;
    }
    assert(all.take(all.len() as int) =~= all);
    list
}

impl AudioOrbitApp {
    /// Does what an entry of the menu says.
    pub fn process_playlist_submenu_choice(
        &mut self,
        action: PlaylistSubmenuAction,
        files: Vec<AudioFile>,
    )
        ensures
            final(self)@ == old(self)@.with_submenu_chosen(action, track::file_views(files@)),
    {
        match action {
            PlaylistSubmenuAction::Add { playlist_index } => {
                self.add_tracks_to_playlist(files, playlist_index);
            },
            PlaylistSubmenuAction::New => {
                let list = paths_of_files(&files);
                self.open_new_playlist_modal(list);
            },
            PlaylistSubmenuAction::Search { found_in, track_path } => {
                self.jump_to_track_in_playlist(found_in, track_path.as_str());
            },
        }
    }
}

/// A menu that the pointer has left for long is gone, and one that it is in stays; so does one
/// that the pointer was in when it was drawn, for as long as it may be left.
pub proof fn menu_follows_pointer(menu: SubmenuView, request: SubmenuRequest, now: u64)
    requires
        request.entries@.len() > 0,
        !request.hovered,
        menu.belongs_to(request.owner_path@, request.kind),
    ensures
        request.in_menu ==> shown_menu(Some(menu), request, now) is Some,
        !request.in_menu && is_over(now, menu.last_hovered_at, HOVER_GRACE_MILLIS) ==> shown_menu(
            Some(menu),
            request,
            now,
        ) is None,
        forall|drawn_at: u64|
            !is_over(now, drawn_at, HOVER_GRACE_MILLIS) ==> shown_menu(
                #[trigger] drawn_menu(Some(menu), true, drawn_at),
                request,
                now,
            ) is Some,
{
}

} // verus!
