//! Playlists: adding files, folder synchronisation, availability, groups and favorites.

use crate::counting;
use crate::paths;
use crate::sorting;
use crate::text;
use crate::track;
use crate::track::{AddedKey, AudioFile, AudioFileView, Track, TrackKey, TrackView};
use vstd::prelude::*;
use vstd::string::*;

verus! {

pub const FAVORITES_PLAYLIST_NAME: &'static str = "Favorites";

pub const TEMPORARY_PLAYLIST_NAME: &'static str = "Temporary playback";

// ---------------------------------------------------------------------------
// Kinds of playlists
// ---------------------------------------------------------------------------

/// What a playlist is made of.
#[derive(Clone, Copy, Debug, PartialEq, Eq, Structural)]
pub enum PlaylistKind {
    Favorites,
    Manual,
    Folder,
    Temporary,
}

impl Default for PlaylistKind {
    fn default() -> (kind: PlaylistKind)
        ensures
            kind == PlaylistKind::Manual,
    {
        PlaylistKind::Manual
    }
}

/// The icons that stand for kinds of playlists.
#[derive(Clone, Copy, Debug, PartialEq, Eq, Structural)]
pub enum PlaylistIcon {
    Heart,
    ListMusic,
    Folder,
}

/// The character of an icon in the icon font.
pub open spec fn icon_code(icon: PlaylistIcon) -> char {
    match icon {
        PlaylistIcon::Heart => '\u{e0f2}',
        PlaylistIcon::ListMusic => '\u{e2e0}',
        PlaylistIcon::Folder => '\u{e0d7}',
    }
}

/// `char::from` of a `lucide_icons::Icon` is the code point that the icon has in the Lucide
/// font, a fixed table.
#[verifier::external_body]
fn icon_character(icon: PlaylistIcon) -> (character: char)
    ensures
        character == icon_code(icon),
{
    char::from(
        match icon {
            PlaylistIcon::Heart => lucide_icons::Icon::Heart,
            PlaylistIcon::ListMusic => lucide_icons::Icon::ListMusic,
            PlaylistIcon::Folder => lucide_icons::Icon::Folder,
        },
    )
}

impl PlaylistKind {
    /// The icon that stands for this kind.
    pub open spec fn kind_icon(self) -> PlaylistIcon {
        match self {
            PlaylistKind::Favorites => PlaylistIcon::Heart,
            PlaylistKind::Manual => PlaylistIcon::ListMusic,
            PlaylistKind::Folder => PlaylistIcon::Folder,
            PlaylistKind::Temporary => PlaylistIcon::ListMusic,
        }
    }

    /// The text that names this kind.
    pub open spec fn kind_label(self) -> Seq<char> {
        match self {
            PlaylistKind::Favorites => "Favorites"@,
            PlaylistKind::Manual => "Manual playlist"@,
            PlaylistKind::Folder => "Folder playlist"@,
            PlaylistKind::Temporary => "Temporary playback"@,
        }
    }

    /// Whether a user may add tracks one by one.
    pub open spec fn takes_manual_tracks(self) -> bool {
        self == PlaylistKind::Favorites || self == PlaylistKind::Manual
    }

    /// Whether a user may delete or rename the playlist.
    pub open spec fn is_deletable(self) -> bool {
        self == PlaylistKind::Manual || self == PlaylistKind::Folder
    }

    /// The icon of this kind as text in the icon font.
    pub fn icon(&self) -> (icon: String)
        ensures
            icon@ == seq![icon_code(self.kind_icon())],
    {
        let icon = match self {
            PlaylistKind::Favorites => PlaylistIcon::Heart,
            PlaylistKind::Manual => PlaylistIcon::ListMusic,
            PlaylistKind::Folder => PlaylistIcon::Folder,
            PlaylistKind::Temporary => PlaylistIcon::ListMusic,
        };
        let mut shown = String::new();
        shown.push(icon_character(icon));
        assert(shown@ =~= seq![icon_code(self.kind_icon())]);
        shown
    }

    /// The text that names this kind.
    pub fn label(&self) -> (label: &'static str)
        ensures
            label@ == self.kind_label(),
    {
        match self {
            PlaylistKind::Favorites => "Favorites",
            PlaylistKind::Manual => "Manual playlist",
            PlaylistKind::Folder => "Folder playlist",
            PlaylistKind::Temporary => "Temporary playback",
        }
    }

    /// Whether a user may add tracks one by one.
    pub fn accepts_manual_tracks(&self) -> (accepts: bool)
        ensures
            accepts == self.takes_manual_tracks(),
    {
        *self == PlaylistKind::Favorites || *self == PlaylistKind::Manual
    }

    /// Whether a user may delete or rename the playlist.
    pub fn can_delete(&self) -> (deletable: bool)
        ensures
            deletable == self.is_deletable(),
    {
        !(*self == PlaylistKind::Favorites || *self == PlaylistKind::Temporary)
    }
}

// ---------------------------------------------------------------------------
// The playlist and its model
// ---------------------------------------------------------------------------

/// A named list of tracks.
#[derive(Debug)]
pub struct Playlist {
    pub name: String,
    pub tracks: Vec<Track>,
    pub source_folder: Option<String>,
    pub folder_depth: usize,
    pub selected_group: Option<String>,
    pub repeat_selection: Vec<String>,
    pub kind: PlaylistKind,
}

/// The model of a playlist.
#[verifier::ext_equal]
pub struct PlaylistView {
    pub name: Seq<char>,
    pub tracks: Seq<TrackView>,
    pub source_folder: Option<Seq<char>>,
    pub folder_depth: usize,
    pub selected_group: Option<Seq<char>>,
    pub repeat_selection: Seq<Seq<char>>,
    pub kind: PlaylistKind,
}

impl View for Playlist {
    type V = PlaylistView;

    open spec fn view(&self) -> PlaylistView {
        PlaylistView {
            name: self.name@,
            tracks: track::track_views(self.tracks@),
            source_folder: paths::text_of(self.source_folder),
            folder_depth: self.folder_depth,
            selected_group: paths::text_of(self.selected_group),
            repeat_selection: text::texts(self.repeat_selection@),
            kind: self.kind,
        }
    }
}

/// The models of a list of playlists.
pub open spec fn playlist_views(playlists: Seq<Playlist>) -> Seq<PlaylistView> {
    playlists.map_values(|playlist: Playlist| playlist@)
}

/// Whether a track of the list has the key of `path`.
pub open spec fn has_path(tracks: Seq<TrackView>, path: Seq<char>) -> bool {
    exists|i: int| 0 <= i < tracks.len() && paths::same_key(#[trigger] tracks[i].path, path)
}

/// No two tracks of the list have the same key.
pub open spec fn paths_distinct(tracks: Seq<TrackView>) -> bool {
    forall|i: int, j: int|
        0 <= i < j < tracks.len() ==> !paths::same_key(
            (#[trigger] tracks[i]).path,
            (#[trigger] tracks[j]).path,
        )
}

/// Whether a track of the list is of `group`.
pub open spec fn has_group(tracks: Seq<TrackView>, group: Seq<char>) -> bool {
    exists|i: int| 0 <= i < tracks.len() && #[trigger] tracks[i].group == group
}

/// The order by group, title and path.
pub open spec fn track_order() -> spec_fn(TrackView, TrackView) -> bool {
    |left: TrackView, right: TrackView| track::track_at_most(left, right)
}

/// The order by when a favorite was added, newest first.
pub open spec fn added_order() -> spec_fn(TrackView, TrackView) -> bool {
    |left: TrackView, right: TrackView| track::added_at_most(left, right)
}

/// The order by group, title and path, reversed.
pub open spec fn reversed_track_order() -> spec_fn(TrackView, TrackView) -> bool {
    |left: TrackView, right: TrackView| track::track_at_most(right, left)
}

/// Every list of tracks has a stable sort by group, title and path.
pub proof fn sorted_tracks_hold(tracks: Seq<TrackView>)
    requires
        tracks.len() <= usize::MAX,
    ensures
        sorting::is_stable_sort(sorting::sorted(tracks, track_order()), tracks, track_order()),
{
    let at_most = track_order();
    assert forall|left: TrackView, right: TrackView| #[trigger]
        at_most(left, right) || at_most(right, left) by {
        track::rank_order_total(track::track_rank(left), track::track_rank(right));
    }
    assert forall|first: TrackView, second: TrackView, third: TrackView| #[trigger]
        at_most(first, second) && #[trigger] at_most(second, third) implies at_most(
        first,
        third,
    ) by {
        track::rank_order_transitive(
            track::track_rank(first),
            track::track_rank(second),
            track::track_rank(third),
        );
    }
    sorting::stable_sort_exists(tracks, at_most);
}

impl PlaylistView {
    /// The playlist without a selected group that none of its tracks is of.
    pub open spec fn with_valid_group(self) -> PlaylistView {
        match self.selected_group {
            Some(group) => if has_group(self.tracks, group) {
                self
            } else {
                PlaylistView { selected_group: None, ..self }
            },
            None => self,
        }
    }

    /// The playlist with a track for `file`, unless a track has its key. In the favorites the
    /// track comes first, with the next sequence number; elsewhere the tracks are sorted.
    pub open spec fn with_file(
        self,
        file: AudioFileView,
        root: Option<Seq<char>>,
        depth: nat,
    ) -> PlaylistView {
        let added = track::new_track(file, root, depth);
        if has_path(self.tracks, file.path) {
            self
        } else if self.kind == PlaylistKind::Favorites {
            let numbered = numbered_favorites(self.tracks);
            PlaylistView {
                tracks: seq![
                    TrackView {
                        favorite_added_sequence: Some(next_sequence(numbered)),
                        ..added
                    },
                ] + numbered,
                ..self
            }
        } else {
            PlaylistView { tracks: sorting::sorted(self.tracks.push(added), track_order()), ..self }
        }
    }

    /// The playlist after `files` were added one by one, and the paths of those that were not
    /// there before.
    pub open spec fn with_files(
        self,
        files: Seq<AudioFileView>,
        root: Option<Seq<char>>,
        depth: nat,
    ) -> (PlaylistView, Seq<Seq<char>>)
        decreases files.len(),
    {
        if files.len() == 0 {
            (self, Seq::empty())
        } else {
            let before = self.with_files(files.drop_last(), root, depth);
            let file = files.last();
            if has_path(before.0.tracks, file.path) {
                before
            } else {
                (before.0.with_file(file, root, depth), before.1.push(file.path))
            }
        }
    }
}

/// The playlist after `files` were opened for temporary playback, and the paths of those that
/// were not there before.
pub open spec fn with_temporary_files(
    tracks: Seq<TrackView>,
    files: Seq<AudioFileView>,
) -> (Seq<TrackView>, Seq<Seq<char>>)
    decreases files.len(),
{
    if files.len() == 0 {
        (tracks, Seq::empty())
    } else {
        let before = with_temporary_files(tracks, files.drop_last());
        let file = files.last();
        if has_path(before.0, file.path) {
            before
        } else {
            (before.0.push(track::new_track(file, None, 0)), before.1.push(file.path))
        }
    }
}

// ---------------------------------------------------------------------------
// Sequence numbers of favorites
// ---------------------------------------------------------------------------

/// Whether a track of the list has a sequence number.
pub open spec fn any_numbered(tracks: Seq<TrackView>) -> bool {
    exists|i: int| 0 <= i < tracks.len() && (#[trigger] tracks[i]).favorite_added_sequence is Some
}

/// The least sequence number of the list.
pub open spec fn least_sequence(tracks: Seq<TrackView>) -> u64
    decreases tracks.len(),
{
    if tracks.len() == 0 {
        u64::MAX
    } else {
        let rest = least_sequence(tracks.drop_last());
        match tracks.last().favorite_added_sequence {
            Some(sequence) => if sequence < rest {
                sequence
            } else {
                rest
            },
            None => rest,
        }
    }
}

/// The greatest sequence number of the list, 0 where there is none.
pub open spec fn greatest_sequence(tracks: Seq<TrackView>) -> u64
    decreases tracks.len(),
{
    if tracks.len() == 0 {
        0
    } else {
        let rest = greatest_sequence(tracks.drop_last());
        match tracks.last().favorite_added_sequence {
            Some(sequence) => if sequence > rest {
                sequence
            } else {
                rest
            },
            None => rest,
        }
    }
}

/// The sequence number of a new favorite: one more than the greatest, as far as that can be.
pub open spec fn next_sequence(tracks: Seq<TrackView>) -> u64 {
    if greatest_sequence(tracks) == u64::MAX {
        u64::MAX
    } else {
        (greatest_sequence(tracks) + 1) as u64
    }
}

/// How many of the tracks before `index` have no sequence number.
pub open spec fn unnumbered_before(tracks: Seq<TrackView>, index: nat) -> nat {
    counting::count(index, |i: int| tracks[i].favorite_added_sequence is None)
}

/// The favorites with a sequence number each. Where none has one, they are numbered downwards
/// from their count; else those without get descending numbers below the least, not under 0.
pub open spec fn numbered_favorites(tracks: Seq<TrackView>) -> Seq<TrackView> {
    if !any_numbered(tracks) {
        Seq::new(
            tracks.len(),
            |i: int|
                TrackView { favorite_added_sequence: Some((tracks.len() - i) as u64), ..tracks[i] },
        )
    } else {
        Seq::new(
            tracks.len(),
            |i: int|
                if tracks[i].favorite_added_sequence is Some {
                    tracks[i]
                } else {
                    let below = least_sequence(tracks) - 1 - unnumbered_before(tracks, i as nat);
                    TrackView {
                        favorite_added_sequence: Some(
                            if below < 0 {
                                0u64
                            } else {
                                below as u64
                            },
                        ),
                        ..tracks[i]
                    }
                },
        )
    }
}

/// The tracks without sequence numbers.
pub open spec fn unnumbered(tracks: Seq<TrackView>) -> Seq<TrackView> {
    tracks.map_values(
        |track: TrackView| TrackView { favorite_added_sequence: None, ..track },
    )
}

impl PlaylistView {
    /// The playlist with sequence numbers in the favorites, and none elsewhere.
    pub open spec fn with_sequences(self) -> PlaylistView {
        PlaylistView {
            tracks: if self.kind == PlaylistKind::Favorites {
                numbered_favorites(self.tracks)
            } else {
                unnumbered(self.tracks)
            },
            ..self
        }
    }
}

// ---------------------------------------------------------------------------
// Construction, adding files and sorting
// ---------------------------------------------------------------------------

/// An empty playlist.
pub open spec fn empty_playlist(
    name: Seq<char>,
    folder_depth: usize,
    kind: PlaylistKind,
) -> PlaylistView {
    PlaylistView {
        name,
        tracks: Seq::empty(),
        source_folder: None,
        folder_depth,
        selected_group: None,
        repeat_selection: Seq::empty(),
        kind,
    }
}

impl Clone for Playlist {
    fn clone(&self) -> (copy: Playlist)
        ensures
            copy@ == self@,
    {
        let tracks = self.tracks.clone();
        assert(track::track_views(tracks@) =~= track::track_views(self.tracks@));
        let copy = Playlist {
            name: self.name.clone(),
            tracks,
            source_folder: self.source_folder.clone(),
            folder_depth: self.folder_depth,
            selected_group: self.selected_group.clone(),
            repeat_selection: text::copy_list(&self.repeat_selection),
            kind: self.kind,
        };
        assert(copy@ =~= self@);
        copy
    }
}

impl Playlist {
    /// An empty playlist for tracks that a user adds.
    pub fn new(name: &str) -> (playlist: Playlist)
        ensures
            playlist@ == empty_playlist(name@, 2, PlaylistKind::Manual),
    {
        let playlist = Playlist {
            name: name.to_owned(),
            tracks: Vec::new(),
            source_folder: None,
            folder_depth: 2,
            selected_group: None,
            repeat_selection: Vec::new(),
            kind: PlaylistKind::Manual,
        };
        assert(playlist@ =~= empty_playlist(name@, 2, PlaylistKind::Manual));
        playlist
    }

    /// The empty list of favorites.
    pub fn favorites() -> (playlist: Playlist)
        ensures
            playlist@ == empty_playlist(FAVORITES_PLAYLIST_NAME@, 0, PlaylistKind::Favorites),
    {
        let playlist = Playlist {
            name: FAVORITES_PLAYLIST_NAME.to_owned(),
            tracks: Vec::new(),
            source_folder: None,
            folder_depth: 0,
            selected_group: None,
            repeat_selection: Vec::new(),
            kind: PlaylistKind::Favorites,
        };
        assert(playlist@ =~= empty_playlist(
            FAVORITES_PLAYLIST_NAME@,
            0,
            PlaylistKind::Favorites,
        ));
        playlist
    }

    /// The empty list for temporary playback.
    pub fn temporary() -> (playlist: Playlist)
        ensures
            playlist@ == empty_playlist(TEMPORARY_PLAYLIST_NAME@, 0, PlaylistKind::Temporary),
    {
        let playlist = Playlist {
            name: TEMPORARY_PLAYLIST_NAME.to_owned(),
            tracks: Vec::new(),
            source_folder: None,
            folder_depth: 0,
            selected_group: None,
            repeat_selection: Vec::new(),
            kind: PlaylistKind::Temporary,
        };
        assert(playlist@ =~= empty_playlist(
            TEMPORARY_PLAYLIST_NAME@,
            0,
            PlaylistKind::Temporary,
        ));
        playlist
    }

    /// Whether a user may add tracks one by one.
    pub fn accepts_manual_tracks(&self) -> (accepts: bool)
        ensures
            accepts == self.kind.takes_manual_tracks(),
    {
        self.kind.accepts_manual_tracks()
    }

    /// Whether a track of the playlist has the key of `path`.
    pub fn contains_path(&self, path: &str) -> (found: bool)
        ensures
            found == has_path(self@.tracks, path@),
    {
        let mut index: usize = 0;
        while index < self.tracks.len()
            invariant
                index <= self.tracks@.len(),
                forall|i: int|
                    0 <= i < index ==> !paths::same_key(#[trigger] self@.tracks[i].path, path@),
            decreases self.tracks@.len() - index,
        {
            if paths::same_path(self.tracks[index].path.as_str(), path) {
                assert(paths::same_key(self@.tracks[index as int].path, path@));
                return true;
            }
            index += 1;
        }
        false
    }

    /// Adds files for temporary playback; returns the paths of those that were added. Any
    /// other playlist is left alone.
    pub fn add_temporary_files(&mut self, files: Vec<AudioFile>) -> (added: Vec<String>)
        ensures
            old(self).kind != PlaylistKind::Temporary ==> final(self)@ == old(self)@ && added@.len()
                == 0,
            old(self).kind == PlaylistKind::Temporary ==> ({
                let result = with_temporary_files(old(self)@.tracks, track::file_views(files@));
                final(self)@ == (PlaylistView { tracks: result.0, ..old(self)@ }) && text::texts(
                    added@,
                ) == result.1
            }),
    {
        if self.kind != PlaylistKind::Temporary {
            return Vec::new();
        }
        let ghost start = self@;
        let ghost all = track::file_views(files@);
        let mut added: Vec<String> = Vec::new();
        assert(all.take(0) =~= Seq::empty());
        assert(text::texts(added@) =~= Seq::empty());
        for file in iter: files
            invariant
                all == track::file_views(iter.seq()),
                self@ == (PlaylistView {
                    tracks: with_temporary_files(start.tracks, all.take(iter.index())).0,
                    ..start
                }),
                text::texts(added@) == with_temporary_files(
                    start.tracks,
                    all.take(iter.index()),
                ).1,
        {
            let ghost seen = all.take(iter.index());
            let ghost next = all.take(iter.index() + 1);
            let ghost before = self@;
            let ghost tracks_before = self.tracks@;
            let ghost added_before = added@;
            assert(next.drop_last() =~= seen);
            assert(next.last() == file@);
            if !self.contains_path(file.path.as_str()) {
                let path = file.path.clone();
                let new_track = Track::from_path(file, None, 0);
                self.tracks.push(new_track);
                assert(track::track_views(self.tracks@) =~= track::track_views(tracks_before).push(
                    new_track@,
                ));
                added.push(path);
                assert(text::texts(added@) =~= text::texts(added_before).push(path@));
            }
        }
        assert(all.take(all.len() as int) =~= all);
        added
    }

    /// Adds a track for a file, unless a track has its key; returns whether it was added.
    pub fn add_track_path(
        &mut self,
        file: AudioFile,
        root: Option<&str>,
        folder_depth: usize,
    ) -> (added: bool)
        ensures
            added == !has_path(old(self)@.tracks, file.path@),
            final(self)@ == old(self)@.with_file(
                file@,
                track::optional_text(root),
                folder_depth as nat,
            ),
    {
        if self.contains_path(file.path.as_str()) {
            return false;
        }
        let mut new_track = Track::from_path(file, root, folder_depth);
        if self.kind == PlaylistKind::Favorites {
            self.ensure_favorite_added_sequences();
            let ghost numbered = self.tracks@;
            let greatest: u64 = self.greatest_added_sequence();
            new_track.favorite_added_sequence = Some(
                if greatest == u64::MAX {
                    u64::MAX
                } else {
                    greatest + 1
                },
            );
            self.tracks.insert(0, new_track);
            assert(track::track_views(self.tracks@) =~= seq![new_track@] + track::track_views(
                numbered,
            ));
        } else {
            let ghost before = self.tracks@;
            self.tracks.push(new_track);
            assert(track::track_views(self.tracks@) =~= track::track_views(before).push(
                new_track@,
            ));
            self.sort_tracks();
        }
        true
    }

    /// The greatest sequence number of the tracks, 0 where there is none.
    fn greatest_added_sequence(&self) -> (greatest: u64)
        ensures
            greatest == greatest_sequence(self@.tracks),
    {
        let mut greatest: u64 = 0;
        let mut index: usize = 0;
        assert(self@.tracks.take(0) =~= Seq::empty());
        while index < self.tracks.len()
            invariant
                index <= self.tracks@.len(),
                greatest == greatest_sequence(self@.tracks.take(index as int)),
            decreases self.tracks@.len() - index,
        {
            assert(self@.tracks.take(index + 1).drop_last() =~= self@.tracks.take(index as int));
            assert(self@.tracks.take(index + 1).last() == self.tracks@[index as int]@);
            if let Some(sequence) = self.tracks[index].favorite_added_sequence {
                if sequence > greatest {
                    greatest = sequence;
                }
            }
            index += 1;
        }
        assert(self@.tracks.take(self.tracks@.len() as int) =~= self@.tracks);
        greatest
    }

    /// Adds files one by one, where the playlist takes them; returns the paths of those that
    /// were added.
    pub fn add_files(&mut self, files: Vec<AudioFile>) -> (added: Vec<String>)
        ensures
            !old(self).kind.takes_manual_tracks() ==> final(self)@ == old(self)@ && added@.len()
                == 0,
            old(self).kind.takes_manual_tracks() ==> ({
                let result = old(self)@.with_files(
                    track::file_views(files@),
                    old(self)@.source_folder,
                    old(self)@.folder_depth as nat,
                );
                final(self)@ == result.0 && text::texts(added@) == result.1
            }),
    {
        if !self.accepts_manual_tracks() {
            return Vec::new();
        }
        let root = self.source_folder.clone();
        let folder_depth: usize = self.folder_depth;
        let root_path = match &root {
            Some(root) => Some(root.as_str()),
            None => None,
        };
        self.add_files_below(files, root_path, folder_depth)
    }

    /// Adds files one by one, grouped by their folders below `root`; returns the paths of
    /// those that were added.
    pub fn add_files_below(
        &mut self,
        files: Vec<AudioFile>,
        root: Option<&str>,
        folder_depth: usize,
    ) -> (added: Vec<String>)
        ensures
            ({
                let result = old(self)@.with_files(
                    track::file_views(files@),
                    track::optional_text(root),
                    folder_depth as nat,
                );
                final(self)@ == result.0 && text::texts(added@) == result.1
            }),
    {
        let ghost start = self@;
        let ghost all = track::file_views(files@);
        let ghost root_text = track::optional_text(root);
        let mut added: Vec<String> = Vec::new();
        assert(all.take(0) =~= Seq::empty());
        assert(text::texts(added@) =~= Seq::empty());
        for file in iter: files
            invariant
                all == track::file_views(iter.seq()),
                root_text == track::optional_text(root),
                self@ == start.with_files(
                    all.take(iter.index()),
                    root_text,
                    folder_depth as nat,
                ).0,
                text::texts(added@) == start.with_files(
                    all.take(iter.index()),
                    root_text,
                    folder_depth as nat,
                ).1,
        {
            let ghost seen = all.take(iter.index());
            let ghost next = all.take(iter.index() + 1);
            let ghost added_before = added@;
            assert(next.drop_last() =~= seen);
            assert(next.last() == file@);
            let path = file.path.clone();
            if self.add_track_path(file, root, folder_depth) {
                added.push(path);
                assert(text::texts(added@) =~= text::texts(added_before).push(path@));
            }
        }
        assert(all.take(all.len() as int) =~= all);
        added
    }

    /// Sorts the tracks by group, title and path.
    pub fn sort_tracks(&mut self)
        ensures
            final(self)@ == (PlaylistView {
                tracks: sorting::sorted(old(self)@.tracks, track_order()),
                ..old(self)@
            }),
    {
        self.sort_tracks_by_name(true);
    }

    /// Sorts the tracks by group, title and path, in that order or in the reversed one.
    pub fn sort_tracks_by_name(&mut self, ascending: bool)
        ensures
            final(self)@ == (PlaylistView {
                tracks: sorting::sorted(
                    old(self)@.tracks,
                    if ascending {
                        track_order()
                    } else {
                        reversed_track_order()
                    },
                ),
                ..old(self)@
            }),
    {
        let mut keys: Vec<TrackKey> = Vec::new();
        let mut index: usize = 0;
        while index < self.tracks.len()
            invariant
                index <= self.tracks@.len(),
                keys@.len() == index,
                forall|i: int|
                    0 <= i < index ==> (#[trigger] keys@[i])@ == track::track_rank(self.tracks@[i]@),
            decreases self.tracks@.len() - index,
        {
            let item = &self.tracks[index];
            keys.push(
                TrackKey {
                    group: item.group.as_str().to_lowercase(),
                    title: item.title.as_str().to_lowercase(),
                    parts: paths::compared_path(item.path.as_str()),
                },
            );
            index += 1;
        }
        let ghost before = self.tracks@;
        let ghost views = track::track_views(before);
        let mut items: Vec<Track> = Vec::new();
        std::mem::swap(&mut items, &mut self.tracks);
        proof {
            assert forall|i: int, j: int|
                0 <= i < keys@.len() && 0 <= j < keys@.len() implies track_order()(
                views[i],
                views[j],
            ) == sorting::SortKey::at_most(#[trigger] keys@[i], #[trigger] keys@[j]) by {
                assert(keys@[i]@ == track::track_rank(views[i]));
                assert(keys@[j]@ == track::track_rank(views[j]));
            }
        }
        if ascending {
            let (sorted, Ghost(order)) = sorting::sort_by_keys(items, &keys);
            proof {
                sorting::stable_order_by_keys(order, keys@, views, track_order());
                assert(track::track_views(sorted@) =~= sorting::arranged(views, order));
                sorting::sorted_unique(track::track_views(sorted@), views, track_order());
            }
            self.tracks = sorted;
        } else {
            let ghost forward = keys@;
            let reversed = sorting::reverse_keys(keys);
            let (sorted, Ghost(order)) = sorting::sort_by_keys(items, &reversed);
            proof {
                assert forall|i: int, j: int|
                    0 <= i < reversed@.len() && 0 <= j < reversed@.len() implies
                reversed_track_order()(views[i], views[j]) == sorting::SortKey::at_most(
                    #[trigger] reversed@[i],
                    #[trigger] reversed@[j],
                ) by {
                    assert(track_order()(views[j], views[i]) == sorting::SortKey::at_most(
                        forward[j],
                        forward[i],
                    ));
                }
                sorting::stable_order_by_keys(order, reversed@, views, reversed_track_order());
                assert(track::track_views(sorted@) =~= sorting::arranged(views, order));
                sorting::sorted_unique(
                    track::track_views(sorted@),
                    views,
                    reversed_track_order(),
                );
            }
            self.tracks = sorted;
        }
    }

    /// Sorts the favorites newest first. Any other playlist is left alone.
    pub fn sort_favorites_by_added(&mut self)
        ensures
            old(self).kind != PlaylistKind::Favorites ==> final(self)@ == old(self)@,
            old(self).kind == PlaylistKind::Favorites ==> final(self)@ == (PlaylistView {
                tracks: sorting::sorted(numbered_favorites(old(self)@.tracks), added_order()),
                ..old(self)@
            }),
    {
        if self.kind != PlaylistKind::Favorites {
            return;
        }
        self.ensure_favorite_added_sequences();
        let mut keys: Vec<AddedKey> = Vec::new();
        let mut index: usize = 0;
        while index < self.tracks.len()
            invariant
                index <= self.tracks@.len(),
                keys@.len() == index,
                forall|i: int|
                    0 <= i < index ==> (#[trigger] keys@[i]).sequence == track::added_sequence(
                        self.tracks@[i]@,
                    ),
            decreases self.tracks@.len() - index,
        {
            let sequence: u64 = match self.tracks[index].favorite_added_sequence {
                Some(sequence) => sequence,
                None => 0,
            };
            keys.push(AddedKey { sequence });
            index += 1;
        }
        let ghost before = self.tracks@;
        let mut items: Vec<Track> = Vec::new();
        std::mem::swap(&mut items, &mut self.tracks);
        let (sorted, Ghost(order)) = sorting::sort_by_keys(items, &keys);
        proof {
            let views = track::track_views(before);
            sorting::stable_order_by_keys(order, keys@, views, added_order());
            assert(track::track_views(sorted@) =~= sorting::arranged(views, order));
            sorting::sorted_unique(track::track_views(sorted@), views, added_order());
        }
        self.tracks = sorted;
    }

    /// Gives each favorite a sequence number; takes the numbers away in any other playlist.
    pub fn ensure_favorite_added_sequences(&mut self)
        ensures
            final(self)@ == old(self)@.with_sequences(),
    {
        let ghost start = self@;
        let ghost tracks = start.tracks;
        if self.kind != PlaylistKind::Favorites {
            let mut index: usize = 0;
            while index < self.tracks.len()
                invariant
                    index <= self.tracks@.len() == tracks.len(),
                    self@ == (PlaylistView { tracks: self@.tracks, ..start }),
                    forall|i: int|
                        0 <= i < tracks.len() ==> #[trigger] self@.tracks[i] == if i < index {
                            unnumbered(tracks)[i]
                        } else {
                            tracks[i]
                        },
                decreases self.tracks@.len() - index,
            {
                let ghost before = self@.tracks;
                assert(self@.tracks[index as int] == tracks[index as int]);
                self.tracks[index].favorite_added_sequence = None;
                assert(self@.tracks =~= before.update(index as int, unnumbered(tracks)[index as int]));
                index += 1;
            }
            assert(self@.tracks =~= unnumbered(tracks));
            return;
        }
        let mut known = false;
        let mut least: u64 = u64::MAX;
        let mut index: usize = 0;
        assert(tracks.take(0) =~= Seq::empty());
        while index < self.tracks.len()
            invariant
                self@ == start,
                tracks == start.tracks,
                index <= self.tracks@.len(),
                least == least_sequence(tracks.take(index as int)),
                known == any_numbered(tracks.take(index as int)),
            decreases self.tracks@.len() - index,
        {
            let ghost seen = tracks.take(index as int);
            let ghost next = tracks.take(index + 1);
            assert(next.drop_last() =~= seen);
            assert(next.last() == self.tracks@[index as int]@);
            assert(any_numbered(next) == (any_numbered(seen)
                || next.last().favorite_added_sequence is Some)) by {
                if any_numbered(seen) {
                    let i = choose|i: int|
                        0 <= i < seen.len() && (#[trigger] seen[i]).favorite_added_sequence is Some;
                    assert(next[i].favorite_added_sequence is Some);
                }
                if next.last().favorite_added_sequence is Some {
                    assert(next[index as int].favorite_added_sequence is Some);
                }
                if any_numbered(next) {
                    let i = choose|i: int|
                        0 <= i < next.len() && (#[trigger] next[i]).favorite_added_sequence is Some;
                    if i < index {
                        assert(seen[i].favorite_added_sequence is Some);
                    }
                }
            }
            if let Some(sequence) = self.tracks[index].favorite_added_sequence {
                known = true;
                if sequence < least {
                    least = sequence;
                }
            }
            index += 1;
        }
        assert(tracks.take(tracks.len() as int) =~= tracks);
        let ghost goal = numbered_favorites(tracks);
        if !known {
            let count: u64 = self.tracks.len() as u64;
            let mut index: usize = 0;
            while index < self.tracks.len()
                invariant
                    index <= self.tracks@.len() == tracks.len(),
                    count == tracks.len(),
                    goal == numbered_favorites(tracks),
                    !any_numbered(tracks),
                    self@ == (PlaylistView { tracks: self@.tracks, ..start }),
                    forall|i: int|
                        0 <= i < tracks.len() ==> #[trigger] self@.tracks[i] == if i < index {
                            goal[i]
                        } else {
                            tracks[i]
                        },
                decreases self.tracks@.len() - index,
            {
                let ghost before = self@.tracks;
                assert(self@.tracks[index as int] == tracks[index as int]);
                self.tracks[index].favorite_added_sequence = Some(count - index as u64);
                assert(self@.tracks =~= before.update(index as int, goal[index as int]));
                index += 1;
            }
            assert(self@.tracks =~= goal);
            return;
        }
        let ghost missing = |i: int| tracks[i].favorite_added_sequence is None;
        let mut next_unknown: u64 = if least == 0 {
            0
        } else {
            least - 1
        };
        let mut index: usize = 0;
        while index < self.tracks.len()
            invariant
                index <= self.tracks@.len() == tracks.len(),
                goal == numbered_favorites(tracks),
                any_numbered(tracks),
                missing == (|i: int| tracks[i].favorite_added_sequence is None),
                least == least_sequence(tracks),
                self@ == (PlaylistView { tracks: self@.tracks, ..start }),
                forall|i: int|
                    0 <= i < tracks.len() ==> #[trigger] self@.tracks[i] == if i < index {
                        goal[i]
                    } else {
                        tracks[i]
                    },
                next_unknown == (if least - 1 - counting::count(index as nat, missing) < 0 {
                    0
                } else {
                    least - 1 - counting::count(index as nat, missing)
                }),
            decreases self.tracks@.len() - index,
        {
            let ghost before = self@.tracks;
            assert(self@.tracks[index as int] == tracks[index as int]);
            assert(unnumbered_before(tracks, index as nat) == counting::count(
                index as nat,
                missing,
            ));
            if self.tracks[index].favorite_added_sequence.is_none() {
                self.tracks[index].favorite_added_sequence = Some(next_unknown);
                if next_unknown > 0 {
                    next_unknown -= 1;
                }
            }
            assert(self@.tracks =~= before.update(index as int, goal[index as int]));
            index += 1;
        }
        assert(self@.tracks =~= goal);
    }
}

} // verus!
