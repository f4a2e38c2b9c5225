//! The state of the application that is saved between runs.

use crate::calendar;
use crate::counting;
use crate::playlist;
use crate::playlist::{Playlist, PlaylistKind, PlaylistView};
use crate::settings;
use crate::settings::{
    DspProfile, DspProfileView, DspSettings, LastPlayedTrack, LastPlayedView, LibrarySettings,
    OrbitMode, PlaybackSession, PlaybackSessionView, PlaybackSettings, RadioStation,
    RadioStationView, RecordingSettings, UiSettings, UiView, UpdateSettings,
};
use crate::text;
use vstd::prelude::*;
use vstd::string::*;

verus! {

/// What is saved between runs.
#[derive(Debug)]
pub struct SavedState {
    pub playlists: Vec<Playlist>,
    pub profiles: Vec<DspProfile>,
    pub selected_playlist_index: usize,
    pub selected_profile_index: usize,
    pub radio_stations: Vec<RadioStation>,
    pub selected_radio_index: Option<usize>,
    pub last_played_track: Option<LastPlayedTrack>,
    pub update_settings: UpdateSettings,
    pub playback_session: PlaybackSession,
    pub playback: PlaybackSettings,
    pub recording: RecordingSettings,
    pub library: LibrarySettings,
    pub ui: UiSettings,
}

/// The model of the saved state.
#[verifier::ext_equal]
pub struct StateView {
    pub playlists: Seq<PlaylistView>,
    pub profiles: Seq<DspProfileView>,
    pub selected_playlist_index: usize,
    pub selected_profile_index: usize,
    pub radio_stations: Seq<RadioStationView>,
    pub selected_radio_index: Option<usize>,
    pub last_played_track: Option<LastPlayedView>,
    pub update_settings: UpdateSettings,
    pub playback_session: PlaybackSessionView,
    pub playback: PlaybackSettings,
    pub recording: Option<Seq<char>>,
    pub library: LibrarySettings,
    pub ui: UiView,
}

/// The model of the track that was played last.
pub open spec fn last_played_view(last: Option<LastPlayedTrack>) -> Option<LastPlayedView> {
    match last {
        Some(track) => Some(track@),
        None => None,
    }
}

impl View for SavedState {
    type V = StateView;

    open spec fn view(&self) -> StateView {
        StateView {
            playlists: playlist::playlist_views(self.playlists@),
            profiles: settings::profile_views(self.profiles@),
            selected_playlist_index: self.selected_playlist_index,
            selected_profile_index: self.selected_profile_index,
            radio_stations: settings::station_views(self.radio_stations@),
            selected_radio_index: self.selected_radio_index,
            last_played_track: last_played_view(self.last_played_track),
            update_settings: self.update_settings,
            playback_session: self.playback_session@,
            playback: self.playback,
            recording: self.recording@,
            library: self.library,
            ui: self.ui@,
        }
    }
}

impl Clone for SavedState {
    fn clone(&self) -> (copy: SavedState)
        ensures
            copy@ == self@,
    {
        let playlists = self.playlists.clone();
        let profiles = self.profiles.clone();
        let radio_stations = self.radio_stations.clone();
        assert(playlist::playlist_views(playlists@) =~= playlist::playlist_views(self.playlists@));
        assert(settings::profile_views(profiles@) =~= settings::profile_views(self.profiles@));
        assert(settings::station_views(radio_stations@) =~= settings::station_views(
            self.radio_stations@,
        ));
        SavedState {
            playlists,
            profiles,
            selected_playlist_index: self.selected_playlist_index,
            selected_profile_index: self.selected_profile_index,
            radio_stations,
            selected_radio_index: self.selected_radio_index,
            last_played_track: self.last_played_track.clone(),
            update_settings: self.update_settings,
            playback_session: self.playback_session.clone(),
            playback: self.playback,
            recording: self.recording.clone(),
            library: self.library,
            ui: self.ui.clone(),
        }
    }
}

/// The playlists of a new library.
pub open spec fn new_playlists() -> Seq<PlaylistView> {
    seq![
        playlist::empty_playlist(playlist::FAVORITES_PLAYLIST_NAME@, 0, PlaylistKind::Favorites),
        playlist::empty_playlist("Local music"@, 2, PlaylistKind::Manual),
    ]
}

/// The state of a new library.
pub open spec fn new_state(base: DspSettings) -> StateView {
    StateView {
        playlists: new_playlists(),
        profiles: seq![
            DspProfileView { name: "Smooth orbit"@, settings: base },
            DspProfileView {
                name: "Headphone surround"@,
                settings: DspSettings {
                    depth_cue_percent: 85,
                    mode: OrbitMode::VirtualEightDirectionOrbit,
                    ..base
                },
            },
        ],
        selected_playlist_index: 1,
        selected_profile_index: 0,
        radio_stations: Seq::empty(),
        selected_radio_index: None,
        last_played_track: None,
        update_settings: UpdateSettings {
            include_prereleases: false,
            last_auto_check_unix_seconds: 0,
        },
        playback_session: settings::idle_session(),
        playback: settings::new_playback_settings(),
        recording: None,
        library: LibrarySettings { auto_sync_selected_playlist: false },
        ui: settings::new_layout(),
    }
}

impl SavedState {
    /// The state of a new library: the favorites and one list for local music, and two sound
    /// profiles that are based on the given settings.
    pub fn with_sound_settings(base: DspSettings) -> (state: SavedState)
        ensures
            state@ == new_state(base),
    {
        let mut playlists: Vec<Playlist> = Vec::new();
        playlists.push(Playlist::favorites());
        playlists.push(Playlist::new("Local music"));
        assert(playlist::playlist_views(playlists@) =~= new_playlists());
        let mut profiles: Vec<DspProfile> = Vec::new();
        profiles.push(DspProfile::new("Smooth orbit", base));
        let mut surround = base;
        surround.depth_cue_percent = 85;
        surround.mode = OrbitMode::VirtualEightDirectionOrbit;
        profiles.push(DspProfile::new("Headphone surround", surround));
        let state = SavedState {
            playlists,
            profiles,
            selected_playlist_index: 1,
            selected_profile_index: 0,
            radio_stations: Vec::new(),
            selected_radio_index: None,
            last_played_track: None,
            update_settings: UpdateSettings::default(),
            playback_session: PlaybackSession::default(),
            playback: PlaybackSettings::default(),
            recording: RecordingSettings::default(),
            library: LibrarySettings::default(),
            ui: UiSettings::default(),
        };
        assert(state@ =~= new_state(base));
        state
    }
}

// ---------------------------------------------------------------------------
// What is written to disk
// ---------------------------------------------------------------------------

/// The position of the first playlist of a kind.
pub open spec fn first_of_kind(playlists: Seq<PlaylistView>, kind: PlaylistKind) -> Option<usize> {
    counting::first_where(playlists.len(), |i: int| playlists[i].kind == kind)
}

/// A position after the playlist at `removed` was taken out.
pub open spec fn shifted(index: usize, removed: usize) -> usize {
    if index > removed {
        (index - 1) as usize
    } else {
        index
    }
}

/// The state without the playlist at `removed`, and what referred to it forgotten.
pub open spec fn without_playlist(state: StateView, removed: usize) -> StateView {
    let playlists = state.playlists.remove(removed as int);
    StateView {
        playlists,
        selected_playlist_index: if state.selected_playlist_index == removed {
            match first_of_kind(playlists, PlaylistKind::Manual) {
                Some(index) => index,
                None => 0,
            }
        } else {
            shifted(state.selected_playlist_index, removed)
        },
        last_played_track: match state.last_played_track {
            Some(last) => if last.playlist_index == removed {
                None
            } else {
                Some(
                    LastPlayedView { playlist_index: shifted(last.playlist_index, removed), ..last },
                )
            },
            None => None,
        },
        playback_session: match state.playback_session.playlist_index {
            Some(index) => if index == removed {
                settings::idle_session()
            } else {
                PlaybackSessionView {
                    playlist_index: Some(shifted(index, removed)),
                    ..state.playback_session
                }
            },
            None => state.playback_session,
        },
        ..state
    }
}

/// The state with the playlists of a new library where there is none, and a selection that is
/// there.
pub open spec fn with_valid_selection(state: StateView) -> StateView {
    let playlists = if state.playlists.len() == 0 {
        new_playlists()
    } else {
        state.playlists
    };
    StateView {
        playlists,
        selected_playlist_index: if state.selected_playlist_index >= playlists.len() {
            0
        } else {
            state.selected_playlist_index
        },
        ..state
    }
}

/// The state as it is written to disk: without the first list for temporary playback.
pub open spec fn persisted_view(state: StateView) -> StateView {
    with_valid_selection(
        match first_of_kind(state.playlists, PlaylistKind::Temporary) {
            Some(index) => without_playlist(state, index),
            None => state,
        },
    )
}

/// The position of the first playlist of a kind.
pub fn position_of_kind(playlists: &Vec<Playlist>, kind: PlaylistKind) -> (position: Option<usize>)
    ensures
        position == first_of_kind(playlist::playlist_views(playlists@), kind),
{
    let ghost views = playlist::playlist_views(playlists@);
    let ghost wanted = |i: int| views[i].kind == kind;
    let mut index: usize = 0;
    while index < playlists.len()
        invariant
            index <= playlists@.len(),
            views == playlist::playlist_views(playlists@),
            wanted == (|i: int| views[i].kind == kind),
            forall|i: int| 0 <= i < index ==> !#[trigger] wanted(i),
        decreases playlists@.len() - index,
    {
        assert(views[index as int] == playlists@[index as int]@);
        if playlists[index].kind == kind {
            proof {
                assert(wanted(index as int));
                assert(playlists.len() == views.len());
                counting::first_where_is(views.len(), wanted, index as int);
            }
            return Some(index);
        }
        index += 1;
    }
    proof {
        assert(playlists.len() == views.len());
        counting::first_where_none(views.len(), wanted);
    }
    None
}

/// The state as it is written to disk: temporary playback is left out, and what referred to it
/// is forgotten.
pub fn persisted_state(state: &SavedState) -> (persisted: SavedState)
    ensures
        persisted@ == persisted_view(state@),
{
    let mut persisted = state.clone();
    let ghost start = persisted@;
    let temporary = position_of_kind(&persisted.playlists, PlaylistKind::Temporary);
    proof {
        assert(persisted.playlists.len() == start.playlists.len());
        counting::first_where_holds(
            start.playlists.len(),
            |i: int| start.playlists[i].kind == PlaylistKind::Temporary,
        );
    }
    if let Some(index) = temporary {
        let ghost before = persisted.playlists@;
        persisted.playlists.remove(index);
        assert(playlist::playlist_views(persisted.playlists@) =~= start.playlists.remove(
            index as int,
        ));
        if persisted.selected_playlist_index == index {
            persisted.selected_playlist_index = match position_of_kind(
                &persisted.playlists,
                PlaylistKind::Manual,
            ) {
                Some(first) => first,
                None => 0,
            };
        } else if persisted.selected_playlist_index > index {
            persisted.selected_playlist_index -= 1;
        }
        persisted.last_played_track = match persisted.last_played_track {
            Some(last) => if last.playlist_index == index {
                None
            } else if last.playlist_index > index {
                Some(
                    LastPlayedTrack {
                        playlist_index: last.playlist_index - 1,
                        track_path: last.track_path,
                    },
                )
            } else {
                Some(last)
            },
            None => None,
        };
        if let Some(session_index) = persisted.playback_session.playlist_index {
            if session_index == index {
                persisted.playback_session = PlaybackSession::default();
            } else if session_index > index {
                persisted.playback_session.playlist_index = Some(session_index - 1);
            }
        }
        assert(persisted@ =~= without_playlist(start, index));
    }
    let ghost middle = persisted@;
    assert(persisted.playlists@.len() == middle.playlists.len());
    if persisted.playlists.len() == 0 {
        persisted.playlists.push(Playlist::favorites());
        persisted.playlists.push(Playlist::new("Local music"));
        assert(playlist::playlist_views(persisted.playlists@) =~= new_playlists());
    }
    if persisted.selected_playlist_index >= persisted.playlists.len() {
        persisted.selected_playlist_index = 0;
    }
    assert(persisted@ =~= with_valid_selection(middle));
    persisted
}

// ---------------------------------------------------------------------------
// Making a state valid
// ---------------------------------------------------------------------------

/// The state with what it refers to: there are playlists, the selections are there, and each of
/// the favorites has a number, as no other track has.
pub open spec fn valid_view(state: StateView) -> StateView {
    let selected = with_valid_selection(state);
    StateView {
        playlists: selected.playlists.map_values(|list: PlaylistView| list.with_sequences()),
        selected_profile_index: if state.selected_profile_index < state.profiles.len() {
            state.selected_profile_index
        } else {
            0
        },
        selected_radio_index: match state.selected_radio_index {
            Some(index) => if index < state.radio_stations.len() {
                Some(index)
            } else {
                None
            },
            None => None,
        },
        ..selected
    }
}

/// Numbers the favorites among playlists.
fn number_playlists(lists: &mut Vec<Playlist>)
    ensures
        playlist::playlist_views(final(lists)@) == playlist::playlist_views(
            old(lists)@,
        ).map_values(|list: PlaylistView| list.with_sequences()),
{
    let ghost start = playlist::playlist_views(lists@);
    let ghost numbered = start.map_values(|list: PlaylistView| list.with_sequences());
    let mut index: usize = 0;
    while index < lists.len()
        invariant
            index <= lists@.len(),
            lists@.len() == start.len(),
            numbered == start.map_values(|list: PlaylistView| list.with_sequences()),
            forall|i: int| 0 <= i < index ==> (#[trigger] lists@[i])@ == numbered[i],
            forall|i: int| index <= i < lists@.len() ==> (#[trigger] lists@[i])@ == start[i],
        decreases lists@.len() - index,
    {
        lists[index].ensure_favorite_added_sequences();
        index += 1;
    }
    assert(playlist::playlist_views(lists@) =~= numbered);
}

/// Makes a state that was read valid.
pub fn ensure_state_is_valid(state: &mut SavedState)
    ensures
        final(state)@ == valid_view(old(state)@),
{
    let ghost start = state@;
    assert(state.playlists@.len() == start.playlists.len());
    if state.playlists.len() == 0 {
        state.playlists.push(Playlist::favorites());
        state.playlists.push(Playlist::new("Local music"));
        assert(playlist::playlist_views(state.playlists@) =~= new_playlists());
    }
    if state.selected_playlist_index >= state.playlists.len() {
        state.selected_playlist_index = 0;
    }
    assert(state@ =~= with_valid_selection(start));
    number_playlists(&mut state.playlists);
    assert(state.profiles@.len() == start.profiles.len());
    if state.selected_profile_index >= state.profiles.len() {
        state.selected_profile_index = 0;
    }
    assert(state.radio_stations@.len() == start.radio_stations.len());
    state.selected_radio_index =
    match state.selected_radio_index {
        Some(index) => if index < state.radio_stations.len() {
            Some(index)
        } else {
            None
        },
        None => None,
    };
    assert(state@ =~= valid_view(start));
}

/// What is written to disk has a playlist, and its selection is one of them.
pub proof fn persisted_selection_is_valid(state: StateView)
    ensures
        persisted_view(state).playlists.len() > 0,
        persisted_view(state).selected_playlist_index < persisted_view(state).playlists.len(),
{
}

/// Where there is at most one list for temporary playback, none is written to disk, and writing
/// what was written changes nothing.
pub proof fn temporary_playback_is_not_persisted(state: StateView)
    requires
        state.playlists.len() <= usize::MAX,
        forall|i: int, j: int|
            0 <= i < j < state.playlists.len() ==> !((#[trigger] state.playlists[i]).kind
                == PlaylistKind::Temporary && (#[trigger] state.playlists[j]).kind
                == PlaylistKind::Temporary),
    ensures
        forall|i: int|
            0 <= i < persisted_view(state).playlists.len() ==> (#[trigger] persisted_view(
                state,
            ).playlists[i]).kind != PlaylistKind::Temporary,
        persisted_view(persisted_view(state)) == persisted_view(state),
{
    let result = persisted_view(state);
    let temporary = |i: int| state.playlists[i].kind == PlaylistKind::Temporary;
    counting::first_where_holds(state.playlists.len(), temporary);
    assert forall|i: int| 0 <= i < result.playlists.len() implies (
    #[trigger] result.playlists[i]).kind != PlaylistKind::Temporary by {
        match first_of_kind(state.playlists, PlaylistKind::Temporary) {
            Some(index) => {
                assert(temporary(index as int));
                let rest = state.playlists.remove(index as int);
                if rest.len() > 0 {
                    let k = if i < index { i } else { i + 1 };
                    assert(rest[i] == state.playlists[k]);
                }
            },
            None => {
                if state.playlists.len() > 0 {
                    assert(!temporary(i));
                }
            },
        }
    }
    let again = |i: int| result.playlists[i].kind == PlaylistKind::Temporary;
    counting::first_where_none(result.playlists.len(), again);
}

/// What is written to disk refers to no playlist that was left out.
pub proof fn temporary_playback_is_forgotten(state: StateView, index: usize)
    requires
        first_of_kind(state.playlists, PlaylistKind::Temporary) == Some(index),
    ensures
        state.last_played_track matches Some(last) ==> last.playlist_index == index ==> (
        persisted_view(state).last_played_track is None),
        state.playback_session.playlist_index == Some(index) ==> persisted_view(
            state,
        ).playback_session == settings::idle_session(),
{
}

// ---------------------------------------------------------------------------
// Backups
// ---------------------------------------------------------------------------

/// The name of the build: `dev` in a debug build, else `v` and the version.
pub open spec fn version_label(debug_build: bool, package_version: Seq<char>) -> Seq<char> {
    if debug_build {
        "dev"@
    } else {
        "v"@ + package_version
    }
}

/// The name of the build.
pub fn app_version_label(debug_build: bool, package_version: &str) -> (label: String)
    ensures
        label@ == version_label(debug_build, package_version@),
{
    if debug_build {
        "dev".to_owned()
    } else {
        let mut label = "v".to_owned();
        label.append(package_version);
        label
    }
}

/// The name is the one for a backup file that is made at a Unix time.
pub open spec fn is_backup_name(name: Seq<char>, seconds: u64, version: Seq<char>) -> bool {
    exists|parts: (i32, u32, u32, u32, u32, u32)| #[trigger]
        calendar::is_utc_time(parts, seconds) && name == "audio-orbit-backup-"@
            + text::sanitized_segment(version) + "-"@ + calendar::timestamp_text(parts) + ".zip"@
}

/// Of two backups of one build the later has the greater name, up to the end of the year 9999.
pub proof fn later_backup_has_greater_name(
    name: Seq<char>,
    later_name: Seq<char>,
    seconds: u64,
    later: u64,
    version: Seq<char>,
)
    requires
        seconds < later <= calendar::LAST_FOUR_DIGIT_SECOND,
        is_backup_name(name, seconds, version),
        is_backup_name(later_name, later, version),
    ensures
        text::text_before(name, later_name),
        name.len() == later_name.len(),
{
    let front = "audio-orbit-backup-"@ + text::sanitized_segment(version) + "-"@;
    let first = choose|parts: (i32, u32, u32, u32, u32, u32)| #[trigger]
        calendar::is_utc_time(parts, seconds) && name == front + calendar::timestamp_text(parts)
            + ".zip"@;
    let second = choose|parts: (i32, u32, u32, u32, u32, u32)| #[trigger]
        calendar::is_utc_time(parts, later) && later_name == front + calendar::timestamp_text(
            parts,
        ) + ".zip"@;
    let stamp = calendar::timestamp_text(first);
    let later_stamp = calendar::timestamp_text(second);
    calendar::earlier_stamp_comes_before(first, second, seconds, later);
    text::less_in_front(stamp, later_stamp, ".zip"@, ".zip"@);
    text::same_in_front(front, stamp + ".zip"@, later_stamp + ".zip"@);
    assert(name =~= front + (stamp + ".zip"@));
    assert(later_name =~= front + (later_stamp + ".zip"@));
}

/// The name for a backup file that is made at a Unix time.
pub fn default_backup_file_name(seconds: u64, version: &str) -> (name: String)
    requires
        seconds / calendar::SECONDS_PER_DAY < calendar::LAST_CALENDAR_DAYS,
    ensures
        is_backup_name(name@, seconds, version@),
{
    let parts = calendar::utc_timestamp_parts(seconds);
    let mut name = "audio-orbit-backup-".to_owned();
    name.append(text::sanitize_file_name_segment(version).as_str());
    name.append("-");
    name.append(calendar::format_timestamp(parts).as_str());
    name.append(".zip");
    assert(calendar::is_utc_time(parts, seconds));
    name
}

} // verus!
