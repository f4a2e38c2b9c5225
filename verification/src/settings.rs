//! Settings that are saved with the library.

use crate::paths;
use vstd::prelude::*;
use vstd::string::*;

verus! {

// ---------------------------------------------------------------------------
// Sound profiles
// ---------------------------------------------------------------------------

/// How the sound moves around the listener.
#[derive(Clone, Copy, Debug, PartialEq, Eq, Structural)]
pub enum OrbitMode {
    SmoothStereoOrbit,
    VirtualEightDirectionOrbit,
}

/// How the sound is processed.
#[derive(Clone, Copy, Debug, PartialEq, Eq, Structural)]
pub struct DspSettings {
    pub mode: OrbitMode,
    pub orbit_enabled: bool,
    pub output_level_percent: u8,
    pub stereo_width_percent: u8,
    pub orbit_speed_percent: u8,
    pub transition_smoothness_percent: u8,
    pub depth_cue_percent: u8,
    pub skip_silence_enabled: bool,
    pub silence_trigger_millis: u16,
    pub silence_threshold_seconds: u8,
    pub silence_threshold_db: i16,
    pub silence_trim_end_regardless_of_duration: bool,
}

/// A named way of processing sound.
#[derive(Debug)]
pub struct DspProfile {
    pub name: String,
    pub settings: DspSettings,
}

/// The model of a profile.
#[verifier::ext_equal]
pub struct DspProfileView {
    pub name: Seq<char>,
    pub settings: DspSettings,
}

impl View for DspProfile {
    type V = DspProfileView;

    open spec fn view(&self) -> DspProfileView {
        DspProfileView { name: self.name@, settings: self.settings }
    }
}

/// The models of a list of profiles.
pub open spec fn profile_views(profiles: Seq<DspProfile>) -> Seq<DspProfileView> {
    profiles.map_values(|profile: DspProfile| profile@)
}

impl Clone for DspProfile {
    fn clone(&self) -> (copy: DspProfile)
        ensures
            copy@ == self@,
    {
        DspProfile { name: self.name.clone(), settings: self.settings }
    }
}

impl DspProfile {
    /// A profile with the given name.
    pub fn new(name: &str, settings: DspSettings) -> (profile: DspProfile)
        ensures
            profile@ == (DspProfileView { name: name@, settings }),
    {
        DspProfile { name: name.to_owned(), settings }
    }
}

// ---------------------------------------------------------------------------
// Radio stations
// ---------------------------------------------------------------------------

/// An internet radio station.
#[derive(Debug)]
pub struct RadioStation {
    pub name: String,
    pub url: String,
    pub last_station_name: Option<String>,
    pub last_stream_title: Option<String>,
    pub favorite: bool,
}

/// The model of a station.
#[verifier::ext_equal]
pub struct RadioStationView {
    pub name: Seq<char>,
    pub url: Seq<char>,
    pub last_station_name: Option<Seq<char>>,
    pub last_stream_title: Option<Seq<char>>,
    pub favorite: bool,
}

impl View for RadioStation {
    type V = RadioStationView;

    open spec fn view(&self) -> RadioStationView {
        RadioStationView {
            name: self.name@,
            url: self.url@,
            last_station_name: paths::text_of(self.last_station_name),
            last_stream_title: paths::text_of(self.last_stream_title),
            favorite: self.favorite,
        }
    }
}

/// The models of a list of stations.
pub open spec fn station_views(stations: Seq<RadioStation>) -> Seq<RadioStationView> {
    stations.map_values(|station: RadioStation| station@)
}

/// A station of which nothing was heard yet.
pub open spec fn new_station(name: Seq<char>, url: Seq<char>) -> RadioStationView {
    RadioStationView {
        name,
        url,
        last_station_name: None,
        last_stream_title: None,
        favorite: false,
    }
}

impl Clone for RadioStation {
    fn clone(&self) -> (copy: RadioStation)
        ensures
            copy@ == self@,
    {
        RadioStation {
            name: self.name.clone(),
            url: self.url.clone(),
            last_station_name: self.last_station_name.clone(),
            last_stream_title: self.last_stream_title.clone(),
            favorite: self.favorite,
        }
    }
}

impl Default for RadioStation {
    fn default() -> (station: RadioStation)
        ensures
            station@ == new_station(Seq::empty(), Seq::empty()),
    {
        RadioStation {
            name: String::new(),
            url: String::new(),
            last_station_name: None,
            last_stream_title: None,
            favorite: false,
        }
    }
}

impl RadioStation {
    /// A station of which nothing was heard yet.
    pub fn new(name: &str, url: &str) -> (station: RadioStation)
        ensures
            station@ == new_station(name@, url@),
    {
        RadioStation {
            name: name.to_owned(),
            url: url.to_owned(),
            last_station_name: None,
            last_stream_title: None,
            favorite: false,
        }
    }
}

// ---------------------------------------------------------------------------
// What was played last
// ---------------------------------------------------------------------------

/// The track that was played last.
#[derive(Debug)]
pub struct LastPlayedTrack {
    pub playlist_index: usize,
    pub track_path: String,
}

/// The model of the track that was played last.
#[verifier::ext_equal]
pub struct LastPlayedView {
    pub playlist_index: usize,
    pub track_path: Seq<char>,
}

impl View for LastPlayedTrack {
    type V = LastPlayedView;

    open spec fn view(&self) -> LastPlayedView {
        LastPlayedView { playlist_index: self.playlist_index, track_path: self.track_path@ }
    }
}

impl Clone for LastPlayedTrack {
    fn clone(&self) -> (copy: LastPlayedTrack)
        ensures
            copy@ == self@,
    {
        LastPlayedTrack {
            playlist_index: self.playlist_index,
            track_path: self.track_path.clone(),
        }
    }
}

impl Default for LastPlayedTrack {
    fn default() -> (track: LastPlayedTrack)
        ensures
            track@ == (LastPlayedView { playlist_index: 0, track_path: Seq::empty() }),
    {
        LastPlayedTrack { playlist_index: 0, track_path: String::new() }
    }
}

/// What was playing when the application was closed. The position in seconds is held as the
/// bit pattern of a single precision number.
#[derive(Debug)]
pub struct PlaybackSession {
    pub was_active: bool,
    pub was_paused: bool,
    pub source: String,
    pub playlist_index: Option<usize>,
    pub track_path: Option<String>,
    pub position_seconds_bits: u32,
    pub radio_index: Option<usize>,
}

/// The model of a playback session.
#[verifier::ext_equal]
pub struct PlaybackSessionView {
    pub was_active: bool,
    pub was_paused: bool,
    pub source: Seq<char>,
    pub playlist_index: Option<usize>,
    pub track_path: Option<Seq<char>>,
    pub position_seconds_bits: u32,
    pub radio_index: Option<usize>,
}

impl View for PlaybackSession {
    type V = PlaybackSessionView;

    open spec fn view(&self) -> PlaybackSessionView {
        PlaybackSessionView {
            was_active: self.was_active,
            was_paused: self.was_paused,
            source: self.source@,
            playlist_index: self.playlist_index,
            track_path: paths::text_of(self.track_path),
            position_seconds_bits: self.position_seconds_bits,
            radio_index: self.radio_index,
        }
    }
}

/// A session in which nothing was playing.
pub open spec fn idle_session() -> PlaybackSessionView {
    PlaybackSessionView {
        was_active: false,
        was_paused: false,
        source: "music"@,
        playlist_index: None,
        track_path: None,
        position_seconds_bits: 0,
        radio_index: None,
    }
}

impl Clone for PlaybackSession {
    fn clone(&self) -> (copy: PlaybackSession)
        ensures
            copy@ == self@,
    {
        PlaybackSession {
            was_active: self.was_active,
            was_paused: self.was_paused,
            source: self.source.clone(),
            playlist_index: self.playlist_index,
            track_path: self.track_path.clone(),
            position_seconds_bits: self.position_seconds_bits,
            radio_index: self.radio_index,
        }
    }
}

/// The source of a session that names none.
pub fn default_playback_session_source() -> (source: String)
    ensures
        source@ == "music"@,
{
    "music".to_owned()
}

impl Default for PlaybackSession {
    fn default() -> (session: PlaybackSession)
        ensures
            session@ == idle_session(),
    {
        PlaybackSession {
            was_active: false,
            was_paused: false,
            source: default_playback_session_source(),
            playlist_index: None,
            track_path: None,
            position_seconds_bits: 0,
            radio_index: None,
        }
    }
}

// ---------------------------------------------------------------------------
// Recording, library and updates
// ---------------------------------------------------------------------------

/// Where radio recordings go.
#[derive(Debug)]
pub struct RecordingSettings {
    pub output_folder: Option<String>,
}

impl View for RecordingSettings {
    type V = Option<Seq<char>>;

    open spec fn view(&self) -> Option<Seq<char>> {
        paths::text_of(self.output_folder)
    }
}

impl Clone for RecordingSettings {
    fn clone(&self) -> (copy: RecordingSettings)
        ensures
            copy@ == self@,
    {
        RecordingSettings { output_folder: self.output_folder.clone() }
    }
}

impl Default for RecordingSettings {
    fn default() -> (settings: RecordingSettings)
        ensures
            settings@ is None,
    {
        RecordingSettings { output_folder: None }
    }
}

impl RecordingSettings {
    /// The folder for recordings: the chosen one, or else the default next to the executable,
    /// or else a folder below the current one.
    pub fn resolved_output_folder(&self, executable: Option<&str>) -> (folder: String)
        ensures
            folder@ == resolved_folder(self@, crate::track::optional_text(executable)),
    {
        if let Some(folder) = &self.output_folder {
            return folder.clone();
        }
        match default_recording_output_folder(executable) {
            Some(folder) => folder,
            None => ".audio-orbit-records".to_owned(),
        }
    }
}

/// The folder for recordings: the chosen one, or else the default next to the executable, or
/// else a folder below the current one.
pub open spec fn resolved_folder(
    chosen: Option<Seq<char>>,
    executable: Option<Seq<char>>,
) -> Seq<char> {
    match chosen {
        Some(folder) => folder,
        None => match default_recording_folder(executable) {
            Some(folder) => folder,
            None => ".audio-orbit-records"@,
        },
    }
}

/// The folder for recordings next to the executable.
pub open spec fn default_recording_folder(executable: Option<Seq<char>>) -> Option<Seq<char>> {
    paths::beside(executable, ".audio-orbit-records"@)
}

/// The folder for recordings next to the executable.
pub fn default_recording_output_folder(executable: Option<&str>) -> (folder: Option<String>)
    ensures
        paths::text_of(folder) == default_recording_folder(
            crate::track::optional_text(executable),
        ),
{
    paths::beside_executable(executable, ".audio-orbit-records")
}

/// The folder for the data of the application, next to the executable.
pub open spec fn data_folder(executable: Option<Seq<char>>) -> Option<Seq<char>> {
    paths::beside(executable, ".audio-orbit-data"@)
}

/// The folder for the data of the application, next to the executable.
pub fn app_data_dir(executable: Option<&str>) -> (folder: Option<String>)
    ensures
        paths::text_of(folder) == data_folder(crate::track::optional_text(executable)),
{
    paths::beside_executable(executable, ".audio-orbit-data")
}

/// The file in which the state of the application is saved.
pub fn state_path(executable: Option<&str>) -> (path: Option<String>)
    ensures
        paths::text_of(path) == match data_folder(crate::track::optional_text(executable)) {
            Some(folder) => Some(paths::joined_path(folder, "state.json"@)),
            None => None,
        },
{
    match app_data_dir(executable) {
        Some(folder) => Some(paths::join_path(folder.as_str(), "state.json")),
        None => None,
    }
}

/// How the library is kept in step with the disk.
#[derive(Clone, Copy, Debug, PartialEq, Eq, Structural)]
pub struct LibrarySettings {
    pub auto_sync_selected_playlist: bool,
}

impl Default for LibrarySettings {
    fn default() -> (settings: LibrarySettings)
        ensures
            !settings.auto_sync_selected_playlist,
    {
        LibrarySettings { auto_sync_selected_playlist: false }
    }
}

/// Which updates are looked for, and when they were looked for last.
#[derive(Clone, Copy, Debug, PartialEq, Eq, Structural)]
pub struct UpdateSettings {
    pub include_prereleases: bool,
    pub last_auto_check_unix_seconds: u64,
}

impl Default for UpdateSettings {
    fn default() -> (settings: UpdateSettings)
        ensures
            !settings.include_prereleases,
            settings.last_auto_check_unix_seconds == 0,
    {
        UpdateSettings { include_prereleases: false, last_auto_check_unix_seconds: 0 }
    }
}

// ---------------------------------------------------------------------------
// Playback
// ---------------------------------------------------------------------------

/// What is played again.
#[derive(Clone, Copy, Debug, PartialEq, Eq, Structural)]
pub enum RepeatMode {
    Off,
    Track,
    Selection,
}

impl Default for RepeatMode {
    fn default() -> (mode: RepeatMode)
        ensures
            mode == RepeatMode::Off,
    {
        RepeatMode::Off
    }
}

impl RepeatMode {
    /// The text that names the mode.
    pub open spec fn mode_label(self) -> Seq<char> {
        match self {
            RepeatMode::Off => "Repeat off"@,
            RepeatMode::Track => "Repeat track"@,
            RepeatMode::Selection => "Repeat selection"@,
        }
    }

    /// The mode that follows when the modes are cycled through.
    pub open spec fn following(self) -> RepeatMode {
        match self {
            RepeatMode::Off => RepeatMode::Track,
            RepeatMode::Track => RepeatMode::Selection,
            RepeatMode::Selection => RepeatMode::Off,
        }
    }

    /// The text that names the mode.
    pub fn label(&self) -> (label: &'static str)
        ensures
            label@ == self.mode_label(),
    {
        match self {
            RepeatMode::Off => "Repeat off",
            RepeatMode::Track => "Repeat track",
            RepeatMode::Selection => "Repeat selection",
        }
    }

    /// The mode that follows when the modes are cycled through.
    pub fn next(self) -> (mode: RepeatMode)
        ensures
            mode == self.following(),
    {
        match self {
            RepeatMode::Off => RepeatMode::Track,
            RepeatMode::Track => RepeatMode::Selection,
            RepeatMode::Selection => RepeatMode::Off,
        }
    }
}

/// Cycling through the repeat modes comes back after three steps, and not before.
pub proof fn repeat_modes_cycle(mode: RepeatMode)
    ensures
        mode.following().following().following() == mode,
        mode.following() != mode,
        mode.following().following() != mode,
{
}

/// How tracks are played.
#[derive(Clone, Copy, Debug, PartialEq, Eq, Structural)]
pub struct PlaybackSettings {
    pub auto_advance: bool,
    pub auto_switch_output_device: bool,
    pub crossfade_enabled: bool,
    pub crossfade_seconds: u8,
    pub repeat_mode: RepeatMode,
    pub shuffle_enabled: bool,
    pub volume_percent: u8,
    pub muted: bool,
}

/// The settings of a new library.
pub open spec fn new_playback_settings() -> PlaybackSettings {
    PlaybackSettings {
        auto_advance: true,
        auto_switch_output_device: false,
        crossfade_enabled: false,
        crossfade_seconds: 5,
        repeat_mode: RepeatMode::Off,
        shuffle_enabled: false,
        volume_percent: 100,
        muted: false,
    }
}

/// Whether the next track follows by itself, unless it is set otherwise.
pub fn default_auto_advance() -> (value: bool)
    ensures
        value,
{
    true
}

/// How long a crossfade lasts, unless it is set otherwise.
pub fn default_crossfade_seconds() -> (seconds: u8)
    ensures
        seconds == 5,
{
    5
}

/// How loud playback is, unless it is set otherwise.
pub fn default_volume_percent() -> (percent: u8)
    ensures
        percent == 100,
{
    100
}

/// A flag that is set, unless it is set otherwise.
pub fn default_true() -> (value: bool)
    ensures
        value,
{
    true
}

impl Default for PlaybackSettings {
    fn default() -> (settings: PlaybackSettings)
        ensures
            settings == new_playback_settings(),
    {
        PlaybackSettings {
            auto_advance: default_auto_advance(),
            auto_switch_output_device: false,
            crossfade_enabled: false,
            crossfade_seconds: default_crossfade_seconds(),
            repeat_mode: RepeatMode::Off,
            shuffle_enabled: false,
            volume_percent: default_volume_percent(),
            muted: false,
        }
    }
}

/// The volume of the two channels, in percent.
#[derive(Clone, Copy, Debug, PartialEq, Eq, Structural)]
pub struct VolumeIntensity {
    pub left_percent: u8,
    pub right_percent: u8,
}

impl VolumeIntensity {
    /// The volumes, neither over 100 percent.
    pub fn new(left_percent: u8, right_percent: u8) -> (volume: VolumeIntensity)
        ensures
            volume.left_percent == (if left_percent < 100 {
                left_percent
            } else {
                100
            }),
            volume.right_percent == (if right_percent < 100 {
                right_percent
            } else {
                100
            }),
    {
        VolumeIntensity {
            left_percent: if left_percent < 100 {
                left_percent
            } else {
                100
            },
            right_percent: if right_percent < 100 {
                right_percent
            } else {
                100
            },
        }
    }
}

/// How the volume of an output device is set.
#[derive(Clone, Copy, Debug, PartialEq, Eq, Structural)]
pub enum BalanceChange {
    /// Each channel on its own, in percent.
    Channels { left_percent: u8, right_percent: u8 },
    /// The device as a whole: by the mean of two channels, given as their sum.
    Whole { sum_percent: u16 },
}

/// Decides how the volume of a device is set: a device with one channel gets the mean.
pub fn set_balance(channel_count: u32, intensity: VolumeIntensity) -> (change: BalanceChange)
    ensures
        change == (if channel_count >= 2 {
            BalanceChange::Channels {
                left_percent: intensity.left_percent,
                right_percent: intensity.right_percent,
            }
        } else {
            BalanceChange::Whole {
                sum_percent: (intensity.left_percent + intensity.right_percent) as u16,
            }
        }),
{
    if channel_count >= 2 {
        BalanceChange::Channels {
            left_percent: intensity.left_percent,
            right_percent: intensity.right_percent,
        }
    } else {
        BalanceChange::Whole {
            sum_percent: intensity.left_percent as u16 + intensity.right_percent as u16,
        }
    }
}

/// The volume of the two channels, by what a device says of its channels, in percent: a device
/// with one channel has the same volume on both sides.
pub fn get_balance(channel_count: u32, first_percent: u8, second_percent: u8) -> (volume:
    VolumeIntensity)
    ensures
        ({
            let left: u8 = if first_percent < 100 {
                first_percent
            } else {
                100
            };
            let right: u8 = if second_percent < 100 {
                second_percent
            } else {
                100
            };
            volume == (VolumeIntensity {
                left_percent: left,
                right_percent: if channel_count >= 2 {
                    right
                } else {
                    left
                },
            })
        }),
{
    if channel_count >= 2 {
        VolumeIntensity::new(first_percent, second_percent)
    } else {
        VolumeIntensity::new(first_percent, first_percent)
    }
}

// ---------------------------------------------------------------------------
// Layout
// ---------------------------------------------------------------------------

/// Where a window stands. The numbers are held as bit patterns of single precision numbers.
#[derive(Clone, Copy, Debug, PartialEq, Eq, Structural)]
pub struct WindowGeometry {
    pub x_bits: u32,
    pub y_bits: u32,
    pub width_bits: u32,
    pub height_bits: u32,
}

/// The bit pattern is that of a finite number.
pub open spec fn is_finite_number(bits: u32) -> bool {
    bits % 0x8000_0000 < 0x7f80_0000
}

/// The bit pattern is that of a finite number that is at least the given positive number.
pub open spec fn is_finite_from(bits: u32, least: u32) -> bool {
    least <= bits < 0x7f80_0000
}

/// The bit pattern of 320.
pub const LEAST_WINDOW_WIDTH_BITS: u32 = 0x43a0_0000;

/// The bit pattern of 180.
pub const LEAST_WINDOW_HEIGHT_BITS: u32 = 0x4334_0000;

impl WindowGeometry {
    /// The window is at least 320 wide and 180 high, and all its numbers are finite.
    pub open spec fn is_usable(self) -> bool {
        &&& is_finite_from(self.width_bits, LEAST_WINDOW_WIDTH_BITS)
        &&& is_finite_from(self.height_bits, LEAST_WINDOW_HEIGHT_BITS)
        &&& is_finite_number(self.x_bits)
        &&& is_finite_number(self.y_bits)
    }

    /// Whether the window is at least 320 wide and 180 high, and all its numbers are finite.
    pub fn is_valid(&self) -> (valid: bool)
        ensures
            valid == self.is_usable(),
    {
        self.width_bits >= LEAST_WINDOW_WIDTH_BITS && self.width_bits < 0x7f80_0000
            && self.height_bits >= LEAST_WINDOW_HEIGHT_BITS && self.height_bits < 0x7f80_0000
            && self.x_bits % 0x8000_0000 < 0x7f80_0000 && self.y_bits % 0x8000_0000
            < 0x7f80_0000
    }
}

/// How far a playlist is scrolled. The offset is held as the bit pattern of a single precision
/// number.
#[derive(Debug)]
pub struct ScrollOffset {
    pub key: String,
    pub offset_bits: u32,
}

impl View for ScrollOffset {
    type V = (Seq<char>, u32);

    open spec fn view(&self) -> (Seq<char>, u32) {
        (self.key@, self.offset_bits)
    }
}

/// The models of a list of offsets.
pub open spec fn offset_views(offsets: Seq<ScrollOffset>) -> Seq<(Seq<char>, u32)> {
    offsets.map_values(|offset: ScrollOffset| offset@)
}

impl Clone for ScrollOffset {
    fn clone(&self) -> (copy: ScrollOffset)
        ensures
            copy@ == self@,
    {
        ScrollOffset { key: self.key.clone(), offset_bits: self.offset_bits }
    }
}

/// How the window is laid out.
#[derive(Debug)]
pub struct UiSettings {
    pub show_library_panel: bool,
    pub show_profile_panel: bool,
    pub player_only_mode: bool,
    pub show_track_search: bool,
    pub search_playback_filtered_only: bool,
    pub window_geometry: Option<WindowGeometry>,
    pub full_layout_window_geometry: Option<WindowGeometry>,
    pub player_only_window_geometry: Option<WindowGeometry>,
    pub playlist_scroll_offset_bits: u32,
    pub playlist_scroll_offsets: Vec<ScrollOffset>,
}

/// The model of the layout.
#[verifier::ext_equal]
pub struct UiView {
    pub show_library_panel: bool,
    pub show_profile_panel: bool,
    pub player_only_mode: bool,
    pub show_track_search: bool,
    pub search_playback_filtered_only: bool,
    pub window_geometry: Option<WindowGeometry>,
    pub full_layout_window_geometry: Option<WindowGeometry>,
    pub player_only_window_geometry: Option<WindowGeometry>,
    pub playlist_scroll_offset_bits: u32,
    pub playlist_scroll_offsets: Seq<(Seq<char>, u32)>,
}

impl View for UiSettings {
    type V = UiView;

    open spec fn view(&self) -> UiView {
        UiView {
            show_library_panel: self.show_library_panel,
            show_profile_panel: self.show_profile_panel,
            player_only_mode: self.player_only_mode,
            show_track_search: self.show_track_search,
            search_playback_filtered_only: self.search_playback_filtered_only,
            window_geometry: self.window_geometry,
            full_layout_window_geometry: self.full_layout_window_geometry,
            player_only_window_geometry: self.player_only_window_geometry,
            playlist_scroll_offset_bits: self.playlist_scroll_offset_bits,
            playlist_scroll_offsets: offset_views(self.playlist_scroll_offsets@),
        }
    }
}

/// The layout of a new library.
pub open spec fn new_layout() -> UiView {
    UiView {
        show_library_panel: true,
        show_profile_panel: true,
        player_only_mode: false,
        show_track_search: false,
        search_playback_filtered_only: true,
        window_geometry: None,
        full_layout_window_geometry: None,
        player_only_window_geometry: None,
        playlist_scroll_offset_bits: 0,
        playlist_scroll_offsets: Seq::empty(),
    }
}

impl Clone for UiSettings {
    fn clone(&self) -> (copy: UiSettings)
        ensures
            copy@ == self@,
    {
        let playlist_scroll_offsets = self.playlist_scroll_offsets.clone();
        assert(offset_views(playlist_scroll_offsets@) =~= offset_views(
            self.playlist_scroll_offsets@,
        ));
        UiSettings {
            show_library_panel: self.show_library_panel,
            show_profile_panel: self.show_profile_panel,
            player_only_mode: self.player_only_mode,
            show_track_search: self.show_track_search,
            search_playback_filtered_only: self.search_playback_filtered_only,
            window_geometry: self.window_geometry,
            full_layout_window_geometry: self.full_layout_window_geometry,
            player_only_window_geometry: self.player_only_window_geometry,
            playlist_scroll_offset_bits: self.playlist_scroll_offset_bits,
            playlist_scroll_offsets,
        }
    }
}

impl Default for UiSettings {
    fn default() -> (settings: UiSettings)
        ensures
            settings@ == new_layout(),
    {
        let settings = UiSettings {
            show_library_panel: default_true(),
            show_profile_panel: default_true(),
            player_only_mode: false,
            show_track_search: false,
            search_playback_filtered_only: default_true(),
            window_geometry: None,
            full_layout_window_geometry: None,
            player_only_window_geometry: None,
            playlist_scroll_offset_bits: 0,
            playlist_scroll_offsets: Vec::new(),
        };
        assert(settings@ =~= new_layout());
        settings
    }
}

} // verus!
