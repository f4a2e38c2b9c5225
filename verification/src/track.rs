//! Tracks: what a playlist knows of one audio file.

use crate::paths;
use crate::paths::PathPart;
use crate::sorting::SortKey;
use crate::text;
use vstd::prelude::*;
use vstd::string::*;

verus! {

/// An audio file as found on disk; `size_bytes` is there where it is an existing file.
#[derive(Debug)]
pub struct AudioFile {
    pub path: String,
    pub size_bytes: Option<u64>,
}

/// The model of an audio file.
#[verifier::ext_equal]
pub struct AudioFileView {
    pub path: Seq<char>,
    pub size_bytes: Option<u64>,
}

impl View for AudioFile {
    type V = AudioFileView;

    open spec fn view(&self) -> AudioFileView {
        AudioFileView { path: self.path@, size_bytes: self.size_bytes }
    }
}

/// The models of a list of audio files.
pub open spec fn file_views(files: Seq<AudioFile>) -> Seq<AudioFileView> {
    files.map_values(|file: AudioFile| file@)
}

impl AudioFile {
    /// A file with the size that the disk reports.
    pub fn new(path: String, size_bytes: Option<u64>) -> (file: AudioFile)
        ensures
            file.path == path,
            file.size_bytes == size_bytes,
    {
        AudioFile { path, size_bytes }
    }
}

/// What is known of the audio data of a track. The duration in seconds is held as the bit
/// pattern of a single precision number.
#[derive(Clone, Copy, Debug, PartialEq, Eq, Structural)]
pub struct TrackMetadata {
    pub size_bytes: Option<u64>,
    pub duration_seconds_bits: Option<u32>,
    pub sample_rate_hz: Option<u32>,
    pub channels: Option<u8>,
    pub bitrate_kbps: Option<u32>,
}

/// Metadata of which only the size is known.
pub open spec fn metadata_with_size(size_bytes: Option<u64>) -> TrackMetadata {
    TrackMetadata {
        size_bytes,
        duration_seconds_bits: None,
        sample_rate_hz: None,
        channels: None,
        bitrate_kbps: None,
    }
}

impl Default for TrackMetadata {
    fn default() -> (metadata: TrackMetadata)
        ensures
            metadata == metadata_with_size(None),
    {
        TrackMetadata {
            size_bytes: None,
            duration_seconds_bits: None,
            sample_rate_hz: None,
            channels: None,
            bitrate_kbps: None,
        }
    }
}

/// One track of a playlist. The points of the waveform are held as bit patterns of single
/// precision numbers.
#[derive(Debug)]
pub struct Track {
    pub path: String,
    pub title: String,
    pub group: String,
    pub metadata: TrackMetadata,
    pub waveform: Vec<u32>,
    pub waveform_brightness: Vec<u32>,
    pub favorite_added_sequence: Option<u64>,
    pub missing: bool,
}

/// The model of a track.
#[verifier::ext_equal]
pub struct TrackView {
    pub path: Seq<char>,
    pub title: Seq<char>,
    pub group: Seq<char>,
    pub metadata: TrackMetadata,
    pub waveform: Seq<u32>,
    pub waveform_brightness: Seq<u32>,
    pub favorite_added_sequence: Option<u64>,
    pub missing: bool,
}

impl View for Track {
    type V = TrackView;

    open spec fn view(&self) -> TrackView {
        TrackView {
            path: self.path@,
            title: self.title@,
            group: self.group@,
            metadata: self.metadata,
            waveform: self.waveform@,
            waveform_brightness: self.waveform_brightness@,
            favorite_added_sequence: self.favorite_added_sequence,
            missing: self.missing,
        }
    }
}

/// The models of a list of tracks.
pub open spec fn track_views(tracks: Seq<Track>) -> Seq<TrackView> {
    tracks.map_values(|track: Track| track@)
}

/// The title of a new track: the stem of its file name, or the name under which the path is
/// shown where the stem is blank.
pub open spec fn title_for_path(path: Seq<char>) -> Seq<char> {
    match paths::file_name_of(path) {
        Some(name) => if text::is_blank_text(paths::stem_of_name(name)) {
            paths::display_name(path)
        } else {
            paths::stem_of_name(name)
        },
        None => paths::display_name(path),
    }
}

/// The track that stands for a file; it is missing where the file is not there.
pub open spec fn new_track(file: AudioFileView, root: Option<Seq<char>>, depth: nat) -> TrackView {
    TrackView {
        path: file.path,
        title: title_for_path(file.path),
        group: paths::folder_group(file.path, root, depth),
        metadata: metadata_with_size(file.size_bytes),
        waveform: Seq::empty(),
        waveform_brightness: Seq::empty(),
        favorite_added_sequence: None,
        missing: file.size_bytes is None,
    }
}

/// The track of a file that a folder scan has found.
pub open spec fn scanned_track(
    file: AudioFileView,
    root: Option<Seq<char>>,
    depth: nat,
) -> TrackView {
    TrackView { missing: false, ..new_track(file, root, depth) }
}

/// The text that an optional string slice holds.
pub open spec fn optional_text(value: Option<&str>) -> Option<Seq<char>> {
    match value {
        Some(s) => Some(s@),
        None => None,
    }
}

impl Clone for Track {
    fn clone(&self) -> (copy: Track)
        ensures
            copy@ == self@,
    {
        let waveform = self.waveform.clone();
        let waveform_brightness = self.waveform_brightness.clone();
        assert(waveform@ =~= self.waveform@);
        assert(waveform_brightness@ =~= self.waveform_brightness@);
        Track {
            path: self.path.clone(),
            title: self.title.clone(),
            group: self.group.clone(),
            metadata: self.metadata,
            waveform,
            waveform_brightness,
            favorite_added_sequence: self.favorite_added_sequence,
            missing: self.missing,
        }
    }
}

impl Track {
    /// The track that stands for a file, grouped by its folders below `root`.
    pub fn from_path(file: AudioFile, root: Option<&str>, folder_depth: usize) -> (track: Track)
        ensures
            track@ == new_track(file@, optional_text(root), folder_depth as nat),
            track.path == file.path,
    {
        let mut title = paths::display_file_name(file.path.as_str());
        if let Some(name) = paths::file_name(file.path.as_str()) {
            let stem = paths::stem(name.as_str());
            if !text::is_blank(stem.as_str()) {
                title = stem;
            }
        }
        let group = paths::folder_group_for_path(file.path.as_str(), root, folder_depth);
        let missing = file.size_bytes.is_none();
        let track = Track {
            path: file.path,
            title,
            group,
            metadata: TrackMetadata {
                size_bytes: file.size_bytes,
                duration_seconds_bits: None,
                sample_rate_hz: None,
                channels: None,
                bitrate_kbps: None,
            },
            waveform: Vec::new(),
            waveform_brightness: Vec::new(),
            favorite_added_sequence: None,
            missing,
        };
        assert(track@ =~= new_track(file@, optional_text(root), folder_depth as nat));
        track
    }

    /// Takes over what playback has learned of the audio data. The waveform is replaced only
    /// where both of its parts are there; the size only where it was not known.
    pub fn update_playback_metadata(
        &mut self,
        duration_seconds_bits: u32,
        sample_rate_hz: u32,
        channels: u16,
        waveform: Vec<u32>,
        waveform_brightness: Vec<u32>,
        size_on_disk: Option<u64>,
    )
        ensures
            final(self)@ == played_track(
                old(self)@,
                duration_seconds_bits,
                sample_rate_hz,
                channels,
                waveform@,
                waveform_brightness@,
                size_on_disk,
            ),
    {
        self.metadata.duration_seconds_bits = Some(duration_seconds_bits);
        self.metadata.sample_rate_hz = Some(sample_rate_hz);
        let channel_count: u8 = if channels > 255 {
            255
        } else {
            channels as u8
        };
        self.metadata.channels = Some(channel_count);
        self.missing = false;
        if self.metadata.size_bytes.is_none() {
            self.metadata.size_bytes = size_on_disk;
        }
        if !waveform.is_empty() && !waveform_brightness.is_empty() {
            self.waveform = waveform;
            self.waveform_brightness = waveform_brightness;
        }
    }
}

/// A track with what playback has learned of its audio data.
pub open spec fn played_track(
    track: TrackView,
    duration_seconds_bits: u32,
    sample_rate_hz: u32,
    channels: u16,
    waveform: Seq<u32>,
    waveform_brightness: Seq<u32>,
    size_on_disk: Option<u64>,
) -> TrackView {
    let has_waveform = waveform.len() > 0 && waveform_brightness.len() > 0;
    TrackView {
        metadata: TrackMetadata {
            size_bytes: if track.metadata.size_bytes is Some {
                track.metadata.size_bytes
            } else {
                size_on_disk
            },
            duration_seconds_bits: Some(duration_seconds_bits),
            sample_rate_hz: Some(sample_rate_hz),
            channels: Some(if channels > 255 {
                255u8
            } else {
                channels as u8
            }),
            bitrate_kbps: track.metadata.bitrate_kbps,
        },
        waveform: if has_waveform {
            waveform
        } else {
            track.waveform
        },
        waveform_brightness: if has_waveform {
            waveform_brightness
        } else {
            track.waveform_brightness
        },
        missing: false,
        ..track
    }
}

// ---------------------------------------------------------------------------
// Orders of tracks
// ---------------------------------------------------------------------------

/// What tracks are sorted by: the group and the title in lower case, and the path.
pub type TrackRank = (Seq<char>, Seq<char>, Seq<(paths::PathClass, Seq<char>)>);

/// Lexicographic order of ranks.
pub open spec fn rank_at_most(left: TrackRank, right: TrackRank) -> bool {
    if left.0 != right.0 {
        text::text_before(left.0, right.0)
    } else if left.1 != right.1 {
        text::text_before(left.1, right.1)
    } else {
        !paths::parts_before(right.2, left.2)
    }
}

/// Any two ranks are in order one way or the other.
pub proof fn rank_order_total(left: TrackRank, right: TrackRank)
    ensures
        rank_at_most(left, right) || rank_at_most(right, left),
{
    text::text_order_total(left.0, right.0);
    text::text_order_total(left.1, right.1);
    paths::path_order_total(left.2, right.2);
}

/// The order of ranks is transitive.
pub proof fn rank_order_transitive(first: TrackRank, second: TrackRank, third: TrackRank)
    requires
        rank_at_most(first, second),
        rank_at_most(second, third),
    ensures
        rank_at_most(first, third),
{
    text::text_order_total(first.0, second.0);
    text::text_order_total(second.0, third.0);
    text::text_order_total(first.0, third.0);
    text::text_order_total(first.1, second.1);
    text::text_order_total(second.1, third.1);
    text::text_order_total(first.1, third.1);
    paths::path_order_total(first.2, second.2);
    paths::path_order_total(second.2, third.2);
    paths::path_order_total(first.2, third.2);
    if text::text_before(first.0, second.0) && text::text_before(second.0, third.0) {
        text::text_order_transitive(first.0, second.0, third.0);
    }
    if text::text_before(first.1, second.1) && text::text_before(second.1, third.1) {
        text::text_order_transitive(first.1, second.1, third.1);
    }
    if paths::parts_before(first.2, second.2) && paths::parts_before(second.2, third.2) {
        paths::path_order_transitive(first.2, second.2, third.2);
    }
}

/// The rank of a track.
pub open spec fn track_rank(track: TrackView) -> TrackRank {
    (
        text::lowercase(track.group),
        text::lowercase(track.title),
        paths::compared_parts(track.path),
    )
}

/// Tracks by group, then by title, whatever the case of letters, then by path.
pub open spec fn track_at_most(left: TrackView, right: TrackView) -> bool {
    rank_at_most(track_rank(left), track_rank(right))
}

/// The key by which the tracks of a playlist are sorted.
pub struct TrackKey {
    pub group: String,
    pub title: String,
    pub parts: Vec<PathPart>,
}

impl View for TrackKey {
    type V = TrackRank;

    open spec fn view(&self) -> TrackRank {
        (self.group@, self.title@, paths::part_views(self.parts@))
    }
}

impl SortKey for TrackKey {
    open spec fn at_most(self, other: Self) -> bool {
        rank_at_most(self@, other@)
    }

    proof fn at_most_total(left: Self, right: Self) {
        rank_order_total(left@, right@);
    }

    proof fn at_most_transitive(first: Self, second: Self, third: Self) {
        rank_order_transitive(first@, second@, third@);
    }

    fn is_at_most(&self, other: &Self) -> (result: bool) {
        if self.group != other.group {
            text::is_before(self.group.as_str(), other.group.as_str())
        } else if self.title != other.title {
            text::is_before(self.title.as_str(), other.title.as_str())
        } else {
            !paths::is_path_before(&other.parts, &self.parts)
        }
    }
}

/// Newest favorites first: by the sequence number, the greater before the smaller.
pub open spec fn added_at_most(left: TrackView, right: TrackView) -> bool {
    added_sequence(left) >= added_sequence(right)
}

/// The sequence number of a track, 0 where it has none.
pub open spec fn added_sequence(track: TrackView) -> u64 {
    match track.favorite_added_sequence {
        Some(sequence) => sequence,
        None => 0,
    }
}

/// The key by which favorites are sorted, newest first.
pub struct AddedKey {
    pub sequence: u64,
}

impl SortKey for AddedKey {
    open spec fn at_most(self, other: Self) -> bool {
        self.sequence >= other.sequence
    }

    proof fn at_most_total(left: Self, right: Self) {
    }

    proof fn at_most_transitive(first: Self, second: Self, third: Self) {
    }

    fn is_at_most(&self, other: &Self) -> (result: bool) {
        self.sequence >= other.sequence
    }
}

} // verus!
