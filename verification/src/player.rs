//! The audio player: what it plays and since when, and what it records.

use crate::app::PlayerStatus;
use crate::calendar;
use crate::paths;
use crate::playback::SHORT_TIME_BITS;
use crate::settings::DspSettings;
use crate::text;
use vstd::prelude::*;
use vstd::string::*;

verus! {

// ---------------------------------------------------------------------------
// Output devices
// ---------------------------------------------------------------------------

/// The name of the output device: the one that the system gives, or else a general one.
pub open spec fn output_name(found: Option<Seq<char>>) -> Seq<char> {
    match found {
        Some(name) => name,
        None => "Default output device"@,
    }
}

/// The name of the output device, by what the system gives.
pub fn current_default_output_device_name(found: Option<String>) -> (name: String)
    ensures
        name@ == output_name(paths::text_of(found)),
{
    match found {
        Some(name) => name,
        None => "Default output device".to_owned(),
    }
}

// ---------------------------------------------------------------------------
// Recordings
// ---------------------------------------------------------------------------

/// A recording of a radio station.
#[derive(Debug)]
pub struct RadioRecordingInfo {
    pub path: String,
    pub started_at: u64,
    pub bytes_written: u64,
}

/// The model of a recording.
#[verifier::ext_equal]
pub struct RecordingView {
    pub path: Seq<char>,
    pub started_at: u64,
    pub bytes_written: u64,
}

impl View for RadioRecordingInfo {
    type V = RecordingView;

    open spec fn view(&self) -> RecordingView {
        RecordingView {
            path: self.path@,
            started_at: self.started_at,
            bytes_written: self.bytes_written,
        }
    }
}

/// The model of a recording that may be missing.
pub open spec fn recording_view(recording: Option<RadioRecordingInfo>) -> Option<RecordingView> {
    match recording {
        Some(recording) => Some(recording@),
        None => None,
    }
}

/// The name of a recording at an attempt: without a number at the first, with the number two
/// at the second, and so on.
pub open spec fn recording_name(stem: Seq<char>, extension: Seq<char>, attempt: nat) -> Seq<char> {
    (if attempt <= 1 {
        stem
    } else {
        stem + "-"@ + text::decimal(attempt)
    }) + "."@ + extension
}

/// The path at which a recording is tried, by the number of the attempt.
pub fn unique_recording_path(folder: &str, stem: &str, extension: &str, attempt: usize) -> (path:
    String)
    ensures
        path@ == paths::joined_path(folder@, recording_name(stem@, extension@, attempt as nat)),
{
    let mut name = stem.to_owned();
    if attempt > 1 {
        name.append("-");
        name.append(text::decimal_text(attempt as u64).as_str());
    }
    name.append(".");
    name.append(extension);
    paths::join_path(folder, name.as_str())
}

/// The stem of the name that a finished recording has.
pub open spec fn is_finished_stem(stem: Seq<char>, unix_seconds: u64) -> bool {
    exists|parts: (i32, u32, u32, u32, u32, u32)| #[trigger]
        calendar::is_utc_time(parts, unix_seconds) && stem == "audio-orbit-records-"@
            + calendar::timestamp_text(parts)
}

/// The stem of the name that a finished recording has.
pub fn recording_stop_stem(unix_seconds: u64) -> (stem: String)
    requires
        unix_seconds / calendar::SECONDS_PER_DAY < calendar::LAST_CALENDAR_DAYS,
    ensures
        is_finished_stem(stem@, unix_seconds),
{
    let parts = calendar::utc_timestamp_parts(unix_seconds);
    let mut stem = "audio-orbit-records-".to_owned();
    stem.append(calendar::format_timestamp(parts).as_str());
    assert(calendar::is_utc_time(parts, unix_seconds));
    stem
}

/// What is done to begin a recording.
#[derive(Debug)]
pub enum RecordingStart {
    /// No station is playing.
    NoStation,
    /// A recording goes on already.
    GoesOn { path: String },
    /// A file is made, by the first free name.
    Create { stem: String, extension: String },
}

/// What is done to finish a recording: its file gets a name of its own, by the first free one.
#[derive(Debug)]
pub struct RecordingFinish {
    pub recording: RadioRecordingInfo,
    pub folder: String,
    pub stem: String,
    pub extension: String,
}

// ---------------------------------------------------------------------------
// The player
// ---------------------------------------------------------------------------

/// The player. Times are nanoseconds on one clock, and the position from which a source was
/// started is held as the bit pattern of a single precision number.
#[derive(Debug)]
pub struct AudioPlayer {
    pub output_device_name: String,
    /// A source is loaded.
    pub loaded: bool,
    /// The loaded source is held.
    pub held: bool,
    pub started_at: Option<u64>,
    pub paused_at: Option<u64>,
    pub accumulated_pause: u64,
    pub current_duration: Option<u64>,
    pub current_start_offset_bits: u32,
    pub current_path: Option<String>,
    pub current_settings: Option<DspSettings>,
    pub current_radio_url: Option<String>,
    pub volume_percent: u8,
    pub recording: Option<RadioRecordingInfo>,
}

/// The model of the player.
#[verifier::ext_equal]
pub struct PlayerView {
    pub output_device_name: Seq<char>,
    pub loaded: bool,
    pub held: bool,
    pub started_at: Option<u64>,
    pub paused_at: Option<u64>,
    pub accumulated_pause: u64,
    pub current_duration: Option<u64>,
    pub current_start_offset_bits: u32,
    pub current_path: Option<Seq<char>>,
    pub current_settings: Option<DspSettings>,
    pub current_radio_url: Option<Seq<char>>,
    pub volume_percent: u8,
    pub recording: Option<RecordingView>,
}

impl View for AudioPlayer {
    type V = PlayerView;

    open spec fn view(&self) -> PlayerView {
        PlayerView {
            output_device_name: self.output_device_name@,
            loaded: self.loaded,
            held: self.held,
            started_at: self.started_at,
            paused_at: self.paused_at,
            accumulated_pause: self.accumulated_pause,
            current_duration: self.current_duration,
            current_start_offset_bits: self.current_start_offset_bits,
            current_path: paths::text_of(self.current_path),
            current_settings: self.current_settings,
            current_radio_url: paths::text_of(self.current_radio_url),
            volume_percent: self.volume_percent,
            recording: recording_view(self.recording),
        }
    }
}

/// What is done to the source.
#[derive(Clone, Copy, Debug, PartialEq, Eq, Structural)]
pub enum SourceCommand {
    Hold,
    Resume,
}

/// The difference of two times, and zero where the later one comes first.
pub open spec fn since(later: u64, earlier: u64) -> u64 {
    if later >= earlier {
        (later - earlier) as u64
    } else {
        0
    }
}

/// A sum of two durations, as far as it can be held.
pub open spec fn together(first: u64, second: u64) -> u64 {
    if first + second <= u64::MAX {
        (first + second) as u64
    } else {
        u64::MAX
    }
}

/// The crossfade is long enough to be heard.
pub open spec fn is_heard_fade(bits: u32) -> bool {
    SHORT_TIME_BITS < bits <= 0x7f80_0000
}

/// Whether a crossfade is long enough to be heard, by the bit pattern of its seconds.
pub fn fade_is_heard(bits: u32) -> (heard: bool)
    ensures
        heard == is_heard_fade(bits),
{
    SHORT_TIME_BITS < bits && bits <= 0x7f80_0000
}

impl PlayerView {
    /// The player without a source.
    pub open spec fn stopped(self) -> PlayerView {
        PlayerView {
            loaded: false,
            held: false,
            started_at: None,
            paused_at: None,
            accumulated_pause: 0,
            current_duration: None,
            current_start_offset_bits: 0,
            current_path: None,
            current_settings: None,
            current_radio_url: None,
            recording: None,
            ..self
        }
    }

    /// The player with a source that has just begun.
    pub open spec fn with_source(
        self,
        now: u64,
        duration: Option<u64>,
        start_bits: u32,
        path: Option<Seq<char>>,
        settings: Option<DspSettings>,
        url: Option<Seq<char>>,
    ) -> PlayerView {
        PlayerView {
            loaded: true,
            held: false,
            started_at: Some(now),
            paused_at: None,
            accumulated_pause: 0,
            current_duration: duration,
            current_start_offset_bits: start_bits,
            current_path: path,
            current_settings: settings,
            current_radio_url: url,
            ..self
        }
    }

    /// The player after it was held or went on.
    pub open spec fn toggled(self, now: u64) -> PlayerView {
        if !self.loaded {
            self
        } else if self.held {
            PlayerView {
                held: false,
                paused_at: None,
                accumulated_pause: match self.paused_at {
                    Some(paused_at) => together(self.accumulated_pause, since(now, paused_at)),
                    None => self.accumulated_pause,
                },
                ..self
            }
        } else {
            PlayerView { held: true, paused_at: Some(now), ..self }
        }
    }

    /// How long the source has been heard, as far as it goes.
    pub open spec fn played(self, now: u64) -> u64 {
        match self.started_at {
            Some(started_at) => {
                let end = match self.paused_at {
                    Some(paused_at) => paused_at,
                    None => now,
                };
                let heard = since(since(end, started_at), self.accumulated_pause);
                match self.current_duration {
                    Some(duration) => if duration < heard {
                        duration
                    } else {
                        heard
                    },
                    None => heard,
                }
            },
            None => 0,
        }
    }

    /// What the player is doing, by whether its source has run out.
    pub open spec fn status(self, ran_out: bool) -> PlayerStatus {
        PlayerStatus {
            available: true,
            playing: self.loaded && !ran_out && !self.held,
            paused: self.loaded && !ran_out && self.held,
            finished: self.loaded && ran_out,
            recording: self.recording is Some,
        }
    }
}

impl AudioPlayer {
    /// A player on an output device.
    pub fn new(output_device_name: String) -> (player: AudioPlayer)
        ensures
            player@ == (PlayerView {
                output_device_name: output_device_name@,
                loaded: false,
                held: false,
                started_at: None,
                paused_at: None,
                accumulated_pause: 0,
                current_duration: None,
                current_start_offset_bits: 0,
                current_path: None,
                current_settings: None,
                current_radio_url: None,
                volume_percent: 100,
                recording: None,
            }),
    {
        AudioPlayer {
            output_device_name,
            loaded: false,
            held: false,
            started_at: None,
            paused_at: None,
            accumulated_pause: 0,
            current_duration: None,
            current_start_offset_bits: 0,
            current_path: None,
            current_settings: None,
            current_radio_url: None,
            volume_percent: 100,
            recording: None,
        }
    }

    /// The name of the output device.
    pub fn output_device_name(&self) -> (name: &str)
        ensures
            name@ == self@.output_device_name,
    {
        self.output_device_name.as_str()
    }

    /// Sets the volume, at most all of it.
    pub fn set_volume_percent(&mut self, volume_percent: u8)
        ensures
            final(self)@ == (PlayerView {
                volume_percent: if volume_percent > 100 {
                    100
                } else {
                    volume_percent
                },
                ..old(self)@
            }),
    {
        self.volume_percent = if volume_percent > 100 {
            100
        } else {
            volume_percent
        };
    }

    /// What the player is doing, by whether its source has run out.
    pub fn status(&self, ran_out: bool) -> (status: PlayerStatus)
        ensures
            status == self@.status(ran_out),
    {
        PlayerStatus {
            available: true,
            playing: self.is_playing(ran_out),
            paused: self.is_paused(ran_out),
            finished: self.has_finished(ran_out),
            recording: self.is_radio_recording(),
        }
    }

    /// Whether a source is heard.
    pub fn is_playing(&self, ran_out: bool) -> (playing: bool)
        ensures
            playing == self@.status(ran_out).playing,
    {
        self.loaded && !ran_out && !self.held
    }

    /// Whether a source is held.
    pub fn is_paused(&self, ran_out: bool) -> (paused: bool)
        ensures
            paused == self@.status(ran_out).paused,
    {
        self.loaded && !ran_out && self.held
    }

    /// Whether the source has run out.
    pub fn has_finished(&self, ran_out: bool) -> (finished: bool)
        ensures
            finished == self@.status(ran_out).finished,
    {
        self.loaded && ran_out
    }

    /// Holds the source, or lets it go on. Returns what is done to it.
    pub fn pause_or_resume(&mut self, now: u64) -> (command: Option<SourceCommand>)
        ensures
            final(self)@ == old(self)@.toggled(now),
            command == (if !old(self)@.loaded {
                None
            } else if old(self)@.held {
                Some(SourceCommand::Resume)
            } else {
                Some(SourceCommand::Hold)
            }),
    {
        let ghost start = self@;
        if !self.loaded {
            return None;
        }
        if self.held {
            if let Some(paused_at) = self.paused_at {
                let pause: u64 = now.saturating_sub(paused_at);
                self.accumulated_pause = self.accumulated_pause.saturating_add(pause);
            }
            self.paused_at = None;
            self.held = false;
            assert(self@ =~= start.toggled(now));
            Some(SourceCommand::Resume)
        } else {
            self.paused_at = Some(now);
            self.held = true;
            Some(SourceCommand::Hold)
        }
    }

    /// How long the source has been heard, as far as it goes.
    pub fn played_nanos(&self, now: u64) -> (nanos: u64)
        ensures
            nanos == self@.played(now),
    {
        let started_at: u64 = match self.started_at {
            Some(started_at) => started_at,
            None => return 0,
        };
        let end: u64 = match self.paused_at {
            Some(paused_at) => paused_at,
            None => now,
        };
        let heard: u64 = end.saturating_sub(started_at).saturating_sub(self.accumulated_pause);
        match self.current_duration {
            Some(duration) => if duration < heard {
                duration
            } else {
                heard
            },
            None => heard,
        }
    }

    /// The settings with which the source was made.
    pub fn current_settings(&self) -> (settings: Option<DspSettings>)
        ensures
            settings == self@.current_settings,
    {
        self.current_settings
    }

    /// Whether what is shown of a station goes on once its stream is opened again.
    pub fn keeps_visualizer_history(&self, url: &str) -> (keeps: bool)
        ensures
            keeps == (self@.current_radio_url == Some(url@)),
    {
        match &self.current_radio_url {
            Some(current) => text::same_text(current.as_str(), url),
            None => false,
        }
    }

    /// Notes that a stream is heard.
    pub fn radio_started(&mut self, url: &str, now: u64)
        ensures
            final(self)@ == old(self)@.with_source(now, None, 0, None, None, Some(url@)),
    {
        let ghost start = self@;
        self.loaded = true;
        self.held = false;
        self.started_at = Some(now);
        self.paused_at = None;
        self.accumulated_pause = 0;
        self.current_duration = None;
        self.current_start_offset_bits = 0;
        self.current_path = None;
        self.current_settings = None;
        self.current_radio_url = Some(url.to_owned());
        assert(self@ =~= start.with_source(now, None, 0, None, None, Some(url@)));
    }

    /// Notes that a file is heard.
    pub fn file_started(
        &mut self,
        path: &str,
        settings: DspSettings,
        start_bits: u32,
        duration: u64,
        now: u64,
    )
        ensures
            final(self)@ == old(self)@.with_source(
                now,
                Some(duration),
                start_bits,
                Some(path@),
                Some(settings),
                None,
            ),
    {
        let ghost start = self@;
        self.loaded = true;
        self.held = false;
        self.started_at = Some(now);
        self.paused_at = None;
        self.accumulated_pause = 0;
        self.current_duration = Some(duration);
        self.current_start_offset_bits = start_bits;
        self.current_path = Some(path.to_owned());
        self.current_settings = Some(settings);
        self.current_radio_url = None;
        assert(self@ =~= start.with_source(
            now,
            Some(duration),
            start_bits,
            Some(path@),
            Some(settings),
            None,
        ));
    }

    /// Stops the source. Returns the recording that went on, which is to be finished.
    pub fn stop(&mut self) -> (recording: Option<RadioRecordingInfo>)
        ensures
            recording_view(recording) == old(self)@.recording,
            final(self)@ == old(self)@.stopped(),
    {
        let ghost start = self@;
        let recording = self.take_recording();
        self.loaded = false;
        self.held = false;
        self.started_at = None;
        self.paused_at = None;
        self.accumulated_pause = 0;
        self.current_duration = None;
        self.current_start_offset_bits = 0;
        self.current_path = None;
        self.current_settings = None;
        self.current_radio_url = None;
        assert(self@ =~= start.stopped());
        recording
    }

    /// Takes the recording out.
    fn take_recording(&mut self) -> (recording: Option<RadioRecordingInfo>)
        ensures
            recording_view(recording) == old(self)@.recording,
            final(self)@ == (PlayerView { recording: None, ..old(self)@ }),
    {
        let mut taken: Option<RadioRecordingInfo> = None;
        std::mem::swap(&mut taken, &mut self.recording);
        assert(self@ =~= (PlayerView { recording: None, ..old(self)@ }));
        taken
    }

    /// Whether a station is recorded.
    pub fn is_radio_recording(&self) -> (recording: bool)
        ensures
            recording == (self@.recording is Some),
    {
        self.recording.is_some()
    }

    /// The recording that goes on.
    pub fn radio_recording_info(&self) -> (info: Option<RadioRecordingInfo>)
        ensures
            recording_view(info) == self@.recording,
    {
        match &self.recording {
            Some(recording) => Some(
                RadioRecordingInfo {
                    path: recording.path.clone(),
                    started_at: recording.started_at,
                    bytes_written: recording.bytes_written,
                },
            ),
            None => None,
        }
    }

    /// Decides how a recording begins: none without a station, and none beside another.
    pub fn start_radio_recording(&self) -> (start: RecordingStart)
        ensures
            match start {
                RecordingStart::NoStation => self@.current_radio_url is None,
                RecordingStart::GoesOn { path } => self@.current_radio_url is Some
                    && self@.recording is Some && path@ == self@.recording->0.path,
                RecordingStart::Create { stem, extension } => self@.current_radio_url is Some
                    && self@.recording is None && stem@ == "audio-orbit-records-recording"@
                    && extension@ == "part"@,
            },
    {
        if self.current_radio_url.is_none() {
            return RecordingStart::NoStation;
        }
        match &self.recording {
            Some(recording) => RecordingStart::GoesOn { path: recording.path.clone() },
            None => RecordingStart::Create {
                stem: "audio-orbit-records-recording".to_owned(),
                extension: "part".to_owned(),
            },
        }
    }

    /// Notes that the file of a recording has been made.
    pub fn recording_created(&mut self, path: String, now: u64)
        ensures
            final(self)@ == (PlayerView {
                recording: Some(RecordingView { path: path@, started_at: now, bytes_written: 0 }),
                ..old(self)@
            }),
    {
        self.recording = Some(RadioRecordingInfo { path, started_at: now, bytes_written: 0 });
    }

    /// Notes that bytes of the stream were written to the file of the recording.
    pub fn bytes_recorded(&mut self, count: u64)
        ensures
            final(self)@ == (match old(self)@.recording {
                Some(recording) => PlayerView {
                    recording: Some(
                        RecordingView {
                            bytes_written: together(recording.bytes_written, count),
                            ..recording
                        },
                    ),
                    ..old(self)@
                },
                None => old(self)@,
            }),
    {
        let ghost start = self@;
        let taken = self.take_recording();
        if let Some(mut recording) = taken {
            recording.bytes_written = recording.bytes_written.saturating_add(count);
            self.recording = Some(recording);
        }
        assert(self@ =~= (PlayerView { recording: self@.recording, ..start }));
    }

    /// Ends the recording. Returns what is done to finish it: it gets a name of its own beside
    /// the file that it was written to.
    pub fn stop_radio_recording(&mut self, unix_seconds: u64) -> (finish: Option<RecordingFinish>)
        requires
            unix_seconds / calendar::SECONDS_PER_DAY < calendar::LAST_CALENDAR_DAYS,
        ensures
            final(self)@ == (PlayerView { recording: None, ..old(self)@ }),
            finish is Some == (old(self)@.recording is Some),
            finish matches Some(finish) ==> {
                &&& old(self)@.recording == Some(finish.recording@)
                &&& finish.folder@ == match paths::parent_path(finish.recording@.path) {
                    Some(folder) => folder,
                    None => "."@,
                }
                &&& is_finished_stem(finish.stem@, unix_seconds)
                &&& finish.extension@ == "mp3"@
            },
    {
        let recording = match self.take_recording() {
            Some(recording) => recording,
            None => return None,
        };
        let folder = match paths::parent_of(recording.path.as_str()) {
            Some(folder) => folder,
            None => ".".to_owned(),
        };
        Some(
            RecordingFinish {
                recording,
                folder,
                stem: recording_stop_stem(unix_seconds),
                extension: "mp3".to_owned(),
            },
        )
    }
}

// ---------------------------------------------------------------------------
// Laws
// ---------------------------------------------------------------------------

/// A source that is held stays where it is, and goes on from there.
pub proof fn held_source_stays(player: PlayerView, held_at: u64, resumed_at: u64)
    requires
        player.loaded,
        !player.held,
        player.started_at is Some,
        player.paused_at is None,
        player.started_at->0 <= held_at <= resumed_at,
        player.accumulated_pause <= held_at - player.started_at->0,
    ensures
        player.toggled(held_at).played(resumed_at) == player.played(held_at),
        player.toggled(held_at).toggled(resumed_at).played(resumed_at) == player.played(held_at),
{
}

/// A player that was stopped plays nothing and records nothing.
pub proof fn stopped_player_is_silent(player: PlayerView, now: u64, ran_out: bool)
    ensures
        player.stopped().played(now) == 0,
        !player.stopped().status(ran_out).active(),
        !player.stopped().status(ran_out).recording,
        player.stopped().stopped() == player.stopped(),
{
}

} // verus!
