//! Building a mix of several tracks: which parts of them are used, and how the export goes on.

use crate::moving;
use crate::paths;
use crate::text;
use vstd::prelude::*;
use vstd::string::*;

verus! {

// ---------------------------------------------------------------------------
// Ranges of whole seconds
// ---------------------------------------------------------------------------

/// A part of a track, in whole seconds.
#[derive(Clone, Copy, Debug, PartialEq, Eq, Structural)]
pub struct FavoriteRange {
    pub start: u32,
    pub end: u32,
}

/// The smaller of two numbers.
pub open spec fn lesser(left: int, right: int) -> int {
    if left <= right {
        left
    } else {
        right
    }
}

/// A number, but no smaller than one bound and no greater than the other.
pub open spec fn within(number: int, least: int, greatest: int) -> int {
    if number < least {
        least
    } else if number > greatest {
        greatest
    } else {
        number
    }
}

impl FavoriteRange {
    /// The range is at least a second long and lies within the track.
    pub open spec fn fits(self, duration: u32) -> bool {
        self.start < self.end <= duration
    }

    /// The range, made to fit the track.
    pub open spec fn settled(self, duration: u32) -> FavoriteRange {
        let start = lesser(self.start as int, duration - 1);
        FavoriteRange {
            start: start as u32,
            end: within(self.end as int, start + 1, duration as int) as u32,
        }
    }

    /// The range with its start dragged along: the end stays where it is.
    pub open spec fn start_dragged(self, to: u32) -> FavoriteRange {
        FavoriteRange { start: lesser(to as int, self.end - 1) as u32, ..self }
    }

    /// The range with its end dragged along: the start stays where it is.
    pub open spec fn end_dragged(self, to: u32, duration: u32) -> FavoriteRange {
        FavoriteRange {
            end: within(to as int, self.start + 1, duration as int) as u32,
            ..self
        }
    }

    /// The range with its start set anew: the end gives way where it must.
    pub open spec fn start_set(self, to: u32, duration: u32) -> FavoriteRange {
        let start = lesser(to as int, duration - 1);
        FavoriteRange {
            start: start as u32,
            end: if self.end < start + 1 {
                (start + 1) as u32
            } else {
                self.end
            },
        }
    }

    /// Where a preview stops that begins at a position: at the end of the range, or of the
    /// track where it begins behind the range.
    pub open spec fn stop_for(self, position: u32, duration: u32) -> u32 {
        if position < self.end {
            self.end
        } else {
            duration
        }
    }

    /// Makes the range fit the track.
    pub fn settle(self, duration: u32) -> (range: FavoriteRange)
        requires
            duration >= 1,
        ensures
            range == self.settled(duration),
            range.fits(duration),
    {
        let start: u32 = if self.start <= duration - 1 {
            self.start
        } else {
            duration - 1
        };
        let end: u32 = if self.end < start + 1 {
            start + 1
        } else if self.end > duration {
            duration
        } else {
            self.end
        };
        FavoriteRange { start, end }
    }

    /// Drags the start of the range.
    pub fn drag_start(self, to: u32, duration: u32) -> (range: FavoriteRange)
        requires
            self.fits(duration),
        ensures
            range == self.start_dragged(to),
            range.fits(duration),
    {
        let start: u32 = if to <= self.end - 1 {
            to
        } else {
            self.end - 1
        };
        FavoriteRange { start, end: self.end }
    }

    /// Drags the end of the range.
    pub fn drag_end(self, to: u32, duration: u32) -> (range: FavoriteRange)
        requires
            self.fits(duration),
        ensures
            range == self.end_dragged(to, duration),
            range.fits(duration),
    {
        let end: u32 = if to < self.start + 1 {
            self.start + 1
        } else if to > duration {
            duration
        } else {
            to
        };
        FavoriteRange { start: self.start, end }
    }

    /// Sets the start of the range anew.
    pub fn set_start(self, to: u32, duration: u32) -> (range: FavoriteRange)
        requires
            self.fits(duration),
        ensures
            range == self.start_set(to, duration),
            range.fits(duration),
    {
        let start: u32 = if to <= duration - 1 {
            to
        } else {
            duration - 1
        };
        let end: u32 = if self.end < start + 1 {
            start + 1
        } else {
            self.end
        };
        FavoriteRange { start, end }
    }

    /// Where a preview stops that begins at a position.
    pub fn preview_stop(self, position: u32, duration: u32) -> (stop: u32)
        ensures
            stop == self.stop_for(position, duration),
    {
        if position < self.end {
            self.end
        } else {
            duration
        }
    }
}

/// A range that fits the track stays as it is when it is made to fit.
pub proof fn settled_range_stays(range: FavoriteRange, duration: u32)
    requires
        range.fits(duration),
    ensures
        range.settled(duration) == range,
{
}

// ---------------------------------------------------------------------------
// The mix
// ---------------------------------------------------------------------------

/// Which part of a track is used.
#[derive(Clone, Copy, Debug, PartialEq, Eq, Structural)]
pub enum DjTrackSectionMode {
    AutoHighlight,
    FullTrack,
    FavoriteRange,
}

/// How tracks are joined.
#[derive(Clone, Copy, Debug, PartialEq, Eq, Structural)]
pub enum DjMixStyle {
    Crossfade,
    SmartDj,
}

/// What stands between two tracks.
#[derive(Clone, Copy, Debug, PartialEq, Eq, Structural)]
pub enum DjBridgeMode {
    Auto,
    DrumSwap,
    HarmonicBridge,
    EchoDrop,
    StemMashup,
    Custom,
}

/// How a mix is made. Seconds, minutes and levels are held as bit patterns of single precision
/// numbers.
#[derive(Clone, Copy, Debug, PartialEq, Eq, Structural)]
pub struct DjMixOptions {
    pub style: DjMixStyle,
    pub smart_order: bool,
    pub normalize_loudness: bool,
    pub bass_swap: bool,
    pub professional_tools: bool,
    pub stem_separation: bool,
    pub transition_bars: u32,
    pub bitrate_kbps: u32,
    pub bridge_mode: DjBridgeMode,
    pub bridge_start_bits: u32,
    pub bridge_loop_bits: u32,
    pub bridge_level_bits: u32,
    pub target_minutes_bits: u32,
}

/// A track of a mix.
#[derive(Debug)]
pub struct DjMixTrack {
    pub path: String,
    pub title: String,
    pub section_mode: DjTrackSectionMode,
    pub range: FavoriteRange,
}

/// The model of a track of a mix.
#[verifier::ext_equal]
pub struct MixTrackView {
    pub path: Seq<char>,
    pub title: Seq<char>,
    pub section_mode: DjTrackSectionMode,
    pub range: FavoriteRange,
}

impl View for DjMixTrack {
    type V = MixTrackView;

    open spec fn view(&self) -> MixTrackView {
        MixTrackView {
            path: self.path@,
            title: self.title@,
            section_mode: self.section_mode,
            range: self.range,
        }
    }
}

/// The models of the tracks of a mix.
pub open spec fn mix_track_views(tracks: Seq<DjMixTrack>) -> Seq<MixTrackView> {
    tracks.map_values(|track: DjMixTrack| track@)
}

/// The dialog that builds a mix.
#[derive(Debug)]
pub struct DjMixModalState {
    pub tracks: Vec<DjMixTrack>,
    pub options: DjMixOptions,
    pub custom_bridge_path: Option<String>,
    pub stage: String,
    pub progress_bits: u32,
    pub output_path: Option<String>,
    pub report_path: Option<String>,
    pub diagnostics_summary: Option<String>,
    pub professional_tool_status: String,
    pub completed: bool,
    pub started_at: Option<u64>,
    pub last_progress_at: Option<u64>,
    pub preview_track_path: Option<String>,
    pub preview_stop_seconds: Option<u32>,
}

/// The model of the dialog that builds a mix.
#[verifier::ext_equal]
pub struct MixView {
    pub tracks: Seq<MixTrackView>,
    pub options: DjMixOptions,
    pub custom_bridge_path: Option<Seq<char>>,
    pub stage: Seq<char>,
    pub progress_bits: u32,
    pub output_path: Option<Seq<char>>,
    pub report_path: Option<Seq<char>>,
    pub diagnostics_summary: Option<Seq<char>>,
    pub professional_tool_status: Seq<char>,
    pub completed: bool,
    pub started_at: Option<u64>,
    pub last_progress_at: Option<u64>,
    pub preview_track_path: Option<Seq<char>>,
    pub preview_stop_seconds: Option<u32>,
}

impl View for DjMixModalState {
    type V = MixView;

    open spec fn view(&self) -> MixView {
        MixView {
            tracks: mix_track_views(self.tracks@),
            options: self.options,
            custom_bridge_path: paths::text_of(self.custom_bridge_path),
            stage: self.stage@,
            progress_bits: self.progress_bits,
            output_path: paths::text_of(self.output_path),
            report_path: paths::text_of(self.report_path),
            diagnostics_summary: paths::text_of(self.diagnostics_summary),
            professional_tool_status: self.professional_tool_status@,
            completed: self.completed,
            started_at: self.started_at,
            last_progress_at: self.last_progress_at,
            preview_track_path: paths::text_of(self.preview_track_path),
            preview_stop_seconds: self.preview_stop_seconds,
        }
    }
}

/// The model of the dialog where it is open.
pub open spec fn mix_view(mix: Option<DjMixModalState>) -> Option<MixView> {
    match mix {
        Some(mix) => Some(mix@),
        None => None,
    }
}

/// What has come of an export.
#[derive(Debug)]
pub enum DjMixEvent {
    Progress { stage: String, progress_bits: u32 },
    Completed {
        output_path: String,
        report_path: String,
        stage: String,
        loudness: String,
        diagnostics_summary: String,
    },
    Cancelled,
    Failed { error: String },
}

/// The bit pattern of one.
pub const ONE_BITS: u32 = 0x3f80_0000;

impl MixView {
    /// The dialog at another stage, with nothing done yet.
    pub open spec fn at_stage(self, stage: Seq<char>) -> MixView {
        MixView { stage, progress_bits: 0, ..self }
    }

    /// The dialog after something has come of the export.
    pub open spec fn after_event(self, event: DjMixEvent, now: u64) -> MixView {
        match event {
            DjMixEvent::Progress { stage, progress_bits } => MixView {
                stage: stage@,
                progress_bits,
                last_progress_at: Some(now),
                ..self
            },
            DjMixEvent::Completed { output_path, report_path, stage, diagnostics_summary, .. } => {
                MixView {
                    stage: stage@,
                    progress_bits: ONE_BITS,
                    output_path: Some(output_path@),
                    report_path: Some(report_path@),
                    diagnostics_summary: Some(diagnostics_summary@),
                    completed: true,
                    last_progress_at: Some(now),
                    ..self
                }
            },
            DjMixEvent::Cancelled => self.at_stage("Cancelled"@),
            DjMixEvent::Failed { .. } => self.at_stage("Failed"@),
        }
    }

    /// The dialog as an export begins.
    pub open spec fn starting(self, now: u64) -> MixView {
        MixView {
            stage: "Starting analysis..."@,
            progress_bits: 0,
            output_path: None,
            report_path: None,
            diagnostics_summary: None,
            completed: false,
            started_at: Some(now),
            last_progress_at: Some(now),
            ..self
        }
    }

    /// The dialog without a preview.
    pub open spec fn without_preview(self) -> MixView {
        MixView { preview_track_path: None, preview_stop_seconds: None, ..self }
    }
}

impl DjMixModalState {
    /// Sets the stage, with nothing done yet.
    pub(crate) fn set_stage(&mut self, stage: &str)
        ensures
            final(self)@ == old(self)@.at_stage(stage@),
    {
        self.stage = stage.to_owned();
        self.progress_bits = 0;
    }

    /// Takes over what has come of the export.
    pub(crate) fn take_event(&mut self, event: &DjMixEvent, now: u64)
        ensures
            final(self)@ == old(self)@.after_event(*event, now),
    {
        match event {
            DjMixEvent::Progress { stage, progress_bits } => {
                self.stage = stage.clone();
                self.progress_bits = *progress_bits;
                self.last_progress_at = Some(now);
            },
            DjMixEvent::Completed { output_path, report_path, stage, diagnostics_summary, .. } => {
                self.stage = stage.clone();
                self.progress_bits = ONE_BITS;
                self.output_path = Some(output_path.clone());
                self.report_path = Some(report_path.clone());
                self.diagnostics_summary = Some(diagnostics_summary.clone());
                self.completed = true;
                self.last_progress_at = Some(now);
            },
            DjMixEvent::Cancelled => {
                self.set_stage("Cancelled");
            },
            DjMixEvent::Failed { .. } => {
                self.set_stage("Failed");
            },
        }
        assert(self@ =~= old(self)@.after_event(*event, now));
    }

    /// Begins an export.
    pub(crate) fn start(&mut self, now: u64)
        ensures
            final(self)@ == old(self)@.starting(now),
    {
        self.stage = "Starting analysis...".to_owned();
        self.progress_bits = 0;
        self.output_path = None;
        self.report_path = None;
        self.diagnostics_summary = None;
        self.completed = false;
        self.started_at = Some(now);
        self.last_progress_at = Some(now);
        assert(self@ =~= old(self)@.starting(now));
    }

    /// Forgets the preview.
    pub(crate) fn forget_preview(&mut self)
        ensures
            final(self)@ == old(self)@.without_preview(),
    {
        self.preview_track_path = None;
        self.preview_stop_seconds = None;
    }
}

// ---------------------------------------------------------------------------
// Changes to the tracks of a mix
// ---------------------------------------------------------------------------

/// How long a track counts: at least a second, and a minute where nothing better is known.
pub open spec fn counted_duration(known: Option<u32>, range: FavoriteRange) -> u32 {
    let duration = match known {
        Some(seconds) => seconds,
        None => if range.end > 60 {
            range.end
        } else {
            60
        },
    };
    if duration >= 1 {
        duration
    } else {
        1
    }
}

/// How long a track counts.
pub fn mix_duration(known: Option<u32>, range: FavoriteRange) -> (duration: u32)
    ensures
        duration == counted_duration(known, range),
        duration >= 1,
{
    let duration: u32 = match known {
        Some(seconds) => seconds,
        None => if range.end > 60 {
            range.end
        } else {
            60
        },
    };
    if duration >= 1 {
        duration
    } else {
        1
    }
}

/// A change to the range of a track.
#[derive(Clone, Copy, Debug, PartialEq, Eq, Structural)]
pub enum RangeEdit {
    /// The handle at the start is dragged, and let go of where `released` says so.
    DragStart { to: u32, released: bool },
    /// The handle at the end is dragged, and let go of where `released` says so.
    DragEnd { to: u32, released: bool },
    /// The start is set, wherever it is.
    SetStart { to: u32 },
    /// The start is set to where playback stands.
    StartAtPlayhead { to: u32 },
    /// The end is set to where playback stands.
    EndAtPlayhead { to: u32 },
    /// The start is typed in.
    EnterStart { to: u32 },
    /// The end is typed in.
    EnterEnd { to: u32 },
}

impl RangeEdit {
    /// The range after the change.
    pub open spec fn applied(self, range: FavoriteRange, duration: u32) -> FavoriteRange {
        let settled = range.settled(duration);
        match self {
            RangeEdit::DragStart { to, .. } => settled.start_dragged(to),
            RangeEdit::DragEnd { to, .. } => settled.end_dragged(to, duration),
            RangeEdit::SetStart { to } => settled.start_set(to, duration),
            RangeEdit::StartAtPlayhead { to } => settled.start_dragged(to),
            RangeEdit::EndAtPlayhead { to } => settled.end_dragged(to, duration),
            RangeEdit::EnterStart { to } => (FavoriteRange { start: to, ..settled }).settled(
                duration,
            ),
            RangeEdit::EnterEnd { to } => (FavoriteRange { end: to, ..settled }).settled(duration),
        }
    }

    /// The change is made on the waveform, which takes none while the duration is not known.
    pub open spec fn is_on_waveform(self) -> bool {
        match self {
            RangeEdit::DragStart { .. } => true,
            RangeEdit::DragEnd { .. } => true,
            RangeEdit::SetStart { .. } => true,
            _ => false,
        }
    }

    /// Whether the change is made on the waveform.
    pub fn uses_waveform(self) -> (uses: bool)
        ensures
            uses == self.is_on_waveform(),
    {
        match self {
            RangeEdit::DragStart { .. } => true,
            RangeEdit::DragEnd { .. } => true,
            RangeEdit::SetStart { .. } => true,
            _ => false,
        }
    }

    /// The start counts as changed.
    pub open spec fn moves_start(self) -> bool {
        match self {
            RangeEdit::DragStart { released, .. } => released,
            RangeEdit::SetStart { .. } => true,
            RangeEdit::StartAtPlayhead { .. } => true,
            RangeEdit::EnterStart { .. } => true,
            _ => false,
        }
    }

    /// The end counts as changed.
    pub open spec fn moves_end(self) -> bool {
        match self {
            RangeEdit::DragEnd { released, .. } => released,
            RangeEdit::EndAtPlayhead { .. } => true,
            RangeEdit::EnterEnd { .. } => true,
            _ => false,
        }
    }

    /// Makes the change.
    pub fn apply(self, range: FavoriteRange, duration: u32) -> (changed: FavoriteRange)
        requires
            duration >= 1,
        ensures
            changed == self.applied(range, duration),
            changed.fits(duration),
    {
        let settled = range.settle(duration);
        match self {
            RangeEdit::DragStart { to, .. } => settled.drag_start(to, duration),
            RangeEdit::DragEnd { to, .. } => settled.drag_end(to, duration),
            RangeEdit::SetStart { to } => settled.set_start(to, duration),
            RangeEdit::StartAtPlayhead { to } => settled.drag_start(to, duration),
            RangeEdit::EndAtPlayhead { to } => settled.drag_end(to, duration),
            RangeEdit::EnterStart { to } => (FavoriteRange {
                start: to,
                end: settled.end,
            }).settle(duration),
            RangeEdit::EnterEnd { to } => (FavoriteRange {
                start: settled.start,
                end: to,
            }).settle(duration),
        }
    }
}

/// What a change to a range asks of the preview.
#[derive(Clone, Copy, Debug, PartialEq, Eq, Structural)]
pub enum PreviewRequest {
    Nothing,
    /// Play the track from a second to another.
    Play { from: u32, stop: u32 },
    /// Jump in the track that plays, and stop at a second.
    Seek { to: u32, stop: u32 },
    /// Stop at another second.
    StopAt { stop: u32 },
}

/// What a change asks of the preview: a changed start is heard at once, a changed end where the
/// track plays.
pub open spec fn preview_of_edit(
    edit: RangeEdit,
    range: FavoriteRange,
    active: bool,
) -> PreviewRequest {
    if edit.moves_start() {
        if active {
            PreviewRequest::Seek { to: range.start, stop: range.end }
        } else {
            PreviewRequest::Play { from: range.start, stop: range.end }
        }
    } else if edit.moves_end() && active {
        PreviewRequest::StopAt { stop: range.end }
    } else {
        PreviewRequest::Nothing
    }
}

/// What a change asks of the preview.
pub fn preview_after_edit(edit: RangeEdit, range: FavoriteRange, active: bool) -> (request:
    PreviewRequest)
    ensures
        request == preview_of_edit(edit, range, active),
{
    let moves_start = match edit {
        RangeEdit::DragStart { released, .. } => released,
        RangeEdit::SetStart { .. } => true,
        RangeEdit::StartAtPlayhead { .. } => true,
        RangeEdit::EnterStart { .. } => true,
        _ => false,
    };
    let moves_end = match edit {
        RangeEdit::DragEnd { released, .. } => released,
        RangeEdit::EndAtPlayhead { .. } => true,
        RangeEdit::EnterEnd { .. } => true,
        _ => false,
    };
    if moves_start {
        if active {
            PreviewRequest::Seek { to: range.start, stop: range.end }
        } else {
            PreviewRequest::Play { from: range.start, stop: range.end }
        }
    } else if moves_end && active {
        PreviewRequest::StopAt { stop: range.end }
    } else {
        PreviewRequest::Nothing
    }
}

/// What a click on the waveform asks of the preview: it is heard from there, and no later than
/// from the end of the track.
pub open spec fn preview_of_click(
    position: u32,
    range: FavoriteRange,
    duration: u32,
    active: bool,
) -> PreviewRequest {
    let at = if position <= duration {
        position
    } else {
        duration
    };
    if active {
        PreviewRequest::Seek { to: at, stop: range.stop_for(at, duration) }
    } else {
        PreviewRequest::Play { from: at, stop: range.stop_for(at, duration) }
    }
}

/// What a click on the waveform asks of the preview.
pub fn preview_after_click(
    position: u32,
    range: FavoriteRange,
    duration: u32,
    active: bool,
) -> (request: PreviewRequest)
    ensures
        request == preview_of_click(position, range, duration, active),
{
    let at: u32 = if position <= duration {
        position
    } else {
        duration
    };
    let stop: u32 = range.preview_stop(at, duration);
    if active {
        PreviewRequest::Seek { to: at, stop }
    } else {
        PreviewRequest::Play { from: at, stop }
    }
}

impl MixView {
    /// The preview plays the track at a position of the mix.
    pub open spec fn previews(self, index: int) -> bool {
        self.preview_track_path is Some && paths::same_key(
            self.tracks[index].path,
            self.preview_track_path->0,
        )
    }

    /// The mix with two tracks exchanged; their order is then the one that was chosen.
    pub open spec fn with_tracks_swapped(self, first: int, second: int) -> MixView {
        MixView {
            tracks: moving::swapped(self.tracks, first, second),
            options: DjMixOptions { smart_order: false, ..self.options },
            ..self
        }
    }

    /// The mix with another range of a track.
    pub open spec fn with_range(self, index: int, range: FavoriteRange) -> MixView {
        MixView {
            tracks: self.tracks.update(index, MixTrackView { range, ..self.tracks[index] }),
            ..self
        }
    }

    /// The mix with another part of a track.
    pub open spec fn with_section(self, index: int, mode: DjTrackSectionMode) -> MixView {
        MixView {
            tracks: self.tracks.update(
                index,
                MixTrackView { section_mode: mode, ..self.tracks[index] },
            ),
            ..self
        }
    }

    /// Something is worth showing of the export.
    pub open spec fn shows_progress(self, running: bool) -> bool {
        running || self.completed || self.stage != "Ready"@
    }
}

impl DjMixModalState {
    /// Whether the preview plays the track at a position of the mix.
    pub(crate) fn is_previewed(&self, index: usize) -> (previewed: bool)
        requires
            index < self.tracks@.len(),
        ensures
            previewed == self@.previews(index as int),
    {
        assert(self@.tracks[index as int] == self.tracks@[index as int]@);
        match &self.preview_track_path {
            Some(preview) => paths::same_path(self.tracks[index].path.as_str(), preview.as_str()),
            None => false,
        }
    }

    /// Exchanges two tracks.
    pub(crate) fn swap_tracks(&mut self, first: usize, second: usize)
        requires
            first < old(self).tracks@.len(),
            second < old(self).tracks@.len(),
        ensures
            final(self)@ == old(self)@.with_tracks_swapped(first as int, second as int),
    {
        let ghost start = self@;
        moving::swap_entries(&mut self.tracks, first, second);
        self.options.smart_order = false;
        assert(self@.tracks =~= moving::swapped(start.tracks, first as int, second as int));
        assert(self@ =~= start.with_tracks_swapped(first as int, second as int));
    }

    /// Takes a track out.
    pub(crate) fn remove_track(&mut self, index: usize)
        requires
            index < old(self).tracks@.len(),
        ensures
            final(self)@ == (MixView {
                tracks: old(self)@.tracks.remove(index as int),
                ..old(self)@
            }),
    {
        let ghost start = self@;
        let _ = self.tracks.remove(index);
        assert(self@.tracks =~= start.tracks.remove(index as int));
        assert(self@ =~= (MixView { tracks: start.tracks.remove(index as int), ..start }));
    }

    /// Sets the range of a track.
    pub(crate) fn set_range(&mut self, index: usize, range: FavoriteRange)
        requires
            index < old(self).tracks@.len(),
        ensures
            final(self)@ == old(self)@.with_range(index as int, range),
    {
        let ghost start = self@;
        assert(start.tracks[index as int] == self.tracks@[index as int]@);
        self.tracks[index].range = range;
        assert(self@.tracks =~= start.with_range(index as int, range).tracks);
        assert(self@ =~= start.with_range(index as int, range));
    }

    /// Sets the part of a track that is used.
    pub(crate) fn set_section(&mut self, index: usize, mode: DjTrackSectionMode)
        requires
            index < old(self).tracks@.len(),
        ensures
            final(self)@ == old(self)@.with_section(index as int, mode),
    {
        let ghost start = self@;
        assert(start.tracks[index as int] == self.tracks@[index as int]@);
        self.tracks[index].section_mode = mode;
        assert(self@.tracks =~= start.with_section(index as int, mode).tracks);
        assert(self@ =~= start.with_section(index as int, mode));
    }

    /// Whether something is worth showing of the export.
    pub fn is_progress_shown(&self, running: bool) -> (shown: bool)
        ensures
            shown == self@.shows_progress(running),
    {
        running || self.completed || !text::same_text(self.stage.as_str(), "Ready")
    }
}

} // verus!
