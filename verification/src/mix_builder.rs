//! The dialog that builds a mix: opening it, changing the mix, hearing parts of it and exporting
//! it.

use crate::app::{
    AppPanelModal, AppView, AudioOrbitApp, Crossfade, DialogsView, Jobs, PlayerStatus,
};
use crate::counting;
use crate::dj_mix;
use crate::dj_mix::{
    DjBridgeMode, DjMixEvent, DjMixModalState, DjMixOptions, DjMixTrack, DjTrackSectionMode,
    FavoriteRange, MixTrackView, MixView, PreviewRequest, RangeEdit,
};
use crate::external_files;
use crate::external_files::OpenedPath;
use crate::file_operations;
use crate::lookup;
use crate::navigation;
use crate::paths;
use crate::playlist::PlaylistKind;
use crate::starting;
use crate::text;
use crate::track;
use crate::track::{Track, TrackView};
use vstd::prelude::*;
use vstd::string::*;

verus! {

// ---------------------------------------------------------------------------
// The tracks of a new mix
// ---------------------------------------------------------------------------

/// What a mix begins with.
#[derive(Debug)]
pub struct MixDefaults {
    pub section_mode: DjTrackSectionMode,
    pub range: FavoriteRange,
    pub options: DjMixOptions,
    pub professional_tool_status: String,
}

/// A track as it comes into a mix.
pub open spec fn new_mix_track(
    track: TrackView,
    section_mode: DjTrackSectionMode,
    range: FavoriteRange,
) -> MixTrackView {
    MixTrackView { path: track.path, title: track.title, section_mode, range }
}

/// The position holds a track that can be mixed: its file is there, and it is one of those
/// that are wanted.
pub open spec fn is_mixable(
    tracks: Seq<TrackView>,
    present: Seq<bool>,
    wanted: Option<Seq<Seq<char>>>,
) -> spec_fn(int) -> bool {
    |index: int|
        !tracks[index].missing && index < present.len() && present[index] && (wanted matches Some(
            list,
        ) ==> file_operations::lists_path(list, tracks[index].path))
}

/// The tracks of a new mix.
pub open spec fn mixed_tracks(
    tracks: Seq<TrackView>,
    present: Seq<bool>,
    wanted: Option<Seq<Seq<char>>>,
    section_mode: DjTrackSectionMode,
    range: FavoriteRange,
) -> Seq<MixTrackView> {
    counting::indexes_where(tracks.len(), is_mixable(tracks, present, wanted)).map_values(
        |index: usize| new_mix_track(tracks[index as int], section_mode, range),
    )
}

/// The texts of a list that may be missing.
pub open spec fn list_of(list: Option<&Vec<String>>) -> Option<Seq<Seq<char>>> {
    match list {
        Some(list) => Some(text::texts(list@)),
        None => None,
    }
}

/// Gathers the tracks of a new mix.
fn gather_mix_tracks(
    tracks: &Vec<Track>,
    present: &Vec<bool>,
    wanted: Option<&Vec<String>>,
    section_mode: DjTrackSectionMode,
    range: FavoriteRange,
) -> (mixed: Vec<DjMixTrack>)
    ensures
        dj_mix::mix_track_views(mixed@) == mixed_tracks(
            track::track_views(tracks@),
            present@,
            list_of(wanted),
            section_mode,
            range,
        ),
{
    let ghost views = track::track_views(tracks@);
    let ghost holds = is_mixable(views, present@, list_of(wanted));
    let ghost made = |index: usize| new_mix_track(views[index as int], section_mode, range);
    let mut mixed: Vec<DjMixTrack> = Vec::new();
    let mut index: usize = 0;
    assert(dj_mix::mix_track_views(mixed@) =~= counting::indexes_where(0, holds).map_values(made));
    while index < tracks.len()
        invariant
            index <= tracks@.len(),
            views == track::track_views(tracks@),
            holds == is_mixable(views, present@, list_of(wanted)),
            made == (|index: usize| new_mix_track(views[index as int], section_mode, range)),
            dj_mix::mix_track_views(mixed@) == counting::indexes_where(
                index as nat,
                holds,
            ).map_values(made),
        decreases tracks@.len() - index,
    {
        let ghost before = counting::indexes_where(index as nat, holds);
        assert(views[index as int] == tracks@[index as int]@);
        let is_wanted = match wanted {
            Some(list) => file_operations::list_has_path(list, tracks[index].path.as_str()),
            None => true,
        };
        let usable = !tracks[index].missing && index < present.len() && present[index]
            && is_wanted;
        assert(usable == holds(index as int));
        if usable {
            let ghost earlier = mixed@;
            mixed.push(
                DjMixTrack {
                    path: tracks[index].path.clone(),
                    title: tracks[index].title.clone(),
                    section_mode,
                    range,
                },
            );
            assert(counting::indexes_where((index + 1) as nat, holds) == before.push(index));
            assert(dj_mix::mix_track_views(mixed@) =~= dj_mix::mix_track_views(earlier).push(
                made(index),
            ));
            assert(before.push(index).map_values(made) =~= before.map_values(made).push(
                made(index),
            ));
        } else {
            assert(counting::indexes_where((index + 1) as nat, holds) == before);
        }
        index += 1;
    }
    mixed
}

/// No track comes into a mix whose file is missing, and those that come keep their order.
pub proof fn mix_keeps_order(
    tracks: Seq<TrackView>,
    present: Seq<bool>,
    wanted: Option<Seq<Seq<char>>>,
    section_mode: DjTrackSectionMode,
    range: FavoriteRange,
)
    requires
        tracks.len() <= usize::MAX,
    ensures
        ({
            let mixed = mixed_tracks(tracks, present, wanted, section_mode, range);
            let places = counting::indexes_where(
                tracks.len(),
                is_mixable(tracks, present, wanted),
            );
            &&& mixed.len() == places.len()
            &&& forall|i: int|
                0 <= i < mixed.len() ==> (#[trigger] mixed[i]).path
                    == tracks[places[i] as int].path && !tracks[places[i] as int].missing
            &&& forall|i: int, j: int|
                0 <= i < j < places.len() ==> #[trigger] places[i] < #[trigger] places[j]
        }),
{
    let holds = is_mixable(tracks, present, wanted);
    counting::indexes_where_holds(tracks.len(), holds);
    let places = counting::indexes_where(tracks.len(), holds);
    let mixed = mixed_tracks(tracks, present, wanted, section_mode, range);
    assert forall|i: int| 0 <= i < mixed.len() implies (#[trigger] mixed[i]).path
        == tracks[places[i] as int].path && !tracks[places[i] as int].missing by {
        assert(holds(places[i] as int));
    }
}

// ---------------------------------------------------------------------------
// File names
// ---------------------------------------------------------------------------

/// The character may stand in the name of a mix.
pub open spec fn is_kept_in_mix_name(character: char) -> bool {
    'a' <= character <= 'z' || 'A' <= character <= 'Z' || '0' <= character <= '9' || character
        == '-' || character == '_' || character == ' '
}

/// The text with an underscore for each character that may not stand in the name of a mix.
pub open spec fn with_underscores(name: Seq<char>) -> Seq<char> {
    name.map_values(
        |c: char|
            if is_kept_in_mix_name(c) {
                c
            } else {
                '_'
            },
    )
}

/// The name that is offered for the file of a mix.
pub open spec fn mix_file_name(name: Seq<char>, unix_seconds: u64) -> Seq<char> {
    let kept = text::trimmed(with_underscores(name));
    (if kept.len() == 0 {
        "playlist"@
    } else {
        kept
    }) + "-dj-mix-"@ + text::decimal(unix_seconds as nat) + ".mp3"@
}

/// Puts an underscore for each character that may not stand in the name of a mix.
fn put_underscores(name: &str) -> (result: String)
    ensures
        result@ == with_underscores(name@),
{
    let all: Vec<char> = text::characters(name);
    let mut kept: Vec<char> = Vec::new();
    let mut index: usize = 0;
    while index < all.len()
        invariant
            index <= all@.len(),
            kept@ == with_underscores(all@).take(index as int),
        decreases all@.len() - index,
    {
        let c = all[index];
        if ('a' <= c && c <= 'z') || ('A' <= c && c <= 'Z') || ('0' <= c && c <= '9') || c == '-'
            || c == '_' || c == ' ' {
            kept.push(c);
        } else {
            kept.push('_');
        }
        assert(with_underscores(all@).take(index + 1) =~= with_underscores(all@).take(
            index as int,
        ).push(with_underscores(all@)[index as int]));
        index += 1;
    }
    assert(kept@ =~= with_underscores(all@));
    let count: usize = kept.len();
    assert(kept@.subrange(0, count as int) =~= kept@);
    text::text_between(&kept, 0, count)
}

/// The name that is offered for the file of a mix.
pub fn default_mix_file_name(name: &str, unix_seconds: u64) -> (result: String)
    ensures
        result@ == mix_file_name(name@, unix_seconds),
{
    let kept = text::trim(put_underscores(name).as_str());
    let mut result = if text::same_text(kept.as_str(), "") {
        assert(kept@.len() == 0) by {
            reveal_strlit("");
        }
        "playlist".to_owned()
    } else {
        assert(kept@.len() != 0) by {
            reveal_strlit("");
            if kept@.len() == 0 {
                assert(kept@ =~= ""@);
            }
        }
        kept
    };
    result.append("-dj-mix-");
    result.append(text::decimal_text(unix_seconds).as_str());
    result.append(".mp3");
    result
}

// ---------------------------------------------------------------------------
// What the dialog does to the application
// ---------------------------------------------------------------------------

/// What the export works on.
#[derive(Debug)]
pub struct ExportRequest {
    pub tracks: Vec<DjMixTrack>,
    pub options: DjMixOptions,
    pub custom_bridge_path: Option<String>,
    pub output_path: String,
}

/// A mix that has just been opened.
pub open spec fn new_mix(tracks: Seq<MixTrackView>, defaults: MixDefaults) -> MixView {
    MixView {
        tracks,
        options: defaults.options,
        custom_bridge_path: None,
        stage: "Ready"@,
        progress_bits: 0,
        output_path: None,
        report_path: None,
        diagnostics_summary: None,
        professional_tool_status: defaults.professional_tool_status@,
        completed: false,
        started_at: None,
        last_progress_at: None,
        preview_track_path: None,
        preview_stop_seconds: None,
    }
}

impl AppView {
    /// The application with another mix in the dialog.
    pub open spec fn with_mix(self, mix: Option<MixView>) -> AppView {
        AppView { mix, ..self }
    }

    /// The application with or without an export of a mix.
    pub open spec fn with_export(self, running: bool) -> AppView {
        AppView { jobs: Jobs { dj_mix: running, ..self.jobs }, ..self }
    }

    /// The application after the preview was stopped.
    pub open spec fn with_preview_stopped(self) -> AppView {
        match self.mix {
            Some(mix) => (if mix.preview_track_path is Some {
                self.stopped()
            } else {
                self
            }).with_mix(Some(mix.without_preview())),
            None => self,
        }
    }

    /// The waveform and the duration that are known of a path.
    pub open spec fn preview_waveform(self, path: Seq<char>) -> (Seq<u32>, Option<u32>) {
        if self.last_playback is Some && paths::same_key(self.last_playback->0.path, path) {
            (self.last_playback->0.waveform, Some(self.last_playback->0.original_duration_bits))
        } else {
            match navigation::location_of(self.state.playlists, path) {
                Some(place) => {
                    let found = self.state.playlists[place.0 as int].tracks[place.1 as int];
                    (
                        found.waveform,
                        match found.metadata.duration_seconds_bits {
                            Some(bits) => if starting::is_positive_time(bits) {
                                Some(bits)
                            } else {
                                None
                            },
                            None => None,
                        },
                    )
                },
                None => (Seq::empty(), None),
            }
        }
    }

    /// The shown playlist is the one for temporary playback.
    pub open spec fn shows_temporary(self) -> bool {
        self.current() is Some && self.current()->0.kind == PlaylistKind::Temporary
    }

    /// The application after a mix was asked for.
    pub open spec fn with_mix_opened(
        self,
        tracks: Seq<MixTrackView>,
        defaults: MixDefaults,
    ) -> AppView {
        if self.jobs.dj_mix {
            self.with_error(Some("DJ mix export already running."@))
        } else if tracks.len() < 2 {
            self.with_error(Some("DJ mix requires at least two available tracks."@))
        } else {
            (AppView {
                dialogs: DialogsView {
                    active_panel_modal: None,
                    panel_modal_history: Seq::empty(),
                    ..self.dialogs
                },
                ..self
            }).with_mix(Some(new_mix(tracks, defaults)))
        }
    }

    /// The application after a mix of tracks of the shown playlist was asked for.
    pub open spec fn with_mix_of_shown(
        self,
        present: Seq<bool>,
        wanted: Option<Seq<Seq<char>>>,
        defaults: MixDefaults,
    ) -> AppView {
        if self.shows_temporary() {
            self.with_error(Some("Temporary playback is read-only."@))
        } else {
            self.with_mix_opened(
                match self.current() {
                    Some(shown) => mixed_tracks(
                        shown.tracks,
                        present,
                        wanted,
                        defaults.section_mode,
                        defaults.range,
                    ),
                    None => Seq::empty(),
                },
                defaults,
            )
        }
    }

    /// The application after something has come of the export.
    pub open spec fn with_mix_event(self, event: DjMixEvent, now: u64) -> AppView {
        let shown = self.with_mix(
            match self.mix {
                Some(mix) => Some(mix.after_event(event, now)),
                None => None,
            },
        );
        match event {
            DjMixEvent::Progress { .. } => shown,
            DjMixEvent::Completed { output_path, loudness, .. } => shown.with_status(
                "DJ mix saved: "@ + output_path@ + loudness@,
            ).with_export(false),
            DjMixEvent::Cancelled => shown.with_status("DJ mix export cancelled."@).with_export(
                false,
            ),
            DjMixEvent::Failed { error } => shown.with_error(Some(error@)).with_export(false),
        }
    }

    /// The application after all that has come of the export, in its order.
    pub open spec fn with_mix_events(self, events: Seq<DjMixEvent>, now: u64) -> AppView
        decreases events.len(),
    {
        if events.len() == 0 {
            self
        } else {
            self.with_mix_events(events.drop_last(), now).with_mix_event(events.last(), now)
        }
    }

    /// The application at another stage of the export, with nothing done yet.
    pub open spec fn with_mix_at(self, stage: Seq<char>) -> AppView {
        self.with_mix(
            match self.mix {
                Some(mix) => Some(mix.at_stage(stage)),
                None => None,
            },
        )
    }

    /// The application after a look at the export.
    pub open spec fn with_mix_polled(
        self,
        events: Seq<DjMixEvent>,
        disconnected: bool,
        now: u64,
    ) -> AppView {
        if !self.jobs.dj_mix {
            self
        } else {
            let heard = self.with_mix_events(events, now);
            if disconnected && heard.jobs.dj_mix {
                heard.with_export(false).with_mix_at("Failed"@).with_error(
                    Some("DJ mix worker stopped before completing export."@),
                )
            } else {
                heard
            }
        }
    }

    /// A mix can be exported.
    pub open spec fn mix_is_ready(self) -> bool {
        !self.jobs.dj_mix && self.mix is Some && self.mix->0.tracks.len() >= 2
    }

    /// The custom bridge is asked for, and is not there.
    pub open spec fn bridge_is_missing(self, bridge_is_file: bool) -> bool {
        self.mix->0.options.bridge_mode == DjBridgeMode::Custom && !(
        self.mix->0.custom_bridge_path is Some && bridge_is_file)
    }

    /// The name of the file that is offered for a mix of the shown playlist.
    pub open spec fn offered_mix_name(self, unix_seconds: u64) -> Seq<char> {
        mix_file_name(
            match self.current() {
                Some(shown) => shown.name,
                None => "playlist"@,
            },
            unix_seconds,
        )
    }

    /// The application as an export begins.
    pub open spec fn with_mix_started(self, bridge_is_file: bool, now: u64) -> AppView {
        if !self.mix_is_ready() {
            self
        } else if self.bridge_is_missing(bridge_is_file) {
            self.with_error(Some("Choose an available custom bridge audio file."@))
        } else {
            self.with_export(true).with_mix(Some(self.mix->0.starting(now)))
        }
    }

    /// The application after the export could not begin.
    pub open spec fn with_mix_not_started(self, error: Seq<char>) -> AppView {
        self.with_export(false).with_mix(
            match self.mix {
                Some(mix) => Some(MixView { stage: "Failed"@, started_at: None, ..mix }),
                None => None,
            },
        ).with_error(Some("Failed to start DJ mix worker: "@ + error))
    }

    /// The track at a position of the mix may be changed now.
    pub open spec fn mix_is_editable(self, index: usize) -> bool {
        !self.jobs.dj_mix && self.mix is Some && index < self.mix->0.tracks.len()
    }

    /// The application with the mix changed, and the preview stopped where that is due.
    pub open spec fn with_mix_changed(self, mix: MixView, stops: bool) -> AppView {
        let changed = self.with_mix(Some(mix));
        if stops {
            changed.with_preview_stopped()
        } else {
            changed
        }
    }

    /// The track at a position of the mix is the one that plays.
    pub open spec fn plays_mix_track(self, index: int) -> bool {
        self.active_track_path is Some && paths::same_key(
            self.active_track_path->0,
            self.mix->0.tracks[index].path,
        )
    }

    /// The application with the preview of a path until a second.
    pub open spec fn with_preview(self, path: Option<Seq<char>>, stop: u32) -> AppView {
        self.with_mix(
            match self.mix {
                Some(mix) => Some(
                    MixView {
                        preview_track_path: path,
                        preview_stop_seconds: Some(stop),
                        ..mix
                    },
                ),
                None => None,
            },
        )
    }

    /// Where a path stands in the shown playlist.
    pub open spec fn shown_position(self, path: Seq<char>) -> Option<usize> {
        match self.current() {
            Some(shown) => lookup::position_of_path(shown.tracks, path),
            None => None,
        }
    }
}

impl AudioOrbitApp {
    /// Whether a mix is being exported.
    pub fn dj_mix_is_running(&self) -> (running: bool)
        ensures
            running == self@.jobs.dj_mix,
    {
        self.jobs.dj_mix
    }

    /// Notes whether a mix is being exported.
    fn set_export(&mut self, running: bool)
        ensures
            final(self)@ == old(self)@.with_export(running),
    {
        self.jobs.dj_mix = running;
        assert(self@ =~= old(self)@.with_export(running));
    }

    /// Puts another mix in the dialog.
    fn put_mix(&mut self, mix: Option<DjMixModalState>)
        ensures
            final(self)@ == old(self)@.with_mix(dj_mix::mix_view(mix)),
    {
        self.mix = mix;
        assert(self@ =~= old(self)@.with_mix(dj_mix::mix_view(mix)));
    }

    /// Takes the mix out of the dialog.
    fn take_mix(&mut self) -> (mix: Option<DjMixModalState>)
        ensures
            dj_mix::mix_view(mix) == old(self)@.mix,
            mix == old(self).mix,
            final(self)@ == old(self)@.with_mix(None),
    {
        let mut taken: Option<DjMixModalState> = None;
        std::mem::swap(&mut taken, &mut self.mix);
        assert(self@ =~= old(self)@.with_mix(None));
        taken
    }

    /// Stops the preview.
    pub fn stop_dj_preview_playback(&mut self)
        ensures
            final(self)@ == old(self)@.with_preview_stopped(),
    {
        let ghost start = self@;
        let previews = match &self.mix {
            Some(mix) => mix.preview_track_path.is_some(),
            None => false,
        };
        if previews {
            self.stop();
        }
        let taken = self.take_mix();
        if let Some(mut mix) = taken {
            mix.forget_preview();
            self.put_mix(Some(mix));
        } else {
            self.put_mix(None);
        }
        assert(self@ =~= start.with_preview_stopped());
    }

    /// The waveform and the duration that are known of a path.
    pub fn dj_preview_waveform_for_path(&self, path: &str) -> (known: (Vec<u32>, Option<u32>))
        ensures
            (known.0@, known.1) == self@.preview_waveform(path@),
    {
        if let Some(info) = &self.last_playback {
            if paths::same_path(info.path.as_str(), path) {
                return (
                    starting::copy_numbers(&info.waveform),
                    Some(info.original_duration_bits),
                );
            }
        }
        match self.find_track_by_path(path) {
            Some(found) => {
                let duration: Option<u32> = match found.metadata.duration_seconds_bits {
                    Some(bits) => if 0 < bits && bits < 0x7f80_0000 {
                        Some(bits)
                    } else {
                        None
                    },
                    None => None,
                };
                (starting::copy_numbers(&found.waveform), duration)
            },
            None => {
                let none: Vec<u32> = Vec::new();
                assert(none@ =~= Seq::empty());
                (none, None)
            },
        }
    }

    /// Closes all panels for a dialog.
    fn close_panels(&mut self)
        ensures
            final(self)@ == (AppView {
                dialogs: DialogsView {
                    active_panel_modal: None,
                    panel_modal_history: Seq::empty(),
                    ..old(self)@.dialogs
                },
                ..old(self)@
            }),
    {
        let ghost start = self@;
        self.dialogs.active_panel_modal = None;
        let none: Vec<AppPanelModal> = Vec::new();
        self.dialogs.panel_modal_history = none;
        assert(self@.dialogs =~= (DialogsView {
            active_panel_modal: None,
            panel_modal_history: Seq::empty(),
            ..start.dialogs
        }));
        assert(self@ =~= (AppView { dialogs: self@.dialogs, ..start }));
    }

    /// Opens the dialog for a mix of tracks.
    fn open_dj_mix_builder(&mut self, tracks: Vec<DjMixTrack>, defaults: MixDefaults)
        ensures
            final(self)@ == old(self)@.with_mix_opened(
                dj_mix::mix_track_views(tracks@),
                defaults,
            ),
    {
        assert(dj_mix::mix_track_views(tracks@).len() == tracks@.len());
        if self.jobs.dj_mix {
            self.fail("DJ mix export already running.");
            return;
        }
        if tracks.len() < 2 {
            self.fail("DJ mix requires at least two available tracks.");
            return;
        }
        self.close_panels();
        let mix = DjMixModalState {
            tracks,
            options: defaults.options,
            custom_bridge_path: None,
            stage: "Ready".to_owned(),
            progress_bits: 0,
            output_path: None,
            report_path: None,
            diagnostics_summary: None,
            professional_tool_status: defaults.professional_tool_status.clone(),
            completed: false,
            started_at: None,
            last_progress_at: None,
            preview_track_path: None,
            preview_stop_seconds: None,
        };
        assert(mix@ =~= new_mix(dj_mix::mix_track_views(tracks@), defaults));
        self.put_mix(Some(mix));
    }

    /// Opens the dialog for a mix of tracks of the shown playlist.
    fn open_mix_of_shown(
        &mut self,
        present: &Vec<bool>,
        wanted: Option<&Vec<String>>,
        defaults: MixDefaults,
    )
        ensures
            final(self)@ == old(self)@.with_mix_of_shown(present@, list_of(wanted), defaults),
    {
        let mut temporary = false;
        let mut tracks: Vec<DjMixTrack> = Vec::new();
        assert(dj_mix::mix_track_views(tracks@) =~= Seq::empty());
        if let Some(shown) = self.current_playlist() {
            temporary = shown.kind == PlaylistKind::Temporary;
            tracks = gather_mix_tracks(
                &shown.tracks,
                present,
                wanted,
                defaults.section_mode,
                defaults.range,
            );
        }
        if temporary {
            self.fail("Temporary playback is read-only.");
            return;
        }
        self.open_dj_mix_builder(tracks, defaults);
    }

    /// Opens the dialog for a mix of the shown playlist. `present` says of each track whether
    /// its file is there.
    pub fn open_dj_mix_builder_for_current_playlist(
        &mut self,
        present: &Vec<bool>,
        defaults: MixDefaults,
    )
        ensures
            final(self)@ == old(self)@.with_mix_of_shown(present@, None, defaults),
    {
        self.open_mix_of_shown(present, None, defaults);
    }

    /// Opens the dialog for a mix of the tracks that an action on a track is about. `present`
    /// says of each track of the shown playlist whether its file is there.
    pub fn open_dj_mix_builder_for_selection(
        &mut self,
        index: usize,
        present: &Vec<bool>,
        defaults: MixDefaults,
    )
        ensures
            final(self)@ == old(self)@.with_mix_of_shown(
                present@,
                Some(old(self)@.action_paths(index)),
                defaults,
            ),
    {
        let list = self.action_track_paths_for_context(index);
        self.open_mix_of_shown(present, Some(&list), defaults);
    }

    /// Takes over one thing that has come of the export.
    fn hear_mix_event(&mut self, event: &DjMixEvent, now: u64)
        ensures
            final(self)@ == old(self)@.with_mix_event(*event, now),
    {
        let ghost start = self@;
        let taken = self.take_mix();
        if let Some(mut mix) = taken {
            mix.take_event(event, now);
            self.put_mix(Some(mix));
        } else {
            self.put_mix(None);
        }
        match event {
            DjMixEvent::Progress { .. } => {},
            DjMixEvent::Completed { output_path, loudness, .. } => {
                let mut status = "DJ mix saved: ".to_owned();
                status.append(output_path.as_str());
                status.append(loudness.as_str());
                self.set_status(status);
                self.set_export(false);
            },
            DjMixEvent::Cancelled => {
                self.set_status("DJ mix export cancelled.".to_owned());
                self.set_export(false);
            },
            DjMixEvent::Failed { error } => {
                self.fail(error.as_str());
                self.set_export(false);
            },
        }
        assert(self@ =~= start.with_mix_event(*event, now));
    }

    /// Takes over what has come of the export, and whether more can come.
    pub fn process_dj_mix_events(&mut self, events: Vec<DjMixEvent>, disconnected: bool, now: u64)
        ensures
            final(self)@ == old(self)@.with_mix_polled(events@, disconnected, now),
    {
        let ghost start = self@;
        if !self.jobs.dj_mix {
            return;
        }
        let mut index: usize = 0;
        assert(events@.take(0) =~= Seq::empty());
        while index < events.len()
            invariant
                index <= events@.len(),
                self@ == start.with_mix_events(events@.take(index as int), now),
            decreases events@.len() - index,
        {
            self.hear_mix_event(&events[index], now);
            assert(events@.take(index + 1).drop_last() =~= events@.take(index as int));
            index += 1;
        }
        assert(events@.take(events@.len() as int) =~= events@);
        if disconnected && self.jobs.dj_mix {
            self.set_export(false);
            self.put_mix_at("Failed");
            self.fail("DJ mix worker stopped before completing export.");
        }
    }

    /// Shows another stage of the export, with nothing done yet.
    fn put_mix_at(&mut self, stage: &str)
        ensures
            final(self)@ == old(self)@.with_mix_at(stage@),
    {
        let taken = self.take_mix();
        if let Some(mut mix) = taken {
            mix.set_stage(stage);
            self.put_mix(Some(mix));
        } else {
            self.put_mix(None);
        }
    }
}

// ---------------------------------------------------------------------------
// The export
// ---------------------------------------------------------------------------

/// A copy of the tracks of a mix.
fn copy_mix_tracks(tracks: &Vec<DjMixTrack>) -> (copy: Vec<DjMixTrack>)
    ensures
        dj_mix::mix_track_views(copy@) == dj_mix::mix_track_views(tracks@),
{
    let mut copy: Vec<DjMixTrack> = Vec::new();
    let mut index: usize = 0;
    while index < tracks.len()
        invariant
            index <= tracks@.len(),
            dj_mix::mix_track_views(copy@) == dj_mix::mix_track_views(tracks@).take(index as int),
        decreases tracks@.len() - index,
    {
        let ghost before = copy@;
        copy.push(
            DjMixTrack {
                path: tracks[index].path.clone(),
                title: tracks[index].title.clone(),
                section_mode: tracks[index].section_mode,
                range: tracks[index].range,
            },
        );
        assert(dj_mix::mix_track_views(copy@) =~= dj_mix::mix_track_views(before).push(
            tracks@[index as int]@,
        ));
        assert(dj_mix::mix_track_views(tracks@).take(index + 1) =~= dj_mix::mix_track_views(
            tracks@,
        ).take(index as int).push(tracks@[index as int]@));
        index += 1;
    }
    assert(dj_mix::mix_track_views(tracks@).take(tracks@.len() as int)
        =~= dj_mix::mix_track_views(tracks@));
    copy
}

impl AudioOrbitApp {
    /// Gives up the export, where one is running. Returns whether it is to be told so.
    pub fn cancel_dj_mix_export(&mut self) -> (told: bool)
        ensures
            told == old(self)@.jobs.dj_mix,
            final(self)@ == (if old(self)@.jobs.dj_mix && old(self)@.mix is Some {
                old(self)@.with_mix(
                    Some(MixView { stage: "Cancelling..."@, ..old(self)@.mix->0 }),
                )
            } else {
                old(self)@
            }),
    {
        let ghost start = self@;
        if !self.jobs.dj_mix {
            return false;
        }
        let taken = self.take_mix();
        if let Some(mut mix) = taken {
            mix.stage = "Cancelling...".to_owned();
            assert(mix@ =~= (MixView { stage: "Cancelling..."@, ..start.mix->0 }));
            self.put_mix(Some(mix));
        } else {
            self.put_mix(None);
            assert(self@ =~= start);
        }
        true
    }

    /// The name of the file that is offered for a mix of the shown playlist.
    pub fn default_dj_mix_file_name(&self, unix_seconds: u64) -> (name: String)
        ensures
            name@ == self@.offered_mix_name(unix_seconds),
    {
        match self.current_playlist() {
            Some(shown) => default_mix_file_name(shown.name.as_str(), unix_seconds),
            None => default_mix_file_name("playlist", unix_seconds),
        }
    }

    /// Asks for an export. Returns the name of the file to offer, where a mix can be exported.
    pub fn start_dj_mix_export(&mut self, unix_seconds: u64) -> (name: Option<String>)
        ensures
            paths::text_of(name) == (if old(self)@.mix_is_ready() {
                Some(old(self)@.offered_mix_name(unix_seconds))
            } else {
                None
            }),
            final(self)@ == (if !old(self)@.jobs.dj_mix && old(self)@.mix is Some && old(
                self,
            )@.mix->0.tracks.len() < 2 {
                old(self)@.with_error(Some("DJ mix requires at least two tracks."@))
            } else {
                old(self)@
            }),
    {
        if self.jobs.dj_mix {
            return None;
        }
        let count: usize = match &self.mix {
            Some(mix) => mix.tracks.len(),
            None => return None,
        };
        if count < 2 {
            self.fail("DJ mix requires at least two tracks.");
            return None;
        }
        Some(self.default_dj_mix_file_name(unix_seconds))
    }

    /// Begins the export to a file. Returns what it works on, unless the custom bridge is not
    /// there.
    pub fn begin_dj_mix_export(&mut self, output_path: String, bridge_is_file: bool, now: u64) -> (
    request: Option<ExportRequest>)
        ensures
            request is Some == (old(self)@.mix_is_ready() && !old(self)@.bridge_is_missing(
                bridge_is_file,
            )),
            request matches Some(request) ==> {
                &&& dj_mix::mix_track_views(request.tracks@) == old(self)@.mix->0.tracks
                &&& request.options == old(self)@.mix->0.options
                &&& paths::text_of(request.custom_bridge_path)
                    == old(self)@.mix->0.custom_bridge_path
                &&& request.output_path == output_path
            },
            final(self)@ == old(self)@.with_mix_started(bridge_is_file, now),
    {
        let ghost start = self@;
        if self.jobs.dj_mix {
            return None;
        }
        let request = match &self.mix {
            Some(mix) => {
                if mix.tracks.len() < 2 {
                    return None;
                }
                if mix.options.bridge_mode == DjBridgeMode::Custom && !(
                mix.custom_bridge_path.is_some() && bridge_is_file) {
                    self.fail("Choose an available custom bridge audio file.");
                    return None;
                }
                ExportRequest {
                    tracks: copy_mix_tracks(&mix.tracks),
                    options: mix.options,
                    custom_bridge_path: match &mix.custom_bridge_path {
                        Some(path) => Some(path.clone()),
                        None => None,
                    },
                    output_path,
                }
            },
            None => return None,
        };
        self.set_export(true);
        let taken = self.take_mix();
        if let Some(mut mix) = taken {
            mix.start(now);
            self.put_mix(Some(mix));
        }
        assert(self@ =~= start.with_mix_started(bridge_is_file, now));
        Some(request)
    }

    /// Says that the export could not begin.
    pub fn dj_mix_export_not_started(&mut self, error: &str)
        ensures
            final(self)@ == old(self)@.with_mix_not_started(error@),
    {
        let ghost start = self@;
        self.set_export(false);
        let taken = self.take_mix();
        if let Some(mut mix) = taken {
            mix.stage = "Failed".to_owned();
            mix.started_at = None;
            assert(mix@ =~= (MixView { stage: "Failed"@, started_at: None, ..start.mix->0 }));
            self.put_mix(Some(mix));
        } else {
            self.put_mix(None);
        }
        let mut message = "Failed to start DJ mix worker: ".to_owned();
        message.append(error);
        self.set_error(Some(message));
    }
}

// ---------------------------------------------------------------------------
// Changing the mix
// ---------------------------------------------------------------------------

impl AudioOrbitApp {
    /// Changes how the mix is made, unless it is being exported.
    pub fn change_mix_options(&mut self, options: DjMixOptions)
        ensures
            final(self)@ == (if !old(self)@.jobs.dj_mix && old(self)@.mix is Some {
                old(self)@.with_mix(Some(MixView { options, ..old(self)@.mix->0 }))
            } else {
                old(self)@
            }),
    {
        let ghost start = self@;
        if self.jobs.dj_mix {
            return;
        }
        let taken = self.take_mix();
        if let Some(mut mix) = taken {
            mix.options = options;
            assert(mix@ =~= (MixView { options, ..start.mix->0 }));
            self.put_mix(Some(mix));
        } else {
            self.put_mix(None);
            assert(self@ =~= start);
        }
    }

    /// Sets the audio that stands between tracks, unless the mix is being exported.
    pub fn choose_mix_bridge(&mut self, path: Option<String>)
        ensures
            final(self)@ == (if !old(self)@.jobs.dj_mix && old(self)@.mix is Some {
                old(self)@.with_mix(
                    Some(MixView { custom_bridge_path: paths::text_of(path), ..old(self)@.mix->0 }),
                )
            } else {
                old(self)@
            }),
    {
        let ghost start = self@;
        if self.jobs.dj_mix {
            return;
        }
        let taken = self.take_mix();
        if let Some(mut mix) = taken {
            mix.custom_bridge_path = path;
            assert(mix@ =~= (MixView {
                custom_bridge_path: paths::text_of(path),
                ..start.mix->0
            }));
            self.put_mix(Some(mix));
        } else {
            self.put_mix(None);
            assert(self@ =~= start);
        }
    }

    /// Shows which tools are there, unless the mix is being exported.
    pub fn refresh_mix_tools(&mut self, status: String)
        ensures
            final(self)@ == (if !old(self)@.jobs.dj_mix && old(self)@.mix is Some {
                old(self)@.with_mix(
                    Some(MixView { professional_tool_status: status@, ..old(self)@.mix->0 }),
                )
            } else {
                old(self)@
            }),
    {
        let ghost start = self@;
        if self.jobs.dj_mix {
            return;
        }
        let taken = self.take_mix();
        if let Some(mut mix) = taken {
            mix.professional_tool_status = status;
            assert(mix@ =~= (MixView { professional_tool_status: status@, ..start.mix->0 }));
            self.put_mix(Some(mix));
        } else {
            self.put_mix(None);
            assert(self@ =~= start);
        }
    }

    /// Whether the track at a position of the mix may be changed now.
    fn can_edit_mix(&self, index: usize) -> (can: bool)
        ensures
            can == self@.mix_is_editable(index),
            can ==> self.mix is Some && index < self.mix->0.tracks@.len(),
    {
        !self.jobs.dj_mix && match &self.mix {
            Some(mix) => index < mix.tracks.len(),
            None => false,
        }
    }

    /// Exchanges a track of the mix with the one before or after it.
    pub fn move_mix_track(&mut self, index: usize, down: bool)
        ensures
            final(self)@ == ({
                let start = old(self)@;
                let to = if down {
                    index + 1
                } else {
                    index - 1
                };
                if start.mix_is_editable(index) && 0 <= to < start.mix->0.tracks.len() {
                    start.with_mix(Some(start.mix->0.with_tracks_swapped(index as int, to)))
                } else {
                    start
                }
            }),
    {
        let ghost start = self@;
        if !self.can_edit_mix(index) {
            return;
        }
        if !down && index == 0 {
            return;
        }
        let taken = self.take_mix();
        if let Some(mut mix) = taken {
            assert(mix@.tracks.len() == mix.tracks.len());
            let to: usize = if down {
                index + 1
            } else {
                index - 1
            };
            if to < mix.tracks.len() {
                mix.swap_tracks(index, to);
            }
            self.put_mix(Some(mix));
        }
        assert(self@ =~= start.with_mix(self@.mix));
    }

    /// Takes a track out of the mix, as long as more than two are left in it; its preview stops.
    pub fn remove_mix_track(&mut self, index: usize)
        ensures
            final(self)@ == ({
                let start = old(self)@;
                let mix = start.mix->0;
                if start.mix_is_editable(index) && mix.tracks.len() > 2 {
                    start.with_mix_changed(
                        MixView { tracks: mix.tracks.remove(index as int), ..mix },
                        mix.previews(index as int),
                    )
                } else {
                    start
                }
            }),
    {
        let ghost start = self@;
        if !self.can_edit_mix(index) {
            return;
        }
        let mut previewed = false;
        let taken = self.take_mix();
        if let Some(mut mix) = taken {
            assert(mix@.tracks.len() == mix.tracks.len());
            if mix.tracks.len() > 2 {
                previewed = mix.is_previewed(index);
                mix.remove_track(index);
            }
            self.put_mix(Some(mix));
        }
        assert(self@ =~= start.with_mix(self@.mix));
        if previewed {
            self.stop_dj_preview_playback();
        }
    }

    /// Sets which part of a track is used; a preview of a range that is given up stops.
    pub fn choose_mix_section(&mut self, index: usize, mode: DjTrackSectionMode)
        ensures
            final(self)@ == ({
                let start = old(self)@;
                let mix = start.mix->0;
                if start.mix_is_editable(index) {
                    start.with_mix_changed(
                        mix.with_section(index as int, mode),
                        mix.tracks[index as int].section_mode == DjTrackSectionMode::FavoriteRange
                            && mode != DjTrackSectionMode::FavoriteRange && mix.previews(
                            index as int,
                        ),
                    )
                } else {
                    start
                }
            }),
    {
        let ghost start = self@;
        if !self.can_edit_mix(index) {
            return;
        }
        let mut stops = false;
        let taken = self.take_mix();
        if let Some(mut mix) = taken {
            assert(mix@.tracks[index as int] == mix.tracks@[index as int]@);
            stops = mix.tracks[index].section_mode == DjTrackSectionMode::FavoriteRange && mode
                != DjTrackSectionMode::FavoriteRange && mix.is_previewed(index);
            mix.set_section(index, mode);
            self.put_mix(Some(mix));
        }
        assert(self@ =~= start.with_mix(self@.mix));
        if stops {
            self.stop_dj_preview_playback();
        }
    }

    /// Makes the range of a track of the mix fit how long the track counts.
    pub fn settle_mix_range(&mut self, index: usize, known: Option<u32>)
        ensures
            final(self)@ == ({
                let start = old(self)@;
                let mix = start.mix->0;
                let range = mix.tracks[index as int].range;
                if start.mix is Some && index < mix.tracks.len() {
                    start.with_mix(
                        Some(
                            mix.with_range(
                                index as int,
                                range.settled(dj_mix::counted_duration(known, range)),
                            ),
                        ),
                    )
                } else {
                    start
                }
            }),
    {
        let ghost start = self@;
        let taken = self.take_mix();
        if let Some(mut mix) = taken {
            assert(mix@.tracks.len() == mix.tracks.len());
            if index < mix.tracks.len() {
                assert(mix@.tracks[index as int] == mix.tracks@[index as int]@);
                let range = mix.tracks[index].range;
                let duration: u32 = dj_mix::mix_duration(known, range);
                mix.set_range(index, range.settle(duration));
            }
            self.put_mix(Some(mix));
        } else {
            self.put_mix(None);
        }
        assert(self@ =~= start.with_mix(self@.mix));
    }

    /// Changes the range of a track of the mix. Returns what that asks of the preview. While
    /// the duration of the track is not known, its waveform changes nothing.
    pub fn edit_mix_range(&mut self, index: usize, known: Option<u32>, edit: RangeEdit) -> (request:
        PreviewRequest)
        ensures
            ({
                let start = old(self)@;
                let mix = start.mix->0;
                let before = mix.tracks[index as int].range;
                let duration = dj_mix::counted_duration(known, before);
                let after = edit.applied(before, duration);
                if !start.mix_is_editable(index) {
                    &&& request == PreviewRequest::Nothing
                    &&& final(self)@ == start
                } else if edit.is_on_waveform() && known is None {
                    &&& request == PreviewRequest::Nothing
                    &&& final(self)@ == start.with_mix(
                        Some(mix.with_range(index as int, before.settled(duration))),
                    )
                } else {
                    &&& request == dj_mix::preview_of_edit(
                        edit,
                        after,
                        start.plays_mix_track(index as int),
                    )
                    &&& final(self)@ == start.with_mix(Some(mix.with_range(index as int, after)))
                }
            }),
    {
        let ghost start = self@;
        if !self.can_edit_mix(index) {
            return PreviewRequest::Nothing;
        }
        if edit.uses_waveform() && known.is_none() {
            self.settle_mix_range(index, known);
            return PreviewRequest::Nothing;
        }
        let active = self.is_mix_track_playing(index);
        let taken = self.take_mix();
        let mut request = PreviewRequest::Nothing;
        if let Some(mut mix) = taken {
            assert(mix@.tracks[index as int] == mix.tracks@[index as int]@);
            let before = mix.tracks[index].range;
            let after = edit.apply(before, dj_mix::mix_duration(known, before));
            request = dj_mix::preview_after_edit(edit, after, active);
            mix.set_range(index, after);
            self.put_mix(Some(mix));
        }
        assert(self@ =~= start.with_mix(self@.mix));
        request
    }

    /// Whether a track of the mix is the one that plays.
    fn is_mix_track_playing(&self, index: usize) -> (playing: bool)
        requires
            self@.mix_is_editable(index),
        ensures
            playing == self@.plays_mix_track(index as int),
    {
        match (&self.active_track_path, &self.mix) {
            (Some(path), Some(mix)) => {
                assert(mix@.tracks[index as int] == mix.tracks@[index as int]@);
                paths::same_path(path.as_str(), mix.tracks[index].path.as_str())
            },
            _ => false,
        }
    }

    /// What a click on the waveform of a track of the mix asks of the preview. Nothing is asked
    /// while the mix is exported or the duration of the track is not known.
    pub fn click_mix_waveform(&self, index: usize, known: Option<u32>, position: u32) -> (request:
        PreviewRequest)
        ensures
            request == ({
                let range = self@.mix->0.tracks[index as int].range;
                let duration = dj_mix::counted_duration(known, range);
                if !self@.mix_is_editable(index) || known is None {
                    PreviewRequest::Nothing
                } else {
                    dj_mix::preview_of_click(
                        position,
                        range.settled(duration),
                        duration,
                        self@.plays_mix_track(index as int),
                    )
                }
            }),
    {
        if !self.can_edit_mix(index) || known.is_none() {
            return PreviewRequest::Nothing;
        }
        let active = self.is_mix_track_playing(index);
        match &self.mix {
            Some(mix) => {
                assert(mix@.tracks[index as int] == mix.tracks@[index as int]@);
                let range = mix.tracks[index].range;
                let duration: u32 = dj_mix::mix_duration(known, range);
                dj_mix::preview_after_click(position, range.settle(duration), duration, active)
            },
            None => PreviewRequest::Nothing,
        }
    }
}

/// A click on the waveform of a track is heard, from where it lies within the track to where
/// that ends at the latest.
pub proof fn waveform_stays_within_track(
    app: AppView,
    index: usize,
    known: Option<u32>,
    position: u32,
)
    requires
        app.mix_is_editable(index),
        known is Some,
    ensures
        ({
            let range = app.mix->0.tracks[index as int].range;
            let duration = dj_mix::counted_duration(known, range);
            let request = dj_mix::preview_of_click(
                position,
                range.settled(duration),
                duration,
                app.plays_mix_track(index as int),
            );
            &&& request matches PreviewRequest::Seek { to, stop } ==> to <= duration && stop
                <= duration
            &&& request matches PreviewRequest::Play { from, stop } ==> from <= duration && stop
                <= duration
            &&& request is Seek || request is Play
        }),
{
}

// ---------------------------------------------------------------------------
// Hearing the mix
// ---------------------------------------------------------------------------

impl AudioOrbitApp {
    /// Notes what the preview plays, and until when.
    fn set_preview(&mut self, path: Option<String>, stop: u32)
        ensures
            final(self)@ == old(self)@.with_preview(paths::text_of(path), stop),
    {
        let ghost start = self@;
        let taken = self.take_mix();
        if let Some(mut mix) = taken {
            mix.preview_track_path = path;
            mix.preview_stop_seconds = Some(stop);
            assert(mix@ =~= (MixView {
                preview_track_path: paths::text_of(path),
                preview_stop_seconds: Some(stop),
                ..start.mix->0
            }));
            self.put_mix(Some(mix));
        } else {
            self.put_mix(None);
        }
    }

    /// Plays a track of the mix from a position, until a second, unless the mix is being
    /// exported.
    pub fn play_mix_preview(
        &mut self,
        path: String,
        start_bits: u32,
        stop: u32,
        status: PlayerStatus,
    )
        ensures
            final(self)@ == if old(self)@.jobs.dj_mix {
                old(self)@
            } else {
                old(self)@.with_preview(Some(path@), stop).with_track_requested(
                    path@,
                    old(self)@.shown_position(path@),
                    start_bits,
                    Crossfade::Off,
                    false,
                    status,
                )
            },
    {
        if self.jobs.dj_mix {
            return;
        }
        let position: Option<usize> = match self.current_playlist() {
            Some(shown) => lookup::find_path(&shown.tracks, path.as_str()),
            None => None,
        };
        self.set_preview(Some(path.clone()), stop);
        self.play_path_with_crossfade(path, position, start_bits, Crossfade::Off, status);
    }

    /// Notes that the preview jumps within the track that plays, and goes on until a second,
    /// unless the mix is being exported.
    pub fn seek_mix_preview(&mut self, stop: u32)
        ensures
            final(self)@ == if old(self)@.jobs.dj_mix {
                old(self)@
            } else {
                old(self)@.with_preview(old(self)@.active_track_path, stop)
            },
    {
        if self.jobs.dj_mix {
            return;
        }
        let path = match &self.active_track_path {
            Some(path) => Some(path.clone()),
            None => None,
        };
        self.set_preview(path, stop);
    }

    /// Lets the preview of a track go on until another second, unless the mix is being
    /// exported.
    pub fn stop_mix_preview_at(&mut self, path: &str, stop: u32)
        ensures
            final(self)@ == ({
                let start = old(self)@;
                if !start.jobs.dj_mix && start.mix is Some && start.mix->0.preview_track_path is Some
                    && paths::same_key(start.mix->0.preview_track_path->0, path@) {
                    start.with_preview(start.mix->0.preview_track_path, stop)
                } else {
                    start
                }
            }),
    {
        if self.jobs.dj_mix {
            return;
        }
        let preview = match &self.mix {
            Some(mix) => match &mix.preview_track_path {
                Some(preview) => if paths::same_path(preview.as_str(), path) {
                    Some(preview.clone())
                } else {
                    None
                },
                None => None,
            },
            None => None,
        };
        if let Some(preview) = preview {
            self.set_preview(Some(preview), stop);
        }
    }

    /// Closes the dialog and plays the finished mix.
    pub fn play_finished_mix(&mut self, opened: Vec<OpenedPath>, status: PlayerStatus)
        ensures
            final(self)@ == old(self)@.with_preview_stopped().with_mix(None).with_files_opened(
                external_files::playable_files(external_files::opened_views(opened@)),
                true,
                status,
            ),
    {
        self.stop_dj_preview_playback();
        self.put_mix(None);
        self.open_audio_files_in_temporary_playlist(opened, true, status);
    }

    /// Closes the dialog, unless the mix is being exported.
    pub fn close_mix_builder(&mut self)
        ensures
            final(self)@ == (if old(self)@.jobs.dj_mix {
                old(self)@
            } else {
                old(self)@.with_preview_stopped().with_mix(None)
            }),
    {
        if !self.jobs.dj_mix {
            self.stop_dj_preview_playback();
            self.put_mix(None);
        }
    }
}

// ---------------------------------------------------------------------------
// Laws
// ---------------------------------------------------------------------------

/// An export ends once: whatever comes of it, none is running after it has completed, was
/// cancelled, failed or can say no more.
pub proof fn export_ends(view: AppView, events: Seq<DjMixEvent>, disconnected: bool, now: u64)
    ensures
        disconnected ==> !view.with_mix_polled(events, disconnected, now).jobs.dj_mix,
        events.len() > 0 && !(events.last() is Progress) ==> !view.with_mix_polled(
            events,
            disconnected,
            now,
        ).jobs.dj_mix,
{
}

/// A track that is moved down and then up again stands where it stood.
pub proof fn moved_mix_track_returns(mix: MixView, index: int)
    requires
        0 <= index,
        index + 1 < mix.tracks.len(),
    ensures
        mix.with_tracks_swapped(index, index + 1).with_tracks_swapped(
            index + 1,
            index,
        ).tracks == mix.tracks,
{
    assert(mix.with_tracks_swapped(index, index + 1).with_tracks_swapped(
        index + 1,
        index,
    ).tracks =~= mix.tracks);
}

} // verus!
