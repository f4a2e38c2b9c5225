//! Jumps within the playing track.

use crate::app;
use crate::app::{
    AppView, AudioOrbitApp, FastSeekView, Jobs, MessagesView, PendingFastSeek,
    PendingSeekPrepare, PlaybackInfo, PlaybackInfoView, PlayerStatus, SeekPrepareView,
    SeekingView, Waveform, WaveformView,
};
use crate::paths;
use crate::session;
use crate::settings::DspSettings;
use crate::silence;
use crate::starting;
use vstd::prelude::*;
use vstd::string::*;

verus! {

/// A time in milliseconds after another one, as far as the clock goes.
pub open spec fn later(now: u64, millis: u64) -> u64 {
    if now + millis > u64::MAX {
        u64::MAX
    } else {
        (now + millis) as u64
    }
}

/// A time in milliseconds after another one, as far as the clock goes.
pub fn time_after(now: u64, millis: u64) -> (time: u64)
    ensures
        time == later(now, millis),
{
    if millis > u64::MAX - now {
        u64::MAX
    } else {
        now + millis
    }
}

/// How many milliseconds have passed.
pub open spec fn elapsed(now: u64, since: u64) -> u64 {
    if now >= since {
        (now - since) as u64
    } else {
        0
    }
}

/// How many milliseconds have passed.
pub fn time_since(now: u64, since: u64) -> (millis: u64)
    ensures
        millis == elapsed(now, since),
{
    if now >= since {
        now - since
    } else {
        0
    }
}

// ---------------------------------------------------------------------------
// Asking for a jump
// ---------------------------------------------------------------------------

/// What a jump is about.
pub struct SeekTarget {
    pub playlist_index: usize,
    pub index: Option<usize>,
    pub path: String,
    pub position_bits: u32,
    pub settings: DspSettings,
    pub known_duration_bits: Option<u32>,
    pub prepare_after_streaming: bool,
}

/// The model of what a jump is about.
#[verifier::ext_equal]
pub struct SeekTargetView {
    pub playlist_index: usize,
    pub index: Option<usize>,
    pub path: Seq<char>,
    pub position_bits: u32,
    pub settings: DspSettings,
    pub known_duration_bits: Option<u32>,
    pub prepare_after_streaming: bool,
}

impl View for SeekTarget {
    type V = SeekTargetView;

    open spec fn view(&self) -> SeekTargetView {
        SeekTargetView {
            playlist_index: self.playlist_index,
            index: self.index,
            path: self.path@,
            position_bits: self.position_bits,
            settings: self.settings,
            known_duration_bits: self.known_duration_bits,
            prepare_after_streaming: self.prepare_after_streaming,
        }
    }
}

/// The model of a jump that may be made.
pub open spec fn target_view(target: Option<SeekTarget>) -> Option<SeekTargetView> {
    match target {
        Some(target) => Some(target@),
        None => None,
    }
}

/// The jump that has waited.
pub open spec fn waited_target(pending: FastSeekView) -> SeekTargetView {
    SeekTargetView {
        playlist_index: pending.playlist_index,
        index: pending.index,
        path: pending.path,
        position_bits: pending.position_bits,
        settings: pending.settings,
        known_duration_bits: pending.known_duration_bits,
        prepare_after_streaming: pending.prepare_after_streaming,
    }
}

impl AppView {
    /// The duration that is known of the playing track.
    pub open spec fn playing_duration(self) -> Option<u32> {
        let reported = match self.last_playback {
            Some(info) => if starting::is_positive_time(info.original_duration_bits) {
                Some(info.original_duration_bits)
            } else {
                None
            },
            None => None,
        };
        session::either(
            reported,
            match self.active_track_path {
                Some(path) => self.known_duration(self.active_track_index, path),
                None => None,
            },
        )
    }

    /// The jump to a position of the playing track, where something is playing.
    pub open spec fn seek_target(
        self,
        position_bits: u32,
        settings: DspSettings,
        status: PlayerStatus,
    ) -> Option<SeekTargetView> {
        if self.active_track_path is Some && status.active() {
            Some(
                SeekTargetView {
                    playlist_index: match self.active_playlist_index {
                        Some(index) => index,
                        None => self.state.selected_playlist_index,
                    },
                    index: self.active_track_index,
                    path: self.active_track_path->0,
                    position_bits,
                    settings,
                    known_duration_bits: self.playing_duration(),
                    prepare_after_streaming: settings.skip_silence_enabled,
                },
            )
        } else {
            None
        }
    }

    /// Whether a jump may be made at once: none waits, and the last one is long enough ago.
    pub open spec fn seeks_at_once(self, now: u64, interval: u64) -> bool {
        self.seeking.fast is None && (self.seeking.last_started_at is None || elapsed(
            now,
            self.seeking.last_started_at->0,
        ) >= interval)
    }

    /// The application with older preparations given up.
    pub open spec fn without_preparations(self) -> AppView {
        AppView {
            seeking: SeekingView { prepare: None, ..self.seeking },
            jobs: Jobs { prepared_track: false, ..self.jobs },
            ..self
        }
    }

    /// The application with a jump that waits for its turn.
    pub open spec fn with_seek_waiting(
        self,
        target: SeekTargetView,
        now: u64,
        interval: u64,
        time_text: Seq<char>,
        status: PlayerStatus,
        displayed_bits: u32,
    ) -> AppView {
        (AppView {
            seeking: SeekingView {
                fast: Some(
                    FastSeekView {
                        run_after: later(now, interval),
                        playlist_index: target.playlist_index,
                        index: target.index,
                        path: target.path,
                        position_bits: target.position_bits,
                        settings: target.settings,
                        known_duration_bits: target.known_duration_bits,
                        prepare_after_streaming: target.prepare_after_streaming,
                    },
                ),
                drag_position_bits: None,
                ..self.seeking
            },
            messages: MessagesView {
                status: "Seek to "@ + time_text + "..."@,
                status_updated_at: now,
                ..self.messages
            },
            ..self
        }).with_session(
            status,
            if self.pending_track_switch is Some {
                displayed_bits
            } else {
                target.position_bits
            },
        )
    }

    /// The application after a jump was asked for: older preparations are given up, and the
    /// jump waits where another one is too close.
    pub open spec fn with_seek_requested(
        self,
        position_bits: u32,
        settings: DspSettings,
        now: u64,
        interval: u64,
        time_text: Seq<char>,
        status: PlayerStatus,
        displayed_bits: u32,
    ) -> AppView {
        match self.seek_target(position_bits, settings, status) {
            Some(target) => if self.seeks_at_once(now, interval) {
                self.without_preparations()
            } else {
                self.without_preparations().with_seek_waiting(
                    target,
                    now,
                    interval,
                    time_text,
                    status,
                    displayed_bits,
                )
            },
            None => self,
        }
    }
}

impl AudioOrbitApp {
    /// The duration that is known of the playing track.
    pub fn known_playing_duration(&self) -> (bits: Option<u32>)
        ensures
            bits == self@.playing_duration(),
    {
        if let Some(info) = &self.last_playback {
            let bits: u32 = info.original_duration_bits;
            if 0 < bits && bits < 0x7f80_0000 {
                return Some(bits);
            }
        }
        match &self.active_track_path {
            Some(path) => self.known_duration_for_track(self.active_track_index, path.as_str()),
            None => None,
        }
    }

    /// Asks for a jump to a position. Returns the jump where it may be made at once; else it
    /// waits for its turn.
    pub fn schedule_or_run_fast_seek(
        &mut self,
        position_bits: u32,
        settings: DspSettings,
        now: u64,
        interval: u64,
        time_text: &str,
        status: PlayerStatus,
        displayed_bits: u32,
    ) -> (target: Option<SeekTarget>)
        ensures
            target_view(target) == (if old(self)@.seeks_at_once(now, interval) {
                old(self)@.seek_target(position_bits, settings, status)
            } else {
                None
            }),
            final(self)@ == old(self)@.with_seek_requested(
                position_bits,
                settings,
                now,
                interval,
                time_text@,
                status,
                displayed_bits,
            ),
    {
        let path = match &self.active_track_path {
            Some(path) => path.clone(),
            None => return None,
        };
        if !status.is_active() {
            return None;
        }
        let playlist_index: usize = match self.active_playlist_index {
            Some(index) => index,
            None => self.state.selected_playlist_index,
        };
        let target = SeekTarget {
            playlist_index,
            index: self.active_track_index,
            path,
            position_bits,
            settings,
            known_duration_bits: self.known_playing_duration(),
            prepare_after_streaming: settings.skip_silence_enabled,
        };
        assert(target@ =~= old(self)@.seek_target(position_bits, settings, status)->0);
        self.give_up_preparations();
        let spaced = match self.seeking.last_started_at {
            Some(started) => time_since(now, started) >= interval,
            None => true,
        };
        if self.seeking.fast.is_none() && spaced {
            return Some(target);
        }
        self.let_seek_wait(target, now, interval, time_text, status, displayed_bits);
        None
    }

    /// Gives up older preparations.
    fn give_up_preparations(&mut self)
        ensures
            final(self)@ == old(self)@.without_preparations(),
    {
        self.seeking.prepare = None;
        self.jobs.prepared_track = false;
        assert(self@ =~= old(self)@.without_preparations());
    }

    /// Lets a jump wait for its turn.
    fn let_seek_wait(
        &mut self,
        target: SeekTarget,
        now: u64,
        interval: u64,
        time_text: &str,
        status: PlayerStatus,
        displayed_bits: u32,
    )
        ensures
            final(self)@ == old(self)@.with_seek_waiting(
                target@,
                now,
                interval,
                time_text@,
                status,
                displayed_bits,
            ),
    {
        let position_bits: u32 = target.position_bits;
        self.seeking.fast = Some(
            PendingFastSeek {
                run_after: time_after(now, interval),
                playlist_index: target.playlist_index,
                index: target.index,
                path: target.path,
                position_bits,
                settings: target.settings,
                known_duration_bits: target.known_duration_bits,
                prepare_after_streaming: target.prepare_after_streaming,
            },
        );
        let mut text = "Seek to ".to_owned();
        text.append(time_text);
        text.append("...");
        self.messages.status = text;
        self.messages.status_updated_at = now;
        self.seeking.drag_position_bits = None;
        let shown: u32 = if self.pending_track_switch.is_some() {
            displayed_bits
        } else {
            position_bits
        };
        self.persist_playback_session(status, shown);
    }

    /// Takes a jump whose turn has come, where the track is still playing.
    pub fn process_pending_fast_seek(&mut self, now: u64) -> (target: Option<SeekTarget>)
        ensures
            ({
                let pending = old(self)@.seeking.fast;
                let due = pending is Some && now >= pending->0.run_after;
                let playing = old(self)@.active_track_path;
                &&& final(self)@ == if due {
                    AppView {
                        seeking: SeekingView { fast: None, ..old(self)@.seeking },
                        ..old(self)@
                    }
                } else {
                    old(self)@
                }
                &&& target_view(target) == if due && playing is Some && paths::same_key(
                    playing->0,
                    pending->0.path,
                ) {
                    Some(waited_target(pending->0))
                } else {
                    None
                }
            }),
    {
        let due = match &self.seeking.fast {
            Some(pending) => now >= pending.run_after,
            None => false,
        };
        if !due {
            return None;
        }
        let mut taken: Option<PendingFastSeek> = None;
        std::mem::swap(&mut taken, &mut self.seeking.fast);
        assert(self@ =~= (AppView {
            seeking: SeekingView { fast: None, ..old(self)@.seeking },
            ..old(self)@
        }));
        match taken {
            Some(pending) => {
                let still_playing = match &self.active_track_path {
                    Some(active) => paths::same_path(active.as_str(), pending.path.as_str()),
                    None => false,
                };
                if !still_playing {
                    return None;
                }
                let target = SeekTarget {
                    playlist_index: pending.playlist_index,
                    index: pending.index,
                    path: pending.path,
                    position_bits: pending.position_bits,
                    settings: pending.settings,
                    known_duration_bits: pending.known_duration_bits,
                    prepare_after_streaming: pending.prepare_after_streaming,
                };
                assert(target@ =~= waited_target(pending@));
                Some(target)
            },
            None => None,
        }
    }
}

// ---------------------------------------------------------------------------
// The jump is made
// ---------------------------------------------------------------------------

impl AppView {
    /// The application after the player has tried to jump.
    pub open spec fn with_seek_tried(self, now: u64) -> AppView {
        AppView {
            seeking: SeekingView { last_started_at: Some(now), ..self.seeking },
            ..self
        }
    }

    /// The application after a jump.
    pub open spec fn with_seek_done(
        self,
        target: SeekTargetView,
        info: PlaybackInfoView,
        known_ranges: Option<Seq<(u32, u32)>>,
        waveform: Option<WaveformView>,
        now: u64,
        debounce: u64,
        time_text: Seq<char>,
        size_on_disk: Option<u64>,
        status: PlayerStatus,
        displayed_bits: u32,
    ) -> AppView {
        let shown = starting::info_with_ranges(info, known_ranges);
        let tried = self.with_seek_tried(now);
        let moved = (AppView {
            messages: MessagesView {
                status: "Seeked to "@ + time_text + "."@,
                status_updated_at: now,
                ..tried.messages
            },
            active_playlist_index: Some(target.playlist_index),
            selected_track_index: target.index,
            active_track_index: target.index,
            active_track_path: Some(shown.path),
            ..tried
        }).with_music().with_metadata(shown, size_on_disk).with_last_played(
            target.index,
            shown.path,
        );
        let settled = (AppView {
            last_playback: Some(shown),
            seeking: SeekingView {
                fast: None,
                prepare: if target.prepare_after_streaming {
                    Some(
                        SeekPrepareView {
                            run_after: later(now, debounce),
                            requested_at: now,
                            playlist_index: target.playlist_index,
                            index: target.index,
                            path: target.path,
                            start_bits: target.position_bits,
                            settings: target.settings,
                            waveform,
                            silence_ranges: known_ranges,
                        },
                    )
                } else {
                    None
                },
                drag_position_bits: None,
                ..moved.seeking
            },
            ..moved
        }).with_error(None).with_session(status, displayed_bits);
        if target.prepare_after_streaming {
            settled
        } else {
            settled.saved()
        }
    }

    /// The application after a jump has failed.
    pub open spec fn with_seek_failed(self, now: u64, error: Seq<char>) -> AppView {
        let tried = self.with_seek_tried(now);
        (AppView {
            seeking: SeekingView { drag_position_bits: None, ..tried.seeking },
            ..tried
        }).with_error(Some(error))
    }
}

/// A copy of passages that may be known.
fn copy_known_ranges(ranges: &Option<Vec<(u32, u32)>>) -> (copy: Option<Vec<(u32, u32)>>)
    ensures
        app::ranges_view(copy) == app::ranges_view(*ranges),
{
    match ranges {
        Some(ranges) => Some(silence::copy_ranges(ranges)),
        None => None,
    }
}

impl AudioOrbitApp {
    /// Takes note that the player has jumped.
    pub fn seek_finished(
        &mut self,
        target: SeekTarget,
        info: PlaybackInfo,
        known_ranges: Option<Vec<(u32, u32)>>,
        waveform: Option<Waveform>,
        now: u64,
        debounce: u64,
        time_text: &str,
        size_on_disk: Option<u64>,
        status: PlayerStatus,
        displayed_bits: u32,
    )
        ensures
            final(self)@ == old(self)@.with_seek_done(
                target@,
                info@,
                app::ranges_view(known_ranges),
                app::waveform_view(waveform),
                now,
                debounce,
                time_text@,
                size_on_disk,
                status,
                displayed_bits,
            ),
    {
        let mut info = info;
        let ghost reported = info@;
        if let Some(ranges) = copy_known_ranges(&known_ranges) {
            info.silence_ranges = ranges;
        }
        assert(info@ =~= starting::info_with_ranges(reported, app::ranges_view(known_ranges)));
        self.seeking.last_started_at = Some(now);
        let mut text = "Seeked to ".to_owned();
        text.append(time_text);
        text.append(".");
        self.messages.status = text;
        self.messages.status_updated_at = now;
        self.active_playlist_index = Some(target.playlist_index);
        self.selected_track_index = target.index;
        self.active_track_index = target.index;
        self.active_track_path = Some(info.path.clone());
        self.switch_to_music();
        self.store_playback_metadata(&info, size_on_disk);
        self.remember_last_played_track(target.index, info.path.as_str());
        self.settle_after_seek(target, info, known_ranges, waveform, now, debounce, status, displayed_bits);
    }

    /// Takes note of what follows a jump.
    fn settle_after_seek(
        &mut self,
        target: SeekTarget,
        info: PlaybackInfo,
        known_ranges: Option<Vec<(u32, u32)>>,
        waveform: Option<Waveform>,
        now: u64,
        debounce: u64,
        status: PlayerStatus,
        displayed_bits: u32,
    )
        ensures
            ({
                let moved = old(self)@;
                let settled = (AppView {
                    last_playback: Some(info@),
                    seeking: SeekingView {
                        fast: None,
                        prepare: if target@.prepare_after_streaming {
                            Some(
                                SeekPrepareView {
                                    run_after: later(now, debounce),
                                    requested_at: now,
                                    playlist_index: target@.playlist_index,
                                    index: target@.index,
                                    path: target@.path,
                                    start_bits: target@.position_bits,
                                    settings: target@.settings,
                                    waveform: app::waveform_view(waveform),
                                    silence_ranges: app::ranges_view(known_ranges),
                                },
                            )
                        } else {
                            None
                        },
                        drag_position_bits: None,
                        ..moved.seeking
                    },
                    ..moved
                }).with_error(None).with_session(status, displayed_bits);
                final(self)@ == if target@.prepare_after_streaming {
                    settled
                } else {
                    settled.saved()
                }
            }),
    {
        let prepares = target.prepare_after_streaming;
        self.last_playback = Some(info);
        self.seeking.drag_position_bits = None;
        self.seeking.fast = None;
        self.seeking.prepare = if prepares {
            Some(
                PendingSeekPrepare {
                    run_after: time_after(now, debounce),
                    requested_at: now,
                    playlist_index: target.playlist_index,
                    index: target.index,
                    path: target.path,
                    start_bits: target.position_bits,
                    settings: target.settings,
                    waveform,
                    silence_ranges: known_ranges,
                },
            )
        } else {
            None
        };
        self.set_error(None);
        self.persist_playback_session(status, displayed_bits);
        if !prepares {
            self.save_state_silently();
        }
    }

    /// Takes note that the player could not jump.
    pub fn seek_failed(&mut self, now: u64, error: String)
        ensures
            final(self)@ == old(self)@.with_seek_failed(now, error@),
    {
        self.seeking.last_started_at = Some(now);
        self.seeking.drag_position_bits = None;
        self.set_error(Some(error));
    }

    /// Takes the preparation that follows a jump once its time has come, where the track is
    /// still playing.
    pub fn process_pending_seek_prepare(&mut self, now: u64) -> (pending: Option<
        PendingSeekPrepare,
    >)
        ensures
            ({
                let waiting = old(self)@.seeking.prepare;
                let due = waiting is Some && now >= waiting->0.run_after;
                let playing = old(self)@.active_track_path;
                let runs = due && playing is Some && paths::same_key(
                    playing->0,
                    waiting->0.path,
                );
                let taken = AppView {
                    seeking: SeekingView { prepare: None, ..old(self)@.seeking },
                    ..old(self)@
                };
                &&& final(self)@ == if runs {
                    taken.with_preparation(true)
                } else if due {
                    taken
                } else {
                    old(self)@
                }
                &&& (match pending {
                    Some(pending) => runs && pending@ == waiting->0,
                    None => !runs,
                })
            }),
    {
        let due = match &self.seeking.prepare {
            Some(pending) => now >= pending.run_after,
            None => false,
        };
        if !due {
            return None;
        }
        let mut taken: Option<PendingSeekPrepare> = None;
        std::mem::swap(&mut taken, &mut self.seeking.prepare);
        assert(self@ =~= (AppView {
            seeking: SeekingView { prepare: None, ..old(self)@.seeking },
            ..old(self)@
        }));
        match taken {
            Some(pending) => {
                let still_playing = match &self.active_track_path {
                    Some(active) => paths::same_path(active.as_str(), pending.path.as_str()),
                    None => false,
                };
                if !still_playing {
                    return None;
                }
                self.set_preparation(true);
                Some(pending)
            },
            None => None,
        }
    }
}

/// Of jumps that are asked for within the interval, the last one is the one that waits.
pub proof fn last_seek_wins(
    view: AppView,
    first_bits: u32,
    second_bits: u32,
    settings: DspSettings,
    now: u64,
    soon: u64,
    interval: u64,
    text: Seq<char>,
    status: PlayerStatus,
    shown: u32,
)
    requires
        view.seek_target(first_bits, settings, status) is Some,
        !view.seeks_at_once(now, interval),
    ensures
        ({
            let once = view.with_seek_requested(
                first_bits,
                settings,
                now,
                interval,
                text,
                status,
                shown,
            );
            let twice = once.with_seek_requested(
                second_bits,
                settings,
                soon,
                interval,
                text,
                status,
                shown,
            );
            twice.seeking.fast is Some && twice.seeking.fast->0.position_bits == second_bits
        }),
{
}

} // verus!
