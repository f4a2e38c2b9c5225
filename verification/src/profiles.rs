//! Sound profiles, and how a change of one reaches the playing audio.

use crate::app::{AppView, AudioOrbitApp, Crossfade, Effect, EffectView, Jobs, PlayerStatus};
use crate::paths;
use crate::seeking;
use crate::settings;
use crate::settings::{DspProfile, DspProfileView, DspSettings};
use crate::state::StateView;
use crate::text;
use vstd::prelude::*;
use vstd::string::*;

verus! {

/// How long a change waits before it is applied, in milliseconds.
pub const PROFILE_APPLY_DELAY_MILLIS: u64 = 3000;

/// How long it is shown that a change was applied, in milliseconds.
pub const PROFILE_APPLIED_NOTICE_MILLIS: u64 = 2000;

impl AppView {
    /// The application with a change of the sound profile that is applied soon.
    pub open spec fn with_apply_scheduled(self, now: u64) -> AppView {
        AppView {
            jobs: Jobs {
                profile_apply_at: Some(seeking::later(now, PROFILE_APPLY_DELAY_MILLIS)),
                profile_applied_until: None,
                ..self.jobs
            },
            ..self
        }
    }

    /// The application with one more profile, which is selected.
    pub open spec fn with_profile_added(self, fallback: DspSettings) -> AppView {
        let profile = DspProfileView {
            name: "Profile "@ + text::decimal(self.state.profiles.len() + 1),
            settings: match self.sound_settings() {
                Some(settings) => settings,
                None => fallback,
            },
        };
        (AppView {
            state: StateView {
                profiles: self.state.profiles.push(profile),
                selected_profile_index: self.state.profiles.len() as usize,
                ..self.state
            },
            ..self
        }).with_status("Created a new sound profile from the current settings."@).saved()
    }

    /// The application without the selected profile, where there is another one.
    pub open spec fn with_profile_removed(self, now: u64) -> AppView {
        if self.state.profiles.len() <= 1 {
            self.with_error(Some("At least one sound profile is required."@))
        } else {
            let removed = self.state.selected_profile_index;
            (AppView {
                state: StateView {
                    profiles: self.state.profiles.remove(removed as int),
                    selected_profile_index: if removed == 0 {
                        0
                    } else {
                        (removed - 1) as usize
                    },
                    ..self.state
                },
                ..self
            }).with_status("Removed sound profile."@).saved().with_apply_scheduled(now)
        }
    }

    /// The application with another profile selected.
    pub open spec fn with_profile_selected(self, index: usize, now: u64) -> AppView {
        if index == self.state.selected_profile_index {
            self
        } else {
            (AppView {
                state: StateView { selected_profile_index: index, ..self.state },
                ..self
            }).saved().with_apply_scheduled(now)
        }
    }

    /// The application once it has asked for the playing audio to go on with the selected
    /// profile.
    pub open spec fn with_profile_applied(
        self,
        status: PlayerStatus,
        position_bits: u32,
    ) -> AppView {
        match self.radio.active_index {
            Some(index) => if index < self.state.radio_stations.len() && status.active() {
                self.with_effect(
                    EffectView::OpenRadioStream {
                        station_index: index,
                        url: self.state.radio_stations[index as int].url,
                        crossfade: self.manual_crossfade(status),
                        reopens: true,
                    },
                )
            } else {
                self
            },
            None => match self.active_track_path {
                Some(path) => if status.active() {
                    self.with_track_requested(
                        path,
                        self.active_track_index,
                        position_bits,
                        Crossfade::Off,
                        status.playing,
                        status,
                    )
                } else {
                    self
                },
                None => self,
            },
        }
    }

    /// The application without a notice that has been shown long enough.
    pub open spec fn with_notice_ended(self, now: u64) -> AppView {
        match self.jobs.profile_applied_until {
            Some(until) => if now >= until {
                AppView { jobs: Jobs { profile_applied_until: None, ..self.jobs }, ..self }
            } else {
                self
            },
            None => self,
        }
    }

    /// The application after a look at the clock: a change that is due is applied.
    pub open spec fn with_apply_checked(
        self,
        now: u64,
        status: PlayerStatus,
        position_bits: u32,
    ) -> AppView {
        let current = self.with_notice_ended(now);
        match current.jobs.profile_apply_at {
            Some(apply_at) => if now < apply_at {
                current
            } else {
                (AppView {
                    jobs: Jobs {
                        profile_apply_at: None,
                        profile_applied_until: Some(
                            seeking::later(now, PROFILE_APPLIED_NOTICE_MILLIS),
                        ),
                        ..current.jobs
                    },
                    ..current
                }).saved().with_profile_applied(status, position_bits)
            },
            None => current,
        }
    }

    /// What is shown of a change of the sound profile.
    pub open spec fn apply_notice(self, now: u64) -> Option<Seq<char>> {
        match self.jobs.profile_apply_at {
            Some(apply_at) => Some(
                "Apply in "@ + text::decimal(seconds_left(apply_at, now)) + "s..."@,
            ),
            None => if self.jobs.profile_applied_until is Some && now
                < self.jobs.profile_applied_until->0 {
                Some("Sound profile applied."@)
            } else {
                None
            },
        }
    }
}

/// The whole seconds until a time, rounded up, and at least one.
pub open spec fn seconds_left(time: u64, now: u64) -> nat {
    let millis = seeking::elapsed(time, now);
    let seconds = (millis + 999) / 1000;
    if seconds < 1 {
        1
    } else {
        seconds as nat
    }
}

impl AudioOrbitApp {
    /// Lets a change of the sound profile be applied soon.
    pub fn schedule_current_profile_apply(&mut self, now: u64)
        ensures
            final(self)@ == old(self)@.with_apply_scheduled(now),
    {
        self.jobs.profile_apply_at = Some(seeking::time_after(now, PROFILE_APPLY_DELAY_MILLIS));
        self.jobs.profile_applied_until = None;
        assert(self@ =~= old(self)@.with_apply_scheduled(now));
    }

    /// Adds a profile with the settings of the selected one.
    pub fn add_profile(&mut self, fallback: DspSettings)
        ensures
            final(self)@ == old(self)@.with_profile_added(fallback),
    {
        let ghost start = self@;
        let settings = match self.current_settings() {
            Some(settings) => settings,
            None => fallback,
        };
        let index: usize = self.state.profiles.len();
        let ghost before = self.state.profiles@;
        self.state.profiles.push(DspProfile::new("", settings));
        let mut name = "Profile ".to_owned();
        name.append(text::decimal_text(self.state.profiles.len() as u64).as_str());
        self.state.profiles[index].name = name;
        self.state.selected_profile_index = index;
        proof {
            let added = DspProfileView {
                name: "Profile "@ + text::decimal(before.len() + 1),
                settings,
            };
            assert(self.state.profiles@[index as int]@ =~= added);
            assert(settings::profile_views(self.state.profiles@) =~= start.state.profiles.push(
                added,
            ));
        }
        self.set_status("Created a new sound profile from the current settings.".to_owned());
        self.save_state_silently();
    }

    /// Removes the selected profile, where there is another one.
    pub fn remove_current_profile(&mut self, now: u64)
        requires
            old(self)@.state.profiles.len() <= 1 || old(self)@.state.selected_profile_index < old(
                self,
            )@.state.profiles.len(),
        ensures
            final(self)@ == old(self)@.with_profile_removed(now),
    {
        let ghost start = self@;
        assert(start.state.profiles.len() == self.state.profiles.len());
        if self.state.profiles.len() <= 1 {
            self.fail("At least one sound profile is required.");
            return;
        }
        let removed: usize = self.state.selected_profile_index;
        self.state.profiles.remove(removed);
        assert(settings::profile_views(self.state.profiles@) =~= start.state.profiles.remove(
            removed as int,
        ));
        self.state.selected_profile_index = if removed == 0 {
            0
        } else {
            removed - 1
        };
        self.set_status("Removed sound profile.".to_owned());
        self.save_state_silently();
        self.schedule_current_profile_apply(now);
    }

    /// Selects another profile.
    pub fn select_profile(&mut self, index: usize, now: u64)
        ensures
            final(self)@ == old(self)@.with_profile_selected(index, now),
    {
        if index == self.state.selected_profile_index {
            return;
        }
        self.state.selected_profile_index = index;
        self.save_state_silently();
        self.schedule_current_profile_apply(now);
    }

    /// Asks for the playing audio to go on with the selected profile.
    pub fn apply_current_profile_live(&mut self, status: PlayerStatus, position_bits: u32)
        ensures
            final(self)@ == old(self)@.with_profile_applied(status, position_bits),
    {
        if let Some(index) = self.radio.active_index {
            if index >= self.state.radio_stations.len() || !status.is_active() {
                return;
            }
            assert(self@.state.radio_stations[index as int]
                == self.state.radio_stations@[index as int]@);
            let crossfade = self.configured_manual_crossfade(status);
            let url = self.state.radio_stations[index].url.clone();
            self.ask(
                Effect::OpenRadioStream { station_index: index, url, crossfade, reopens: true },
            );
            return;
        }
        let path = match &self.active_track_path {
            Some(path) => path.clone(),
            None => return,
        };
        if !status.is_active() {
            return;
        }
        let track_index = self.active_track_index;
        self.request_track(
            path,
            track_index,
            position_bits,
            Crossfade::Off,
            status.playing,
            status,
        );
    }

    /// Ends a notice that has been shown long enough.
    fn end_notice(&mut self, now: u64)
        ensures
            final(self)@ == old(self)@.with_notice_ended(now),
    {
        if let Some(until) = self.jobs.profile_applied_until {
            if now >= until {
                self.jobs.profile_applied_until = None;
            }
        }
        assert(self@ =~= old(self)@.with_notice_ended(now));
    }

    /// Applies a change of the sound profile that is due.
    pub fn process_pending_profile_apply(
        &mut self,
        now: u64,
        status: PlayerStatus,
        position_bits: u32,
    )
        ensures
            final(self)@ == old(self)@.with_apply_checked(now, status, position_bits),
    {
        self.end_notice(now);
        let apply_at: u64 = match self.jobs.profile_apply_at {
            Some(apply_at) => apply_at,
            None => return,
        };
        if now < apply_at {
            return;
        }
        self.jobs.profile_apply_at = None;
        self.jobs.profile_applied_until = Some(
            seeking::time_after(now, PROFILE_APPLIED_NOTICE_MILLIS),
        );
        self.save_state_silently();
        self.apply_current_profile_live(status, position_bits);
    }

    /// What is shown of a change of the sound profile.
    pub fn profile_apply_status_text(&self, now: u64) -> (notice: Option<String>)
        ensures
            paths::text_of(notice) == self@.apply_notice(now),
    {
        if let Some(apply_at) = self.jobs.profile_apply_at {
            let millis: u64 = seeking::time_since(apply_at, now);
            let mut seconds: u64 = millis / 1000;
            if millis % 1000 != 0 {
                seconds += 1;
            }
            assert(seconds == (millis + 999) / 1000);
            if seconds < 1 {
                seconds = 1;
            }
            let mut notice = "Apply in ".to_owned();
            notice.append(text::decimal_text(seconds).as_str());
            notice.append("s...");
            return Some(notice);
        }
        match self.jobs.profile_applied_until {
            Some(until) => if now < until {
                Some("Sound profile applied.".to_owned())
            } else {
                None
            },
            None => None,
        }
    }
}

/// A change is applied once, and not before its time has come.
pub proof fn change_is_applied_once(
    view: AppView,
    now: u64,
    then: u64,
    status: PlayerStatus,
    position_bits: u32,
)
    requires
        now <= u64::MAX - PROFILE_APPLY_DELAY_MILLIS,
    ensures
        ({
            let scheduled = view.with_apply_scheduled(now);
            let checked = scheduled.with_apply_checked(then, status, position_bits);
            &&& then < now + PROFILE_APPLY_DELAY_MILLIS ==> checked == scheduled
            &&& then >= now + PROFILE_APPLY_DELAY_MILLIS ==> checked.jobs.profile_apply_at is None
        }),
{
}

} // verus!
