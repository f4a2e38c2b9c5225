//! Looking for newer releases, and installing them.

use crate::app::{AppView, AudioOrbitApp, Effect, EffectView, Jobs, PlayerStatus};
use crate::paths;
use crate::settings::UpdateSettings;
use crate::state::StateView;
use crate::text;
use vstd::prelude::*;
use vstd::string::*;

verus! {

/// How long the application waits before it looks for a newer release again, in seconds.
pub const UPDATE_CHECK_INTERVAL_SECONDS: u64 = 3600;

/// What is known of the newest release.
#[derive(Debug)]
pub struct UpdateCheck {
    pub current_version: String,
    pub latest_version: String,
    pub prerelease: bool,
    pub is_update_available: bool,
    pub asset_name: Option<String>,
    pub asset_download_url: Option<String>,
}

/// The model of what is known of the newest release.
#[verifier::ext_equal]
pub struct UpdateCheckView {
    pub current_version: Seq<char>,
    pub latest_version: Seq<char>,
    pub prerelease: bool,
    pub is_update_available: bool,
    pub asset_name: Option<Seq<char>>,
    pub asset_download_url: Option<Seq<char>>,
}

impl View for UpdateCheck {
    type V = UpdateCheckView;

    open spec fn view(&self) -> UpdateCheckView {
        UpdateCheckView {
            current_version: self.current_version@,
            latest_version: self.latest_version@,
            prerelease: self.prerelease,
            is_update_available: self.is_update_available,
            asset_name: paths::text_of(self.asset_name),
            asset_download_url: paths::text_of(self.asset_download_url),
        }
    }
}

impl Clone for UpdateCheck {
    fn clone(&self) -> (copy: UpdateCheck)
        ensures
            copy@ == self@,
    {
        UpdateCheck {
            current_version: self.current_version.clone(),
            latest_version: self.latest_version.clone(),
            prerelease: self.prerelease,
            is_update_available: self.is_update_available,
            asset_name: self.asset_name.clone(),
            asset_download_url: self.asset_download_url.clone(),
        }
    }
}

/// The model of a release that may be known.
pub open spec fn check_view(check: Option<UpdateCheck>) -> Option<UpdateCheckView> {
    match check {
        Some(check) => Some(check@),
        None => None,
    }
}

/// What was found out last, and when the running work has begun.
#[derive(Debug)]
pub struct Updates {
    pub last_check: Option<UpdateCheck>,
    pub check_started_at: Option<u64>,
    pub install_started_at: Option<u64>,
}

/// The model of what was found out last.
#[verifier::ext_equal]
pub struct UpdatesView {
    pub last_check: Option<UpdateCheckView>,
    pub check_started_at: Option<u64>,
    pub install_started_at: Option<u64>,
}

impl View for Updates {
    type V = UpdatesView;

    open spec fn view(&self) -> UpdatesView {
        UpdatesView {
            last_check: check_view(self.last_check),
            check_started_at: self.check_started_at,
            install_started_at: self.install_started_at,
        }
    }
}

/// Nothing was found out yet.
pub open spec fn no_updates() -> UpdatesView {
    UpdatesView { last_check: None, check_started_at: None, install_started_at: None }
}

impl Updates {
    /// Nothing was found out yet.
    pub fn new() -> (updates: Updates)
        ensures
            updates@ == no_updates(),
    {
        Updates { last_check: None, check_started_at: None, install_started_at: None }
    }
}

/// How a look for a newer release has ended.
#[derive(Debug)]
pub enum UpdateCheckEvent {
    Found { check: UpdateCheck },
    Failed { error: String },
    Lost,
}

/// How an installation has ended.
#[derive(Debug)]
pub enum UpdateInstallEvent {
    Finished,
    Failed { error: String },
    Lost,
}

/// What is said of the newest release.
pub open spec fn release_status(check: UpdateCheckView) -> Seq<char> {
    if check.is_update_available {
        (if check.prerelease {
            "Prerelease"@
        } else {
            "Stable"@
        }) + " update available: v"@ + check.latest_version + "."@
    } else {
        "No newer "@ + (if check.prerelease {
            "prerelease"@
        } else {
            "stable"@
        }) + " release is available. Current version: v"@ + check.current_version + "."@
    }
}

/// What is said of the newest release.
fn release_status_text(check: &UpdateCheck) -> (status: String)
    ensures
        status@ == release_status(check@),
{
    let mut status = String::new();
    if check.is_update_available {
        status.append(
            if check.prerelease {
                "Prerelease"
            } else {
                "Stable"
            },
        );
        status.append(" update available: v");
        status.append(check.latest_version.as_str());
    } else {
        status.append("No newer ");
        status.append(
            if check.prerelease {
                "prerelease"
            } else {
                "stable"
            },
        );
        status.append(" release is available. Current version: v");
        status.append(check.current_version.as_str());
    }
    status.append(".");
    assert(status@ =~= release_status(check@));
    status
}

impl AppView {
    /// The application with other settings for updates.
    pub open spec fn with_update_settings(self, update_settings: UpdateSettings) -> AppView {
        AppView { state: StateView { update_settings, ..self.state }, ..self }
    }

    /// Whether it is time to look for a newer release. A development build never does.
    pub open spec fn update_check_is_due(self, development: bool, unix_seconds: u64) -> bool {
        let last = self.state.update_settings.last_auto_check_unix_seconds;
        &&& !development
        &&& !self.jobs.update_check
        &&& !self.jobs.update_install
        &&& last == 0 || unix_seconds - last >= UPDATE_CHECK_INTERVAL_SECONDS
    }

    /// The application while it looks for a newer release.
    pub open spec fn with_check_running(self, now: u64) -> AppView {
        AppView {
            jobs: Jobs { update_check: true, ..self.jobs },
            updates: UpdatesView { check_started_at: Some(now), ..self.updates },
            ..self
        }
    }

    /// The application once it has asked for a look for a newer release, unless it looks.
    pub open spec fn with_update_check_started(self, manual: bool, now: u64) -> AppView {
        if self.jobs.update_check {
            self.with_status("Update check is already running."@)
        } else {
            let started = self.with_check_running(now);
            (if manual {
                started.with_status(
                    if self.state.update_settings.include_prereleases {
                        "Checking for prerelease updates..."@
                    } else {
                        "Checking for stable updates..."@
                    },
                )
            } else {
                started
            }).with_error(None)
        }
    }

    /// Which releases are looked for: newer ones only, or prereleases too.
    pub open spec fn releases_to_look_for(self) -> Option<bool> {
        if self.jobs.update_check {
            None
        } else {
            Some(self.state.update_settings.include_prereleases)
        }
    }

    /// The application with prereleases looked for.
    pub open spec fn with_prereleases(self) -> AppView {
        (AppView {
            updates: UpdatesView { last_check: None, ..self.updates },
            ..self
        }).with_update_settings(
            UpdateSettings { include_prereleases: true, ..self.state.update_settings },
        ).saved()
    }

    /// The application after a look for a newer release has ended.
    pub open spec fn with_update_check_ended(self, event: UpdateCheckEvent) -> AppView {
        let ended = AppView {
            jobs: Jobs { update_check: false, ..self.jobs },
            updates: UpdatesView { check_started_at: None, ..self.updates },
            ..self
        };
        match event {
            UpdateCheckEvent::Found { check } => (AppView {
                updates: UpdatesView { last_check: Some(check@), ..ended.updates },
                ..ended
            }).with_status(release_status(check@)).with_error(None),
            UpdateCheckEvent::Failed { error } => ended.with_error(Some(error@)).with_status(
                "Update check failed."@,
            ),
            UpdateCheckEvent::Lost => ended.with_error(
                Some("Update check stopped before returning a result."@),
            ).with_status("Update check failed."@),
        }
    }

    /// The application after an installation has ended.
    pub open spec fn with_update_install_ended(self, event: UpdateInstallEvent) -> AppView {
        let ended = AppView {
            jobs: Jobs { update_install: false, ..self.jobs },
            updates: UpdatesView { install_started_at: None, ..self.updates },
            ..self
        };
        match event {
            UpdateInstallEvent::Finished => ended.with_status(
                "Update installer finished."@,
            ).with_error(None),
            UpdateInstallEvent::Failed { error } => ended.with_error(Some(error@)).with_status(
                "Update install failed."@,
            ),
            UpdateInstallEvent::Lost => ended.with_error(
                Some("Update installer stopped before replacing the executable."@),
            ).with_status("Update install failed."@),
        }
    }

    /// The application once all that the next run needs is being saved.
    pub open spec fn with_run_kept(self, status: PlayerStatus, position_bits: u32) -> AppView {
        self.with_session(status, position_bits).with_repeat_kept().with_effect(
            EffectView::SaveState,
        )
    }

    /// The application once it has asked for an installation.
    pub open spec fn with_install_started(self, now: u64, message: Seq<char>) -> AppView {
        (AppView {
            jobs: Jobs { update_install: true, ..self.jobs },
            updates: UpdatesView { install_started_at: Some(now), ..self.updates },
            ..self
        }).with_status(message).with_error(None)
    }

    /// Whether a release can be installed now.
    pub open spec fn can_install(self, check: UpdateCheckView) -> bool {
        !self.jobs.update_install && check.is_update_available && check.asset_download_url is Some
    }

    /// The application once it has asked for a release to be installed, where it can be.
    pub open spec fn with_release_install_started(
        self,
        check: UpdateCheckView,
        status: PlayerStatus,
        position_bits: u32,
        now: u64,
    ) -> AppView {
        if self.jobs.update_install {
            self.with_status("Update install is already running."@)
        } else if !check.is_update_available {
            self.with_status("No newer update is available."@)
        } else if check.asset_download_url is None {
            self.with_error(
                Some("The selected release does not contain a Windows executable asset."@),
            )
        } else {
            self.with_run_kept(status, position_bits).with_install_started(
                now,
                "Downloading and installing update..."@,
            )
        }
    }

    /// The application once it has asked for the newest stable release to be installed.
    pub open spec fn with_stable_install_started(
        self,
        status: PlayerStatus,
        position_bits: u32,
        now: u64,
    ) -> AppView {
        if self.jobs.update_install {
            self.with_status("Update install is already running."@)
        } else {
            (AppView {
                updates: UpdatesView { last_check: None, ..self.updates },
                ..self
            }).with_update_settings(
                UpdateSettings { include_prereleases: false, ..self.state.update_settings },
            ).with_run_kept(status, position_bits).with_install_started(
                now,
                "Switching back to the latest stable release..."@,
            )
        }
    }
}

impl AudioOrbitApp {
    /// Sets whether prereleases are looked for.
    fn set_prereleases(&mut self, wanted: bool)
        ensures
            final(self)@ == old(self)@.with_update_settings(
                UpdateSettings {
                    include_prereleases: wanted,
                    ..old(self)@.state.update_settings
                },
            ),
    {
        self.state.update_settings.include_prereleases = wanted;
        assert(self.state@ =~= (StateView {
            update_settings: UpdateSettings {
                include_prereleases: wanted,
                ..old(self)@.state.update_settings
            },
            ..old(self)@.state
        }));
    }

    /// Keeps when the application looked for a newer release.
    fn set_checked_at(&mut self, unix_seconds: u64)
        ensures
            final(self)@ == old(self)@.with_update_settings(
                UpdateSettings {
                    last_auto_check_unix_seconds: unix_seconds,
                    ..old(self)@.state.update_settings
                },
            ),
    {
        self.state.update_settings.last_auto_check_unix_seconds = unix_seconds;
        assert(self.state@ =~= (StateView {
            update_settings: UpdateSettings {
                last_auto_check_unix_seconds: unix_seconds,
                ..old(self)@.state.update_settings
            },
            ..old(self)@.state
        }));
    }

    /// Asks for a look for a newer release where it is time; returns whether prereleases are
    /// looked for too.
    pub fn maybe_start_auto_update_check(
        &mut self,
        development: bool,
        unix_seconds: u64,
        now: u64,
    ) -> (include_prereleases: Option<bool>)
        ensures
            ({
                let start = old(self)@;
                let due = start.update_check_is_due(development, unix_seconds);
                &&& include_prereleases == if due {
                    Some(start.state.update_settings.include_prereleases)
                } else {
                    None
                }
                &&& final(self)@ == if due {
                    start.with_update_settings(
                        UpdateSettings {
                            last_auto_check_unix_seconds: unix_seconds,
                            ..start.state.update_settings
                        },
                    ).saved().with_update_check_started(false, now)
                } else {
                    start
                }
            }),
    {
        if development || self.jobs.update_check || self.jobs.update_install {
            return None;
        }
        let last: u64 = self.state.update_settings.last_auto_check_unix_seconds;
        let since: u64 = if unix_seconds >= last {
            unix_seconds - last
        } else {
            0
        };
        if last != 0 && since < UPDATE_CHECK_INTERVAL_SECONDS {
            return None;
        }
        self.set_checked_at(unix_seconds);
        self.save_state_silently();
        self.start_update_check(false, now)
    }

    /// Takes note that a look for a newer release has begun.
    fn begin_update_check(&mut self, now: u64)
        ensures
            final(self)@ == old(self)@.with_check_running(now),
    {
        self.jobs.update_check = true;
        self.updates.check_started_at = Some(now);
    }

    /// Asks for a look for a newer release, unless the application looks; returns whether
    /// prereleases are looked for too.
    pub fn start_update_check(&mut self, manual: bool, now: u64) -> (include_prereleases: Option<
        bool,
    >)
        ensures
            include_prereleases == old(self)@.releases_to_look_for(),
            final(self)@ == old(self)@.with_update_check_started(manual, now),
    {
        if self.jobs.update_check {
            self.set_status("Update check is already running.".to_owned());
            return None;
        }
        let include_prereleases = self.state.update_settings.include_prereleases;
        self.begin_update_check(now);
        if manual {
            self.set_status(
                if include_prereleases {
                    "Checking for prerelease updates...".to_owned()
                } else {
                    "Checking for stable updates...".to_owned()
                },
            );
        }
        self.set_error(None);
        Some(include_prereleases)
    }

    /// Looks for prereleases from now on, and at once; returns whether prereleases are looked
    /// for too.
    pub fn enable_prereleases(&mut self, now: u64) -> (include_prereleases: Option<bool>)
        ensures
            include_prereleases == old(self)@.with_prereleases().releases_to_look_for(),
            final(self)@ == old(self)@.with_prereleases().with_update_check_started(true, now),
    {
        self.updates.last_check = None;
        self.set_prereleases(true);
        self.save_state_silently();
        self.start_update_check(true, now)
    }

    /// Takes over how a look for a newer release has ended, where one is running.
    fn take_check_event(&mut self, event: UpdateCheckEvent)
        ensures
            final(self)@ == if old(self)@.jobs.update_check {
                old(self)@.with_update_check_ended(event)
            } else {
                old(self)@
            },
    {
        if !self.jobs.update_check {
            return;
        }
        self.jobs.update_check = false;
        self.updates.check_started_at = None;
        match event {
            UpdateCheckEvent::Found { check } => {
                self.set_status(release_status_text(&check));
                self.set_error(None);
                self.updates.last_check = Some(check);
            },
            UpdateCheckEvent::Failed { error } => {
                self.set_error(Some(error));
                self.set_status("Update check failed.".to_owned());
            },
            UpdateCheckEvent::Lost => {
                self.fail("Update check stopped before returning a result.");
                self.set_status("Update check failed.".to_owned());
            },
        }
    }

    /// Takes over how an installation has ended, where one is running.
    fn take_install_event(&mut self, event: UpdateInstallEvent)
        ensures
            final(self)@ == if old(self)@.jobs.update_install {
                old(self)@.with_update_install_ended(event)
            } else {
                old(self)@
            },
    {
        if !self.jobs.update_install {
            return;
        }
        self.jobs.update_install = false;
        self.updates.install_started_at = None;
        match event {
            UpdateInstallEvent::Finished => {
                self.set_status("Update installer finished.".to_owned());
                self.set_error(None);
            },
            UpdateInstallEvent::Failed { error } => {
                self.set_error(Some(error));
                self.set_status("Update install failed.".to_owned());
            },
            UpdateInstallEvent::Lost => {
                self.fail("Update installer stopped before replacing the executable.");
                self.set_status("Update install failed.".to_owned());
            },
        }
    }

    /// Takes over what has come of a look for a newer release, and of an installation.
    pub fn process_update_events(
        &mut self,
        check_event: Option<UpdateCheckEvent>,
        install_event: Option<UpdateInstallEvent>,
    )
        ensures
            ({
                let start = old(self)@;
                let checked = match check_event {
                    Some(event) => if start.jobs.update_check {
                        start.with_update_check_ended(event)
                    } else {
                        start
                    },
                    None => start,
                };
                final(self)@ == match install_event {
                    Some(event) => if checked.jobs.update_install {
                        checked.with_update_install_ended(event)
                    } else {
                        checked
                    },
                    None => checked,
                }
            }),
    {
        if let Some(event) = check_event {
            self.take_check_event(event);
        }
        if let Some(event) = install_event {
            self.take_install_event(event);
        }
    }

    /// Saves all that the next run needs.
    fn keep_run(&mut self, status: PlayerStatus, position_bits: u32)
        ensures
            final(self)@ == old(self)@.with_run_kept(status, position_bits),
    {
        self.persist_playback_session(status, position_bits);
        self.persist_repeat_selection_for_current_playlist();
        self.ask(Effect::SaveState);
    }

    /// Takes note that an installation has begun.
    fn begin_install(&mut self, now: u64, message: &str)
        ensures
            final(self)@ == old(self)@.with_install_started(now, message@),
    {
        self.jobs.update_install = true;
        self.updates.install_started_at = Some(now);
        self.set_status(message.to_owned());
        self.set_error(None);
    }

    /// Asks for a release to be installed, where it can be; returns whether it is asked for.
    pub fn start_update_install(
        &mut self,
        check: &UpdateCheck,
        status: PlayerStatus,
        position_bits: u32,
        now: u64,
    ) -> (started: bool)
        ensures
            started == old(self)@.can_install(check@),
            final(self)@ == old(self)@.with_release_install_started(
                check@,
                status,
                position_bits,
                now,
            ),
    {
        if self.jobs.update_install {
            self.set_status("Update install is already running.".to_owned());
            return false;
        }
        if !check.is_update_available {
            self.set_status("No newer update is available.".to_owned());
            return false;
        }
        if check.asset_download_url.is_none() {
            self.fail("The selected release does not contain a Windows executable asset.");
            return false;
        }
        self.keep_run(status, position_bits);
        self.begin_install(now, "Downloading and installing update...");
        true
    }

    /// Asks for the newest stable release to be installed; returns whether it is asked for.
    pub fn start_switch_to_stable_install(
        &mut self,
        status: PlayerStatus,
        position_bits: u32,
        now: u64,
    ) -> (started: bool)
        ensures
            started == !old(self)@.jobs.update_install,
            final(self)@ == old(self)@.with_stable_install_started(status, position_bits, now),
    {
        if self.jobs.update_install {
            self.set_status("Update install is already running.".to_owned());
            return false;
        }
        self.updates.last_check = None;
        self.set_prereleases(false);
        self.keep_run(status, position_bits);
        self.begin_install(now, "Switching back to the latest stable release...");
        true
    }

    /// Takes note that the page of the releases was opened, or why it was not.
    pub fn open_releases_page(&mut self, error: Option<String>)
        ensures
            final(self)@ == match error {
                Some(error) => old(self)@.with_error(Some(error@)),
                None => old(self)@.with_status("Opened Audio Orbit releases."@).with_error(None),
            },
    {
        match error {
            Some(error) => self.set_error(Some(error)),
            None => {
                self.set_status("Opened Audio Orbit releases.".to_owned());
                self.set_error(None);
            },
        }
    }
}

/// What is shown of the newest release.
#[derive(Debug)]
pub struct ReleaseReport {
    pub current_text: String,
    pub latest_text: String,
    pub type_text: String,
    pub asset_text: String,
    pub result_text: String,
    /// The release can be installed now.
    pub can_install: bool,
}

/// The model of what is shown of the newest release.
#[verifier::ext_equal]
pub struct ReleaseReportView {
    pub current_text: Seq<char>,
    pub latest_text: Seq<char>,
    pub type_text: Seq<char>,
    pub asset_text: Seq<char>,
    pub result_text: Seq<char>,
    pub can_install: bool,
}

impl View for ReleaseReport {
    type V = ReleaseReportView;

    open spec fn view(&self) -> ReleaseReportView {
        ReleaseReportView {
            current_text: self.current_text@,
            latest_text: self.latest_text@,
            type_text: self.type_text@,
            asset_text: self.asset_text@,
            result_text: self.result_text@,
            can_install: self.can_install,
        }
    }
}

/// The name of a kind of release.
pub open spec fn release_kind(prerelease: bool) -> Seq<char> {
    if prerelease {
        "prerelease"@
    } else {
        "stable"@
    }
}

/// What is shown of the newest release; `busy` says that one is looked for or installed.
pub open spec fn release_report(check: UpdateCheckView, busy: bool) -> ReleaseReportView {
    let kind = release_kind(check.prerelease);
    ReleaseReportView {
        current_text: "Current version: v"@ + check.current_version,
        latest_text: "Latest "@ + kind + " version: v"@ + check.latest_version,
        type_text: "Release type: "@ + kind,
        asset_text: match check.asset_name {
            Some(name) => "Asset: "@ + name,
            None => "No Windows executable asset was found for this release."@,
        },
        result_text: if check.is_update_available {
            "A newer Audio Orbit "@ + kind + " release is available."@
        } else {
            "No newer "@ + kind + " release is available."@
        },
        can_install: check.is_update_available && !busy && check.asset_download_url is Some,
    }
}

/// Shows the newest release.
fn report_release(check: &UpdateCheck, busy: bool) -> (report: ReleaseReport)
    ensures
        report@ == release_report(check@, busy),
{
    let kind = if check.prerelease {
        "prerelease"
    } else {
        "stable"
    };
    let mut current_text = "Current version: v".to_owned();
    current_text.append(check.current_version.as_str());
    let mut latest_text = "Latest ".to_owned();
    latest_text.append(kind);
    latest_text.append(" version: v");
    latest_text.append(check.latest_version.as_str());
    let mut type_text = "Release type: ".to_owned();
    type_text.append(kind);
    let asset_text = match &check.asset_name {
        Some(name) => {
            let mut shown = "Asset: ".to_owned();
            shown.append(name.as_str());
            shown
        },
        None => "No Windows executable asset was found for this release.".to_owned(),
    };
    let mut result_text = if check.is_update_available {
        "A newer Audio Orbit ".to_owned()
    } else {
        "No newer ".to_owned()
    };
    result_text.append(kind);
    result_text.append(" release is available.");
    let can_install = check.is_update_available && !busy && check.asset_download_url.is_some();
    ReleaseReport { current_text, latest_text, type_text, asset_text, result_text, can_install }
}

/// How many whole seconds work has taken that began at a time.
pub open spec fn work_seconds(started_at: Option<u64>, now: u64) -> u64 {
    match started_at {
        Some(started) => if now >= started {
            ((now - started) / 1000) as u64
        } else {
            0
        },
        None => 0,
    }
}

/// What is said of work that goes on.
fn work_text(what: &str, started_at: Option<u64>, now: u64) -> (shown: String)
    ensures
        shown@ == what@ + text::decimal(work_seconds(started_at, now) as nat) + "s"@,
{
    let seconds: u64 = match started_at {
        Some(started) => if now >= started {
            (now - started) / 1000
        } else {
            0
        },
        None => 0,
    };
    let mut shown = what.to_owned();
    shown.append(text::decimal_text(seconds).as_str());
    shown.append("s");
    shown
}

impl AudioOrbitApp {
    /// What is shown of the newest release, once one was looked for.
    pub fn newest_release_report(&self) -> (report: Option<ReleaseReport>)
        ensures
            match report {
                Some(report) => self@.updates.last_check is Some && report@ == release_report(
                    self@.updates.last_check->0,
                    self@.jobs.update_check || self@.jobs.update_install,
                ),
                None => self@.updates.last_check is None,
            },
    {
        match &self.updates.last_check {
            Some(check) => Some(
                report_release(check, self.jobs.update_check || self.jobs.update_install),
            ),
            None => None,
        }
    }

    /// What is said while a newer release is looked for.
    pub fn update_check_text(&self, now: u64) -> (shown: Option<String>)
        ensures
            paths::text_of(shown) == (if self@.jobs.update_check {
                Some(
                    "Checking for updates... "@ + text::decimal(
                        work_seconds(self@.updates.check_started_at, now) as nat,
                    ) + "s"@,
                )
            } else {
                None
            }),
    {
        if self.jobs.update_check {
            Some(work_text("Checking for updates... ", self.updates.check_started_at, now))
        } else {
            None
        }
    }

    /// What is said while a release is installed.
    pub fn update_install_text(&self, now: u64) -> (shown: Option<String>)
        ensures
            paths::text_of(shown) == (if self@.jobs.update_install {
                Some(
                    "Installing update... "@ + text::decimal(
                        work_seconds(self@.updates.install_started_at, now) as nat,
                    ) + "s"@,
                )
            } else {
                None
            }),
    {
        if self.jobs.update_install {
            Some(work_text("Installing update... ", self.updates.install_started_at, now))
        } else {
            None
        }
    }
}

/// Right after a look for a newer release of its own accord, the application does not look
/// again, whatever has come of the first one.
pub proof fn update_check_waits(view: AppView, development: bool, unix_seconds: u64, later: u64)
    requires
        unix_seconds > 0,
        later < unix_seconds + UPDATE_CHECK_INTERVAL_SECONDS,
        view.state.update_settings.last_auto_check_unix_seconds == unix_seconds,
    ensures
        !view.update_check_is_due(development, later),
{
}

} // verus!
