//! What a developer sees of the running application.

use crate::app::{AppView, AudioOrbitApp, PlayerStatus};
use crate::library_sync;
use crate::playlist;
use crate::playlist::PlaylistView;
use crate::text;
use vstd::prelude::*;
use vstd::string::*;

verus! {

/// Work that goes on in the background.
#[derive(Clone, Copy, Debug, PartialEq, Eq, Structural)]
pub enum BackgroundJob {
    AudioPrepare,
    FolderScan,
    CrossfadeSwitch,
    UpdateCheck,
    UpdateInstall,
    RadioMetadata,
    ProfileCountdown,
}

impl BackgroundJob {
    /// The name of the work.
    pub open spec fn job_label(self) -> Seq<char> {
        match self {
            BackgroundJob::AudioPrepare => "audio prepare"@,
            BackgroundJob::FolderScan => "folder scan"@,
            BackgroundJob::CrossfadeSwitch => "crossfade switch"@,
            BackgroundJob::UpdateCheck => "update check"@,
            BackgroundJob::UpdateInstall => "update install"@,
            BackgroundJob::RadioMetadata => "radio metadata"@,
            BackgroundJob::ProfileCountdown => "profile countdown"@,
        }
    }

    /// The name of the work.
    pub fn label(&self) -> (label: &'static str)
        ensures
            label@ == self.job_label(),
    {
        match self {
            BackgroundJob::AudioPrepare => "audio prepare",
            BackgroundJob::FolderScan => "folder scan",
            BackgroundJob::CrossfadeSwitch => "crossfade switch",
            BackgroundJob::UpdateCheck => "update check",
            BackgroundJob::UpdateInstall => "update install",
            BackgroundJob::RadioMetadata => "radio metadata",
            BackgroundJob::ProfileCountdown => "profile countdown",
        }
    }
}

/// Work where it goes on, else none.
pub open spec fn job_where(runs: bool, job: BackgroundJob) -> Seq<BackgroundJob> {
    if runs {
        seq![job]
    } else {
        Seq::empty()
    }
}

/// Puts work at the end of a list where it goes on.
fn add_job(jobs: &mut Vec<BackgroundJob>, runs: bool, job: BackgroundJob)
    ensures
        final(jobs)@ == old(jobs)@ + job_where(runs, job),
{
    if runs {
        jobs.push(job);
        assert(jobs@ =~= old(jobs)@ + seq![job]);
    } else {
        assert(jobs@ =~= old(jobs)@ + Seq::empty());
    }
}

/// How much the application holds.
#[derive(Clone, Copy, Debug, PartialEq, Eq, Structural)]
pub struct DevMetricsCounters {
    pub playlists: usize,
    pub tracks: usize,
    pub radio_stations: usize,
    pub undo_stack: usize,
}

/// How many tracks the playlists hold.
pub open spec fn tracks_anywhere(playlists: Seq<PlaylistView>) -> nat
    decreases playlists.len(),
{
    if playlists.len() == 0 {
        0
    } else {
        tracks_anywhere(playlists.drop_last()) + playlists.last().tracks.len()
    }
}

impl AppView {
    /// The work that goes on in the background.
    pub open spec fn running_jobs(self) -> Seq<BackgroundJob> {
        job_where(self.jobs.prepared_track, BackgroundJob::AudioPrepare) + job_where(
            self.jobs.folder_scan,
            BackgroundJob::FolderScan,
        ) + job_where(
            self.pending_track_switch is Some,
            BackgroundJob::CrossfadeSwitch,
        ) + job_where(self.jobs.update_check, BackgroundJob::UpdateCheck) + job_where(
            self.jobs.update_install,
            BackgroundJob::UpdateInstall,
        ) + job_where(
            self.radio.title_lookup_running,
            BackgroundJob::RadioMetadata,
        ) + job_where(self.jobs.profile_apply_at is Some, BackgroundJob::ProfileCountdown)
    }

    /// What the player is doing, in a word.
    pub open spec fn player_label(self, status: PlayerStatus) -> Seq<char> {
        if self.radio.active_index is Some {
            "radio"@
        } else if status.available && status.playing {
            "music playing"@
        } else if self.active_track_path is Some {
            "music selected"@
        } else {
            "idle"@
        }
    }

    /// How much the application holds; the number of tracks is capped at the greatest that can
    /// be held.
    pub open spec fn counters(self) -> DevMetricsCounters {
        DevMetricsCounters {
            playlists: self.state.playlists.len() as usize,
            tracks: library_sync::capped(tracks_anywhere(self.state.playlists)),
            radio_stations: self.state.radio_stations.len() as usize,
            undo_stack: self.order_undo_stack.len() as usize,
        }
    }
}

impl AudioOrbitApp {
    /// The work that goes on in the background.
    pub fn active_dev_background_jobs(&self) -> (jobs: Vec<BackgroundJob>)
        ensures
            jobs@ == self@.running_jobs(),
    {
        let mut jobs: Vec<BackgroundJob> = Vec::new();
        add_job(&mut jobs, self.jobs.prepared_track, BackgroundJob::AudioPrepare);
        assert(jobs@ =~= job_where(self.jobs.prepared_track, BackgroundJob::AudioPrepare));
        add_job(&mut jobs, self.jobs.folder_scan, BackgroundJob::FolderScan);
        add_job(
            &mut jobs,
            self.pending_track_switch.is_some(),
            BackgroundJob::CrossfadeSwitch,
        );
        add_job(&mut jobs, self.jobs.update_check, BackgroundJob::UpdateCheck);
        add_job(&mut jobs, self.jobs.update_install, BackgroundJob::UpdateInstall);
        add_job(&mut jobs, self.radio.title_lookup_running, BackgroundJob::RadioMetadata);
        add_job(&mut jobs, self.jobs.profile_apply_at.is_some(), BackgroundJob::ProfileCountdown);
        jobs
    }

    /// What the player is doing, in a word.
    pub fn dev_player_state_label(&self, status: PlayerStatus) -> (label: &'static str)
        ensures
            label@ == self@.player_label(status),
    {
        if self.radio.active_index.is_some() {
            "radio"
        } else if status.available && status.playing {
            "music playing"
        } else if self.active_track_path.is_some() {
            "music selected"
        } else {
            "idle"
        }
    }

    /// How many tracks the playlists hold, capped at the greatest number that can be held.
    pub fn total_track_count(&self) -> (count: usize)
        ensures
            count == library_sync::capped(tracks_anywhere(self@.state.playlists)),
    {
        let ghost views = self@.state.playlists;
        let mut count: usize = 0;
        let mut index: usize = 0;
        assert(views.take(0) =~= Seq::empty());
        while index < self.state.playlists.len()
            invariant
                index <= self.state.playlists@.len(),
                views == playlist::playlist_views(self.state.playlists@),
                count == library_sync::capped(tracks_anywhere(views.take(index as int))),
            decreases self.state.playlists@.len() - index,
        {
            assert(views.take(index + 1).drop_last() =~= views.take(index as int));
            assert(views.take(index + 1).last() == self.state.playlists@[index as int]@);
            assert(views[index as int].tracks.len()
                == self.state.playlists@[index as int].tracks@.len());
            count = count.saturating_add(self.state.playlists[index].tracks.len());
            index += 1;
        }
        assert(views.take(views.len() as int) =~= views);
        count
    }

    /// How much the application holds.
    pub fn dev_metrics_counters(&self) -> (counters: DevMetricsCounters)
        ensures
            counters == self@.counters(),
    {
        assert(self@.state.playlists.len() == self.state.playlists.len());
        assert(self@.state.radio_stations.len() == self.state.radio_stations.len());
        assert(self@.order_undo_stack.len() == self.order_undo_stack.len());
        DevMetricsCounters {
            playlists: self.state.playlists.len(),
            tracks: self.total_track_count(),
            radio_stations: self.state.radio_stations.len(),
            undo_stack: self.order_undo_stack.len(),
        }
    }
}

/// The work that goes on, as it is shown.
pub fn background_work_text(jobs: &Vec<BackgroundJob>) -> (shown: String)
    ensures
        shown@ == if jobs@.len() == 0 {
            "none"@
        } else {
            text::joined(
                jobs@.map_values(|job: BackgroundJob| job.job_label()),
                ", "@,
            )
        },
{
    if jobs.len() == 0 {
        return "none".to_owned();
    }
    let ghost all = jobs@.map_values(|job: BackgroundJob| job.job_label());
    let mut labels: Vec<String> = Vec::new();
    let mut index: usize = 0;
    assert(text::texts(labels@) =~= all.take(0));
    while index < jobs.len()
        invariant
            index <= jobs@.len(),
            all == jobs@.map_values(|job: BackgroundJob| job.job_label()),
            text::texts(labels@) == all.take(index as int),
        decreases jobs@.len() - index,
    {
        let ghost before = labels@;
        labels.push(jobs[index].label().to_owned());
        assert(text::texts(labels@) =~= text::texts(before).push(all[index as int]));
        assert(all.take(index + 1) =~= all.take(index as int).push(all[index as int]));
        index += 1;
    }
    assert(all.take(all.len() as int) =~= all);
    text::join(&labels, ", ")
}

} // verus!
