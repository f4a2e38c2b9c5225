//! Copying and deleting the files of tracks, and making a playlist of some of them.

use crate::app::{
    AppView, AudioOrbitApp, DeleteConfirmationView, DialogsView, Jobs,
    PendingTrackDeleteConfirmation,
};
use crate::file_operations;
use crate::library;
use crate::playlist;
use crate::playlist::{Playlist, PlaylistKind, PlaylistView};
use crate::text;
use crate::track;
use crate::track::{AudioFile, AudioFileView};
use vstd::prelude::*;
use vstd::string::*;

verus! {

// ---------------------------------------------------------------------------
// Copying one file
// ---------------------------------------------------------------------------

/// What came of an attempt to make the file that the copy goes to.
#[derive(Debug)]
pub enum CreateOutcome {
    Created,
    Exists,
    Failed { error: String },
}

/// What follows an attempt.
#[derive(Debug)]
pub enum CopyStep {
    /// Write the contents.
    Write,
    /// Try the name of another attempt.
    TryAgain { attempt: usize },
    /// Give up.
    GiveUp { message: String },
}

/// What is said where the file of a copy cannot be made.
pub open spec fn create_failure(
    candidate: Seq<char>,
    source: Seq<char>,
    error: Seq<char>,
) -> Seq<char> {
    "Failed to create "@ + candidate + " while copying "@ + source + ": "@ + error
}

/// What follows an attempt: a file that is there is never written to.
pub fn after_create_attempt(
    source: &str,
    candidate: &str,
    attempt: usize,
    outcome: CreateOutcome,
) -> (step: CopyStep)
    requires
        attempt < usize::MAX,
    ensures
        match outcome {
            CreateOutcome::Created => step is Write,
            CreateOutcome::Exists => step == (CopyStep::TryAgain {
                attempt: (attempt + 1) as usize,
            }),
            CreateOutcome::Failed { error } => step matches CopyStep::GiveUp { message }
                && message@ == create_failure(candidate@, source@, error@),
        },
{
    match outcome {
        CreateOutcome::Created => CopyStep::Write,
        CreateOutcome::Exists => CopyStep::TryAgain { attempt: attempt + 1 },
        CreateOutcome::Failed { error } => {
            let mut message = "Failed to create ".to_owned();
            message.append(candidate);
            message.append(" while copying ");
            message.append(source);
            message.append(": ");
            message.append(error.as_str());
            CopyStep::GiveUp { message }
        },
    }
}

/// What is said where a track has no file name.
pub fn no_file_name_message(source: &str) -> (message: String)
    ensures
        message@ == "Track path has no file name: "@ + source@,
{
    let mut message = "Track path has no file name: ".to_owned();
    message.append(source);
    message
}

/// What is said where a file cannot be opened.
pub fn open_failure_message(source: &str, error: &str) -> (message: String)
    ensures
        message@ == "Failed to open "@ + source@ + " for copying: "@ + error@,
{
    let mut message = "Failed to open ".to_owned();
    message.append(source);
    message.append(" for copying: ");
    message.append(error);
    message
}

/// What is said where the contents of a file cannot be copied.
pub fn write_failure_message(source: &str, candidate: &str, error: &str) -> (message: String)
    ensures
        message@ == "Failed to copy "@ + source@ + " to "@ + candidate@ + ": "@ + error@,
{
    let mut message = "Failed to copy ".to_owned();
    message.append(source);
    message.append(" to ");
    message.append(candidate);
    message.append(": ");
    message.append(error);
    message
}

// ---------------------------------------------------------------------------
// Copying and deleting many files
// ---------------------------------------------------------------------------

/// What came of copying one file.
#[derive(Debug)]
pub enum CopyOutcome {
    Missing,
    Copied,
    Failed { message: String },
}

/// What came of deleting one file.
#[derive(Debug)]
pub enum DeleteOutcome {
    Deleted,
    AlreadyMissing,
    Failed { error: String },
}

/// What came of copying or deleting files.
#[derive(Debug)]
pub enum TrackFileOperationResult {
    Copy {
        destination: String,
        requested: usize,
        copied: usize,
        skipped_missing: usize,
        errors: Vec<String>,
    },
    Delete {
        requested: usize,
        deleted: usize,
        already_missing: usize,
        removed_paths: Vec<String>,
        errors: Vec<String>,
    },
}

/// How many of the outcomes satisfy a condition.
pub open spec fn outcomes_where<T>(outcomes: Seq<T>, holds: spec_fn(T) -> bool) -> nat {
    outcomes.filter(holds).len()
}

/// The condition that a file was copied.
pub open spec fn was_copied() -> spec_fn(CopyOutcome) -> bool {
    |outcome: CopyOutcome| outcome is Copied
}

/// The condition that a file to copy was not there.
pub open spec fn was_skipped() -> spec_fn(CopyOutcome) -> bool {
    |outcome: CopyOutcome| outcome is Missing
}

/// The errors among the outcomes.
pub open spec fn copy_errors(outcomes: Seq<CopyOutcome>) -> Seq<Seq<char>>
    decreases outcomes.len(),
{
    if outcomes.len() == 0 {
        Seq::empty()
    } else {
        let before = copy_errors(outcomes.drop_last());
        match outcomes.last() {
            CopyOutcome::Failed { message } => before.push(message@),
            _ => before,
        }
    }
}

/// One more outcome counts once where it satisfies the condition.
proof fn one_more_outcome<T>(outcomes: Seq<T>, count: int, holds: spec_fn(T) -> bool)
    requires
        0 <= count < outcomes.len(),
    ensures
        outcomes_where(outcomes.take(count + 1), holds) == outcomes_where(
            outcomes.take(count),
            holds,
        ) + if holds(outcomes[count]) {
            1nat
        } else {
            0nat
        },
        outcomes_where(outcomes.take(count), holds) <= count,
{
    reveal(Seq::filter);
    assert(outcomes.take(count + 1).drop_last() =~= outcomes.take(count));
    outcomes.take(count).lemma_filter_len(holds);
}

/// Puts together what came of copying files, one by one.
pub fn copy_result(destination: String, outcomes: Vec<CopyOutcome>) -> (result:
    TrackFileOperationResult)
    ensures
        result matches TrackFileOperationResult::Copy {
            destination: folder,
            requested,
            copied,
            skipped_missing,
            errors,
        } && {
            &&& folder@ == destination@
            &&& requested == outcomes@.len()
            &&& copied == outcomes_where(outcomes@, was_copied())
            &&& skipped_missing == outcomes_where(outcomes@, was_skipped())
            &&& text::texts(errors@) == copy_errors(outcomes@)
        },
{
    let ghost all = outcomes@;
    let requested: usize = outcomes.len();
    let mut copied: usize = 0;
    let mut skipped_missing: usize = 0;
    let mut errors: Vec<String> = Vec::new();
    proof {
        assert(all.take(0) =~= Seq::empty());
        reveal(Seq::filter);
        assert(text::texts(errors@) =~= Seq::empty());
    }
    for outcome in iter: outcomes
        invariant
            all == iter.seq(),
            requested == all.len(),
            copied == outcomes_where(all.take(iter.index()), was_copied()),
            skipped_missing == outcomes_where(all.take(iter.index()), was_skipped()),
            text::texts(errors@) == copy_errors(all.take(iter.index())),
    {
        let ghost at = iter.index();
        let ghost errors_before = errors@;
        proof {
            one_more_outcome(all, at, was_copied());
            one_more_outcome(all, at, was_skipped());
            assert(all.take(at + 1).drop_last() =~= all.take(at));
            assert(all.take(at + 1).last() == outcome);
        }
        match outcome {
            CopyOutcome::Missing => {
                skipped_missing += 1;
            },
            CopyOutcome::Copied => {
                copied += 1;
            },
            CopyOutcome::Failed { message } => {
                errors.push(message);
                assert(text::texts(errors@) =~= text::texts(errors_before).push(message@));
            },
        }
    }
    assert(all.take(all.len() as int) =~= all);
    TrackFileOperationResult::Copy { destination, requested, copied, skipped_missing, errors }
}

/// What came of copying files where their folder could not be made: none was looked at.
pub fn destination_failure(destination: String, requested: usize, error: &str) -> (result:
    TrackFileOperationResult)
    ensures
        result matches TrackFileOperationResult::Copy {
            destination: folder,
            requested: asked,
            copied,
            skipped_missing,
            errors,
        } && {
            &&& folder@ == destination@
            &&& asked == requested
            &&& copied == 0
            &&& skipped_missing == 0
            &&& text::texts(errors@) == seq![
                "Failed to create destination "@ + destination@ + ": "@ + error@,
            ]
        },
{
    let mut message = "Failed to create destination ".to_owned();
    message.append(destination.as_str());
    message.append(": ");
    message.append(error);
    let mut errors: Vec<String> = Vec::new();
    errors.push(message);
    assert(text::texts(errors@) =~= seq![message@]);
    TrackFileOperationResult::Copy {
        destination,
        requested,
        copied: 0,
        skipped_missing: 0,
        errors,
    }
}

/// The condition that a file was deleted.
pub open spec fn was_deleted() -> spec_fn((Seq<char>, DeleteOutcome)) -> bool {
    |entry: (Seq<char>, DeleteOutcome)| entry.1 is Deleted
}

/// The condition that a file to delete was not there.
pub open spec fn was_missing() -> spec_fn((Seq<char>, DeleteOutcome)) -> bool {
    |entry: (Seq<char>, DeleteOutcome)| entry.1 is AlreadyMissing
}

/// The models of files with what came of deleting them.
pub open spec fn deletion_views(outcomes: Seq<(String, DeleteOutcome)>) -> Seq<
    (Seq<char>, DeleteOutcome),
> {
    outcomes.map_values(|entry: (String, DeleteOutcome)| (entry.0@, entry.1))
}

/// The files that are gone: those that were deleted, and those that were not there.
pub open spec fn gone_paths(outcomes: Seq<(Seq<char>, DeleteOutcome)>) -> Seq<Seq<char>>
    decreases outcomes.len(),
{
    if outcomes.len() == 0 {
        Seq::empty()
    } else {
        let before = gone_paths(outcomes.drop_last());
        if outcomes.last().1 is Failed {
            before
        } else {
            before.push(outcomes.last().0)
        }
    }
}

/// The errors among the outcomes.
pub open spec fn delete_errors(outcomes: Seq<(Seq<char>, DeleteOutcome)>) -> Seq<Seq<char>>
    decreases outcomes.len(),
{
    if outcomes.len() == 0 {
        Seq::empty()
    } else {
        let before = delete_errors(outcomes.drop_last());
        match outcomes.last().1 {
            DeleteOutcome::Failed { error } => before.push(
                "Failed to delete "@ + outcomes.last().0 + ": "@ + error@,
            ),
            _ => before,
        }
    }
}

/// Puts together what came of deleting files, one by one.
pub fn delete_result(outcomes: Vec<(String, DeleteOutcome)>) -> (result: TrackFileOperationResult)
    ensures
        result matches TrackFileOperationResult::Delete {
            requested,
            deleted,
            already_missing,
            removed_paths,
            errors,
        } && {
            let all = deletion_views(outcomes@);
            &&& requested == all.len()
            &&& deleted == outcomes_where(all, was_deleted())
            &&& already_missing == outcomes_where(all, was_missing())
            &&& text::texts(removed_paths@) == gone_paths(all)
            &&& text::texts(errors@) == delete_errors(all)
        },
{
    let ghost all = deletion_views(outcomes@);
    let requested: usize = outcomes.len();
    let mut deleted: usize = 0;
    let mut already_missing: usize = 0;
    let mut removed_paths: Vec<String> = Vec::new();
    let mut errors: Vec<String> = Vec::new();
    proof {
        assert(all.take(0) =~= Seq::empty());
        reveal(Seq::filter);
        assert(text::texts(removed_paths@) =~= Seq::empty());
        assert(text::texts(errors@) =~= Seq::empty());
    }
    for entry in iter: outcomes
        invariant
            all == deletion_views(iter.seq()),
            requested == all.len(),
            deleted == outcomes_where(all.take(iter.index()), was_deleted()),
            already_missing == outcomes_where(all.take(iter.index()), was_missing()),
            text::texts(removed_paths@) == gone_paths(all.take(iter.index())),
            text::texts(errors@) == delete_errors(all.take(iter.index())),
    {
        let ghost at = iter.index();
        let ghost removed_before = removed_paths@;
        let ghost errors_before = errors@;
        proof {
            one_more_outcome(all, at, was_deleted());
            one_more_outcome(all, at, was_missing());
            assert(all.take(at + 1).drop_last() =~= all.take(at));
            assert(all.take(at + 1).last() == (entry.0@, entry.1));
        }
        let (path, outcome) = entry;
        match outcome {
            DeleteOutcome::Deleted => {
                deleted += 1;
                removed_paths.push(path);
                assert(text::texts(removed_paths@) =~= text::texts(removed_before).push(path@));
            },
            DeleteOutcome::AlreadyMissing => {
                already_missing += 1;
                removed_paths.push(path);
                assert(text::texts(removed_paths@) =~= text::texts(removed_before).push(path@));
            },
            DeleteOutcome::Failed { error } => {
                let mut message = "Failed to delete ".to_owned();
                message.append(path.as_str());
                message.append(": ");
                message.append(error.as_str());
                errors.push(message);
                assert(text::texts(errors@) =~= text::texts(errors_before).push(message@));
            },
        }
    }
    assert(all.take(all.len() as int) =~= all);
    TrackFileOperationResult::Delete {
        requested,
        deleted,
        already_missing,
        removed_paths,
        errors,
    }
}

/// Of the files that were to be deleted, each is gone or has an error.
pub proof fn deletion_is_accounted_for(outcomes: Seq<(Seq<char>, DeleteOutcome)>)
    ensures
        gone_paths(outcomes).len() + delete_errors(outcomes).len() == outcomes.len(),
    decreases outcomes.len(),
{
    if outcomes.len() > 0 {
        deletion_is_accounted_for(outcomes.drop_last());
    }
}

// ---------------------------------------------------------------------------
// The application
// ---------------------------------------------------------------------------

/// Files that are to be copied, and what they are called together.
#[derive(Debug)]
pub struct CopySelection {
    pub paths: Vec<String>,
    pub label: String,
}

/// How an operation on files has ended.
#[derive(Debug)]
pub enum TrackFileOperationEvent {
    Done { result: TrackFileOperationResult },
    Lost,
}

/// The model of files that may have been chosen for copying.
pub open spec fn selection_view(selection: Option<CopySelection>) -> Option<
    (Seq<Seq<char>>, Seq<char>),
> {
    match selection {
        Some(selection) => Some((text::texts(selection.paths@), selection.label@)),
        None => None,
    }
}

/// What is said after files were copied.
pub open spec fn copied_status(
    destination: Seq<char>,
    requested: nat,
    copied: nat,
    skipped_missing: nat,
) -> Seq<char> {
    "Copied "@ + text::decimal(copied) + " of "@ + text::decimal(requested) + " track(s) to "@
        + destination + "."@ + if skipped_missing > 0 {
        " Skipped "@ + text::decimal(skipped_missing) + " missing file(s)."@
    } else {
        Seq::empty()
    }
}

/// What is said after files were deleted.
pub open spec fn deleted_status(requested: nat, deleted: nat, already_missing: nat) -> Seq<char> {
    "Deleted "@ + text::decimal(deleted) + " of "@ + text::decimal(requested)
        + " track file(s)."@ + if already_missing > 0 {
        " Removed "@ + text::decimal(already_missing) + " already-missing reference(s)."@
    } else {
        Seq::empty()
    }
}

/// What is said after files were copied.
fn copied_status_text(
    destination: &str,
    requested: usize,
    copied: usize,
    skipped_missing: usize,
) -> (status: String)
    ensures
        status@ == copied_status(
            destination@,
            requested as nat,
            copied as nat,
            skipped_missing as nat,
        ),
{
    let mut status = "Copied ".to_owned();
    status.append(text::decimal_text(copied as u64).as_str());
    status.append(" of ");
    status.append(text::decimal_text(requested as u64).as_str());
    status.append(" track(s) to ");
    status.append(destination);
    status.append(".");
    let ghost first = status@;
    if skipped_missing > 0 {
        status.append(" Skipped ");
        status.append(text::decimal_text(skipped_missing as u64).as_str());
        status.append(" missing file(s).");
        assert(status@ =~= first + (" Skipped "@ + text::decimal(skipped_missing as nat)
            + " missing file(s)."@));
    } else {
        assert(first + Seq::empty() =~= first);
    }
    status
}

/// What is said after files were deleted.
fn deleted_status_text(requested: usize, deleted: usize, already_missing: usize) -> (status:
    String)
    ensures
        status@ == deleted_status(requested as nat, deleted as nat, already_missing as nat),
{
    let mut status = "Deleted ".to_owned();
    status.append(text::decimal_text(deleted as u64).as_str());
    status.append(" of ");
    status.append(text::decimal_text(requested as u64).as_str());
    status.append(" track file(s).");
    let ghost first = status@;
    if already_missing > 0 {
        status.append(" Removed ");
        status.append(text::decimal_text(already_missing as u64).as_str());
        status.append(" already-missing reference(s).");
        assert(status@ =~= first + (" Removed "@ + text::decimal(already_missing as nat)
            + " already-missing reference(s)."@));
    } else {
        assert(first + Seq::empty() =~= first);
    }
    status
}

/// The files of a playlist that is about to be made: one for each path, with its size as far
/// as it is known.
pub open spec fn sized_files(list: Seq<Seq<char>>, sizes: Seq<Option<u64>>) -> Seq<AudioFileView> {
    Seq::new(
        list.len(),
        |i: int|
            AudioFileView {
                path: list[i],
                size_bytes: if i < sizes.len() {
                    sizes[i]
                } else {
                    None
                },
            },
    )
}

/// Whether a playlist has the given name, but for the case of ASCII letters.
pub open spec fn name_is_taken(playlists: Seq<PlaylistView>, name: Seq<char>) -> bool {
    exists|i: int|
        0 <= i < playlists.len() && text::same_ignoring_ascii_case(
            #[trigger] playlists[i].name,
            name,
        )
}

/// Whether a playlist has the given name, but for the case of ASCII letters.
fn is_name_taken(playlists: &Vec<Playlist>, name: &str) -> (taken: bool)
    ensures
        taken == name_is_taken(playlist::playlist_views(playlists@), name@),
{
    let ghost views = playlist::playlist_views(playlists@);
    let mut index: usize = 0;
    while index < playlists.len()
        invariant
            index <= playlists@.len(),
            views == playlist::playlist_views(playlists@),
            forall|i: int|
                0 <= i < index ==> !text::same_ignoring_ascii_case(
                    #[trigger] views[i].name,
                    name@,
                ),
        decreases playlists@.len() - index,
    {
        assert(views[index as int] == playlists@[index as int]@);
        if text::eq_ignore_ascii_case(playlists[index].name.as_str(), name) {
            assert(text::same_ignoring_ascii_case(views[index as int].name, name@));
            return true;
        }
        index += 1;
    }
    false
}

/// The files of a playlist that is about to be made.
fn with_sizes(list: &Vec<String>, sizes: &Vec<Option<u64>>) -> (files: Vec<AudioFile>)
    ensures
        track::file_views(files@) == sized_files(text::texts(list@), sizes@),
{
    let ghost all = sized_files(text::texts(list@), sizes@);
    let mut files: Vec<AudioFile> = Vec::new();
    let mut index: usize = 0;
    assert(track::file_views(files@) =~= all.take(0));
    while index < list.len()
        invariant
            index <= list@.len(),
            all == sized_files(text::texts(list@), sizes@),
            track::file_views(files@) == all.take(index as int),
        decreases list@.len() - index,
    {
        let ghost before = files@;
        let size_bytes: Option<u64> = if index < sizes.len() {
            sizes[index]
        } else {
            None
        };
        let file = AudioFile::new(list[index].clone(), size_bytes);
        files.push(file);
        assert(all[index as int] =~= file@);
        assert(track::file_views(files@) =~= track::file_views(before).push(file@));
        assert(all.take(index + 1) =~= all.take(index as int).push(all[index as int]));
        index += 1;
    }
    assert(all.take(all.len() as int) =~= all);
    files
}

impl AppView {
    /// Whether no files are being copied, deleted or looked at.
    pub open spec fn files_are_idle(self) -> bool {
        !self.jobs.track_file_operation && !self.jobs.folder_scan && !self.jobs.library_sync
    }

    /// The application with the hint that files are in use.
    pub open spec fn with_files_busy(self) -> AppView {
        self.with_error(Some("Wait for current library or track file operation to finish."@))
    }

    /// The application after the shown playlist was chosen for export.
    pub open spec fn with_export_chosen(self) -> AppView {
        if !self.files_are_idle() {
            self.with_files_busy()
        } else if self.current() is Some && self.current()->0.tracks.len() == 0 {
            self.with_error(Some("Current playlist has no tracks to export."@))
        } else {
            self
        }
    }

    /// The files of the shown playlist, to be exported.
    pub open spec fn export_selection(self) -> Option<(Seq<Seq<char>>, Seq<char>)> {
        match self.current() {
            Some(shown) => if self.files_are_idle() && shown.tracks.len() > 0 {
                Some((library::paths_of(shown.tracks), "playlist "@ + shown.name))
            } else {
                None
            },
            None => None,
        }
    }

    /// The application after tracks were chosen for copying.
    pub open spec fn with_copy_chosen(self) -> AppView {
        if self.files_are_idle() {
            self
        } else {
            self.with_files_busy()
        }
    }

    /// The files that an action on a track is about, to be copied.
    pub open spec fn copy_selection(self, index: usize) -> Option<(Seq<Seq<char>>, Seq<char>)> {
        if self.files_are_idle() && self.action_paths(index).len() > 0 {
            Some((self.action_paths(index), "selected tracks"@))
        } else {
            None
        }
    }

    /// The application once it has asked for files to be copied.
    pub open spec fn with_copy_started(
        self,
        count: nat,
        label: Seq<char>,
        destination: Seq<char>,
    ) -> AppView {
        (AppView { jobs: Jobs { track_file_operation: true, ..self.jobs }, ..self }).with_status(
            "Copying "@ + text::decimal(count) + " track(s) from "@ + label + " to "@
                + destination + "..."@,
        ).with_error(None)
    }

    /// The application with the question whether files are to be deleted.
    pub open spec fn with_deletion_asked(
        self,
        list: Seq<Seq<char>>,
        title: Seq<char>,
        description: Seq<char>,
    ) -> AppView {
        AppView {
            dialogs: DialogsView {
                pending_track_delete_confirmation: Some(
                    DeleteConfirmationView { paths: list, title, description },
                ),
                pending_track_delete_confirmation_text: Seq::empty(),
                ..self.dialogs
            },
            ..self
        }
    }

    /// The application with the question whether the files of the shown playlist are to be
    /// deleted.
    pub open spec fn with_playlist_deletion_asked(self) -> AppView {
        if !self.files_are_idle() {
            self.with_files_busy()
        } else {
            match self.current() {
                Some(shown) => if shown.tracks.len() == 0 {
                    self.with_error(Some("Current playlist has no tracks to delete."@))
                } else {
                    let list = file_operations::distinct_paths(library::paths_of(shown.tracks));
                    self.with_deletion_asked(
                        list,
                        "Delete all playlist files?"@,
                        "Permanently delete "@ + text::decimal(list.len())
                            + " file(s) referenced by "@ + shown.name
                            + ". Deleted files are removed from every playlist. This cannot be undone."@,
                    )
                },
                None => self,
            }
        }
    }

    /// The application with the question whether the files that an action is about are to be
    /// deleted.
    pub open spec fn with_selection_deletion_asked(self, index: usize) -> AppView {
        if !self.files_are_idle() {
            self.with_files_busy()
        } else if self.action_paths(index).len() == 0 {
            self
        } else {
            let list = file_operations::distinct_paths(self.action_paths(index));
            self.with_deletion_asked(
                list,
                "Delete selected files?"@,
                "Permanently delete "@ + text::decimal(list.len())
                    + " selected file(s). Deleted files are removed from every playlist. This cannot be undone."@,
            )
        }
    }

    /// The application without the question whether files are to be deleted.
    pub open spec fn without_deletion_asked(self) -> AppView {
        AppView {
            dialogs: DialogsView {
                pending_track_delete_confirmation: None,
                pending_track_delete_confirmation_text: Seq::empty(),
                ..self.dialogs
            },
            ..self
        }
    }

    /// Whether the user has typed what confirms a deletion.
    pub open spec fn deletion_is_confirmed(self) -> bool {
        self.dialogs.pending_track_delete_confirmation is Some && text::trimmed(
            self.dialogs.pending_track_delete_confirmation_text,
        ) == "DELETE"@
    }

    /// The files that are deleted, where they can be.
    pub open spec fn files_to_delete(self, list: Seq<Seq<char>>) -> Option<Seq<Seq<char>>> {
        let distinct = file_operations::distinct_paths(list);
        if self.files_are_idle() && distinct.len() > 0 {
            Some(distinct)
        } else {
            None
        }
    }

    /// The application once it has asked for files to be deleted; playback of one of them
    /// stops.
    pub open spec fn with_deletion_started(self, list: Seq<Seq<char>>) -> AppView {
        if !self.files_are_idle() {
            self.with_files_busy()
        } else {
            match self.files_to_delete(list) {
                Some(distinct) => {
                    let silent = if self.active_track_path is Some
                        && file_operations::lists_path(distinct, self.active_track_path->0) {
                        self.stopped()
                    } else {
                        self
                    };
                    (AppView {
                        jobs: Jobs { track_file_operation: true, ..silent.jobs },
                        ..silent
                    }).with_status(
                        "Deleting "@ + text::decimal(distinct.len()) + " track file(s)..."@,
                    ).with_error(None)
                },
                None => self,
            }
        }
    }

    /// The application with the dialog open that makes a playlist of files.
    pub open spec fn with_new_playlist_asked(self, list: Seq<Seq<char>>) -> AppView {
        let distinct = file_operations::distinct_paths(list);
        if distinct.len() == 0 {
            self
        } else {
            (AppView {
                dialogs: DialogsView {
                    pending_new_playlist_tracks: distinct,
                    pending_new_playlist_name: Seq::empty(),
                    show_new_playlist_modal: true,
                    ..self.dialogs
                },
                ..self
            }).with_error(None)
        }
    }

    /// The application without the dialog that makes a playlist of files.
    pub open spec fn without_new_playlist_asked(self) -> AppView {
        AppView {
            dialogs: DialogsView {
                show_new_playlist_modal: false,
                pending_new_playlist_name: Seq::empty(),
                pending_new_playlist_tracks: Seq::empty(),
                ..self.dialogs
            },
            ..self
        }
    }

    /// Whether a playlist can be made under the name that was typed.
    pub open spec fn new_playlist_is_named(self) -> bool {
        let name = text::trimmed(self.dialogs.pending_new_playlist_name);
        name.len() > 0 && !name_is_taken(self.state.playlists, name)
    }

    /// The application with a playlist of the chosen files, where its name is not taken.
    pub open spec fn with_new_playlist(self, sizes: Seq<Option<u64>>) -> AppView {
        let name = text::trimmed(self.dialogs.pending_new_playlist_name);
        let requested = self.dialogs.pending_new_playlist_tracks;
        if name.len() == 0 {
            self.with_error(Some("Enter a playlist name."@))
        } else if name_is_taken(self.state.playlists, name) {
            self.with_error(Some("A playlist with this name already exists."@))
        } else {
            let made = playlist::empty_playlist(name, 2, PlaylistKind::Manual).with_files(
                sized_files(requested, sizes),
                None,
                0,
            );
            self.with_playlists(self.state.playlists.push(made.0)).with_status(
                "Created "@ + name + " and added "@ + text::decimal(made.1.len()) + " of "@
                    + text::decimal(requested.len()) + " track(s)."@,
            ).with_error(None).saved()
        }
    }

    /// The application after files were deleted.
    pub open spec fn with_files_deleted(self, removed: Seq<Seq<char>>) -> AppView {
        let without = self.without_files_anywhere(removed).without_multi_selection()
            .with_first_eligible_selected();
        (AppView { active_track_index: without.playing_position_anywhere(), ..without })
            .with_repeat_restored()
    }

    /// The application after an operation on files has ended.
    pub open spec fn with_file_operation_ended(self, event: TrackFileOperationEvent) -> AppView {
        let ended = AppView { jobs: Jobs { track_file_operation: false, ..self.jobs }, ..self };
        match event {
            TrackFileOperationEvent::Done { result } => match result {
                TrackFileOperationResult::Copy {
                    destination,
                    requested,
                    copied,
                    skipped_missing,
                    errors,
                } => ended.with_status(
                    copied_status(
                        destination@,
                        requested as nat,
                        copied as nat,
                        skipped_missing as nat,
                    ),
                ).with_error(
                    file_operations::errors_text(
                        "Some tracks could not be copied"@,
                        text::texts(errors@),
                    ),
                ),
                TrackFileOperationResult::Delete {
                    requested,
                    deleted,
                    already_missing,
                    removed_paths,
                    errors,
                } => ended.with_files_deleted(text::texts(removed_paths@)).with_status(
                    deleted_status(requested as nat, deleted as nat, already_missing as nat),
                ).with_error(
                    file_operations::errors_text(
                        "Some tracks could not be deleted"@,
                        text::texts(errors@),
                    ),
                ).saved(),
            },
            TrackFileOperationEvent::Lost => ended.with_error(
                Some("Track file operation stopped before returning a result."@),
            ),
        }
    }
}

impl AudioOrbitApp {
    /// Whether no files are being copied, deleted or looked at.
    pub fn track_file_operations_idle(&self) -> (idle: bool)
        ensures
            idle == self@.files_are_idle(),
    {
        !self.jobs.track_file_operation && !self.jobs.folder_scan && !self.jobs.library_sync
    }

    /// Says that files are in use.
    fn say_files_busy(&mut self)
        ensures
            final(self)@ == old(self)@.with_files_busy(),
    {
        self.fail("Wait for current library or track file operation to finish.");
    }

    /// The files of the shown playlist, to be exported.
    pub fn export_current_playlist_to_folder(&mut self) -> (selection: Option<CopySelection>)
        ensures
            selection_view(selection) == old(self)@.export_selection(),
            final(self)@ == old(self)@.with_export_chosen(),
    {
        if !self.track_file_operations_idle() {
            self.say_files_busy();
            return None;
        }
        let ghost start = self@;
        let (paths, label) = match self.current_playlist() {
            Some(shown) => {
                assert(shown@.tracks.len() == shown.tracks@.len());
                let mut label = "playlist ".to_owned();
                label.append(shown.name.as_str());
                (library::track_paths(shown), label)
            },
            None => return None,
        };
        assert(text::texts(paths@).len() == paths@.len());
        if paths.len() == 0 {
            self.fail("Current playlist has no tracks to export.");
            return None;
        }
        Some(CopySelection { paths, label })
    }

    /// The files that an action on a track is about, to be copied.
    pub fn copy_track_selection_to_folder(&mut self, index: usize) -> (selection: Option<
        CopySelection,
    >)
        ensures
            selection_view(selection) == old(self)@.copy_selection(index),
            final(self)@ == old(self)@.with_copy_chosen(),
    {
        if !self.track_file_operations_idle() {
            self.say_files_busy();
            return None;
        }
        let paths = self.action_track_paths_for_context(index);
        assert(text::texts(paths@).len() == paths@.len());
        if paths.len() == 0 {
            return None;
        }
        Some(CopySelection { paths, label: "selected tracks".to_owned() })
    }

    /// Asks for files to be copied to a folder; returns them without those whose key an
    /// earlier one has.
    pub fn start_copy_track_files(&mut self, selection: CopySelection, destination: &str) -> (list:
        Vec<String>)
        ensures
            text::texts(list@) == file_operations::distinct_paths(
                text::texts(selection.paths@),
            ),
            final(self)@ == old(self)@.with_copy_started(
                file_operations::distinct_paths(text::texts(selection.paths@)).len(),
                selection.label@,
                destination@,
            ),
    {
        let list = file_operations::deduplicate_paths(selection.paths);
        assert(text::texts(list@).len() == list@.len());
        self.jobs.track_file_operation = true;
        let mut status = "Copying ".to_owned();
        status.append(text::decimal_text(list.len() as u64).as_str());
        status.append(" track(s) from ");
        status.append(selection.label.as_str());
        status.append(" to ");
        status.append(destination);
        status.append("...");
        self.set_status(status);
        self.set_error(None);
        list
    }

    /// Asks whether files are to be deleted.
    fn ask_for_deletion(&mut self, list: Vec<String>, title: &str, description: String)
        ensures
            final(self)@ == old(self)@.with_deletion_asked(
                text::texts(list@),
                title@,
                description@,
            ),
    {
        self.dialogs.pending_track_delete_confirmation = Some(
            PendingTrackDeleteConfirmation { paths: list, title: title.to_owned(), description },
        );
        self.dialogs.pending_track_delete_confirmation_text = String::new();
        assert(self@ =~= old(self)@.with_deletion_asked(
            text::texts(list@),
            title@,
            description@,
        ));
    }

    /// Asks whether the files of the shown playlist are to be deleted.
    pub fn request_delete_current_playlist_files(&mut self)
        ensures
            final(self)@ == old(self)@.with_playlist_deletion_asked(),
    {
        if !self.track_file_operations_idle() {
            self.say_files_busy();
            return;
        }
        let (paths, name) = match self.current_playlist() {
            Some(shown) => {
                assert(shown@.tracks.len() == shown.tracks@.len());
                (library::track_paths(shown), shown.name.clone())
            },
            None => return,
        };
        assert(text::texts(paths@).len() == paths@.len());
        if paths.len() == 0 {
            self.fail("Current playlist has no tracks to delete.");
            return;
        }
        let list = file_operations::deduplicate_paths(paths);
        assert(text::texts(list@).len() == list@.len());
        let mut description = "Permanently delete ".to_owned();
        description.append(text::decimal_text(list.len() as u64).as_str());
        description.append(" file(s) referenced by ");
        description.append(name.as_str());
        description.append(
            ". Deleted files are removed from every playlist. This cannot be undone.",
        );
        self.ask_for_deletion(list, "Delete all playlist files?", description);
    }

    /// Asks whether the files that an action on a track is about are to be deleted.
    pub fn request_delete_track_selection(&mut self, index: usize)
        ensures
            final(self)@ == old(self)@.with_selection_deletion_asked(index),
    {
        if !self.track_file_operations_idle() {
            self.say_files_busy();
            return;
        }
        let paths = self.action_track_paths_for_context(index);
        assert(text::texts(paths@).len() == paths@.len());
        if paths.len() == 0 {
            return;
        }
        let list = file_operations::deduplicate_paths(paths);
        assert(text::texts(list@).len() == list@.len());
        let mut description = "Permanently delete ".to_owned();
        description.append(text::decimal_text(list.len() as u64).as_str());
        description.append(
            " selected file(s). Deleted files are removed from every playlist. This cannot be undone.",
        );
        self.ask_for_deletion(list, "Delete selected files?", description);
    }

    /// Takes back the question whether files are to be deleted.
    pub fn cancel_track_deletion(&mut self)
        ensures
            final(self)@ == old(self)@.without_deletion_asked(),
    {
        self.dialogs.pending_track_delete_confirmation = None;
        self.dialogs.pending_track_delete_confirmation_text = String::new();
        assert(self@ =~= old(self)@.without_deletion_asked());
    }

    /// Whether the user has typed what confirms a deletion.
    pub fn track_deletion_is_confirmed(&self) -> (confirmed: bool)
        ensures
            confirmed == self@.deletion_is_confirmed(),
    {
        let typed = text::trim(self.dialogs.pending_track_delete_confirmation_text.as_str());
        self.dialogs.pending_track_delete_confirmation.is_some() && text::same_text(
            typed.as_str(),
            "DELETE",
        )
    }

    /// Asks for the files to be deleted that the user was asked about, where the user has
    /// confirmed; returns them.
    pub fn confirm_track_deletion(&mut self) -> (list: Option<Vec<String>>)
        ensures
            ({
                let start = old(self)@;
                let asked = start.dialogs.pending_track_delete_confirmation;
                &&& final(self)@ == if start.deletion_is_confirmed() {
                    start.without_deletion_asked().with_deletion_started(asked->0.paths)
                } else {
                    start
                }
                &&& list_view(list) == if start.deletion_is_confirmed() {
                    start.files_to_delete(asked->0.paths)
                } else {
                    None
                }
            }),
    {
        if !self.track_deletion_is_confirmed() {
            return None;
        }
        let ghost start = self@;
        let mut asked: Option<PendingTrackDeleteConfirmation> = None;
        std::mem::swap(&mut asked, &mut self.dialogs.pending_track_delete_confirmation);
        self.dialogs.pending_track_delete_confirmation_text = String::new();
        assert(self@ =~= start.without_deletion_asked());
        match asked {
            Some(asked) => self.start_delete_track_files(asked.paths),
            None => None,
        }
    }

    /// Asks for files to be deleted; returns them without those whose key an earlier one has.
    pub fn start_delete_track_files(&mut self, paths: Vec<String>) -> (list: Option<Vec<String>>)
        ensures
            list_view(list) == old(self)@.files_to_delete(text::texts(paths@)),
            final(self)@ == old(self)@.with_deletion_started(text::texts(paths@)),
    {
        if !self.track_file_operations_idle() {
            self.say_files_busy();
            return None;
        }
        let list = file_operations::deduplicate_paths(paths);
        assert(text::texts(list@).len() == list@.len());
        if list.len() == 0 {
            return None;
        }
        let playing = match &self.active_track_path {
            Some(path) => file_operations::list_has_path(&list, path.as_str()),
            None => false,
        };
        if playing {
            self.stop();
        }
        self.jobs.track_file_operation = true;
        let mut status = "Deleting ".to_owned();
        status.append(text::decimal_text(list.len() as u64).as_str());
        status.append(" track file(s)...");
        self.set_status(status);
        self.set_error(None);
        Some(list)
    }

    /// Opens the dialog that makes a playlist of files.
    pub fn open_new_playlist_modal(&mut self, paths: Vec<String>)
        ensures
            final(self)@ == old(self)@.with_new_playlist_asked(text::texts(paths@)),
    {
        let list = file_operations::deduplicate_paths(paths);
        assert(text::texts(list@).len() == list@.len());
        if list.len() == 0 {
            return;
        }
        self.dialogs.pending_new_playlist_tracks = list;
        self.dialogs.pending_new_playlist_name = String::new();
        self.dialogs.show_new_playlist_modal = true;
        self.set_error(None);
    }

    /// Closes the dialog that makes a playlist of files.
    pub fn close_new_playlist_modal(&mut self)
        ensures
            final(self)@ == old(self)@.without_new_playlist_asked(),
    {
        self.dialogs.show_new_playlist_modal = false;
        self.dialogs.pending_new_playlist_name = String::new();
        self.dialogs.pending_new_playlist_tracks = Vec::new();
        assert(text::texts(self.dialogs.pending_new_playlist_tracks@) =~= Seq::empty());
        assert(self@ =~= old(self)@.without_new_playlist_asked());
    }

    /// Makes a playlist of the chosen files, where its name is not taken; returns whether it
    /// was made. `sizes` holds the sizes of the files, in their order.
    pub fn create_pending_new_playlist(&mut self, sizes: &Vec<Option<u64>>) -> (made: bool)
        ensures
            made == old(self)@.new_playlist_is_named(),
            final(self)@ == old(self)@.with_new_playlist(sizes@),
    {
        let ghost start = self@;
        let name = text::trim(self.dialogs.pending_new_playlist_name.as_str());
        if name.as_str().is_empty() {
            self.fail("Enter a playlist name.");
            return false;
        }
        if is_name_taken(&self.state.playlists, name.as_str()) {
            self.fail("A playlist with this name already exists.");
            return false;
        }
        let requested: usize = self.dialogs.pending_new_playlist_tracks.len();
        let files = with_sizes(&self.dialogs.pending_new_playlist_tracks, sizes);
        let mut list = Playlist::new(name.as_str());
        let added = list.add_files_below(files, None, 0);
        let ghost before = self.state.playlists@;
        self.state.playlists.push(list);
        proof {
            assert(playlist::playlist_views(self.state.playlists@) =~= playlist::playlist_views(
                before,
            ).push(list@));
            assert(self@ =~= start.with_playlists(start.state.playlists.push(list@)));
            assert(text::texts(added@).len() == added@.len());
            assert(start.dialogs.pending_new_playlist_tracks.len() == requested);
        }
        let mut status = "Created ".to_owned();
        status.append(name.as_str());
        status.append(" and added ");
        status.append(text::decimal_text(added.len() as u64).as_str());
        status.append(" of ");
        status.append(text::decimal_text(requested as u64).as_str());
        status.append(" track(s).");
        self.set_status(status);
        self.set_error(None);
        self.save_state_silently();
        true
    }

    /// Takes the files out that were deleted.
    fn take_out_deleted(&mut self, removed: &Vec<String>)
        ensures
            final(self)@ == old(self)@.with_files_deleted(text::texts(removed@)),
    {
        self.drop_files_anywhere(removed);
        self.clear_multi_track_selection();
        self.select_first_eligible_track();
        let playing = self.find_playing_anywhere();
        self.active_track_index = playing;
        self.restore_repeat_selection_for_current_playlist();
    }

    /// Takes over how an operation on files has ended, where one is running.
    pub fn process_track_file_operation_events(&mut self, event: Option<TrackFileOperationEvent>)
        ensures
            final(self)@ == match event {
                Some(event) => if old(self)@.jobs.track_file_operation {
                    old(self)@.with_file_operation_ended(event)
                } else {
                    old(self)@
                },
                None => old(self)@,
            },
    {
        let event = match event {
            Some(event) => event,
            None => return,
        };
        if !self.jobs.track_file_operation {
            return;
        }
        self.jobs.track_file_operation = false;
        match event {
            TrackFileOperationEvent::Done { result } => match result {
                TrackFileOperationResult::Copy {
                    destination,
                    requested,
                    copied,
                    skipped_missing,
                    errors,
                } => {
                    self.set_status(
                        copied_status_text(
                            destination.as_str(),
                            requested,
                            copied,
                            skipped_missing,
                        ),
                    );
                    self.set_error(
                        file_operations::operation_error_message(
                            "Some tracks could not be copied",
                            &errors,
                        ),
                    );
                },
                TrackFileOperationResult::Delete {
                    requested,
                    deleted,
                    already_missing,
                    removed_paths,
                    errors,
                } => {
                    self.take_out_deleted(&removed_paths);
                    self.set_status(deleted_status_text(requested, deleted, already_missing));
                    self.set_error(
                        file_operations::operation_error_message(
                            "Some tracks could not be deleted",
                            &errors,
                        ),
                    );
                    self.save_state_silently();
                },
            },
            TrackFileOperationEvent::Lost => {
                self.fail("Track file operation stopped before returning a result.");
            },
        }
    }
}

/// The model of files that may be deleted.
pub open spec fn list_view(list: Option<Vec<String>>) -> Option<Seq<Seq<char>>> {
    match list {
        Some(list) => Some(text::texts(list@)),
        None => None,
    }
}

} // verus!
