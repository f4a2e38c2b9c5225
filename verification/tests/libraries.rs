use audio_orbit::app::AudioOrbitApp;
use audio_orbit::external_files::{keep_playable, OpenedPath};
use audio_orbit::app::PlayerStatus;
use audio_orbit::folder_sync::FileAvailability;
use audio_orbit::library::{
    track_paths, FolderScanEvent, LibrarySyncEvent, LibrarySyncTrigger, PendingFolderScanKind,
};
use audio_orbit::library_sync::{count_missing_anywhere, sync_library, FolderListing};
use audio_orbit::lookup::FolderLibrarySyncTarget;
use audio_orbit::open_requests::{
    open_request_files, open_requests_are_due, paths_of_requests, requested_paths,
};
use audio_orbit::playlist::{Playlist, PlaylistKind};
use audio_orbit::scanning::{EntryKind, FolderEntry, FolderScan};
use audio_orbit::settings::{
    app_data_dir, default_recording_output_folder, state_path, DspSettings, OrbitMode,
    RecordingSettings,
};
use audio_orbit::startup::OutputAtStartup;
use audio_orbit::state::{
    app_version_label, default_backup_file_name, ensure_state_is_valid, persisted_state,
    SavedState,
};
use audio_orbit::track::AudioFile;
use audio_orbit::track_files::{
    after_create_attempt, copy_result, delete_result, destination_failure, no_file_name_message,
    CopyOutcome, CopyStep, CreateOutcome, DeleteOutcome, TrackFileOperationEvent,
    TrackFileOperationResult,
};

fn sound() -> DspSettings {
    DspSettings {
        mode: OrbitMode::SmoothStereoOrbit,
        orbit_enabled: true,
        output_level_percent: 80,
        stereo_width_percent: 70,
        orbit_speed_percent: 100,
        transition_smoothness_percent: 50,
        depth_cue_percent: 40,
        skip_silence_enabled: false,
        silence_trigger_millis: 500,
        silence_threshold_seconds: 1,
        silence_threshold_db: -45,
        silence_trim_end_regardless_of_duration: false,
    }
}

fn silent() -> PlayerStatus {
    PlayerStatus {
        available: true,
        playing: false,
        paused: false,
        finished: false,
        recording: false,
    }
}

fn file(path: &str) -> AudioFile {
    AudioFile::new(path.to_owned(), Some(1))
}

fn app_with(files: &[&str]) -> AudioOrbitApp {
    let mut state = SavedState::with_sound_settings(sound());
    let mut list = Playlist::new("Tracks");
    for path in files {
        list.add_track_path(file(path), None, 0);
    }
    state.playlists.push(list);
    state.selected_playlist_index = state.playlists.len() - 1;
    AudioOrbitApp::new(state, OutputAtStartup::Ready { name: "Speakers".to_owned() }, 0)
}

#[test]
fn a_folder_is_imported_as_a_playlist_of_its_own() {
    let mut app = app_with(&[]);
    assert!(app.import_folder_playlist().is_none());
    assert_eq!(app.messages.error.as_deref(), Some("Choose a music folder first."));
    app.open_folder_import_modal();
    app.pick_music_folder("/music/Jazz".to_owned());
    assert_eq!(app.dialogs.pending_playlist_name, "Jazz");
    let kind = app.import_folder_playlist().unwrap();
    assert!(app.jobs.folder_scan);
    assert!(app.import_folder_playlist().is_none());
    app.process_folder_scan_events(Some(FolderScanEvent::Found {
        kind,
        files: vec![file("/music/Jazz/b.mp3"), file("/music/Jazz/a.mp3")],
    }));
    let shown = app.current_playlist().unwrap();
    assert_eq!(shown.kind, PlaylistKind::Folder);
    assert_eq!(shown.name, "Jazz");
    assert_eq!(track_paths(shown), vec!["/music/Jazz/a.mp3", "/music/Jazz/b.mp3"]);
    assert!(!app.jobs.folder_scan);
    assert_eq!(app.messages.status, "Imported 2 track(s) from /music/Jazz as Jazz.");
}

#[test]
fn an_empty_folder_and_a_failed_scan_are_reported() {
    let mut app = app_with(&[]);
    app.jobs.folder_scan = true;
    app.process_folder_scan_events(Some(FolderScanEvent::Found {
        kind: PendingFolderScanKind::Import {
            name: "Empty".to_owned(),
            folder: "/e".to_owned(),
            depth: 1,
        },
        files: Vec::new(),
    }));
    assert_eq!(
        app.messages.error.as_deref(),
        Some("No supported audio files were found under /e.")
    );
    app.jobs.folder_scan = true;
    app.process_folder_scan_events(Some(FolderScanEvent::Failed { error: "denied".to_owned() }));
    assert_eq!(app.messages.error.as_deref(), Some("denied"));
    assert_eq!(app.messages.status, "Folder scan failed.");
    app.jobs.folder_scan = true;
    app.process_folder_scan_events(Some(FolderScanEvent::Lost));
    assert_eq!(
        app.messages.error.as_deref(),
        Some("Folder scan stopped before returning a result.")
    );
    app.process_folder_scan_events(Some(FolderScanEvent::Failed { error: "late".to_owned() }));
    assert_ne!(app.messages.error.as_deref(), Some("late"));
}

#[test]
fn a_playlist_without_a_folder_is_not_scanned_again() {
    let mut app = app_with(&[]);
    assert!(app.rescan_current_folder().is_none());
    assert_eq!(
        app.messages.error.as_deref(),
        Some("This playlist was not created from a folder.")
    );
}

#[test]
fn the_library_takes_over_what_was_found() {
    let mut playlists = vec![
        Playlist::from_folder("Jazz", "/j".to_owned(), 1, vec![file("/j/a.mp3")]),
        Playlist::new("Mine"),
    ];
    playlists[1].add_track_path(file("/x/b.mp3"), None, 0);
    let targets = vec![FolderLibrarySyncTarget {
        playlist_index: 0,
        playlist_name: "Jazz".to_owned(),
        source_folder: "/j".to_owned(),
    }];
    let listings = vec![FolderListing {
        folder: "/j".to_owned(),
        files: Ok(vec![file("/j/c.mp3")]),
    }];
    let checks = vec![FileAvailability::of("/x/b.mp3", false)];
    let (stats, errors) = sync_library(&mut playlists, &targets, &listings, &checks);
    assert!(errors.is_empty());
    assert_eq!((stats.added, stats.restored, stats.newly_missing, stats.missing_total), (1, 0, 2, 2));
    assert!(stats.changed());
    assert_eq!(count_missing_anywhere(&playlists), 2);
    let listings = vec![FolderListing { folder: "/j".to_owned(), files: Err("gone".to_owned()) }];
    let (stats, errors) = sync_library(&mut playlists, &targets, &listings, &Vec::new());
    assert_eq!(errors, vec!["Jazz: gone"]);
    assert!(!stats.changed());
}

#[test]
fn a_check_of_the_library_is_asked_for_once() {
    let mut app = app_with(&["/m/a.mp3"]);
    let request = app.start_library_sync(LibrarySyncTrigger::Manual, true, 10, 1_000).unwrap();
    assert_eq!(request.files, vec!["/m/a.mp3"]);
    assert!(request.targets.is_empty());
    assert!(app.start_library_sync(LibrarySyncTrigger::Manual, true, 20, 1_000).is_none());
    app.process_library_sync_events(
        Some(LibrarySyncEvent::Found {
            trigger: LibrarySyncTrigger::Manual,
            targets: Vec::new(),
            listings: Vec::new(),
            availability: vec![FileAvailability::of("/m/a.mp3", false)],
        }),
        30,
        1_000,
    );
    assert!(!app.jobs.library_sync);
    assert!(app.current_playlist().unwrap().tracks[0].missing);
}

#[test]
fn files_are_added_to_playlists_that_take_them() {
    let mut app = app_with(&["/m/a.mp3"]);
    app.add_audio_files(vec![file("/m/b.mp3"), file("/m/A.mp3")]);
    assert_eq!(app.messages.status, "Added 1 track(s) to Tracks.");
    app.add_audio_files(vec![file("/m/b.mp3")]);
    assert_eq!(app.messages.status, "Selected tracks are already in Tracks.");
    assert_eq!(track_paths(app.current_playlist().unwrap()), vec!["/m/b.mp3", "/m/a.mp3"]);
    app.remove_track_from_current_playlist(1);
    assert_eq!(track_paths(app.current_playlist().unwrap()), vec!["/m/b.mp3"]);
    app.remove_missing_track_from_current_playlist(0);
    assert_eq!(app.messages.error.as_deref(), Some("Track is no longer marked as missing."));
    let shown = app.state.selected_playlist_index;
    app.state.playlists[shown].tracks[0].missing = true;
    app.remove_missing_track_from_current_playlist(0);
    assert_eq!(app.messages.status, "Removed missing entry b.mp3.");
    assert!(app.current_playlist().unwrap().tracks.is_empty());
}

#[test]
fn backups_are_named_and_reported() {
    assert_eq!(
        default_backup_file_name(86_400, "v1:2"),
        "audio-orbit-backup-v1-2-1970-01-02-00-00-00.zip"
    );
    assert_eq!(app_version_label(true, "1.0"), "dev");
    assert_eq!(app_version_label(false, "1.0"), "v1.0");
    let mut app = app_with(&[]);
    app.export_app_backup("/b.zip", Some("full".to_owned()));
    assert_eq!(app.messages.error.as_deref(), Some("full"));
    assert!(app.import_app_backup("/b.zip", Err("broken".to_owned()), 0, 1).is_none());
    assert_eq!(app.messages.error.as_deref(), Some("broken"));
}

#[test]
fn data_lies_beside_the_program() {
    assert_eq!(app_data_dir(None), None);
    assert_eq!(state_path(None), None);
    let state = state_path(Some("/opt/orbit/audio-orbit")).unwrap();
    assert!(state.starts_with("/opt/orbit/"));
    assert_ne!(state, "/opt/orbit/audio-orbit");
    let folder = default_recording_output_folder(Some("/opt/orbit/audio-orbit")).unwrap();
    assert!(folder.starts_with("/opt/orbit/"));
    let chosen = RecordingSettings { output_folder: Some("/records".to_owned()) };
    assert_eq!(chosen.resolved_output_folder(Some("/opt/orbit/audio-orbit")), "/records");
}

#[test]
fn persisting_twice_changes_nothing() {
    let mut state = SavedState::with_sound_settings(sound());
    state.playlists.push(Playlist::temporary());
    state.selected_playlist_index = state.playlists.len() - 1;
    let once = persisted_state(&state);
    let twice = persisted_state(&once);
    assert_eq!(once.playlists.len(), state.playlists.len() - 1);
    assert_eq!(twice.playlists.len(), once.playlists.len());
    assert_eq!(twice.selected_playlist_index, once.selected_playlist_index);
    assert!(once.playlists.iter().all(|list| list.kind != PlaylistKind::Temporary));
}

#[test]
fn opened_files_are_played_from_a_list_for_this_run() {
    let mut app = app_with(&[]);
    let opened = |path: &str, is_file| OpenedPath { file: file(path), is_file };
    app.open_audio_files_in_temporary_playlist(vec![opened("/x/a.txt", true)], true, silent());
    assert_eq!(app.messages.error.as_deref(), Some("No supported audio files were opened."));
    let files = keep_playable(vec![
        opened("/x/a.mp3", true),
        opened("/x/A.MP3", true),
        opened("/x/b.mp3", false),
    ]);
    assert_eq!(files.len(), 1);
    app.open_audio_files_in_temporary_playlist(vec![opened("/x/a.mp3", true)], true, silent());
    assert_eq!(app.current_playlist().unwrap().kind, PlaylistKind::Temporary);
    assert_eq!(app.messages.status, "Opened a.mp3 in temporary playback.");
    assert_eq!(app.selected_track_index, Some(0));
}

#[test]
fn requests_of_other_runs_are_answered_in_order() {
    let files = ["/q/b.json", "/q/a.JSON", "/q/a.json", "/q/c.txt", "/q/json"];
    let requests = open_request_files(files.iter().map(|path| (*path).to_owned()).collect());
    assert_eq!(requests, vec!["/q/a.json", "/q/b.json"]);
    assert!(!open_requests_are_due(100, 50, 60));
    assert!(open_requests_are_due(110, 50, 60));
}

#[test]
fn the_paths_of_all_requests_are_joined() {
    let contents = vec![
        Some(r#"["/m/a.mp3", "/m/b \u00e9.mp3"]"#.to_owned()),
        Some("no request".to_owned()),
        None,
        Some(r#"{"path": "/m/x.mp3"}"#.to_owned()),
        Some(r#"["/m/x.mp3", 7]"#.to_owned()),
        Some("[]".to_owned()),
        Some(r#" ["/m/a.mp3"] "#.to_owned()),
    ];
    assert_eq!(
        paths_of_requests(&contents),
        vec!["/m/a.mp3", "/m/b \u{e9}.mp3", "/m/a.mp3"]
    );
    let parsed = vec![None, Some(vec!["b".to_owned()]), Some(vec!["a".to_owned()])];
    assert_eq!(requested_paths(parsed), vec!["b", "a"]);
}

#[test]
fn requested_files_are_opened() {
    let mut app = app_with(&[]);
    assert!(!app.process_external_open_requests(Vec::new(), silent()));
    assert!(app.messages.error.is_none());
    let opened = OpenedPath { file: file("/x/a.mp3"), is_file: true };
    assert!(app.process_external_open_requests(vec![opened], silent()));
    assert_eq!(app.current_playlist().unwrap().kind, PlaylistKind::Temporary);
    assert_eq!(app.messages.status, "Opened a.mp3 in temporary playback.");
}

#[test]
fn an_imported_state_is_made_valid() {
    let mut app = app_with(&[]);
    let mut backup = SavedState::with_sound_settings(sound());
    let mut favorites = Playlist::favorites();
    favorites.add_track_path(file("/m/a.mp3"), None, 0);
    favorites.add_track_path(file("/m/b.mp3"), None, 0);
    for track in &mut favorites.tracks {
        track.favorite_added_sequence = None;
    }
    let mut manual = Playlist::new("Manual");
    manual.add_track_path(file("/m/c.mp3"), None, 0);
    manual.tracks[0].favorite_added_sequence = Some(9);
    backup.playlists = vec![favorites, manual];
    backup.selected_playlist_index = 7;
    backup.selected_profile_index = 7;
    backup.selected_radio_index = Some(3);
    assert!(app.import_app_backup("/b.zip", Ok(backup), 0, 1).is_some());
    assert_eq!(app.state.selected_playlist_index, 0);
    assert_eq!(app.state.selected_profile_index, 0);
    assert_eq!(app.state.selected_radio_index, None);
    let numbers: Vec<Option<u64>> = app.state.playlists[0]
        .tracks
        .iter()
        .map(|track| track.favorite_added_sequence)
        .collect();
    assert_eq!(numbers, vec![Some(2), Some(1)]);
    assert_eq!(app.state.playlists[1].tracks[0].favorite_added_sequence, None);
    assert_eq!(app.messages.status, "Imported app backup from /b.zip.");
}

#[test]
fn a_valid_state_stays_as_it_is() {
    let mut empty = SavedState::with_sound_settings(sound());
    empty.playlists.clear();
    ensure_state_is_valid(&mut empty);
    assert_eq!(empty.playlists.len(), 2);
    assert_eq!(empty.playlists[0].kind, PlaylistKind::Favorites);
    assert_eq!(empty.playlists[1].name, "Local music");
    empty.selected_playlist_index = 1;
    empty.selected_profile_index = 1;
    ensure_state_is_valid(&mut empty);
    assert_eq!(empty.playlists.len(), 2);
    assert_eq!(empty.selected_playlist_index, 1);
    assert_eq!(empty.selected_profile_index, 1);
}

#[test]
fn a_later_backup_has_a_greater_name() {
    let times = [0, 59, 3_599, 86_399, 86_400, 951_782_400, 951_868_800, 253_402_300_799];
    let names: Vec<String> =
        times.iter().map(|seconds| default_backup_file_name(*seconds, "v1.0")).collect();
    for pair in names.windows(2) {
        assert!(pair[0] < pair[1]);
    }
    assert_eq!(names[7], "audio-orbit-backup-v1.0-9999-12-31-23-59-59.zip");
}

#[test]
fn a_whole_scan_finds_every_file_once() {
    let entry = |path: &str, kind: EntryKind| FolderEntry {
        path: path.to_owned(),
        kind,
        size_bytes: Some(1),
    };
    let mut scan = FolderScan::new("/m".to_owned());
    let mut visited = Vec::new();
    while let Some(folder) = scan.next_folder() {
        let entries = match folder.as_str() {
            "/m" => vec![
                entry("/m/b", EntryKind::Folder),
                entry("/m/a.mp3", EntryKind::File),
                entry("/m/linked", EntryKind::Link),
                entry("/m/C", EntryKind::Folder),
            ],
            "/m/b" => vec![
                entry("/m/b/2.mp3", EntryKind::File),
                entry("/m/b/notes.txt", EntryKind::File),
                entry("/m/b/1.flac", EntryKind::File),
            ],
            "/m/C" => vec![entry("/m/C/x.ogg", EntryKind::File)],
            _ => Vec::new(),
        };
        visited.push(folder);
        scan.take_entries(entries);
    }
    assert_eq!(visited, vec!["/m", "/m/C", "/m/b"]);
    let found: Vec<String> = scan.finish().files.into_iter().map(|file| file.path).collect();
    assert_eq!(found, vec!["/m/a.mp3", "/m/b/1.flac", "/m/b/2.mp3", "/m/C/x.ogg"]);
}

#[test]
fn a_copy_never_overwrites_a_file() {
    assert!(matches!(
        after_create_attempt("/a.mp3", "/d/a.mp3", 1, CreateOutcome::Created),
        CopyStep::Write
    ));
    assert!(matches!(
        after_create_attempt("/a.mp3", "/d/a.mp3", 1, CreateOutcome::Exists),
        CopyStep::TryAgain { attempt: 2 }
    ));
    match after_create_attempt(
        "/a.mp3",
        "/d/a.mp3",
        1,
        CreateOutcome::Failed { error: "full".to_owned() },
    ) {
        CopyStep::GiveUp { message } => {
            assert_eq!(message, "Failed to create /d/a.mp3 while copying /a.mp3: full");
        }
        other => panic!("unexpected {other:?}"),
    }
    assert!(no_file_name_message("/").contains("/"));
}

#[test]
fn copies_and_deletions_are_counted() {
    match copy_result(
        "/d".to_owned(),
        vec![
            CopyOutcome::Copied,
            CopyOutcome::Missing,
            CopyOutcome::Failed { message: "no".to_owned() },
        ],
    ) {
        TrackFileOperationResult::Copy { requested, copied, skipped_missing, errors, .. } => {
            assert_eq!((requested, copied, skipped_missing), (3, 1, 1));
            assert_eq!(errors, vec!["no"]);
        }
        other => panic!("unexpected {other:?}"),
    }
    match delete_result(vec![
        ("/a.mp3".to_owned(), DeleteOutcome::Deleted),
        ("/b.mp3".to_owned(), DeleteOutcome::AlreadyMissing),
        ("/c.mp3".to_owned(), DeleteOutcome::Failed { error: "locked".to_owned() }),
    ]) {
        TrackFileOperationResult::Delete {
            requested, deleted, already_missing, removed_paths, errors,
        } => {
            assert_eq!((requested, deleted, already_missing), (3, 1, 1));
            assert_eq!(removed_paths, vec!["/a.mp3", "/b.mp3"]);
            assert_eq!(errors.len(), 1);
        }
        other => panic!("unexpected {other:?}"),
    }
    assert!(matches!(
        destination_failure("/d".to_owned(), 4, "denied"),
        TrackFileOperationResult::Copy { requested: 4, copied: 0, .. }
    ));
}

#[test]
fn deletion_is_confirmed_by_a_word() {
    let mut app = app_with(&["/m/a.mp3", "/m/b.mp3"]);
    app.request_delete_current_playlist_files();
    assert!(!app.track_deletion_is_confirmed());
    assert!(app.confirm_track_deletion().is_none());
    app.dialogs.pending_track_delete_confirmation_text = " DELETE ".to_owned();
    assert!(app.track_deletion_is_confirmed());
    let list = app.confirm_track_deletion().unwrap();
    assert_eq!(list, vec!["/m/a.mp3", "/m/b.mp3"]);
    assert!(app.jobs.track_file_operation);
    app.process_track_file_operation_events(Some(TrackFileOperationEvent::Done {
        result: delete_result(vec![
            ("/m/a.mp3".to_owned(), DeleteOutcome::Deleted),
            ("/m/b.mp3".to_owned(), DeleteOutcome::Failed { error: "locked".to_owned() }),
        ]),
    }));
    assert!(!app.jobs.track_file_operation);
    assert_eq!(track_paths(app.current_playlist().unwrap()), vec!["/m/b.mp3"]);
}

#[test]
fn tracks_are_exported_and_copied() {
    let mut app = app_with(&[]);
    assert!(app.export_current_playlist_to_folder().is_none());
    assert_eq!(
        app.messages.error.as_deref(),
        Some("Current playlist has no tracks to export.")
    );
    let mut app = app_with(&["/m/a.mp3"]);
    let selection = app.export_current_playlist_to_folder().unwrap();
    assert_eq!(selection.label, "playlist Tracks");
    let list = app.start_copy_track_files(selection, "/d");
    assert_eq!(list, vec!["/m/a.mp3"]);
    assert_eq!(app.messages.status, "Copying 1 track(s) from playlist Tracks to /d...");
    assert!(app.copy_track_selection_to_folder(0).is_none());
    assert_eq!(
        app.messages.error.as_deref(),
        Some("Wait for current library or track file operation to finish.")
    );
    app.process_track_file_operation_events(Some(TrackFileOperationEvent::Lost));
    assert!(app.track_file_operations_idle());
}

#[test]
fn a_new_playlist_needs_a_free_name() {
    let mut app = app_with(&["/m/a.mp3"]);
    app.open_new_playlist_modal(vec!["/m/a.mp3".to_owned(), "/M/a.mp3".to_owned()]);
    assert!(!app.create_pending_new_playlist(&vec![None]));
    assert_eq!(app.messages.error.as_deref(), Some("Enter a playlist name."));
    app.dialogs.pending_new_playlist_name = "tracks".to_owned();
    assert!(!app.create_pending_new_playlist(&vec![None]));
    assert_eq!(app.messages.error.as_deref(), Some("A playlist with this name already exists."));
    app.dialogs.pending_new_playlist_name = "Evening".to_owned();
    assert!(app.create_pending_new_playlist(&vec![Some(3)]));
    assert_eq!(app.messages.status, "Created Evening and added 1 of 1 track(s).");
}
