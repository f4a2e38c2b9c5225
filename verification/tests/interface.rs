use audio_orbit::app::{AppPanelModal, AudioOrbitApp, MainContentTab, PlayerStatus};
use audio_orbit::listing::{
    build_entries, find_drawn_range, find_drop_place, find_heading_of, find_row_of_path,
    place_entries, ListEntry,
};
use audio_orbit::metrics::{background_work_text, BackgroundJob};
use audio_orbit::panels::{PlayButton, WaveformPointer};
use audio_orbit::playlist::Playlist;
use audio_orbit::settings::{DspSettings, OrbitMode, WindowGeometry};
use audio_orbit::startup::OutputAtStartup;
use audio_orbit::state::SavedState;
use audio_orbit::submenu::{
    choose_from_submenu, show_submenu, submenu_drawn, PlaylistSubmenuAction, PlaylistSubmenuKind,
    SubmenuRequest,
};
use audio_orbit::track::AudioFile;
use audio_orbit::track_list::HoveredRow;
use audio_orbit::track_menu::RemovalChoice;
use audio_orbit::updates::{UpdateCheck, UpdateCheckEvent, UpdateInstallEvent};
use audio_orbit::window::{MediaKeyCommand, PressedKeys, RepaintRate, UserCommand};

fn sound() -> DspSettings {
    DspSettings {
        mode: OrbitMode::SmoothStereoOrbit,
        orbit_enabled: true,
        output_level_percent: 80,
        stereo_width_percent: 70,
        orbit_speed_percent: 100,
        transition_smoothness_percent: 50,
        depth_cue_percent: 40,
        skip_silence_enabled: false,
        silence_trigger_millis: 500,
        silence_threshold_seconds: 1,
        silence_threshold_db: -45,
        silence_trim_end_regardless_of_duration: false,
    }
}

fn playing() -> PlayerStatus {
    PlayerStatus {
        available: true,
        playing: true,
        paused: false,
        finished: false,
        recording: false,
    }
}

fn silent() -> PlayerStatus {
    PlayerStatus { playing: false, ..playing() }
}

fn file(path: &str) -> AudioFile {
    AudioFile::new(path.to_owned(), Some(1))
}

fn grouped() -> AudioOrbitApp {
    let mut state = SavedState::with_sound_settings(sound());
    let mut list = Playlist::from_folder("Folder", "/m".to_owned(), 1, Vec::new());
    for path in ["/m/x/1.mp3", "/m/x/2.mp3", "/m/y/1.mp3"] {
        list.add_track_path(file(path), Some("/m"), 1);
    }
    state.playlists.push(list);
    state.selected_playlist_index = state.playlists.len() - 1;
    AudioOrbitApp::new(state, OutputAtStartup::Ready { name: "Speakers".to_owned() }, 0)
}

fn check(available: bool, prerelease: bool) -> UpdateCheck {
    UpdateCheck {
        current_version: "1.0".to_owned(),
        latest_version: "1.1".to_owned(),
        prerelease,
        is_update_available: available,
        asset_name: Some("orbit.exe".to_owned()),
        asset_download_url: Some("https://example/orbit.exe".to_owned()),
    }
}

#[test]
fn panels_close_to_where_they_were_opened() {
    let mut app = grouped();
    app.open_panel_modal(AppPanelModal::Settings);
    app.open_panel_modal(AppPanelModal::Updates);
    assert_eq!(app.dialogs.active_panel_modal, Some(AppPanelModal::Updates));
    app.process_escape_navigation(true);
    assert_eq!(app.dialogs.active_panel_modal, Some(AppPanelModal::Settings));
    app.close_panel_modal();
    assert_eq!(app.dialogs.active_panel_modal, None);
}

#[test]
fn the_list_has_headings_and_hides_groups() {
    let mut app = grouped();
    let list = app.track_list();
    assert_eq!(list.entries.len(), 5);
    assert!(matches!(&list.entries[0], ListEntry::GroupHeader { heading } if heading == "x"));
    assert_eq!(list.places[0].top, 0);
    let tracks = &app.current_playlist().unwrap().tracks;
    assert_eq!(find_row_of_path(&list.entries, tracks, "/M/y/1.mp3"), Some(4));
    assert_eq!(find_heading_of(&list.entries, "y"), Some(3));
    assert_eq!(find_drawn_range(&list.places, 0, 1_000_000), (0, 5));
    app.toggle_folder_group_collapsed_and_focus("x");
    assert_eq!(app.track_list().entries.len(), 3);
    app.toggle_folder_group_collapsed_and_focus("x");
    assert_eq!(app.track_list().entries.len(), 5);
    let list = app.track_list();
    let targets = app.take_scroll_requests(&list);
    assert_eq!(targets.heading, Some(0));
}

#[test]
fn rows_stand_below_each_other() {
    let app = grouped();
    let tracks = &app.current_playlist().unwrap().tracks;
    let entries = build_entries(tracks, &vec![0, 1, 2], false, &Vec::new());
    assert_eq!(entries.len(), 3);
    let places = place_entries(&entries);
    assert_eq!(places[0].bottom, places[1].top);
    assert_eq!(places[1].bottom - places[1].top, 33);
    assert_eq!(places[2].bottom - places[2].top, 32);
    assert_eq!(find_drop_place(1, Some(2), true, 3), 2);
    assert_eq!(find_drop_place(1, Some(2), false, 3), 1);
    assert_eq!(find_drop_place(2, None, true, 3), 3);
}

#[test]
fn a_search_narrows_the_list() {
    let mut app = grouped();
    app.toggle_search();
    assert!(app.browsing.show_track_search);
    app.browsing.track_search_query = " 2 ".to_owned();
    assert_eq!(app.visible_track_indexes(), vec![1]);
    assert_eq!(app.playlist_count_label().as_deref(), Some("1/3 tracks"));
    app.select_next_search_result();
    assert_eq!(app.selected_track_index, Some(1));
    app.close_track_search();
    assert_eq!(app.playlist_count_label().as_deref(), Some("3 tracks"));
}

#[test]
fn groups_are_repeated_as_a_whole() {
    let mut app = grouped();
    assert!(!app.folder_group_is_repeated("x"));
    app.set_folder_group_repeated("x", true);
    assert!(app.folder_group_is_repeated("x"));
    assert_eq!(app.selected_track_indexes, vec![0, 1]);
    assert!(app.track_row_state(0).unwrap().repeated);
    app.set_folder_group_repeated("x", false);
    assert!(app.selected_track_indexes.is_empty());
    assert_eq!(app.track_row_state(9), None);
}

#[test]
fn tracks_are_dragged_to_another_place() {
    let mut app = grouped();
    app.begin_track_drag(0);
    let row = HoveredRow { index: 2, next_track: None, lower_half: true };
    app.update_track_drag(Some(row), false, true);
    assert_eq!(app.browsing.track_drop_target_index, Some(3));
    app.update_track_drag(Some(row), true, false);
    assert_eq!(app.current_playlist().unwrap().tracks[2].path, "/m/x/1.mp3");
    assert_eq!(app.browsing.dragging_track_index, None);
}

#[test]
fn the_menu_offers_what_can_be_done() {
    let mut app = grouped();
    let menu = app.track_row_menu(0, 1);
    assert!(!menu.can_move_up && menu.can_move_down && !menu.can_mix);
    assert_eq!(
        menu.removal,
        RemovalChoice::RemoveOrDelete { can_remove: false, idle: true }
    );
    assert!(app.shown_playlist_menu(2).can_mix);
    app.jobs.dj_mix = true;
    assert!(!app.shown_playlist_menu(2).can_mix);
    assert!(app.matching_playlist_tracks("/m/x/1.mp3").is_empty());
    assert!(!app.playlists_for_tracks().contains(&app.state.selected_playlist_index));
}

#[test]
fn the_library_panel_shows_the_playlists() {
    let mut app = grouped();
    let rows = app.library_rows();
    let last = rows.last().unwrap();
    assert!(last.selected && last.has_actions && !last.edited);
    assert!(last.label.ends_with(" Folder"));
    assert_eq!(last.count_text, "3 track(s)");
    assert_eq!(rows.iter().filter(|row| row.selected).count(), 1);
    let details = app.current_playlist_details().unwrap();
    assert_eq!(details.folder_text.as_deref(), Some("Folder: /m"));
    assert_eq!(details.depth_text.as_deref(), Some("Grouping depth: 1 folder level(s)"));
    assert_eq!(details.groups, vec!["x", "y"]);
    assert_eq!(details.group_label, "Folder filter");
    app.choose_folder_group(Some("y".to_owned()));
    assert_eq!(app.visible_track_indexes(), vec![2]);
    assert_eq!(app.current_playlist_details().unwrap().group_label, "y");
}

#[test]
fn the_menu_of_playlists_follows_the_pointer() {
    let request = |hovered, in_menu, entries: Vec<PlaylistSubmenuAction>| SubmenuRequest {
        owner_path: "/m/a.mp3".to_owned(),
        action_paths: vec!["/m/a.mp3".to_owned()],
        kind: PlaylistSubmenuKind::Add,
        entries,
        hovered,
        in_menu,
    };
    let entries = || vec![
        PlaylistSubmenuAction::New,
        PlaylistSubmenuAction::Add { playlist_index: 1 },
    ];
    let (open, drawn) = show_submenu(None, request(false, false, entries()), 0);
    assert!(open.is_none() && !drawn);
    let (open, drawn) = show_submenu(None, request(true, false, entries()), 100);
    assert!(drawn);
    let (open, drawn) = show_submenu(open, request(false, false, entries()), 450);
    assert!(drawn && open.is_some());
    let (open, _) = show_submenu(open, request(false, true, entries()), 900);
    let (open, choice) = choose_from_submenu(open, None, 900);
    assert!(choice.is_none());
    let (gone, choice) = choose_from_submenu(open, Some(1), 950);
    assert!(gone.is_none());
    let (paths, action) = choice.unwrap();
    assert_eq!(paths, vec!["/m/a.mp3"]);
    assert!(matches!(action, PlaylistSubmenuAction::Add { playlist_index: 1 }));
    let (open, _) = show_submenu(None, request(true, false, entries()), 0);
    let (open, drawn) = show_submenu(open, request(false, false, entries()), 351);
    assert!(open.is_none() && !drawn);
    let (open, _) = show_submenu(None, request(true, false, entries()), 0);
    let open = submenu_drawn(open, true, 300);
    let (open, drawn) = show_submenu(open, request(false, false, entries()), 351);
    assert!(drawn);
    let open = submenu_drawn(open, false, 400);
    assert_eq!(open.as_ref().unwrap().last_hovered_at, 300);
    assert!(submenu_drawn(None, true, 400).is_none());
    let (open, _) = show_submenu(None, request(true, false, entries()), 0);
    assert!(choose_from_submenu(open, Some(0), 501).1.is_none());
}

#[test]
fn a_choice_from_the_menu_is_carried_out() {
    let mut app = grouped();
    app.process_playlist_submenu_choice(
        PlaylistSubmenuAction::New,
        vec![file("/m/x/1.mp3")],
    );
    assert!(app.dialogs.show_new_playlist_modal);
    assert_eq!(app.dialogs.pending_new_playlist_tracks, vec!["/m/x/1.mp3"]);
    let favorites = app.favorites_index().unwrap();
    app.process_playlist_submenu_choice(
        PlaylistSubmenuAction::Add { playlist_index: favorites },
        vec![file("/m/x/1.mp3")],
    );
    assert!(app.is_favorite("/m/x/1.mp3"));
    app.process_playlist_submenu_choice(
        PlaylistSubmenuAction::Search {
            found_in: favorites,
            track_path: "/m/x/1.mp3".to_owned(),
        },
        Vec::new(),
    );
    assert_eq!(app.state.selected_playlist_index, favorites);
}

#[test]
fn windows_are_remembered_for_each_mode() {
    let mut app = grouped();
    let geometry = WindowGeometry {
        x_bits: 0,
        y_bits: 0,
        width_bits: 1200.0_f32.to_bits(),
        height_bits: 800.0_f32.to_bits(),
    };
    assert!(geometry.is_valid());
    app.remember_window_geometry(Some(geometry), 0);
    let least = (600.0_f32.to_bits(), 400.0_f32.to_bits());
    let default_size = (1000.0_f32.to_bits(), 700.0_f32.to_bits());
    assert_eq!(
        app.saved_window_size_for_mode(false, least, default_size),
        (1200.0_f32.to_bits(), 800.0_f32.to_bits())
    );
    assert_eq!(app.saved_window_size_for_mode(true, least, default_size), default_size);
    app.toggle_player_only_mode(Some(geometry), 10);
    assert!(app.browsing.player_only_mode);
    app.remember_window_geometry(Some(geometry), 11);
    assert_eq!(app.state.ui.player_only_window_geometry, None);
}

#[test]
fn keys_give_commands() {
    let app = grouped();
    let none = PressedKeys {
        ctrl: false,
        command: false,
        z: false,
        space: false,
        enter: false,
        s: false,
        right: false,
        left: false,
        f: false,
        m: false,
        l: false,
        p: false,
    };
    let space = PressedKeys { space: true, ..none };
    assert_eq!(
        app.process_keyboard_shortcuts(space, false, playing()),
        vec![UserCommand::PauseOrResume]
    );
    assert_eq!(
        app.process_keyboard_shortcuts(space, false, silent()),
        vec![UserCommand::PlaySelected]
    );
    assert!(app.process_keyboard_shortcuts(space, true, silent()).is_empty());
    let undo = PressedKeys { z: true, ctrl: true, ..none };
    assert_eq!(app.process_keyboard_shortcuts(undo, true, silent()), vec![UserCommand::UndoOrder]);
    let next = PressedKeys { right: true, ctrl: true, ..none };
    assert_eq!(app.process_keyboard_shortcuts(next, false, silent()), vec![UserCommand::PlayNext]);
    assert_eq!(
        app.handle_media_key_command(MediaKeyCommand::Stop, silent()),
        Some(UserCommand::Stop)
    );
    assert_eq!(app.next_repaint_rate(true, false, silent(), 0), RepaintRate::ActiveInput);
    assert_eq!(app.next_repaint_rate(false, false, playing(), 0), RepaintRate::Playback);
}

#[test]
fn newer_releases_are_looked_for_and_reported() {
    let mut app = grouped();
    assert_eq!(app.maybe_start_auto_update_check(true, 10_000, 0), None);
    assert_eq!(app.maybe_start_auto_update_check(false, 10_000, 0), Some(false));
    assert_eq!(app.update_check_text(2_500).as_deref(), Some("Checking for updates... 2s"));
    assert_eq!(app.start_update_check(true, 5), None);
    assert_eq!(app.messages.status, "Update check is already running.");
    app.process_update_events(
        Some(UpdateCheckEvent::Found { check: check(true, false) }),
        None,
    );
    assert_eq!(app.update_check_text(9_000), None);
    let report = app.newest_release_report().unwrap();
    assert_eq!(report.result_text, "A newer Audio Orbit stable release is available.");
    assert_eq!(report.latest_text, "Latest stable version: v1.1");
    assert!(report.can_install);
    assert_eq!(app.maybe_start_auto_update_check(false, 10_500, 0), None);
    assert!(app.start_update_install(&check(true, false), silent(), 0, 100));
    assert!(!app.newest_release_report().unwrap().can_install);
    app.process_update_events(None, Some(UpdateInstallEvent::Lost));
    assert_eq!(app.messages.status, "Update install failed.");
    assert_eq!(app.update_install_text(1_000), None);
    assert!(!app.start_update_install(&check(false, true), silent(), 0, 100));
    assert_eq!(app.messages.status, "No newer update is available.");
}

#[test]
fn profiles_are_added_selected_and_applied_once() {
    let mut app = grouped();
    let before = app.state.profiles.len();
    app.add_profile(sound());
    assert_eq!(app.state.selected_profile_index, before);
    assert_eq!(app.state.profiles[before].name, format!("Profile {}", before + 1));
    app.select_profile(0, 100);
    assert!(app.jobs.profile_apply_at.is_some());
    assert!(app.profile_apply_status_text(100).unwrap().starts_with("Apply in "));
    app.process_pending_profile_apply(100_000, playing(), 0);
    assert!(app.jobs.profile_apply_at.is_none());
    assert_eq!(
        app.profile_apply_status_text(100_000).as_deref(),
        Some("Sound profile applied.")
    );
    app.state.profiles.truncate(1);
    app.state.selected_profile_index = 4;
    app.remove_current_profile(0);
    assert_eq!(app.messages.error.as_deref(), Some("At least one sound profile is required."));
}

#[test]
fn an_empty_list_keeps_asking_for_the_playing_track() {
    let mut app = grouped();
    app.browsing.show_track_search = true;
    app.browsing.track_search_query = "nothing like it".to_owned();
    app.browsing.scroll_to_active_track_requested = true;
    app.browsing.scroll_to_track_path_requested = Some("/m/x/1.mp3".to_owned());
    let list = app.track_list();
    assert!(list.entries.is_empty());
    let targets = app.take_scroll_requests(&list);
    assert!(targets.requested_row.is_none() && targets.playing_row.is_none());
    assert!(app.browsing.scroll_to_active_track_requested);
    assert!(app.browsing.scroll_to_track_path_requested.is_none());
}

#[test]
fn the_waveform_is_dragged_and_released() {
    let mut app = grouped();
    assert_eq!(app.play_button_state(playing()), PlayButton::Play);
    app.active_track_path = Some("/m/x/1.mp3".to_owned());
    assert_eq!(app.play_button_state(playing()), PlayButton::Pause);
    let at = |dragged, drag_stopped, position| WaveformPointer {
        dragged,
        drag_stopped,
        clicked: false,
        hovered: true,
        pressed: false,
        position_bits: Some(position),
    };
    assert_eq!(app.update_waveform_drag(at(true, false, 7)), None);
    assert_eq!(app.seeking.drag_position_bits, Some(7));
    assert_eq!(app.update_waveform_drag(at(false, true, 9)), Some(7));
    assert_eq!(app.seeking.drag_position_bits, None);
}

#[test]
fn work_in_the_background_is_named() {
    let mut app = grouped();
    assert_eq!(background_work_text(&app.active_dev_background_jobs()), "none");
    app.jobs.folder_scan = true;
    app.jobs.update_check = true;
    assert_eq!(
        app.active_dev_background_jobs(),
        vec![BackgroundJob::FolderScan, BackgroundJob::UpdateCheck]
    );
    assert_eq!(
        background_work_text(&app.active_dev_background_jobs()),
        "folder scan, update check"
    );
    assert_eq!(app.dev_metrics_counters().tracks, 3);
    app.show_content_tab(MainContentTab::Radio);
    assert_eq!(app.browsing.active_tab, MainContentTab::Radio);
}
