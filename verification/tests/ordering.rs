use audio_orbit::app::AudioOrbitApp;
use audio_orbit::moving::{keep_last_entries, move_entry, neighbor_of, swap_entries};
use audio_orbit::playlist::{Playlist, PlaylistKind};
use audio_orbit::settings::{DspSettings, OrbitMode, RadioStation};
use audio_orbit::startup::OutputAtStartup;
use audio_orbit::state::SavedState;
use audio_orbit::track::AudioFile;

fn sound() -> DspSettings {
    DspSettings {
        mode: OrbitMode::SmoothStereoOrbit,
        orbit_enabled: false,
        output_level_percent: 80,
        stereo_width_percent: 70,
        orbit_speed_percent: 100,
        transition_smoothness_percent: 50,
        depth_cue_percent: 40,
        skip_silence_enabled: false,
        silence_trigger_millis: 500,
        silence_threshold_seconds: 1,
        silence_threshold_db: -45,
        silence_trim_end_regardless_of_duration: false,
    }
}

fn app_with(list: Playlist) -> AudioOrbitApp {
    let mut state = SavedState::with_sound_settings(sound());
    state.playlists.push(list);
    state.selected_playlist_index = state.playlists.len() - 1;
    state.radio_stations = Vec::new();
    for name in ["North", "East", "South"] {
        state.radio_stations.push(RadioStation::new(name, &format!("http://{name}.example")));
    }
    AudioOrbitApp::new(state, OutputAtStartup::Ready { name: "Speakers".to_owned() }, 0)
}

fn manual(files: &[&str]) -> Playlist {
    let mut list = Playlist::new("Tracks");
    for file in files {
        list.add_track_path(AudioFile::new((*file).to_owned(), None), None, 0);
    }
    list
}

fn shown_paths(app: &AudioOrbitApp) -> Vec<String> {
    app.current_playlist().unwrap().tracks.iter().map(|track| track.path.clone()).collect()
}

fn station_names(app: &AudioOrbitApp) -> Vec<String> {
    app.state.radio_stations.iter().map(|station| station.name.clone()).collect()
}

#[test]
fn a_moved_track_is_moved_back_by_undoing() {
    let mut app = app_with(manual(&["/m/a.mp3", "/m/b.mp3", "/m/c.mp3"]));
    app.selected_track_index = Some(0);
    app.move_track_to_index_in_current_playlist(0, 3);
    assert_eq!(shown_paths(&app), vec!["/m/b.mp3", "/m/c.mp3", "/m/a.mp3"]);
    assert_eq!(app.selected_track_index, Some(2));
    assert_eq!(app.order_undo_stack.len(), 1);
    app.undo_last_order_change();
    assert_eq!(shown_paths(&app), vec!["/m/a.mp3", "/m/b.mp3", "/m/c.mp3"]);
    assert_eq!(app.messages.status, "Undid playlist order change.");
    app.undo_last_order_change();
    assert_eq!(app.messages.status, "Nothing to undo.");
}

#[test]
fn a_track_is_exchanged_with_its_neighbor() {
    let mut app = app_with(manual(&["/m/a.mp3", "/m/b.mp3"]));
    app.move_track_in_current_playlist(0, 1);
    assert_eq!(shown_paths(&app), vec!["/m/b.mp3", "/m/a.mp3"]);
    app.move_track_in_current_playlist(0, -1);
    assert_eq!(shown_paths(&app), vec!["/m/b.mp3", "/m/a.mp3"]);
    assert!(!app.can_move_track_in_current_playlist(0, -1));
    assert!(app.can_move_track_in_current_playlist(0, 1));
}

#[test]
fn sorting_goes_both_ways_and_can_be_undone() {
    let mut app = app_with(manual(&["/m/b.mp3", "/m/a.mp3", "/m/c.mp3"]));
    app.sort_current_playlist_by_name(false);
    assert_eq!(shown_paths(&app), vec!["/m/c.mp3", "/m/b.mp3", "/m/a.mp3"]);
    app.sort_current_playlist_by_name(true);
    assert_eq!(shown_paths(&app), vec!["/m/a.mp3", "/m/b.mp3", "/m/c.mp3"]);
    app.undo_last_order_change();
    assert_eq!(shown_paths(&app), vec!["/m/c.mp3", "/m/b.mp3", "/m/a.mp3"]);
}

#[test]
fn only_the_last_changes_can_be_undone() {
    let mut app = app_with(manual(&["/m/a.mp3", "/m/b.mp3"]));
    for _ in 0..60 {
        app.move_track_in_current_playlist(0, 1);
    }
    assert_eq!(app.order_undo_stack.len(), 50);
}

#[test]
fn a_group_is_moved_as_a_whole() {
    let mut list = Playlist::from_folder("Folder", "/m".to_owned(), 1, Vec::new());
    for file in ["/m/x/1.mp3", "/m/x/2.mp3", "/m/y/1.mp3", "/m/z/1.mp3"] {
        list.add_track_path(AudioFile::new(file.to_owned(), None), Some("/m"), 1);
    }
    let mut app = app_with(list);
    app.move_folder_group_in_current_playlist("y", -1);
    assert_eq!(
        shown_paths(&app),
        vec!["/m/y/1.mp3", "/m/x/1.mp3", "/m/x/2.mp3", "/m/z/1.mp3"]
    );
    app.move_folder_group_in_current_playlist("y", -1);
    assert_eq!(shown_paths(&app)[0], "/m/y/1.mp3");
    app.undo_last_order_change();
    assert_eq!(
        shown_paths(&app),
        vec!["/m/x/1.mp3", "/m/x/2.mp3", "/m/y/1.mp3", "/m/z/1.mp3"]
    );
}

#[test]
fn stations_are_sorted_moved_and_put_back() {
    let mut app = app_with(manual(&[]));
    app.state.selected_radio_index = Some(0);
    app.sort_radio_stations_by_name(true);
    assert_eq!(station_names(&app), vec!["East", "North", "South"]);
    assert_eq!(app.state.selected_radio_index, Some(1));
    app.move_radio_station_to_index(0, 3);
    assert_eq!(station_names(&app), vec!["North", "South", "East"]);
    app.undo_last_order_change();
    assert_eq!(station_names(&app), vec!["East", "North", "South"]);
    app.undo_last_order_change();
    assert_eq!(station_names(&app), vec!["North", "East", "South"]);
    assert_eq!(app.state.selected_radio_index, Some(0));
}

#[test]
fn playlists_are_added_moved_and_removed() {
    let mut app = app_with(manual(&[]));
    let before = app.state.playlists.len();
    app.add_playlist();
    assert_eq!(app.state.playlists.len(), before + 1);
    assert_eq!(app.current_playlist().unwrap().name, format!("Playlist {}", before + 1));
    let last = app.state.playlists.len() - 1;
    app.move_playlist(last, -1);
    assert_eq!(app.state.selected_playlist_index, last - 1);
    app.remove_current_playlist();
    assert_eq!(app.state.playlists.len(), before);
    app.state.selected_playlist_index = app.favorites_index().unwrap();
    app.remove_current_playlist();
    assert_eq!(
        app.messages.error.as_deref(),
        Some("Favorites is built-in and cannot be deleted.")
    );
}

#[test]
fn a_file_is_put_into_the_favorites_and_taken_out() {
    let mut app = app_with(manual(&["/m/a.mp3"]));
    assert!(!app.is_favorite("/m/a.mp3"));
    app.toggle_favorite(AudioFile::new("/m/a.mp3".to_owned(), None));
    assert!(app.is_favorite("/M/A.mp3"));
    let favorites = app.favorites_index().unwrap();
    assert_eq!(app.state.playlists[favorites].kind, PlaylistKind::Favorites);
    app.toggle_favorite(AudioFile::new("/m/A.mp3".to_owned(), None));
    assert!(!app.is_favorite("/m/a.mp3"));
}

#[test]
fn clicks_select_one_several_or_a_range() {
    let mut app = app_with(manual(&["/m/a.mp3", "/m/b.mp3", "/m/c.mp3", "/m/d.mp3"]));
    app.select_track_from_pointer(1, false, false);
    assert_eq!(app.multi_selected_track_indexes, vec![1]);
    app.select_track_from_pointer(3, true, false);
    assert_eq!(app.multi_selected_track_indexes, vec![1, 2, 3]);
    app.select_track_from_pointer(2, false, true);
    assert_eq!(app.multi_selected_track_indexes, vec![1, 3]);
    app.select_track_from_pointer(0, false, true);
    assert_eq!(app.multi_selected_track_indexes, vec![0, 1, 3]);
    assert_eq!(app.action_track_paths_for_context(3), vec!["/m/a.mp3", "/m/b.mp3", "/m/d.mp3"]);
    assert_eq!(app.action_track_paths_for_context(2), vec!["/m/c.mp3"]);
    app.select_track_from_pointer(9, false, false);
    assert_eq!(app.multi_selected_track_indexes, vec![0, 1, 3]);
}

#[test]
fn entries_are_moved_and_exchanged() {
    let mut entries = vec![1, 2, 3, 4];
    move_entry(&mut entries, 0, 2);
    assert_eq!(entries, vec![2, 1, 3, 4]);
    swap_entries(&mut entries, 0, 3);
    assert_eq!(entries, vec![4, 1, 3, 2]);
    keep_last_entries(&mut entries, 2);
    assert_eq!(entries, vec![3, 2]);
    assert_eq!(neighbor_of(0, -1, 3), 0);
    assert_eq!(neighbor_of(1, 1, 3), 2);
    assert_eq!(neighbor_of(2, 1, 3), 2);
}

#[test]
fn dropping_a_track_on_itself_is_no_move() {
    assert!(!AudioOrbitApp::valid_drop_target(2, 2));
    assert!(!AudioOrbitApp::valid_drop_target(2, 3));
    assert!(AudioOrbitApp::valid_drop_target(2, 4));
    assert!(AudioOrbitApp::valid_drop_target(2, 0));
}
