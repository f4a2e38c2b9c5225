use audio_orbit::app::{AudioOrbitApp, Crossfade, Effect, PlayerStatus};
use audio_orbit::player::RadioRecordingInfo;
use audio_orbit::radio::{RecordingAction, StreamMetadata};
use audio_orbit::settings::{DspSettings, OrbitMode, RadioStation};
use audio_orbit::startup::OutputAtStartup;
use audio_orbit::state::SavedState;
use audio_orbit::station_list::{station_matches_query, station_row_texts};

fn sound() -> DspSettings {
    DspSettings {
        mode: OrbitMode::SmoothStereoOrbit,
        orbit_enabled: true,
        output_level_percent: 80,
        stereo_width_percent: 70,
        orbit_speed_percent: 100,
        transition_smoothness_percent: 50,
        depth_cue_percent: 40,
        skip_silence_enabled: false,
        silence_trigger_millis: 500,
        silence_threshold_seconds: 1,
        silence_threshold_db: -45,
        silence_trim_end_regardless_of_duration: false,
    }
}

fn playing() -> PlayerStatus {
    PlayerStatus {
        available: true,
        playing: true,
        paused: false,
        finished: false,
        recording: false,
    }
}

fn silent() -> PlayerStatus {
    PlayerStatus { playing: false, ..playing() }
}

fn app() -> AudioOrbitApp {
    let mut state = SavedState::with_sound_settings(sound());
    state.radio_stations = vec![
        RadioStation::new("North", "http://north.example"),
        RadioStation::new("East", "https://east.example"),
    ];
    let mut app =
        AudioOrbitApp::new(state, OutputAtStartup::Ready { name: "Speakers".to_owned() }, 0);
    app.take_effects();
    app
}

#[test]
fn a_station_needs_an_address_of_the_web() {
    let mut app = app();
    app.dialogs.pending_radio_url = "  ".to_owned();
    assert!(!app.add_radio_station(None, "Fallback"));
    assert_eq!(app.messages.error.as_deref(), Some("Radio stream URL is required."));
    app.dialogs.pending_radio_url = "ftp://x".to_owned();
    assert!(!app.add_radio_station(None, "Fallback"));
    assert_eq!(
        app.messages.error.as_deref(),
        Some("Internet radio stream URL must start with http:// or https://.")
    );
    app.dialogs.pending_radio_url = " http://new.example ".to_owned();
    assert_eq!(app.pending_station_lookup().as_deref(), Some("http://new.example"));
    assert!(app.add_radio_station(
        Some(StreamMetadata { station_name: Some("New".to_owned()), stream_title: None }),
        "Fallback"
    ));
    let added = &app.state.radio_stations[2];
    assert_eq!((added.name.as_str(), added.url.as_str()), ("New", "http://new.example"));
    assert_eq!(app.dialogs.pending_radio_url, "");
    app.dialogs.pending_radio_url = "http://quiet.example".to_owned();
    assert!(app.add_radio_station(None, "Fallback"));
    assert_eq!(app.state.radio_stations[3].name, "Fallback");
}

#[test]
fn a_station_is_asked_for_and_opened() {
    let mut app = app();
    app.play_radio_station(1, silent());
    let effects = app.take_effects();
    assert!(effects.iter().any(|effect| matches!(
        effect,
        Effect::OpenRadioStream { station_index: 1, reopens: false, .. }
    )));
    app.radio_stream_opened(1, Crossfade::Off, false, 50, playing(), 0);
    assert_eq!(app.radio.active_index, Some(1));
    assert_eq!(app.messages.status, "Playing internet radio: East.");
    assert_eq!(app.active_track_title(), "East");
    app.process_radio_title_events(vec![(
        1,
        Some(StreamMetadata { station_name: None, stream_title: Some("Song".to_owned()) }),
    )]);
    assert_eq!(app.active_track_title(), "Song");
    app.copy_current_radio_title();
    assert!(app.take_clipboard_text().unwrap().contains("Song"));
    assert_eq!(app.take_clipboard_text(), None);
    app.radio_stream_failed(false, "offline".to_owned());
    assert_eq!(app.messages.error.as_deref(), Some("offline"));
}

#[test]
fn a_removed_station_that_plays_is_stopped() {
    let mut app = app();
    app.radio_stream_opened(0, Crossfade::Off, false, 5, playing(), 0);
    app.select_station(0);
    app.remove_selected_radio_station();
    assert_eq!(app.radio.active_index, None);
    assert_eq!(app.state.radio_stations.len(), 1);
    assert_eq!(app.state.selected_radio_index, Some(0));
}

#[test]
fn recording_needs_a_station_that_plays() {
    let mut app = app();
    assert!(matches!(app.toggle_radio_recording(silent(), None), RecordingAction::Refused));
    assert_eq!(
        app.messages.error.as_deref(),
        Some("Start an internet radio station before recording.")
    );
    let recording = PlayerStatus { recording: true, ..playing() };
    assert!(matches!(app.toggle_radio_recording(recording, None), RecordingAction::Stop));
    app.radio_stream_opened(0, Crossfade::Off, false, 5, playing(), 0);
    app.choose_recording_folder("/records".to_owned());
    match app.toggle_radio_recording(playing(), None) {
        RecordingAction::Start { folder, station_name, .. } => {
            assert_eq!(folder, "/records");
            assert_eq!(station_name, "North");
        }
        _ => panic!("a recording was expected"),
    }
    app.radio_recording_started("/records/x.part");
    assert_eq!(app.messages.status, "Recording internet radio to /records/x.part.");
    app.radio_recording_stopped(
        Some(RadioRecordingInfo {
            path: "/records/x.mp3".to_owned(),
            started_at: 1,
            bytes_written: 2_048,
        }),
        "2 KB",
    );
    assert_eq!(app.messages.status, "Saved radio recording: /records/x.mp3 (2 KB).");
    app.radio_recording_stopped(None, "");
    assert_eq!(app.messages.status, "No active radio recording.");
}

#[test]
fn stations_are_found_and_marked() {
    let mut app = app();
    assert!(station_matches_query(&app.state.radio_stations[0], "north"));
    assert!(!station_matches_query(&app.state.radio_stations[0], "east"));
    assert_eq!(app.visible_station_indexes(), vec![0, 1]);
    app.browsing.radio_search_query = "EAST".to_owned();
    assert_eq!(app.visible_station_indexes(), vec![1]);
    app.browsing.radio_search_query.clear();
    app.toggle_station_favorite(0);
    assert_eq!(app.favorite_station_count(), 1);
    app.show_favorite_stations_only(true);
    assert_eq!(app.visible_station_indexes(), vec![0]);
    app.select_station(1);
    assert_eq!(app.state.selected_radio_index, Some(1));
    let texts = station_row_texts(&app.state.radio_stations[0]);
    assert!(texts.0.contains("North"));
}

#[test]
fn the_playing_station_is_looked_for_until_it_is_shown() {
    let mut app = app();
    app.radio.active_index = Some(1);
    app.browsing.scroll_to_active_radio_requested = true;
    assert!(!app.station_row_shown(0));
    assert!(app.browsing.scroll_to_active_radio_requested);
    assert!(app.station_row_shown(1));
    assert!(!app.browsing.scroll_to_active_radio_requested);
    assert!(!app.station_row_shown(1));
}
