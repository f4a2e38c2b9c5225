use audio_orbit::app::{AudioOrbitApp, Crossfade, Effect, PlaybackInfo, PlayerStatus};
use audio_orbit::playback::{is_short, random_sequence_index, ClockReading};
use audio_orbit::playlist::Playlist;
use audio_orbit::seeking::{time_after, time_since};
use audio_orbit::settings::{DspSettings, OrbitMode, RepeatMode};
use audio_orbit::silence::FileIdentity;
use audio_orbit::starting::{
    direct_start_kind, mode_label, plan_background, prepared_start_kind, quick_start_kind,
    start_status_text, StartKind,
};
use audio_orbit::startup::OutputAtStartup;
use audio_orbit::state::SavedState;
use audio_orbit::track::AudioFile;

fn sound() -> DspSettings {
    DspSettings {
        mode: OrbitMode::SmoothStereoOrbit,
        orbit_enabled: true,
        output_level_percent: 80,
        stereo_width_percent: 70,
        orbit_speed_percent: 100,
        transition_smoothness_percent: 50,
        depth_cue_percent: 40,
        skip_silence_enabled: false,
        silence_trigger_millis: 500,
        silence_threshold_seconds: 1,
        silence_threshold_db: -45,
        silence_trim_end_regardless_of_duration: false,
    }
}

fn playing() -> PlayerStatus {
    PlayerStatus {
        available: true,
        playing: true,
        paused: false,
        finished: false,
        recording: false,
    }
}

fn silent() -> PlayerStatus {
    PlayerStatus { playing: false, ..playing() }
}

fn paused() -> PlayerStatus {
    PlayerStatus { playing: false, paused: true, ..playing() }
}

fn clocks() -> ClockReading {
    ClockReading { nanos: 0, status_nanos: 0 }
}

/// An application that shows a playlist with the given files.
fn app_with(files: &[&str]) -> AudioOrbitApp {
    let mut state = SavedState::with_sound_settings(sound());
    let mut list = Playlist::new("Tracks");
    for file in files {
        list.add_track_path(AudioFile::new((*file).to_owned(), Some(10)), None, 0);
    }
    state.playlists.push(list);
    state.selected_playlist_index = state.playlists.len() - 1;
    AudioOrbitApp::new(state, OutputAtStartup::Ready { name: "Speakers".to_owned() }, 0)
}

fn info(path: &str) -> PlaybackInfo {
    PlaybackInfo {
        path: path.to_owned(),
        original_duration_bits: 120.0_f32.to_bits(),
        sample_rate: 44_100,
        input_channels: 2,
        size_bytes: Some(10),
        waveform: vec![1, 2, 3],
        waveform_brightness: vec![4],
        silence_ranges: Vec::new(),
    }
}

fn start(app: &mut AudioOrbitApp, index: usize) {
    let playlist_index = app.state.selected_playlist_index;
    let path = app.current_playlist().unwrap().tracks[index].path.clone();
    app.track_started(
        StartKind::Playing,
        playlist_index,
        Some(index),
        info(&path),
        None,
        "Orbit",
        Some(10),
        playing(),
        0,
    );
}

fn requested(app: &mut AudioOrbitApp) -> Vec<(String, Option<usize>, u32, Crossfade)> {
    let mut found = Vec::new();
    for effect in app.take_effects() {
        if let Effect::PlayTrack { path, track_index, start_bits, crossfade, .. } = effect {
            found.push((path, track_index, start_bits, crossfade));
        }
    }
    found
}

#[test]
fn next_track_follows_in_the_list_and_wraps_around() {
    let mut app = app_with(&["/m/a.mp3", "/m/b.mp3", "/m/c.mp3"]);
    start(&mut app, 1);
    assert_eq!(app.next_track_candidate(clocks()), Some((2, "/m/c.mp3".to_owned())));
    start(&mut app, 2);
    assert_eq!(app.next_track_candidate(clocks()), Some((0, "/m/a.mp3".to_owned())));
    assert_eq!(app.previous_track_candidate(), Some((1, "/m/b.mp3".to_owned())));
    start(&mut app, 0);
    assert_eq!(app.previous_track_candidate(), Some((2, "/m/c.mp3".to_owned())));
}

#[test]
fn previous_of_next_is_the_current_track() {
    let mut app = app_with(&["/m/a.mp3", "/m/b.mp3", "/m/c.mp3", "/m/d.mp3"]);
    for current in 0..4 {
        start(&mut app, current);
        let next = app.next_track_candidate(clocks()).unwrap();
        app.active_track_index = Some(next.0);
        assert_eq!(app.previous_track_candidate().unwrap().0, current);
    }
}

#[test]
fn missing_tracks_are_passed_over() {
    let mut app = app_with(&["/m/a.mp3", "/m/b.mp3", "/m/c.mp3"]);
    let shown = app.state.selected_playlist_index;
    app.state.playlists[shown].tracks[1].missing = true;
    start(&mut app, 0);
    assert_eq!(app.next_track_candidate(clocks()).unwrap().0, 2);
    assert_eq!(app.eligible_track_indexes(), vec![0, 2]);
}

#[test]
fn a_repeated_track_comes_next_and_before() {
    let mut app = app_with(&["/m/a.mp3", "/m/b.mp3"]);
    app.state.playback.repeat_mode = RepeatMode::Track;
    start(&mut app, 1);
    assert_eq!(app.next_track_candidate(clocks()).unwrap().0, 1);
    assert_eq!(app.previous_track_candidate().unwrap().0, 1);
}

#[test]
fn repeat_modes_follow_each_other() {
    let mut app = app_with(&[]);
    assert_eq!(app.state.playback.repeat_mode, RepeatMode::Off);
    app.cycle_repeat_mode();
    assert_eq!(app.state.playback.repeat_mode, RepeatMode::Track);
    app.cycle_repeat_mode();
    assert_eq!(app.state.playback.repeat_mode, RepeatMode::Selection);
    app.cycle_repeat_mode();
    assert_eq!(app.state.playback.repeat_mode, RepeatMode::Off);
}

#[test]
fn a_selection_that_is_repeated_bounds_the_sequence() {
    let mut app = app_with(&["/m/a.mp3", "/m/b.mp3", "/m/c.mp3"]);
    app.state.playback.repeat_mode = RepeatMode::Selection;
    app.set_track_repeated(0, true);
    app.set_track_repeated(2, true);
    assert_eq!(app.playback_sequence_indexes(), vec![0, 2]);
    app.set_track_repeated(0, false);
    assert_eq!(app.playback_sequence_indexes(), vec![2]);
}

#[test]
fn repeated_tracks_are_kept_by_path() {
    let mut app = app_with(&["/m/a.mp3", "/m/b.mp3", "/m/c.mp3"]);
    app.set_track_repeated(2, true);
    app.persist_repeat_selection_for_current_playlist();
    assert_eq!(app.current_playlist().unwrap().repeat_selection, vec!["/m/c.mp3"]);
    app.selected_track_indexes.clear();
    app.restore_repeat_selection_for_current_playlist();
    assert_eq!(app.selected_track_indexes, vec![2]);
}

#[test]
fn shuffling_never_picks_the_current_track_twice() {
    let indexes = vec![0, 1, 2];
    for nanos in 0..20 {
        let picked =
            random_sequence_index(&indexes, Some(1), ClockReading { nanos, status_nanos: 3 });
        assert!(picked == Some(0) || picked == Some(2));
    }
    assert_eq!(random_sequence_index(&vec![4], Some(4), clocks()), Some(4));
    assert_eq!(random_sequence_index(&Vec::new(), None, clocks()), None);
    // The candidates are 0 and 2, and 2 modulo 2 picks the first of them.
    assert_eq!(random_sequence_index(&indexes, Some(1), clocks()), Some(0));
}

#[test]
fn a_track_is_asked_for_with_the_crossfade_of_the_settings() {
    let mut app = app_with(&["/m/a.mp3", "/m/b.mp3"]);
    app.state.playback.crossfade_enabled = true;
    app.state.playback.crossfade_seconds = 0;
    assert_eq!(app.configured_manual_crossfade(playing()), Crossfade::Seconds(1));
    assert_eq!(app.configured_manual_crossfade(silent()), Crossfade::Off);
    app.take_effects();
    app.play_path("/m/b.mp3".to_owned(), Some(1), 0, playing());
    assert_eq!(
        requested(&mut app),
        vec![("/m/b.mp3".to_owned(), Some(1), 0, Crossfade::Seconds(1))]
    );
    let later = 30.0_f32.to_bits();
    app.play_path("/m/b.mp3".to_owned(), Some(1), later, playing());
    assert_eq!(
        requested(&mut app),
        vec![("/m/b.mp3".to_owned(), Some(1), later, Crossfade::Off)]
    );
}

#[test]
fn without_an_output_device_nothing_is_asked_for() {
    let mut app = app_with(&["/m/a.mp3"]);
    app.take_effects();
    let gone = PlayerStatus { available: false, ..silent() };
    app.play_path("/m/a.mp3".to_owned(), Some(0), 0, gone);
    assert!(requested(&mut app).is_empty());
    assert_eq!(
        app.messages.error.as_deref(),
        Some("No audio output device is available. Try Refresh output device.")
    );
}

#[test]
fn a_finished_track_is_followed_by_the_next() {
    let mut app = app_with(&["/m/a.mp3", "/m/b.mp3"]);
    start(&mut app, 0);
    app.take_effects();
    let finished = PlayerStatus { playing: false, finished: true, ..playing() };
    app.update_playback_status(None, finished, clocks());
    let asked = requested(&mut app);
    assert_eq!(asked.len(), 1);
    assert_eq!(asked[0].0, "/m/b.mp3");
}

#[test]
fn a_started_track_is_active_and_its_metadata_is_kept() {
    let mut app = app_with(&["/m/a.mp3", "/m/b.mp3"]);
    start(&mut app, 1);
    assert_eq!(app.active_track_path.as_deref(), Some("/m/b.mp3"));
    assert_eq!(app.active_track_index, Some(1));
    assert_eq!(app.selected_track_index, Some(1));
    let track = &app.current_playlist().unwrap().tracks[1];
    assert_eq!(track.metadata.duration_seconds_bits, Some(120.0_f32.to_bits()));
    assert_eq!(track.waveform, vec![1, 2, 3]);
    assert_eq!(app.state.last_played_track.as_ref().unwrap().track_path, "/m/b.mp3");
    assert_eq!(app.find_playing_anywhere(), Some(1));
    assert_eq!(app.known_playing_duration(), Some(120.0_f32.to_bits()));
}

#[test]
fn stopping_leaves_nothing_playing_and_saves() {
    let mut app = app_with(&["/m/a.mp3"]);
    start(&mut app, 0);
    app.take_effects();
    app.stop();
    assert_eq!(app.active_track_path, None);
    assert!(app.last_playback.is_none());
    assert_eq!(app.messages.status, "Playback stopped.");
    let effects = app.take_effects();
    assert!(matches!(effects[0], Effect::StopPlayer));
    assert!(matches!(effects[effects.len() - 1], Effect::SaveState));
}

#[test]
fn what_played_is_resumed_in_the_next_run() {
    let mut app = app_with(&["/m/a.mp3", "/m/b.mp3"]);
    start(&mut app, 1);
    let position = 42.5_f32.to_bits();
    app.shut_down(playing(), position);
    assert!(app.state.playback_session.was_active);
    assert_eq!(app.state.playback_session.source, "track");
    let mut next =
        AudioOrbitApp::new(app.state, OutputAtStartup::Ready { name: "Speakers".to_owned() }, 5);
    next.take_effects();
    next.restore_saved_playback_session(silent());
    let asked = requested(&mut next);
    assert_eq!(asked, vec![("/m/b.mp3".to_owned(), Some(1), position, Crossfade::Off)]);
}

#[test]
fn what_was_paused_is_only_selected_in_the_next_run() {
    let mut app = app_with(&["/m/a.mp3", "/m/b.mp3"]);
    start(&mut app, 1);
    app.shut_down(paused(), 7.0_f32.to_bits());
    let mut next =
        AudioOrbitApp::new(app.state, OutputAtStartup::Ready { name: "Speakers".to_owned() }, 5);
    next.take_effects();
    next.restore_saved_playback_session(silent());
    assert!(requested(&mut next).is_empty());
    assert_eq!(next.selected_track_index, Some(1));
    assert_eq!(
        next.saved_paused_resume_position_for_track("/M/B.mp3"),
        Some(7.0_f32.to_bits())
    );
}

#[test]
fn volume_stays_in_its_bounds_and_mute_is_undone() {
    let mut app = app_with(&[]);
    app.set_volume_percent(250);
    assert_eq!(app.state.playback.volume_percent, 100);
    app.adjust_volume(-130);
    assert_eq!(app.state.playback.volume_percent, 0);
    app.adjust_volume(35);
    assert_eq!(app.effective_volume_percent(), 35);
    app.toggle_mute();
    assert_eq!(app.effective_volume_percent(), 0);
    app.toggle_mute();
    assert_eq!(app.effective_volume_percent(), 35);
}

#[test]
fn a_missing_file_is_marked_and_a_found_one_is_restored() {
    let mut app = app_with(&["/m/a.mp3"]);
    assert!(!app.ensure_track_available_for_playback("/m/a.mp3", false));
    assert!(app.current_playlist().unwrap().tracks[0].missing);
    assert!(app.ensure_track_available_for_playback("/m/A.mp3", true));
    assert!(!app.current_playlist().unwrap().tracks[0].missing);
}

#[test]
fn a_plan_uses_what_is_known_of_the_track() {
    let mut app = app_with(&["/m/a.mp3"]);
    start(&mut app, 0);
    let identity = FileIdentity { length: Some(10), modified_nanos: Some(1) };
    let skipping = DspSettings { skip_silence_enabled: true, ..sound() };
    app.silence.remember_silence_ranges_for_track("/m/a.mp3", skipping, identity, vec![(1, 2)]);
    let plan = app.plan_track_playback("/m/a.mp3", Some(0), skipping, identity);
    assert_eq!(plan.silence_ranges, Some(vec![(1, 2)]));
    assert_eq!(plan.known_duration_bits, Some(120.0_f32.to_bits()));
    assert_eq!(plan.waveform.unwrap().levels, vec![1, 2, 3]);
    let changed = FileIdentity { length: Some(11), modified_nanos: Some(1) };
    assert_eq!(app.plan_track_playback("/m/a.mp3", Some(0), skipping, changed).silence_ranges, None);
}

#[test]
fn status_texts_name_how_a_track_began() {
    assert_eq!(direct_start_kind(true, Crossfade::Off), StartKind::Continued);
    assert_eq!(direct_start_kind(false, Crossfade::Seconds(3)), StartKind::Crossfading);
    assert_eq!(quick_start_kind(Crossfade::Off), StartKind::PlayingAtOnce);
    assert_eq!(prepared_start_kind(true, false, Crossfade::Off), StartKind::SilenceSkipReady);
    assert!(start_status_text(StartKind::Playing, "Song", "Orbit").contains("Song"));
    assert!(!mode_label(sound(), "Smooth").is_empty());
    let plan = plan_background(true, Crossfade::Seconds(2), false);
    assert!(plan.background_upgrade);
}

#[test]
fn the_last_of_several_jumps_wins() {
    let mut app = app_with(&["/m/a.mp3"]);
    start(&mut app, 0);
    let first = app.schedule_or_run_fast_seek(
        10.0_f32.to_bits(),
        sound(),
        1_000,
        200,
        "0:10",
        playing(),
        0,
    );
    assert_eq!(first.unwrap().position_bits, 10.0_f32.to_bits());
    app.seeking.last_started_at = Some(1_000);
    assert!(app
        .schedule_or_run_fast_seek(20.0_f32.to_bits(), sound(), 1_050, 200, "0:20", playing(), 0)
        .is_none());
    assert!(app
        .schedule_or_run_fast_seek(30.0_f32.to_bits(), sound(), 1_060, 200, "0:30", playing(), 0)
        .is_none());
    assert!(app.process_pending_fast_seek(1_100).is_none());
    let later = app.process_pending_fast_seek(2_000).unwrap();
    assert_eq!(later.position_bits, 30.0_f32.to_bits());
    assert!(app.process_pending_fast_seek(3_000).is_none());
}

#[test]
fn times_do_not_wrap() {
    assert_eq!(time_after(u64::MAX, 1), u64::MAX);
    assert_eq!(time_since(5, 9), 0);
    assert_eq!(time_since(9, 5), 4);
}

#[test]
fn short_times_are_told_by_their_bit_patterns() {
    assert!(is_short(0.0_f32.to_bits()));
    assert!(is_short(0.05_f32.to_bits()));
    assert!(!is_short(0.06_f32.to_bits()));
    assert!(is_short((-3.0_f32).to_bits()));
    assert!(!is_short(f32::NAN.to_bits()));
}
