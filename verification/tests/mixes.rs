use audio_orbit::app::{AudioOrbitApp, Effect, PlayerStatus};
use audio_orbit::dj_mix::{
    mix_duration, preview_after_click, preview_after_edit, DjBridgeMode, DjMixEvent, DjMixOptions,
    DjMixStyle, DjTrackSectionMode, FavoriteRange, PreviewRequest, RangeEdit,
};
use audio_orbit::external_files::OpenedPath;
use audio_orbit::mix_builder::{default_mix_file_name, MixDefaults};
use audio_orbit::playlist::{Playlist, PlaylistKind};
use audio_orbit::settings::{DspSettings, OrbitMode};
use audio_orbit::startup::OutputAtStartup;
use audio_orbit::state::SavedState;
use audio_orbit::track::AudioFile;

fn sound() -> DspSettings {
    DspSettings {
        mode: OrbitMode::SmoothStereoOrbit,
        orbit_enabled: true,
        output_level_percent: 80,
        stereo_width_percent: 70,
        orbit_speed_percent: 100,
        transition_smoothness_percent: 50,
        depth_cue_percent: 40,
        skip_silence_enabled: false,
        silence_trigger_millis: 500,
        silence_threshold_seconds: 1,
        silence_threshold_db: -45,
        silence_trim_end_regardless_of_duration: false,
    }
}

fn silent() -> PlayerStatus {
    PlayerStatus {
        available: true,
        playing: false,
        paused: false,
        finished: false,
        recording: false,
    }
}

fn file(path: &str) -> AudioFile {
    AudioFile::new(path.to_owned(), Some(1))
}

fn app_with(files: &[&str]) -> AudioOrbitApp {
    let mut state = SavedState::with_sound_settings(sound());
    let mut list = Playlist::new("Tracks");
    for path in files {
        list.add_track_path(file(path), None, 0);
    }
    state.playlists.push(list);
    state.selected_playlist_index = state.playlists.len() - 1;
    AudioOrbitApp::new(state, OutputAtStartup::Ready { name: "Speakers".to_owned() }, 0)
}

fn options() -> DjMixOptions {
    DjMixOptions {
        style: DjMixStyle::SmartDj,
        smart_order: true,
        normalize_loudness: true,
        bass_swap: true,
        professional_tools: false,
        stem_separation: false,
        transition_bars: 16,
        bitrate_kbps: 320,
        bridge_mode: DjBridgeMode::Auto,
        bridge_start_bits: 0,
        bridge_loop_bits: 0,
        bridge_level_bits: 0,
        target_minutes_bits: 0,
    }
}

fn defaults() -> MixDefaults {
    MixDefaults {
        section_mode: DjTrackSectionMode::AutoHighlight,
        range: FavoriteRange { start: 0, end: 60 },
        options: options(),
        professional_tool_status: "none".to_owned(),
    }
}

fn mix_paths(app: &AudioOrbitApp) -> Vec<String> {
    app.mix.as_ref().unwrap().tracks.iter().map(|track| track.path.clone()).collect()
}

fn opened() -> AudioOrbitApp {
    let mut app = app_with(&["/m/a.mp3", "/m/b.mp3", "/m/c.mp3", "/m/d.mp3"]);
    app.open_dj_mix_builder_for_current_playlist(&vec![true, true, true, false], defaults());
    app
}

#[test]
fn a_mix_takes_the_tracks_that_are_there() {
    let app = opened();
    assert_eq!(mix_paths(&app), vec!["/m/a.mp3", "/m/b.mp3", "/m/c.mp3"]);
    assert_eq!(app.mix.as_ref().unwrap().stage, "Ready");
    assert!(!app.mix.as_ref().unwrap().is_progress_shown(false));
    let mut few = app_with(&["/m/a.mp3", "/m/b.mp3"]);
    few.open_dj_mix_builder_for_current_playlist(&vec![true], defaults());
    assert!(few.mix.is_none());
    assert_eq!(
        few.messages.error.as_deref(),
        Some("DJ mix requires at least two available tracks.")
    );
    few.jobs.dj_mix = true;
    few.open_dj_mix_builder_for_current_playlist(&vec![true, true], defaults());
    assert_eq!(few.messages.error.as_deref(), Some("DJ mix export already running."));
}

#[test]
fn a_mix_of_a_selection_takes_those_tracks_only() {
    let mut app = app_with(&["/m/a.mp3", "/m/b.mp3", "/m/c.mp3"]);
    app.select_track_from_pointer(0, false, false);
    app.select_track_from_pointer(2, false, true);
    app.open_dj_mix_builder_for_selection(2, &vec![true, true, true], defaults());
    assert_eq!(mix_paths(&app), vec!["/m/a.mp3", "/m/c.mp3"]);
    let shown = app.state.selected_playlist_index;
    app.state.playlists[shown].kind = PlaylistKind::Temporary;
    app.open_dj_mix_builder_for_selection(2, &vec![true, true, true], defaults());
    assert_eq!(app.messages.error.as_deref(), Some("Temporary playback is read-only."));
}

#[test]
fn an_export_begins_and_ends() {
    let mut app = opened();
    assert_eq!(app.start_dj_mix_export(99).as_deref(), Some("Tracks-dj-mix-99.mp3"));
    let request = app.begin_dj_mix_export("/out.mp3".to_owned(), false, 5).unwrap();
    assert_eq!(request.tracks.len(), 3);
    assert!(app.dj_mix_is_running());
    assert_eq!(app.mix.as_ref().unwrap().stage, "Starting analysis...");
    assert!(app.start_dj_mix_export(99).is_none());
    app.process_dj_mix_events(
        vec![DjMixEvent::Progress { stage: "Mixing".to_owned(), progress_bits: 7 }],
        false,
        6,
    );
    assert_eq!(app.mix.as_ref().unwrap().stage, "Mixing");
    assert!(app.cancel_dj_mix_export());
    assert_eq!(app.mix.as_ref().unwrap().stage, "Cancelling...");
    app.process_dj_mix_events(
        vec![DjMixEvent::Completed {
            output_path: "/out.mp3".to_owned(),
            report_path: "/out.txt".to_owned(),
            stage: "Complete".to_owned(),
            loudness: " loud".to_owned(),
            diagnostics_summary: "fine".to_owned(),
        }],
        true,
        7,
    );
    assert!(!app.dj_mix_is_running());
    assert_eq!(app.messages.status, "DJ mix saved: /out.mp3 loud");
    assert_eq!(app.messages.error, None);
    let mix = app.mix.as_ref().unwrap();
    assert!(mix.completed);
    assert_eq!(mix.progress_bits, 1.0_f32.to_bits());
    assert!(!app.cancel_dj_mix_export());
}

#[test]
fn an_export_that_fails_is_reported() {
    let mut app = opened();
    app.begin_dj_mix_export("/out.mp3".to_owned(), false, 5).unwrap();
    app.process_dj_mix_events(Vec::new(), true, 6);
    assert_eq!(
        app.messages.error.as_deref(),
        Some("DJ mix worker stopped before completing export.")
    );
    app.begin_dj_mix_export("/out.mp3".to_owned(), false, 7).unwrap();
    app.process_dj_mix_events(vec![DjMixEvent::Failed { error: "disk".to_owned() }], false, 8);
    assert_eq!(app.messages.error.as_deref(), Some("disk"));
    app.begin_dj_mix_export("/out.mp3".to_owned(), false, 9).unwrap();
    app.process_dj_mix_events(vec![DjMixEvent::Cancelled], false, 10);
    assert_eq!(app.messages.status, "DJ mix export cancelled.");
    app.begin_dj_mix_export("/out.mp3".to_owned(), false, 11).unwrap();
    app.dj_mix_export_not_started("no thread");
    assert_eq!(
        app.messages.error.as_deref(),
        Some("Failed to start DJ mix worker: no thread")
    );
    assert!(!app.dj_mix_is_running());
}

#[test]
fn a_custom_bridge_has_to_be_there() {
    let mut app = opened();
    app.change_mix_options(DjMixOptions { bridge_mode: DjBridgeMode::Custom, ..options() });
    assert!(app.begin_dj_mix_export("/out.mp3".to_owned(), true, 1).is_none());
    assert_eq!(
        app.messages.error.as_deref(),
        Some("Choose an available custom bridge audio file.")
    );
    app.choose_mix_bridge(Some("/bridge.mp3".to_owned()));
    assert!(app.begin_dj_mix_export("/out.mp3".to_owned(), false, 1).is_none());
    assert!(app.begin_dj_mix_export("/out.mp3".to_owned(), true, 1).is_some());
}

#[test]
fn tracks_of_a_mix_are_moved_and_removed() {
    let mut app = opened();
    app.move_mix_track(0, true);
    assert_eq!(mix_paths(&app), vec!["/m/b.mp3", "/m/a.mp3", "/m/c.mp3"]);
    assert!(!app.mix.as_ref().unwrap().options.smart_order);
    app.move_mix_track(0, false);
    app.move_mix_track(2, true);
    assert_eq!(mix_paths(&app), vec!["/m/b.mp3", "/m/a.mp3", "/m/c.mp3"]);
    app.remove_mix_track(1);
    assert_eq!(mix_paths(&app), vec!["/m/b.mp3", "/m/c.mp3"]);
    app.remove_mix_track(0);
    assert_eq!(mix_paths(&app).len(), 2);
}

#[test]
fn previews_are_played_and_stopped() {
    let mut app = opened();
    app.take_effects();
    app.play_mix_preview("/m/b.mp3".to_owned(), 3, 40, silent());
    assert_eq!(app.mix.as_ref().unwrap().preview_stop_seconds, Some(40));
    assert!(matches!(
        app.take_effects()[0],
        Effect::PlayTrack { track_index: Some(1), start_bits: 3, .. }
    ));
    app.stop_mix_preview_at("/m/a.mp3", 20);
    assert_eq!(app.mix.as_ref().unwrap().preview_stop_seconds, Some(40));
    app.stop_mix_preview_at("/M/b.mp3", 20);
    assert_eq!(app.mix.as_ref().unwrap().preview_stop_seconds, Some(20));
    app.choose_mix_section(1, DjTrackSectionMode::FavoriteRange);
    assert!(app.mix.as_ref().unwrap().preview_track_path.is_some());
    app.choose_mix_section(1, DjTrackSectionMode::FullTrack);
    assert!(app.mix.as_ref().unwrap().preview_track_path.is_none());
    assert_eq!(app.messages.status, "Playback stopped.");
    app.close_mix_builder();
    assert!(app.mix.is_none());
}

#[test]
fn a_finished_mix_is_played() {
    let mut app = opened();
    app.play_finished_mix(
        vec![OpenedPath { file: file("/out.mp3"), is_file: true }],
        silent(),
    );
    assert!(app.mix.is_none());
    assert_eq!(app.current_playlist().unwrap().kind, PlaylistKind::Temporary);
}

#[test]
fn ranges_stay_within_the_track() {
    let range = FavoriteRange { start: 90, end: 20 };
    let settled = range.settle(60);
    assert_eq!(settled, FavoriteRange { start: 59, end: 60 });
    assert_eq!(settled.settle(60), settled);
    let middle = FavoriteRange { start: 10, end: 20 };
    assert_eq!(middle.drag_start(25, 60), FavoriteRange { start: 19, end: 20 });
    assert_eq!(middle.drag_end(5, 60), FavoriteRange { start: 10, end: 11 });
    assert_eq!(middle.drag_end(99, 60), FavoriteRange { start: 10, end: 60 });
    assert_eq!(middle.set_start(30, 60), FavoriteRange { start: 30, end: 31 });
    assert_eq!(middle.set_start(99, 60), FavoriteRange { start: 59, end: 60 });
    assert_eq!(middle.preview_stop(15, 60), 20);
    assert_eq!(middle.preview_stop(25, 60), 60);
    assert_eq!(mix_duration(None, middle), 60);
    assert_eq!(mix_duration(None, FavoriteRange { start: 0, end: 90 }), 90);
    assert_eq!(mix_duration(Some(0), middle), 1);
}

#[test]
fn changes_of_a_range_are_heard() {
    let mut app = opened();
    let request = app.edit_mix_range(0, Some(100), RangeEdit::SetStart { to: 70 });
    assert_eq!(request, PreviewRequest::Play { from: 70, stop: 71 });
    assert_eq!(
        app.mix.as_ref().unwrap().tracks[0].range,
        FavoriteRange { start: 70, end: 71 }
    );
    app.active_track_path = Some("/m/a.mp3".to_owned());
    let request = app.edit_mix_range(0, Some(100), RangeEdit::EnterEnd { to: 90 });
    assert_eq!(request, PreviewRequest::StopAt { stop: 90 });
    let request =
        app.edit_mix_range(0, Some(100), RangeEdit::DragStart { to: 5, released: false });
    assert_eq!(request, PreviewRequest::Nothing);
    app.settle_mix_range(0, Some(50));
    assert_eq!(
        app.mix.as_ref().unwrap().tracks[0].range,
        FavoriteRange { start: 5, end: 50 }
    );
    let range = FavoriteRange { start: 1, end: 9 };
    assert_eq!(
        preview_after_click(4, range, 60, true),
        PreviewRequest::Seek { to: 4, stop: 9 }
    );
    assert_eq!(
        preview_after_click(100, range, 10, true),
        PreviewRequest::Seek { to: 10, stop: 10 }
    );
    assert_eq!(
        preview_after_edit(RangeEdit::EndAtPlayhead { to: 3 }, range, false),
        PreviewRequest::Nothing
    );
}

#[test]
fn a_waveform_without_a_duration_takes_nothing() {
    let mut app = opened();
    for edit in [
        RangeEdit::DragStart { to: 9, released: true },
        RangeEdit::DragEnd { to: 9, released: true },
        RangeEdit::SetStart { to: 9 },
    ] {
        assert_eq!(app.edit_mix_range(0, None, edit), PreviewRequest::Nothing);
        assert_eq!(
            app.mix.as_ref().unwrap().tracks[0].range,
            FavoriteRange { start: 0, end: 60 }
        );
    }
    assert_eq!(app.click_mix_waveform(0, None, 5), PreviewRequest::Nothing);
    assert_eq!(
        app.edit_mix_range(0, None, RangeEdit::EnterStart { to: 9 }),
        PreviewRequest::Play { from: 9, stop: 60 }
    );
}

#[test]
fn clicks_on_a_waveform_lie_within_the_track() {
    let mut app = opened();
    assert_eq!(
        app.click_mix_waveform(0, Some(10), 100),
        PreviewRequest::Play { from: 10, stop: 10 }
    );
    assert_eq!(
        app.click_mix_waveform(0, Some(90), 5),
        PreviewRequest::Play { from: 5, stop: 60 }
    );
    app.active_track_path = Some("/M/A.mp3".to_owned());
    assert_eq!(
        app.click_mix_waveform(0, Some(90), 70),
        PreviewRequest::Seek { to: 70, stop: 90 }
    );
    assert_eq!(app.click_mix_waveform(3, Some(90), 70), PreviewRequest::Nothing);
    app.jobs.dj_mix = true;
    assert_eq!(app.click_mix_waveform(0, Some(90), 70), PreviewRequest::Nothing);
}

#[test]
fn nothing_is_previewed_while_a_mix_is_exported() {
    let mut app = opened();
    app.play_mix_preview("/m/b.mp3".to_owned(), 0, 40, silent());
    app.take_effects();
    app.jobs.dj_mix = true;
    app.play_mix_preview("/m/a.mp3".to_owned(), 0, 50, silent());
    app.seek_mix_preview(51);
    app.stop_mix_preview_at("/m/b.mp3", 52);
    assert!(app.take_effects().is_empty());
    let mix = app.mix.as_ref().unwrap();
    assert_eq!(mix.preview_track_path.as_deref(), Some("/m/b.mp3"));
    assert_eq!(mix.preview_stop_seconds, Some(40));
}

#[test]
fn mixes_are_named_after_the_playlist() {
    assert_eq!(default_mix_file_name(" Caf\u{e9}/1 ", 7), "Caf__1-dj-mix-7.mp3");
    assert_eq!(default_mix_file_name("   ", 7), "playlist-dj-mix-7.mp3");
}

#[test]
fn previews_know_the_waveform_of_a_track() {
    let mut app = opened();
    let shown = app.state.selected_playlist_index;
    app.state.playlists[shown].tracks[0].waveform = vec![5, 6];
    app.state.playlists[shown].tracks[0].metadata.duration_seconds_bits = Some(12.0_f32.to_bits());
    assert_eq!(
        app.dj_preview_waveform_for_path("/M/a.mp3"),
        (vec![5, 6], Some(12.0_f32.to_bits()))
    );
    app.state.playlists[shown].tracks[0].metadata.duration_seconds_bits = Some(0);
    assert_eq!(app.dj_preview_waveform_for_path("/m/a.mp3").1, None);
    assert_eq!(app.dj_preview_waveform_for_path("/nowhere.mp3"), (Vec::new(), None));
}
