use audio_orbit::calendar::{format_timestamp, utc_timestamp_parts};
use audio_orbit::live_source::{
    frame_sides, gains_hold_until, gaps_to_fill, record_level, samples_to_trim,
    silence_frame_ranges, trim_levels, BucketCounter, FadeIn, LevelBucket, SkipState,
    StreamPosition, StreamTarget,
};
use audio_orbit::player::{
    current_default_output_device_name, fade_is_heard, recording_stop_stem,
    unique_recording_path, AudioPlayer, RecordingStart, SourceCommand,
};
use audio_orbit::scanning::{
    is_recursive_scan_link, EntryKind, FileAttributes, FolderEntry, FolderScan,
};
use audio_orbit::settings::{
    get_balance, set_balance, BalanceChange, DspSettings, OrbitMode, VolumeIntensity,
};
use audio_orbit::version::{display_version, normalize_dev_version};

fn sound() -> DspSettings {
    DspSettings {
        mode: OrbitMode::VirtualEightDirectionOrbit,
        orbit_enabled: true,
        output_level_percent: 100,
        stereo_width_percent: 70,
        orbit_speed_percent: 100,
        transition_smoothness_percent: 50,
        depth_cue_percent: 40,
        skip_silence_enabled: true,
        silence_trigger_millis: 500,
        silence_threshold_seconds: 1,
        silence_threshold_db: -45,
        silence_trim_end_regardless_of_duration: false,
    }
}

#[test]
fn a_held_source_stays_where_it_is() {
    let mut player = AudioPlayer::new("Speakers".to_owned());
    assert_eq!(player.output_device_name(), "Speakers");
    assert_eq!(player.pause_or_resume(0), None);
    player.file_started("/m/a.mp3", sound(), 0, 1_000, 100);
    assert!(player.is_playing(false));
    assert_eq!(player.played_nanos(400), 300);
    assert_eq!(player.pause_or_resume(400), Some(SourceCommand::Hold));
    assert!(player.is_paused(false));
    assert_eq!(player.played_nanos(900), 300);
    assert_eq!(player.pause_or_resume(900), Some(SourceCommand::Resume));
    assert_eq!(player.played_nanos(1_000), 400);
    assert_eq!(player.played_nanos(9_000), 1_000);
    assert!(player.has_finished(true));
    assert!(!player.is_playing(true));
    assert_eq!(player.current_settings(), Some(sound()));
    assert!(player.stop().is_none());
    assert_eq!(player.played_nanos(9_000), 0);
    assert!(!player.status(false).is_active());
}

#[test]
fn volume_of_the_player_is_bounded() {
    let mut player = AudioPlayer::new("Speakers".to_owned());
    player.set_volume_percent(180);
    assert_eq!(player.volume_percent, 100);
    player.set_volume_percent(35);
    assert_eq!(player.volume_percent, 35);
}

#[test]
fn recordings_need_a_station_and_end_under_their_own_name() {
    let mut player = AudioPlayer::new("Speakers".to_owned());
    assert!(matches!(player.start_radio_recording(), RecordingStart::NoStation));
    player.radio_started("http://radio.example", 5);
    assert!(player.keeps_visualizer_history("http://radio.example"));
    assert!(!player.keeps_visualizer_history("http://other.example"));
    match player.start_radio_recording() {
        RecordingStart::Create { stem, extension } => {
            assert_eq!(stem, "audio-orbit-records-recording");
            assert_eq!(extension, "part");
        }
        other => panic!("unexpected {other:?}"),
    }
    player.recording_created("/r/audio-orbit-records-recording.part".to_owned(), 7);
    player.bytes_recorded(40);
    player.bytes_recorded(2);
    assert_eq!(player.radio_recording_info().unwrap().bytes_written, 42);
    assert!(matches!(player.start_radio_recording(), RecordingStart::GoesOn { .. }));
    let finish = player.stop_radio_recording(0).unwrap();
    assert_eq!(finish.folder, "/r");
    assert_eq!(finish.stem, "audio-orbit-records-1970-01-01-00-00-00");
    assert_eq!(finish.extension, "mp3");
    assert_eq!(finish.recording.started_at, 7);
    assert!(!player.is_radio_recording());
    assert!(player.stop_radio_recording(0).is_none());
}

#[test]
fn recordings_get_numbers_from_the_second_attempt_on() {
    assert_eq!(unique_recording_path("/r", "take", "mp3", 1), "/r/take.mp3");
    assert_eq!(unique_recording_path("/r", "take", "mp3", 2), "/r/take-2.mp3");
    assert_eq!(unique_recording_path("/r", "take", "mp3", 13), "/r/take-13.mp3");
    assert_eq!(recording_stop_stem(86_399), "audio-orbit-records-1970-01-01-23-59-59");
}

#[test]
fn leap_days_are_counted() {
    assert_eq!(utc_timestamp_parts(951_782_400), (2000, 2, 29, 0, 0, 0));
    assert_eq!(utc_timestamp_parts(1_709_251_199), (2024, 2, 29, 23, 59, 59));
    assert_eq!(utc_timestamp_parts(4_107_542_400), (2100, 3, 1, 0, 0, 0));
    assert_eq!(format_timestamp((2024, 2, 9, 3, 4, 5)), "2024-02-09-03-04-05");
}

#[test]
fn a_general_name_stands_for_a_device_without_one() {
    assert_eq!(current_default_output_device_name(None), "Default output device");
    assert_eq!(current_default_output_device_name(Some("Headset".to_owned())), "Headset");
}

#[test]
fn short_fades_are_not_heard() {
    assert!(!fade_is_heard(0.05_f32.to_bits()));
    assert!(fade_is_heard(0.051_f32.to_bits()));
    assert!(!fade_is_heard((-1.0_f32).to_bits()));
    assert!(!fade_is_heard(f32::NAN.to_bits()));
}

#[test]
fn silence_is_passed_over() {
    let mut source = SkipState::new(vec![(20, 30), (5, 10), (8, 12), (40, 40)], 0);
    assert_eq!(source.ranges, vec![(5, 10), (8, 12), (20, 30)]);
    assert_eq!(source.skip_silent_frames(), 0);
    for _ in 0..5 {
        source.frame_heard();
    }
    assert_eq!(source.skip_silent_frames(), 7);
    assert_eq!(source.frame, 12);
    let mut later = SkipState::new(vec![(5, 10), (10, 15), (20, 30)], 7);
    assert_eq!(later.skip_silent_frames(), 8);
    assert_eq!(later.frame, 15);
    assert_eq!(silence_frame_ranges(vec![(3, 1), (2, 4)]), vec![(2, 4)]);
}

#[test]
fn a_fade_gives_a_growing_share() {
    let mut fade = FadeIn::new(2);
    assert_eq!(fade.next_share(), Some((0, 2)));
    assert_eq!(fade.next_share(), Some((1, 2)));
    assert_eq!(fade.next_share(), None);
    assert_eq!(FadeIn::new(0).next_share(), None);
}

#[test]
fn frames_have_two_sides() {
    assert_eq!(frame_sides(&vec![]), None);
    assert_eq!(frame_sides(&vec![7]), Some((7, 7)));
    assert_eq!(frame_sides(&vec![7, 8, 9]), Some((7, 8)));
    assert_eq!(samples_to_trim(10, 100), 20);
    assert_eq!(samples_to_trim(50, 100), 0);
    assert_eq!(samples_to_trim(usize::MAX, 100), 0);
    assert_eq!(gains_hold_until(100), 228);
    assert_eq!(gains_hold_until(u64::MAX), u64::MAX);
}

#[test]
fn a_stream_stays_where_it_is() {
    let mut stream = StreamPosition::new();
    stream.bytes_read(10);
    assert_eq!(stream.seek(StreamTarget::FromCurrent { offset: 0 }), Some(10));
    assert_eq!(stream.seek(StreamTarget::FromStart { position: 10 }), Some(10));
    assert_eq!(stream.seek(StreamTarget::FromStart { position: 0 }), None);
    assert_eq!(stream.seek(StreamTarget::FromCurrent { offset: 1 }), None);
    assert_eq!(stream.seek(StreamTarget::FromEnd { offset: 0 }), None);
}

#[test]
fn samples_fill_buckets() {
    let mut counter = BucketCounter::new(192, 64);
    assert_eq!(counter.samples_per_bucket, 3);
    assert_eq!(
        (0..6).map(|_| counter.push_sample()).collect::<Vec<_>>(),
        vec![false, false, true, false, false, true]
    );
    assert_eq!(BucketCounter::new(10, 64).samples_per_bucket, 1);
    assert_eq!(BucketCounter::new(10, 0).samples_per_bucket, 10);
}

#[test]
fn old_levels_are_dropped() {
    let mut levels = vec![
        LevelBucket { at: 0, level_bits: 1 },
        LevelBucket { at: 50, level_bits: 2 },
        LevelBucket { at: 90, level_bits: 3 },
    ];
    trim_levels(&mut levels, 100, 50, 10);
    assert_eq!(levels.len(), 2);
    trim_levels(&mut levels, 100, 50, 1);
    assert_eq!(levels, vec![LevelBucket { at: 90, level_bits: 3 }]);
    record_level(&mut levels, 4, 95);
    assert_eq!(levels.len(), 2);
    record_level(&mut levels, 5, 400_000_000_000);
    assert_eq!(levels.len(), 1);
}

#[test]
fn small_gaps_are_filled() {
    let loud = vec![true, false, true, false, false, false, true, false, false, false, false, true];
    assert_eq!(gaps_to_fill(&loud), vec![(0, 2), (2, 6)]);
    assert_eq!(gaps_to_fill(&vec![false, false]), vec![]);
    assert_eq!(gaps_to_fill(&vec![true, true]), vec![]);
}

#[test]
fn a_scan_passes_links_over_and_sorts_what_it_finds() {
    let entry = |path: &str, kind| FolderEntry { path: path.to_owned(), kind, size_bytes: Some(1) };
    let mut scan = FolderScan::new("/m".to_owned());
    assert_eq!(scan.next_folder().as_deref(), Some("/m"));
    scan.take_entries(vec![
        entry("/m/linked", EntryKind::Link),
        entry("/m/sub", EntryKind::Folder),
        entry("/m/b.MP3", EntryKind::File),
        entry("/m/notes.txt", EntryKind::File),
        entry("/m/pipe.mp3", EntryKind::Other),
    ]);
    assert_eq!(scan.next_folder().as_deref(), Some("/m/sub"));
    scan.take_entries(vec![entry("/m/A.flac", EntryKind::File)]);
    assert_eq!(scan.next_folder(), None);
    let found = scan.finish();
    let paths: Vec<&str> = found.files.iter().map(|file| file.path.as_str()).collect();
    assert_eq!(paths, vec!["/m/A.flac", "/m/b.MP3"]);
}

#[test]
fn links_are_told_by_their_attributes() {
    assert!(is_recursive_scan_link(true, FileAttributes::NotKept));
    assert!(!is_recursive_scan_link(false, FileAttributes::NotKept));
    assert!(is_recursive_scan_link(false, FileAttributes::Unreadable));
    assert!(is_recursive_scan_link(false, FileAttributes::Known { bits: 0x410 }));
    assert!(!is_recursive_scan_link(false, FileAttributes::Known { bits: 0x10 }));
}

#[test]
fn balance_is_set_by_channel_or_as_a_whole() {
    let volume = VolumeIntensity::new(40, 250);
    assert_eq!(volume.right_percent, 100);
    assert_eq!(
        set_balance(2, volume),
        BalanceChange::Channels { left_percent: 40, right_percent: 100 }
    );
    assert_eq!(set_balance(1, volume), BalanceChange::Whole { sum_percent: 140 });
    assert_eq!(get_balance(2, 10, 120), VolumeIntensity { left_percent: 10, right_percent: 100 });
    assert_eq!(get_balance(1, 10, 120), VolumeIntensity { left_percent: 10, right_percent: 10 });
}

#[test]
fn versions_are_shown_with_a_letter_in_front() {
    assert_eq!(normalize_dev_version("  1.2 "), "v1.2");
    assert_eq!(normalize_dev_version("v3"), "v3");
    assert_eq!(normalize_dev_version(" \t"), "v0.0.0-dev");
    assert_eq!(display_version(true, "1.0.0", Some("x"), None), "v1.0.0");
    assert_eq!(display_version(false, "1.0.0", Some("x"), None), "vx");
    assert_eq!(display_version(false, "1.0.0", None, Some("abc")), "v0.0.0-abc");
    assert_eq!(display_version(false, "1.0.0", None, None), "v0.0.0-dev");
}
