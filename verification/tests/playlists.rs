use audio_orbit::folder_sync::FileAvailability;
use audio_orbit::paths::{path_is_same_or_descendant, path_key, same_path};
use audio_orbit::playlist::{Playlist, PlaylistKind};
use audio_orbit::settings::{
    DspSettings, LastPlayedTrack, LibrarySettings, OrbitMode, PlaybackSettings,
};
use audio_orbit::state::{persisted_state, SavedState};
use audio_orbit::text::{is_blank, trim};
use audio_orbit::track::{AudioFile, Track};

fn file(path: &str) -> AudioFile {
    AudioFile::new(path.to_owned(), None)
}

fn files(paths: &[&str]) -> Vec<AudioFile> {
    paths.iter().map(|path| file(path)).collect()
}

fn track_paths(playlist: &Playlist) -> Vec<String> {
    playlist.tracks.iter().map(|track| track.path.clone()).collect()
}

fn sound_settings() -> DspSettings {
    DspSettings {
        mode: OrbitMode::SmoothStereoOrbit,
        orbit_enabled: true,
        output_level_percent: 100,
        stereo_width_percent: 80,
        orbit_speed_percent: 100,
        transition_smoothness_percent: 50,
        depth_cue_percent: 40,
        skip_silence_enabled: false,
        silence_trigger_millis: 2000,
        silence_threshold_seconds: 2,
        silence_threshold_db: -60,
        silence_trim_end_regardless_of_duration: false,
    }
}

#[test]
fn playback_settings_keep_auto_output_switch_disabled_for_existing_state() {
    let settings = PlaybackSettings::default();

    assert!(!settings.auto_switch_output_device);
}

#[test]
fn favorites_insert_new_tracks_at_top_and_restore_added_order() {
    let alpha = "C:/Music/Alpha.mp3";
    let beta = "C:/Music/Beta.mp3";
    let charlie = "C:/Music/Charlie.mp3";
    let mut favorites = Playlist::favorites();

    assert!(favorites.add_track_path(file(alpha), None, 0));
    assert!(favorites.add_track_path(file(beta), None, 0));
    assert_eq!(track_paths(&favorites), vec![beta, alpha]);

    favorites.sort_tracks();
    assert_eq!(track_paths(&favorites), vec![alpha, beta]);

    assert!(favorites.add_track_path(file(charlie), None, 0));
    assert_eq!(track_paths(&favorites), vec![charlie, alpha, beta]);
    assert!(!favorites.add_track_path(file(alpha), None, 0));

    favorites.sort_favorites_by_added();
    assert_eq!(track_paths(&favorites), vec![charlie, beta, alpha]);
}

#[test]
fn favorites_keep_manual_order_across_serialization() {
    let alpha = "C:/Music/Alpha.mp3";
    let beta = "C:/Music/Beta.mp3";
    let mut favorites = Playlist::favorites();
    favorites.add_track_path(file(alpha), None, 0);
    favorites.add_track_path(file(beta), None, 0);
    favorites.tracks.swap(0, 1);

    let mut restored = favorites.clone();

    assert_eq!(track_paths(&restored), vec![alpha, beta]);
    restored.sort_favorites_by_added();
    assert_eq!(track_paths(&restored), vec![beta, alpha]);
}

#[test]
fn favorites_migrate_missing_added_sequence_without_reordering_tracks() {
    let alpha = "C:/Music/Alpha.mp3";
    let beta = "C:/Music/Beta.mp3";
    let mut favorites = Playlist::favorites();
    favorites.tracks = vec![
        Track::from_path(file(beta), None, 0),
        Track::from_path(file(alpha), None, 0),
    ];

    let mut restored = favorites.clone();
    restored.ensure_favorite_added_sequences();

    assert_eq!(track_paths(&restored), vec![beta, alpha]);
    assert_eq!(
        restored
            .tracks
            .iter()
            .map(|track| track.favorite_added_sequence)
            .collect::<Vec<_>>(),
        vec![Some(2), Some(1)]
    );
}

#[test]
fn non_favorite_playlists_do_not_persist_favorite_sequences() {
    let mut playlist = Playlist::new("Manual");
    let mut track = Track::from_path(file("C:/Music/Alpha.mp3"), None, 0);
    track.favorite_added_sequence = Some(42);
    playlist.tracks.push(track);

    playlist.ensure_favorite_added_sequences();

    assert_eq!(playlist.tracks[0].favorite_added_sequence, None);
}

#[test]
fn library_settings_keep_automatic_sync_disabled_for_existing_state() {
    let settings = LibrarySettings::default();

    assert!(!settings.auto_sync_selected_playlist);
}

#[test]
fn path_descendant_check_respects_component_boundaries() {
    let root = "C:/Music";

    assert!(path_is_same_or_descendant(root, root));
    assert!(path_is_same_or_descendant("C:/Music/Album/Track.mp3", root));
    assert!(!path_is_same_or_descendant("C:/Music Archive/Track.mp3", root));
    assert!(path_is_same_or_descendant("C:/Music/Track.mp3", "C:/"));
}

#[test]
fn incremental_folder_sync_touches_only_changed_paths() {
    let root = "C:/Music";
    let alpha = "C:/Music/Album/Alpha.mp3";
    let beta = "C:/Music/Album/Beta.mp3";
    let gamma = "C:/Music/Other/Gamma.mp3";
    let delta = "C:/Music/Album/Delta.mp3";
    let mut playlist =
        Playlist::from_folder("Folder", root.to_owned(), 2, files(&[alpha, beta, gamma]));

    let stats = playlist
        .merge_tracks_from_folder_changes(&files(&[beta, delta]), &vec![alpha.to_owned()]);

    assert_eq!(stats.added, 1);
    assert_eq!(stats.newly_missing, 1);
    assert_eq!(stats.present_total, 3);
    assert_eq!(stats.missing_total, 1);
    assert!(playlist.tracks.iter().find(|track| same_path(&track.path, alpha)).unwrap().missing);
    assert!(!playlist.tracks.iter().find(|track| same_path(&track.path, gamma)).unwrap().missing);
    assert!(playlist.tracks.iter().any(|track| same_path(&track.path, delta)));
}

#[test]
fn folder_sync_retains_missing_tracks_and_adds_new_files() {
    let alpha = "C:/Music/Alpha.mp3";
    let beta = "C:/Music/Beta.mp3";
    let gamma = "C:/Music/Gamma.mp3";
    let mut playlist =
        Playlist::from_folder("Folder", "C:/Music".to_owned(), 1, files(&[alpha, beta]));

    let stats = playlist.merge_tracks_from_folder_scan(&files(&[beta, gamma]));

    assert_eq!(stats.added, 1);
    assert_eq!(stats.newly_missing, 1);
    assert_eq!(stats.missing_total, 1);
    assert_eq!(track_paths(&playlist), vec![alpha, beta, gamma]);
    assert!(playlist.tracks[0].missing);
    assert!(!playlist.tracks[1].missing);
    assert!(!playlist.tracks[2].missing);

    let restored = playlist.merge_tracks_from_folder_scan(&files(&[alpha, beta, gamma]));
    assert_eq!(restored.restored, 1);
    assert_eq!(restored.missing_total, 0);
    assert!(playlist.tracks.iter().all(|track| !track.missing));
}

#[test]
fn folder_sync_keeps_manual_order_and_appends_new_track_inside_group() {
    let alpha = "C:/Music/Artist/Alpha.mp3";
    let beta = "C:/Music/Artist/Beta.mp3";
    let gamma = "C:/Music/Artist/Gamma.mp3";
    let other = "C:/Music/Other/Track.mp3";
    let mut playlist =
        Playlist::from_folder("Folder", "C:/Music".to_owned(), 1, files(&[alpha, beta, other]));
    playlist.tracks.swap(0, 1);

    playlist.merge_tracks_from_folder_scan(&files(&[alpha, beta, gamma, other]));

    assert_eq!(track_paths(&playlist), vec![beta, alpha, gamma, other]);
}

#[test]
fn folder_group_normalization_preserves_group_and_track_order() {
    let root = "C:/Music";
    let artist_a_one = "C:/Music/Artist A/One.mp3";
    let artist_b_one = "C:/Music/Artist B/One.mp3";
    let artist_a_two = "C:/Music/Artist A/Two.mp3";
    let mut playlist = Playlist::from_folder(
        "Folder",
        root.to_owned(),
        1,
        files(&[artist_a_one, artist_b_one, artist_a_two]),
    );
    playlist.tracks = vec![
        Track::from_path(file(artist_a_one), playlist.source_folder.as_deref(), 1),
        Track::from_path(file(artist_b_one), playlist.source_folder.as_deref(), 1),
        Track::from_path(file(artist_a_two), playlist.source_folder.as_deref(), 1),
    ];

    playlist.ensure_folder_group_contiguity();

    assert_eq!(track_paths(&playlist), vec![artist_a_one, artist_a_two, artist_b_one]);
}

#[test]
fn folder_sync_preserves_existing_order_when_only_availability_changes() {
    let alpha = "C:/Music/Alpha.mp3";
    let beta = "C:/Music/Beta.mp3";
    let mut playlist =
        Playlist::from_folder("Folder", "C:/Music".to_owned(), 1, files(&[alpha, beta]));
    playlist.tracks.swap(0, 1);

    playlist.merge_tracks_from_folder_scan(&files(&[beta]));
    assert_eq!(track_paths(&playlist), vec![beta, alpha]);
    assert!(playlist.tracks[1].missing);

    playlist.merge_tracks_from_folder_scan(&files(&[alpha, beta]));
    assert_eq!(track_paths(&playlist), vec![beta, alpha]);
    assert!(playlist.tracks.iter().all(|track| !track.missing));
}

#[test]
fn availability_check_marks_and_restores_manual_tracks_without_reordering() {
    let alpha = "C:/Music/Alpha.mp3";
    let beta = "C:/Music/Beta.mp3";
    let mut playlist = Playlist::new("Manual");
    playlist.tracks = vec![
        Track::from_path(file(alpha), None, 0),
        Track::from_path(file(beta), None, 0),
    ];
    for track in &mut playlist.tracks {
        track.missing = false;
    }

    let availability = vec![
        FileAvailability { key: path_key(alpha), present: false },
        FileAvailability { key: path_key(beta), present: true },
    ];
    let missing = playlist.apply_track_availability(&availability);

    assert_eq!(missing.newly_missing, 1);
    assert_eq!(missing.missing_total, 1);
    assert_eq!(track_paths(&playlist), vec![alpha, beta]);

    let restored = playlist.apply_track_availability(&vec![
        FileAvailability { key: path_key(alpha), present: true },
        FileAvailability { key: path_key(beta), present: true },
    ]);
    assert_eq!(restored.restored, 1);
    assert_eq!(restored.missing_total, 0);
}

#[test]
fn temporary_playlist_is_runtime_only_and_read_only() {
    let mut state = SavedState::with_sound_settings(sound_settings());
    state.playlists.push(Playlist::temporary());
    state.selected_playlist_index = state.playlists.len() - 1;
    state.last_played_track = Some(LastPlayedTrack {
        playlist_index: state.selected_playlist_index,
        track_path: "C:/Music/mix.mp3".to_owned(),
    });
    state.playback_session.playlist_index = Some(state.selected_playlist_index);
    state.playback_session.track_path = Some("C:/Music/mix.mp3".to_owned());
    state.playback_session.was_active = true;

    let persisted = persisted_state(&state);

    assert!(persisted
        .playlists
        .iter()
        .all(|playlist| playlist.kind != PlaylistKind::Temporary));
    assert!(persisted.last_played_track.is_none());
    assert!(persisted.playback_session.playlist_index.is_none());
    assert!(!PlaylistKind::Temporary.accepts_manual_tracks());
    assert!(!PlaylistKind::Temporary.can_delete());
}

#[test]
fn each_kind_of_playlist_has_its_icon() {
    assert_eq!(PlaylistKind::Favorites.icon(), "\u{e0f2}");
    assert_eq!(PlaylistKind::Manual.icon(), "\u{e2e0}");
    assert_eq!(PlaylistKind::Folder.icon(), "\u{e0d7}");
    assert_eq!(PlaylistKind::Temporary.icon(), "\u{e2e0}");
}

#[test]
fn white_space_is_trimmed() {
    assert_eq!(trim("\t A b\u{a0}\n"), "A b");
    assert!(is_blank(" \u{2003}\t"));
    assert!(!is_blank(" . "));
}

#[test]
fn favorites_stand_newest_first_whatever_their_order_was() {
    let mut favorites = Playlist::favorites();
    for path in ["/m/a.mp3", "/m/b.mp3", "/m/c.mp3", "/m/d.mp3"] {
        assert!(favorites.add_track_path(file(path), None, 0));
    }
    favorites.tracks.swap(0, 2);
    favorites.tracks.swap(1, 3);
    favorites.sort_favorites_by_added();
    assert_eq!(
        track_paths(&favorites),
        vec!["/m/d.mp3", "/m/c.mp3", "/m/b.mp3", "/m/a.mp3"]
    );
    favorites.sort_tracks();
    favorites.sort_favorites_by_added();
    assert_eq!(
        track_paths(&favorites),
        vec!["/m/d.mp3", "/m/c.mp3", "/m/b.mp3", "/m/a.mp3"]
    );
}

#[test]
fn letter_case_does_not_matter_and_separators_do() {
    assert!(same_path("C:/Music/A.MP3", "c:/music/a.mp3"));
    assert!(same_path("/M/\u{c9}.mp3", "/m/\u{e9}.mp3"));
    assert!(same_path("/Caf\u{e9}/\u{39f}\u{3a3}X.MP3", "/cAF\u{e9}/\u{39f}\u{3a3}x.mp3"));
    assert!(!same_path("/caf\u{e9}/a", "/caf\u{e9}\\a"));
    assert_eq!(path_key("/\u{130}\\\u{212a}.MP3"), "/i\u{307}\\k.mp3");
    assert!(!same_path("C:/Music", "C:\\Music"));
    assert!(!same_path("/m/a.mp3", "/m/b.mp3"));
}
