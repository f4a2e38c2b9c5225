use audio_orbit::file_operations::{copy_candidate, deduplicate_paths, operation_error_message};
use audio_orbit::lookup::{
    find_track_by_exact_path_or_file_name, resolve_folder_sync_target, FolderLibrarySyncTarget,
};
use audio_orbit::playlist::Playlist;
use audio_orbit::track::{AudioFile, Track};

fn track(path: &str) -> Track {
    Track::from_path(AudioFile::new(path.to_owned(), None), None, 0)
}

fn folder_playlist(name: &str, source: &str) -> Playlist {
    Playlist::from_folder(name, source.to_owned(), 1, Vec::new())
}

#[test]
fn deduplicate_paths_uses_normalized_path_keys() {
    let paths = vec!["music/song.mp3".to_owned(), "music/song.mp3".to_owned()];
    assert_eq!(deduplicate_paths(paths).len(), 1);
}

#[test]
fn deduplication_keeps_the_first_spelling_in_order() {
    let paths = vec![
        "b.mp3".to_owned(),
        "A.mp3".to_owned(),
        "B.MP3".to_owned(),
        "a.mp3".to_owned(),
        "c.mp3".to_owned(),
    ];
    let distinct = deduplicate_paths(paths);
    assert_eq!(distinct, vec!["b.mp3", "A.mp3", "c.mp3"]);
    assert_eq!(deduplicate_paths(distinct.clone()), distinct);
}

#[test]
fn folder_sync_target_follows_playlist_reordering_and_renaming() {
    let target = FolderLibrarySyncTarget {
        playlist_index: 1,
        playlist_name: "Old name".to_owned(),
        source_folder: "C:/Music".to_owned(),
    };
    let playlists = vec![
        folder_playlist("Renamed", "C:/Music"),
        folder_playlist("Other", "C:/Other"),
    ];
    assert_eq!(resolve_folder_sync_target(&playlists, &target), Some(0));
}

#[test]
fn folder_sync_target_rejects_ambiguous_source_fallback() {
    let target = FolderLibrarySyncTarget {
        playlist_index: 4,
        playlist_name: "Removed".to_owned(),
        source_folder: "C:/Music".to_owned(),
    };
    let playlists = vec![
        folder_playlist("First", "C:/Music"),
        folder_playlist("Second", "C:/Music"),
    ];
    assert_eq!(resolve_folder_sync_target(&playlists, &target), None);
}

#[test]
fn playlist_search_prefers_exact_path_over_earlier_file_name_match() {
    let requested = "C:/Music/Artist/Track.mp3";
    let mut playlist = Playlist::new("Target");
    playlist.tracks = vec![track("D:/Archive/Track.mp3"), track(requested)];
    assert_eq!(find_track_by_exact_path_or_file_name(&playlist, requested), Some(1));
}

#[test]
fn playlist_search_falls_back_to_exact_file_name() {
    let requested = "C:/Music/Artist/Track.mp3";
    let mut playlist = Playlist::new("Target");
    playlist.tracks = vec![track("D:/Archive/Other Track.mp3"), track("D:/Archive/TRACK.MP3")];
    assert_eq!(find_track_by_exact_path_or_file_name(&playlist, requested), Some(1));
}

#[test]
fn playlist_search_rejects_partial_file_name_matches() {
    let requested = "C:/Music/Artist/Track.mp3";
    let mut playlist = Playlist::new("Target");
    playlist.tracks = vec![track("D:/Archive/Track (Remix).mp3")];
    assert_eq!(find_track_by_exact_path_or_file_name(&playlist, requested), None);
}

#[test]
fn copies_are_numbered_behind_the_stem() {
    assert_eq!(copy_candidate("out", "in/song.mp3", 1).as_deref(), Some("out/song.mp3"));
    assert_eq!(copy_candidate("out", "in/song.mp3", 2).as_deref(), Some("out/song (2).mp3"));
    assert_eq!(copy_candidate("out", "in/song", 13).as_deref(), Some("out/song (13)"));
    assert_eq!(copy_candidate("out", "in/song.", 2).as_deref(), Some("out/song (2)"));
    assert_eq!(copy_candidate("out", "/", 1), None);
}

#[test]
fn at_most_three_errors_are_listed() {
    let errors: Vec<String> = vec!["a".to_owned(), "b".to_owned(), "c".to_owned()];
    assert_eq!(operation_error_message("Failed", &Vec::new()), None);
    assert_eq!(operation_error_message("Failed", &errors), Some("Failed: a | b | c".to_owned()));
    let mut more = errors.clone();
    more.push("d".to_owned());
    more.push("e".to_owned());
    assert_eq!(
        operation_error_message("Failed", &more),
        Some("Failed: a | b | c | and 2 more error(s)".to_owned())
    );
}
