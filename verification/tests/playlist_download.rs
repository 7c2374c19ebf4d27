use soundome::cli::api::models::{PlaylistDto, PlaylistTrackArtistDto, PlaylistTrackDto};
use soundome::cli::commands::library::playlist::{
    build_dest_path, dest_file_name, download_root, finish_manifest, lookup_playlist,
    manifest_entry, playlist_dir_name, sanitize_filename, should_skip, track_extension,
    PlaylistLookup, TrackOutcome,
};

fn playlist(id: i32, name: &str) -> PlaylistDto {
    PlaylistDto { id, name: name.to_string(), source: "spotify".to_string(), source_url: None, cover: None }
}

#[test]
fn playlists_are_found_by_id_or_name() {
    let all = vec![playlist(1, "Road Trip"), playlist(2, "Chill"), playlist(3, "Chill Out")];
    assert!(matches!(lookup_playlist(all.clone(), "2"), PlaylistLookup::Found(p) if p.id == 2));
    assert!(matches!(lookup_playlist(all.clone(), "9"), PlaylistLookup::NoSuchId(9)));
    assert!(matches!(lookup_playlist(all.clone(), "road"), PlaylistLookup::Found(p) if p.id == 1));
    assert!(matches!(lookup_playlist(all.clone(), "jazz"), PlaylistLookup::NoMatch));
    match lookup_playlist(all, "chill") {
        PlaylistLookup::Ambiguous(ps) => assert_eq!(ps.iter().map(|p| p.id).collect::<Vec<_>>(), vec![2, 3]),
        _ => panic!("expected several matches"),
    }
}

#[test]
fn file_names_are_sanitized() {
    assert_eq!(sanitize_filename("  AC/DC: Live?  "), "AC_DC_ Live_");
    assert_eq!(sanitize_filename("plain"), "plain");
}

#[test]
fn destination_names_carry_a_padded_number() {
    assert_eq!(dest_file_name(&[], "Song", "mp3", 3, 12), "03 - Song.mp3");
    assert_eq!(dest_file_name(&["A", "B"], "Song", "flac", 7, 150), "007 - A, B - Song.flac");
    assert_eq!(dest_file_name(&["X"], "T", "m4a", 12, 1000), "0012 - X - T.m4a");
    let p = build_dest_path("/out", &["A"], "S", "mp3", 1, 2);
    assert_eq!(p, "/out/01 - A - S.mp3");
    assert_eq!(build_dest_path("/out", &["A", "B"], "T/1", "mp3", 7, 120), "/out/007 - A, B - T_1.mp3");
    assert_eq!(build_dest_path("/out/", &[], "T", "flac", 3, 5), "/out/03 - T.flac");
    assert_eq!(build_dest_path("", &[], "T", "flac", 3, 5), "03 - T.flac");
}

#[test]
fn playlist_directories() {
    assert_eq!(playlist_dir_name(7, "Road: Trip"), "0007 - Road_ Trip");
    assert_eq!(playlist_dir_name(12345, "x"), "12345 - x");
    assert_eq!(playlist_dir_name(-5, "x"), "-005 - x");
    assert_eq!(download_root("/music", true, 7, "Road"), "/music");
    let nested = download_root("/music", false, 7, "Road");
    assert_eq!(nested, "/music/0007 - Road");
}

#[test]
fn downloaded_tracks_keep_their_extension() {
    assert_eq!(track_extension(&Some("./lib/a/b.flac".to_string())), "flac");
    assert_eq!(track_extension(&Some("./lib/a/noext".to_string())), "mp3");
    assert_eq!(track_extension(&None), "mp3");
    assert!(should_skip(true, true));
    assert!(!should_skip(false, true));
    assert!(!should_skip(true, false));
}

fn track() -> PlaylistTrackDto {
    PlaylistTrackDto {
        id: 9,
        title: "Song".to_string(),
        artists: vec![
            PlaylistTrackArtistDto { id: Some(1), name: "A".to_string() },
            PlaylistTrackArtistDto { id: None, name: "B".to_string() },
        ],
        album: None,
        duration: None,
        cover: None,
        genre: None,
        file_path: None,
    }
}

#[test]
fn manifest_lines_and_counts() {
    let t = track();
    let skipped = manifest_entry(0, &t, "/o/01.mp3".to_string(), TrackOutcome::AlreadyPresent);
    assert_eq!(skipped.index, 1);
    assert_eq!(skipped.status, "skipped");
    assert_eq!(skipped.message.as_deref(), Some("already exists"));
    assert_eq!(skipped.artists, vec!["A".to_string(), "B".to_string()]);
    let ok = manifest_entry(1, &t, "/o/02.mp3".to_string(), TrackOutcome::Downloaded { tag_warning: None });
    assert_eq!((ok.index, ok.status.as_str(), ok.message.clone()), (2, "downloaded", None));
    let failed = manifest_entry(2, &t, "/o/03.mp3".to_string(), TrackOutcome::Failed { error: "404".to_string() });
    assert_eq!((failed.status.as_str(), failed.message.as_deref()), ("failed", Some("404")));

    let warned = manifest_entry(
        3,
        &t,
        "/o/04.mp3".to_string(),
        TrackOutcome::Downloaded { tag_warning: Some("no tags".to_string()) },
    );
    let m = finish_manifest(&playlist(4, "P"), "/o".to_string(), 4, vec![skipped, ok, failed, warned]);
    assert_eq!((m.playlist_id, m.total_tracks, m.downloaded, m.skipped, m.failed), (4, 4, 2, 1, 1));
    assert_eq!(m.entries.len(), 4);
    let empty = finish_manifest(&playlist(4, "P"), "/o".to_string(), 0, vec![]);
    assert_eq!((empty.downloaded, empty.skipped, empty.failed), (0, 0, 0));
}
