use soundome::cli::api::models::{ArtistDto, PlaylistDto, TrackAlbumDto, TrackArtistDto, TrackDto};
use soundome::cli::commands::library::search::{
    apply_artist_filters, apply_limit, apply_playlist_filters, apply_track_filters,
};

fn playlist(id: i32, name: &str, source: &str) -> PlaylistDto {
    PlaylistDto { id, name: name.to_string(), source: source.to_string(), source_url: None, cover: None }
}

#[test]
fn playlist_filters_ignore_case() {
    let mut rows = vec![
        playlist(1, "Morning Jazz", "spotify"),
        playlist(2, "Evening", "SoundCloud"),
        playlist(3, "JAZZ night", "soundcloud"),
    ];
    apply_playlist_filters(&mut rows, Some("jazz"), Some("Sound"));
    assert_eq!(rows.iter().map(|p| p.id).collect::<Vec<_>>(), vec![3]);
}

#[test]
fn artist_filter_and_limit() {
    let mut rows = vec![
        ArtistDto { id: 1, name: "Air".to_string(), icon: None },
        ArtistDto { id: 2, name: "Fairground".to_string(), icon: None },
        ArtistDto { id: 3, name: "Blur".to_string(), icon: None },
    ];
    apply_artist_filters(&mut rows, Some("AIR"));
    assert_eq!(rows.iter().map(|a| a.id).collect::<Vec<_>>(), vec![1, 2]);
    apply_limit(&mut rows, Some(1));
    assert_eq!(rows.len(), 1);
    apply_limit(&mut rows, None);
    assert_eq!(rows.len(), 1);
}

fn track(id: i32, title: &str, artist: &str, album: Option<&str>, genre: Option<&str>, file: bool, nv: bool) -> TrackDto {
    TrackDto {
        id,
        title: title.to_string(),
        artists: vec![TrackArtistDto { id: None, name: artist.to_string() }],
        album: album.map(|a| TrackAlbumDto { id: None, title: a.to_string() }),
        date: None,
        genre: genre.map(|g| g.to_string()),
        cover: None,
        duration: None,
        track_number: None,
        disc_number: None,
        label: None,
        file_path: if file { Some("a.mp3".to_string()) } else { None },
        needs_validation: nv,
    }
}

#[test]
fn track_filters_combine() {
    let rows = || {
        vec![
            track(1, "Blue", "Miles", Some("Kind of Blue"), Some("Jazz"), true, false),
            track(2, "Red", "Blue Band", None, Some("rock"), true, true),
            track(3, "Green", "X", Some("Blues"), Some("jazz fusion"), false, true),
        ]
    };
    let mut q = rows();
    apply_track_filters(&mut q, Some("blue"), None, false, false);
    assert_eq!(q.iter().map(|t| t.id).collect::<Vec<_>>(), vec![1, 2, 3]);
    let mut g = rows();
    apply_track_filters(&mut g, None, Some("JAZZ"), false, false);
    assert_eq!(g.iter().map(|t| t.id).collect::<Vec<_>>(), vec![1, 3]);
    let mut nv = rows();
    apply_track_filters(&mut nv, None, None, true, true);
    assert_eq!(nv.iter().map(|t| t.id).collect::<Vec<_>>(), vec![2]);
}
