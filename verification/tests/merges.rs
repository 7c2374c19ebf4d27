use soundome::database::repositories::album::DieselAlbumRepository;
use soundome::database::repositories::track::{DieselTrackRepository, ReferenceRow, TrackMergeError};
use soundome::server::routes::albums::{MergeAlbumsBody, MergeRequestError};
use soundome::server::routes::artists::MergeArtistsBody;

#[test]
fn track_merge_sources_are_checked() {
    assert_eq!(
        DieselTrackRepository::check_merge_sources(&vec![], 1),
        Err(TrackMergeError::SourcesNotDistinctFromTarget)
    );
    assert_eq!(
        DieselTrackRepository::check_merge_sources(&vec![2, 1], 1),
        Err(TrackMergeError::SourcesNotDistinctFromTarget)
    );
    assert_eq!(
        DieselTrackRepository::check_merge_sources(&vec![2, 3, 2], 1),
        Err(TrackMergeError::DuplicateSources)
    );
    assert_eq!(DieselTrackRepository::check_merge_sources(&vec![2, 3], 1), Ok(()));
}

#[test]
fn merged_track_keeps_identified_artists_once() {
    let ids = vec![Some(4), None, Some(2), Some(4), Some(7), None, Some(2)];
    assert_eq!(DieselTrackRepository::merged_artist_ids(&ids), vec![4, 2, 7]);
    assert!(DieselTrackRepository::merged_artist_ids(&vec![None]).is_empty());
}

#[test]
fn merged_playlist_links_prefer_the_target_position() {
    let target = 1;
    let rows = vec![
        (2, 100, Some(5)),
        (1, 100, Some(9)),
        (3, 200, None),
        (2, 200, Some(4)),
        (3, 300, Some(1)),
    ];
    let links = DieselTrackRepository::merged_playlist_links(target, &rows);
    assert_eq!(links, vec![(100, Some(9)), (200, None), (300, Some(1))]);
}

fn r(t: &str, p: &str, id: Option<&str>, url: Option<&str>) -> ReferenceRow {
    ReferenceRow {
        ref_type: t.to_string(),
        platform: p.to_string(),
        external_id: id.map(|s| s.to_string()),
        external_url: url.map(|s| s.to_string()),
    }
}

fn views(rows: &[ReferenceRow]) -> Vec<(String, String, Option<String>, Option<String>)> {
    rows.iter()
        .map(|x| (x.ref_type.clone(), x.platform.clone(), x.external_id.clone(), x.external_url.clone()))
        .collect()
}

#[test]
fn source_references_replace_and_others_merge() {
    let stored = vec![
        r("source", "youtube", Some("old"), None),
        r("metadata", "spotify", Some("m1"), None),
    ];
    let new_refs = vec![
        r("Source", "SoundCloud", Some("new"), Some("https://sc/new")),
        r("Metadata", "Spotify", Some("m1"), None),
        r("Metadata", "Deezer", Some("d1"), None),
        r("Reference", "Bandcamp", None, None),
    ];
    let result = DieselTrackRepository::set_references(stored, &new_refs);
    assert_eq!(
        views(&result),
        vec![
            ("metadata".to_string(), "spotify".to_string(), Some("m1".to_string()), None),
            (
                "source".to_string(),
                "soundcloud".to_string(),
                Some("new".to_string()),
                Some("https://sc/new".to_string())
            ),
            ("metadata".to_string(), "deezer".to_string(), Some("d1".to_string()), None),
        ]
    );
}

#[test]
fn a_pointless_source_reference_removes_the_stored_one() {
    let stored = vec![r("provider", "spotify", Some("p"), None)];
    let result = DieselTrackRepository::set_references(stored, &vec![r("Provider", "Spotify", None, None)]);
    assert!(result.is_empty());
}

#[test]
fn setting_no_references_changes_nothing() {
    let stored = vec![r("source", "youtube", Some("x"), None), r("weird", "Mixed", None, None)];
    let result = DieselTrackRepository::set_references(stored, &vec![]);
    assert_eq!(
        views(&result),
        vec![
            ("source".to_string(), "youtube".to_string(), Some("x".to_string()), None),
            ("weird".to_string(), "Mixed".to_string(), None, None),
        ]
    );
}

#[test]
fn page_rows_follow_the_requested_order() {
    let ids = vec![30, 10, 30, 20, 40];
    let loaded = vec![10, 20, 30];
    let order = DieselTrackRepository::hydration_order(&ids, &loaded);
    assert_eq!(order, vec![2, 0, 1]);
}

#[test]
fn album_merge_adds_only_missing_artists() {
    let target = vec![1, 2];
    let sources = vec![vec![2, 3], vec![4, 1]];
    assert_eq!(DieselAlbumRepository::artist_links_to_add(&target, &sources), vec![3, 4]);
}

#[test]
fn album_merge_links_an_artist_shared_by_two_sources_once() {
    let target = vec![1];
    let sources = vec![vec![5], vec![6, 5, 1], vec![7, 6]];
    assert_eq!(DieselAlbumRepository::artist_links_to_add(&target, &sources), vec![5, 6, 7]);
}

#[test]
fn merge_requests_are_checked() {
    let none = MergeAlbumsBody { source_ids: vec![], target_id: 1 };
    let with_target = MergeAlbumsBody { source_ids: vec![3, 1], target_id: 1 };
    let good = MergeAlbumsBody { source_ids: vec![3, 4], target_id: 1 };
    assert_eq!(none.check(), Err(MergeRequestError::NoSources));
    assert_eq!(with_target.check(), Err(MergeRequestError::TargetAmongSources));
    assert_eq!(good.check(), Ok(()));
    let artists = MergeArtistsBody { source_ids: vec![8], target_id: 8 };
    assert_eq!(artists.check(), Err(MergeRequestError::TargetAmongSources));
    let artists = MergeArtistsBody { source_ids: vec![], target_id: 8 };
    assert_eq!(artists.check(), Err(MergeRequestError::NoSources));
}

use soundome::database::repositories::album::{AlbumCandidate, AlbumRefRow, AlbumResolution};

#[test]
fn album_references_are_merged_without_replacement() {
    let stored = vec![r("source", "youtube", Some("a"), None)];
    let new_refs = vec![
        r("Source", "SoundCloud", Some("b"), None),
        r("SOURCE", "YouTube", Some("a"), None),
        r("Metadata", "Spotify", None, None),
    ];
    let result = DieselAlbumRepository::set_references(stored, &new_refs);
    assert_eq!(
        views(&result),
        vec![
            ("source".to_string(), "youtube".to_string(), Some("a".to_string()), None),
            ("source".to_string(), "soundcloud".to_string(), Some("b".to_string()), None),
        ]
    );
}

fn ref_row(album_id: i32, platform: &str, id: Option<&str>, url: Option<&str>) -> AlbumRefRow {
    AlbumRefRow {
        album_id,
        platform: platform.to_string(),
        external_id: id.map(|s| s.to_string()),
        external_url: url.map(|s| s.to_string()),
    }
}

#[test]
fn albums_are_found_by_any_reference() {
    let rows = vec![
        ref_row(1, "spotify", Some("x"), None),
        ref_row(2, "deezer", None, Some("https://d/y")),
        ref_row(3, "spotify", Some("x"), None),
    ];
    let refs = vec![
        r("Metadata", "Bandcamp", Some("x"), None),
        r("Metadata", "Deezer", Some("nope"), Some("https://d/y")),
        r("Metadata", "Spotify", Some("x"), None),
    ];
    assert_eq!(DieselAlbumRepository::find_album_id_by_any_reference(&rows, &refs), Some(2));
    let later = vec![r("Metadata", "Spotify", Some("x"), None)];
    assert_eq!(DieselAlbumRepository::find_album_id_by_any_reference(&rows, &later), Some(1));
    assert_eq!(DieselAlbumRepository::find_album_id_by_any_reference(&rows, &vec![]), None);
}

fn candidate(id: i32, title: &str, artists: &[&str]) -> AlbumCandidate {
    AlbumCandidate { id, title: title.to_string(), artist_names: artists.iter().map(|a| a.to_string()).collect() }
}

#[test]
fn albums_are_found_by_title_and_artist() {
    let albums = vec![
        candidate(1, "Discovery", &["Someone"]),
        candidate(2, "discovery", &["Daft Punk"]),
        candidate(3, "Discovery", &["Daft Punk", "Other"]),
    ];
    let names = vec!["DAFT PUNK".to_string()];
    assert_eq!(DieselAlbumRepository::find_by_title_and_artists(&albums, "Discovery", &names), Some(3));
    assert_eq!(DieselAlbumRepository::find_by_title_and_artists(&albums, "Discovery", &vec![]), Some(1));
    assert_eq!(DieselAlbumRepository::find_by_title_and_artists(&albums, "Homework", &names), None);
}

#[test]
fn new_albums_are_settled_in_order_of_evidence() {
    let titles = vec![(4, "Alive 2007".to_string()), (5, "alive 1997".to_string())];
    assert_eq!(DieselAlbumRepository::find_title_ignoring_case(&titles, "ALIVE 1997"), Some(5));
    assert_eq!(DieselAlbumRepository::find_title_ignoring_case(&titles, "Random"), None);
    assert_eq!(DieselAlbumRepository::resolve_album(Some(1), Some(2), Some(3), Some(4)), AlbumResolution::Known(1));
    assert_eq!(DieselAlbumRepository::resolve_album(None, Some(2), Some(3), None), AlbumResolution::SameReference(2));
    assert_eq!(DieselAlbumRepository::resolve_album(None, None, Some(3), Some(4)), AlbumResolution::SameTitle(3));
    assert_eq!(DieselAlbumRepository::resolve_album(None, None, None, Some(4)), AlbumResolution::SameTitleIgnoringCase(4));
    assert_eq!(DieselAlbumRepository::resolve_album(None, None, None, None), AlbumResolution::New);
}

#[test]
fn album_pages_follow_the_requested_order() {
    assert_eq!(DieselAlbumRepository::hydration_order(&vec![5, 6, 5], &vec![6, 5]), vec![1, 0]);
    assert!(DieselAlbumRepository::hydration_order(&vec![], &vec![1]).is_empty());
}
