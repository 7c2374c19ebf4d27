use soundome::cli::api::client::{api_base_url, endpoint, item_endpoint_url};
use soundome::cli::api::models::{
    AlbumArtistDto, AlbumDto, IngestResult, ScanCategory, ScanEntry, ScanReport, TrackArtistDto, TrackDto,
};
use soundome::cli::commands::ingest::{artists_line, ingest_status};
use soundome::cli::commands::library::search::{album_artists_cell, genre_cell, track_artists_cell};
use soundome::cli::commands::scan::entries_to_show;

#[test]
fn base_urls_lose_trailing_slashes() {
    assert_eq!(api_base_url("http://localhost:8000/"), "http://localhost:8000");
    assert_eq!(api_base_url("http://h//"), "http://h");
    assert_eq!(api_base_url("http://h"), "http://h");
    assert_eq!(api_base_url("///"), "");
}

#[test]
fn endpoint_addresses() {
    assert_eq!(endpoint("http://h", "/api/playlists"), "http://h/api/playlists");
    assert_eq!(item_endpoint_url("http://h", "playlists", 4, "tracks"), "http://h/api/playlists/4/tracks");
    assert_eq!(item_endpoint_url("http://h", "tracks", 12, "download"), "http://h/api/tracks/12/download");
}

fn entry(category: ScanCategory) -> ScanEntry {
    ScanEntry { category, file_path: None, track_id: None, title: None }
}

#[test]
fn scan_reports_show_entries_needing_attention() {
    let report = ScanReport {
        dry_run: true,
        library_root: "/lib".to_string(),
        entries: vec![
            entry(ScanCategory::Consistent),
            entry(ScanCategory::Missing),
            entry(ScanCategory::Consistent),
            entry(ScanCategory::Orphan),
        ],
        ok: 2,
        path_changed: 0,
        tag_conflict: 0,
        missing: 1,
        orphan: 1,
        legacy_match: 0,
        unmanaged: 0,
        paths_updated: 0,
        conflicts_flagged: 0,
    };
    assert_eq!(entries_to_show(&report), vec![1, 3]);
}

#[test]
fn ingest_summaries() {
    let r = IngestResult { title: "T".to_string(), artists: vec!["A".to_string(), "B".to_string()], needs_validation: true };
    assert_eq!(artists_line(&r), "A, B");
    assert_eq!(ingest_status(&r), "pending manual validation");
    let r = IngestResult { title: "T".to_string(), artists: vec![], needs_validation: false };
    assert_eq!(artists_line(&r), "");
    assert_eq!(ingest_status(&r), "ingested successfully");
}

#[test]
fn table_cells() {
    let album = AlbumDto {
        id: 1,
        title: "X".to_string(),
        artists: vec![
            AlbumArtistDto { id: None, name: "A".to_string() },
            AlbumArtistDto { id: Some(2), name: "B".to_string() },
        ],
        album_type: "album".to_string(),
        cover: None,
        date: None,
    };
    assert_eq!(album_artists_cell(&album), "A, B");
    let track = TrackDto {
        id: 1,
        title: "T".to_string(),
        artists: vec![TrackArtistDto { id: None, name: "Solo".to_string() }],
        album: None,
        date: None,
        genre: None,
        cover: None,
        duration: None,
        track_number: None,
        disc_number: None,
        label: None,
        file_path: None,
        needs_validation: false,
    };
    assert_eq!(track_artists_cell(&track), "Solo");
    assert_eq!(genre_cell(&track), "-");
}
