use soundome::server::routes::sync_schedules::{
    next_subscription_action, DueSubscription, SubscriptionAction, SubscriptionProgress,
};
use soundome::config::models::{ProvidersConfig, SpotifyConfig};
use soundome::models::{AlbumSortBy, ArtistSortBy, SortDir, SyncEntityType};
use soundome::server::routes::albums::{album_query, parse_album_sort};
use soundome::server::routes::artists::{artist_query, parse_artist_sort};
use soundome::server::routes::download::is_playlist_url;
use soundome::server::routes::images::{
    image_ext, image_file_name, image_url, previous_image_names, BatchThumbnailResult, ImageUpload,
};
use soundome::server::routes::library::{scan_root, ScanRequest};
use soundome::server::routes::misc::available_providers;
use soundome::server::routes::sync_schedules::{
    apply_update, artist_subscription_label, due_subscriptions, read_create_request,
    CreateSubscriptionError, CreateSyncScheduleBody, SubscriptionRequest, SyncSchedule,
    SyncScheduleDto, UpdateSyncScheduleBody,
};
use soundome::server::routes::sync_settings::{
    apply_settings_update, SyncSettings, SyncSettingsDto, UpdateSyncSettingsBody,
};
use soundome::server::routes::tracks::{
    apply_track_update, AlbumRecord, ArtistRecord, TrackDto, TrackRecord, UpdateTrackBody,
};
use soundome::server::routes::validations::recent_limit;

fn s(v: &str) -> Option<String> {
    Some(v.to_string())
}

#[test]
fn album_listing_parameters() {
    assert_eq!(parse_album_sort(&s("date")), AlbumSortBy::Date);
    assert_eq!(parse_album_sort(&s("artist")), AlbumSortBy::Artist);
    assert_eq!(parse_album_sort(&s("track_count")), AlbumSortBy::TrackCount);
    assert_eq!(parse_album_sort(&s("Date")), AlbumSortBy::Title);
    assert_eq!(parse_album_sort(&None), AlbumSortBy::Title);
    let q = album_query(Some(3), Some(20), &s("  blue  "), &s("date"), &s("desc"));
    assert_eq!(q.offset, 40);
    assert_eq!(q.limit, 20);
    assert_eq!(q.search, s("blue"));
    assert_eq!(q.sort_by, AlbumSortBy::Date);
    assert_eq!(q.sort_dir, SortDir::Desc);
    let q = album_query(None, Some(10_000), &s("   "), &None, &s("DESC"));
    assert_eq!(q.offset, 0);
    assert_eq!(q.limit, 500);
    assert_eq!(q.search, None);
    assert_eq!(q.sort_dir, SortDir::Asc);
}

#[test]
fn artist_listing_parameters() {
    assert_eq!(parse_artist_sort(&s("track_count")), ArtistSortBy::TrackCount);
    assert_eq!(parse_artist_sort(&s("album_count")), ArtistSortBy::AlbumCount);
    assert_eq!(parse_artist_sort(&s("name")), ArtistSortBy::Name);
    let q = artist_query(Some(0), None, &None, &None, &None);
    assert_eq!(q.offset, 0);
    assert_eq!(q.limit, 60);
    assert_eq!(q.sort_by, ArtistSortBy::Name);
    assert_eq!(q.sort_dir, SortDir::Asc);
}

#[test]
fn collection_urls_are_downloaded_as_playlists() {
    assert!(is_playlist_url("https://open.spotify.com/playlist/abc"));
    assert!(is_playlist_url("https://soundcloud.com/u/sets/mix"));
    assert!(is_playlist_url("https://www.youtube.com/watch?v=1&list=PL1"));
    assert!(is_playlist_url("https://open.spotify.com/album/xyz"));
    assert!(!is_playlist_url("https://open.spotify.com/track/abc"));
    assert!(!is_playlist_url("https://soundcloud.com/u/song"));
}

#[test]
fn accepted_image_types() {
    let up = |t: &str, sub: &str| ImageUpload { content_type: Some((t.to_string(), sub.to_string())) };
    assert_eq!(image_ext(&up("image", "jpeg")), Some("jpg"));
    assert_eq!(image_ext(&up("image", "png")), Some("png"));
    assert_eq!(image_ext(&up("image", "webp")), Some("webp"));
    assert_eq!(image_ext(&up("image", "gif")), Some("gif"));
    assert_eq!(image_ext(&up("image", "svg+xml")), None);
    assert_eq!(image_ext(&up("text", "png")), None);
    assert_eq!(image_ext(&ImageUpload { content_type: None }), None);
}

#[test]
fn stored_image_names_and_urls() {
    assert_eq!(image_file_name(42, "jpg"), "42.jpg");
    assert_eq!(image_file_name(-7, "png"), "-7.png");
    assert_eq!(image_url("artists", "42.jpg"), "/images/artists/42.jpg");
    assert_eq!(
        previous_image_names(3),
        vec!["3.jpg", "3.jpeg", "3.png", "3.webp", "3.gif"]
    );
}

#[test]
fn batch_thumbnail_counts() {
    let mut r = BatchThumbnailResult::new();
    r.record(true);
    r.record(false);
    r.record(true);
    assert_eq!((r.count, r.skipped), (2, 1));
}

#[test]
fn providers_offered() {
    let none = ProvidersConfig { spotify: None, youtube: None };
    assert_eq!(available_providers(&none).providers, vec!["SoundCloud", "YouTube", "YouTube Music"]);
    let half = ProvidersConfig {
        spotify: Some(SpotifyConfig { client_id: "id".to_string(), client_secret: String::new() }),
        youtube: None,
    };
    assert_eq!(available_providers(&half).providers.len(), 3);
    let full = ProvidersConfig {
        spotify: Some(SpotifyConfig { client_id: "id".to_string(), client_secret: "secret".to_string() }),
        youtube: None,
    };
    assert_eq!(
        available_providers(&full).providers,
        vec!["Spotify", "SoundCloud", "YouTube", "YouTube Music"]
    );
}

#[test]
fn recent_validation_limit() {
    assert_eq!(recent_limit(None), 20);
    assert_eq!(recent_limit(Some(5)), 5);
    assert_eq!(recent_limit(Some(1000)), 100);
}

#[test]
fn scan_uses_requested_root_or_library() {
    let base = "./library".to_string();
    let req = ScanRequest { library_root: s("/music"), dry_run: true };
    assert_eq!(scan_root(&req, &base), "/music");
    let req = ScanRequest { library_root: None, dry_run: false };
    assert_eq!(scan_root(&req, &base), "./library");
}

fn body(url: Option<&str>, artist: Option<i32>, reference: Option<i32>) -> CreateSyncScheduleBody {
    CreateSyncScheduleBody {
        url: url.map(|u| u.to_string()),
        label: s("L"),
        artist_id: artist,
        reference_id: reference,
    }
}

#[test]
fn subscription_requests_are_read() {
    assert!(matches!(
        read_create_request(body(Some("u"), Some(1), None)),
        Err(CreateSubscriptionError::UrlWithArtistFields)
    ));
    assert!(matches!(
        read_create_request(body(None, Some(1), None)),
        Err(CreateSubscriptionError::NothingToFollow)
    ));
    assert!(matches!(
        read_create_request(body(None, None, None)),
        Err(CreateSubscriptionError::NothingToFollow)
    ));
    match read_create_request(body(None, Some(1), Some(2))) {
        Ok(SubscriptionRequest::Artist { artist_id, reference_id, label }) => {
            assert_eq!((artist_id, reference_id, label), (1, 2, s("L")));
        }
        _ => panic!("expected an artist subscription"),
    }
    match read_create_request(body(Some("https://x/playlist/1"), None, None)) {
        Ok(SubscriptionRequest::Url { url, label }) => {
            assert_eq!((url.as_str(), label), ("https://x/playlist/1", s("L")));
        }
        _ => panic!("expected a url subscription"),
    }
    assert_eq!(artist_subscription_label(None, &"Band".to_string()), s("Band"));
    assert_eq!(artist_subscription_label(s("Mine"), &"Band".to_string()), s("Mine"));
}

fn schedule(id: Option<i32>, label: Option<&str>) -> SyncSchedule {
    SyncSchedule {
        id,
        entity_type: SyncEntityType::Playlist,
        artist_id: None,
        reference_id: None,
        url: "https://x/playlist/1".to_string(),
        label: label.map(|l| l.to_string()),
        enabled: true,
        last_run: None,
        created_at: s("2024-01-01 00:00:00"),
    }
}

#[test]
fn subscription_updates_and_listing() {
    let mut sch = schedule(Some(3), Some("old"));
    apply_update(&mut sch, UpdateSyncScheduleBody { label: None, enabled: Some(false) });
    assert_eq!(sch.label, s("old"));
    assert!(!sch.enabled);
    apply_update(&mut sch, UpdateSyncScheduleBody { label: s("new"), enabled: None });
    assert_eq!(sch.label, s("new"));
    assert!(!sch.enabled);
    let dto = SyncScheduleDto::from_model(sch).expect("has an id");
    assert_eq!(dto.id, 3);
    assert_eq!(dto.entity_type, "playlist");
    assert!(SyncScheduleDto::from_model(schedule(None, None)).is_none());
    let due = due_subscriptions(&vec![schedule(Some(1), None), schedule(None, None), schedule(Some(4), Some("x"))]);
    let ids: Vec<i32> = due.iter().map(|d| d.id).collect();
    assert_eq!(ids, vec![1, 4]);
    assert_eq!(due[1].label, s("x"));
}

#[test]
fn schedule_settings_updates() {
    let mut st = SyncSettings {
        cron_expression: "0 0 * * *".to_string(),
        enabled: false,
        last_run: None,
        next_run: s("tomorrow"),
    };
    apply_settings_update(&mut st, UpdateSyncSettingsBody { cron_expression: s("0 6 * * *"), enabled: None });
    assert_eq!(st.cron_expression, "0 6 * * *");
    assert!(!st.enabled);
    apply_settings_update(&mut st, UpdateSyncSettingsBody { cron_expression: None, enabled: Some(true) });
    assert!(st.enabled);
    let dto = SyncSettingsDto::from_model(st);
    assert_eq!(dto.cron_expression, "0 6 * * *");
    assert_eq!(dto.next_run, s("tomorrow"));
}

fn artist(id: Option<i32>, name: &str) -> ArtistRecord {
    ArtistRecord { id, name: name.to_string(), icon: None, references: vec![] }
}

fn track() -> TrackRecord {
    TrackRecord {
        id: Some(12),
        title: "Old".to_string(),
        artists: vec![artist(Some(1), "A")],
        album: Some(AlbumRecord {
            id: Some(5),
            title: "Old Album".to_string(),
            artists: vec![artist(Some(1), "A")],
            album_type: "Single".to_string(),
            cover: s("c.jpg"),
            date: s("2020"),
            references: vec![],
        }),
        date: None,
        genre: s("rock"),
        cover: None,
        duration: Some(180),
        track_number: Some(1),
        disc_number: None,
        label: None,
        file_path: s("./library/a.mp3"),
        needs_validation: true,
        validation_reason: s("partial match"),
        references: vec![],
    }
}

#[test]
fn track_edits_apply_given_fields_only() {
    let mut t = track();
    apply_track_update(
        &mut t,
        UpdateTrackBody {
            title: s("New"),
            artists: Some(vec!["X".to_string(), "Y".to_string()]),
            album_title: s("New Album"),
            genre: None,
            date: s("2024"),
            track_number: None,
            disc_number: Some(2),
            label: None,
            cover: None,
        },
    );
    assert_eq!(t.title, "New");
    assert_eq!(t.genre, s("rock"));
    assert_eq!(t.date, s("2024"));
    assert_eq!(t.track_number, Some(1));
    assert_eq!(t.disc_number, Some(2));
    assert_eq!(t.artists.len(), 2);
    assert!(t.artists.iter().all(|a| a.id.is_none()));
    assert_eq!(t.artists[1].name, "Y");
    let album = t.album.as_ref().expect("album");
    assert_eq!(album.id, Some(5));
    assert_eq!(album.title, "New Album");
    assert_eq!(album.album_type, "Album");
    assert_eq!(album.cover, None);
    assert_eq!(album.artists.len(), 1);
    let dto = TrackDto::from_track(t).expect("has an id");
    assert_eq!(dto.id, 12);
    assert_eq!(dto.album.as_ref().map(|a| a.title.as_str()), Some("New Album"));
    assert!(dto.needs_validation);
}

use soundome::server::routes::sync_schedules::{sync_job, SyncJob};

#[test]
fn subscriptions_start_the_matching_job() {
    assert_eq!(sync_job(SyncEntityType::Playlist), SyncJob::PlaylistSync);
    assert_eq!(sync_job(SyncEntityType::Artist), SyncJob::ArtistSync);
    assert_eq!(SyncEntityType::Artist.as_str(), "artist");
    assert_eq!(SortDir::Asc.as_sql(), "ASC");
    assert_eq!(SortDir::Desc.as_sql(), "DESC");
}

#[test]
fn a_due_subscription_is_marked_then_created_then_enqueued() {
    let sub = DueSubscription {
        id: 5,
        entity_type: SyncEntityType::Artist,
        url: "https://x/a".to_string(),
        label: None,
    };
    assert_eq!(
        next_subscription_action(&sub, SubscriptionProgress::NotStarted),
        SubscriptionAction::MarkRan { subscription_id: 5 }
    );
    assert_eq!(
        next_subscription_action(&sub, SubscriptionProgress::MarkedRan),
        SubscriptionAction::CreateTask { job: SyncJob::ArtistSync }
    );
    assert_eq!(
        next_subscription_action(&sub, SubscriptionProgress::TaskCreated(Some(9))),
        SubscriptionAction::RegisterAndEnqueue { task_id: 9, job: SyncJob::ArtistSync }
    );
    for p in [
        SubscriptionProgress::MarkRanFailed,
        SubscriptionProgress::TaskCreationFailed,
        SubscriptionProgress::TaskCreated(None),
    ] {
        assert_eq!(next_subscription_action(&sub, p), SubscriptionAction::SkipToNext);
    }
}
