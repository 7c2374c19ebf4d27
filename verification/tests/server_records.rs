use soundome::server::routes::sync_settings::schedule_is_due;
use soundome::server::routes::tasks::{TaskDto, TaskRecord};
use soundome::server::routes::tracks::{ArtistRecord, ReferenceRecord, TrackRecord};
use soundome::server::routes::validations::{reference_to_dto, PendingValidationDto};

#[test]
fn the_schedule_runs_when_due() {
    assert!(schedule_is_due(true, None, 100));
    assert!(schedule_is_due(true, Some(100), 100));
    assert!(!schedule_is_due(true, Some(101), 100));
    assert!(!schedule_is_due(false, None, 100));
}

fn task(id: Option<i32>) -> TaskRecord {
    TaskRecord {
        id,
        task_type: "SyncPlaylist".to_string(),
        status: "Running".to_string(),
        label: Some("L".to_string()),
        progress: 3,
        total: Some(10),
        error: None,
        created_at: None,
        updated_at: Some("now".to_string()),
    }
}

#[test]
fn task_dtos_need_an_id() {
    assert!(TaskDto::from_task(task(None)).is_none());
    let d = TaskDto::from_task(task(Some(8))).expect("id");
    assert_eq!((d.id, d.status.as_str(), d.progress, d.total), (8, "Running", 3, Some(10)));
}

#[test]
fn pending_validation_dtos_carry_references() {
    let r = ReferenceRecord {
        id: Some(1),
        ref_type: "Source".to_string(),
        platform: "YouTube".to_string(),
        external_id: Some("abc".to_string()),
        external_url: None,
    };
    let d = reference_to_dto(&r);
    assert_eq!((d.ref_type.as_str(), d.platform.as_str()), ("Source", "YouTube"));
    let track = TrackRecord {
        id: Some(4),
        title: "T".to_string(),
        artists: vec![ArtistRecord { id: Some(2), name: "A".to_string(), icon: None, references: vec![] }],
        album: None,
        date: None,
        genre: None,
        cover: None,
        duration: None,
        track_number: None,
        disc_number: None,
        label: None,
        file_path: None,
        needs_validation: true,
        validation_reason: Some("ambiguous album".to_string()),
        references: vec![r],
    };
    let dto = PendingValidationDto::from_track(track).expect("id");
    assert_eq!(dto.id, 4);
    assert_eq!(dto.artists[0].name, "A");
    assert_eq!(dto.validation_reason.as_deref(), Some("ambiguous album"));
    assert_eq!(dto.references[0].external_id.as_deref(), Some("abc"));
}

use soundome::server::routes::albums::AlbumDto;
use soundome::server::routes::artists::ArtistDto;
use soundome::server::routes::tracks::AlbumRecord;

fn reference() -> ReferenceRecord {
    ReferenceRecord {
        id: Some(3),
        ref_type: "Metadata".to_string(),
        platform: "Spotify".to_string(),
        external_id: None,
        external_url: Some("https://s/a".to_string()),
    }
}

#[test]
fn album_and_artist_dtos() {
    let album = AlbumRecord {
        id: Some(10),
        title: "Album".to_string(),
        artists: vec![ArtistRecord { id: None, name: "A".to_string(), icon: None, references: vec![] }],
        album_type: "Album".to_string(),
        cover: None,
        date: Some("2001".to_string()),
        references: vec![reference()],
    };
    let d = AlbumDto::from_album(album).expect("id");
    assert_eq!((d.id, d.title.as_str(), d.date.as_deref()), (10, "Album", Some("2001")));
    assert_eq!(d.artists[0].name, "A");
    assert_eq!(d.references[0].external_url.as_deref(), Some("https://s/a"));
    let artist = ArtistRecord { id: Some(5), name: "B".to_string(), icon: Some("b.png".to_string()), references: vec![reference()] };
    let a = ArtistDto::from_artist(artist).expect("id");
    assert_eq!((a.id, a.name.as_str(), a.icon.as_deref()), (5, "B", Some("b.png")));
    assert_eq!(a.references.len(), 1);
    let nameless = ArtistRecord { id: None, name: "C".to_string(), icon: None, references: vec![] };
    assert!(ArtistDto::from_artist(nameless).is_none());
}
