use soundome::database::repositories::data_quality::{
    divergent_references, platform_url_mismatches, shared_references, stale_after_merge,
    tracks_missing_source, DedupIgnoreRow, DieselDataQualityRepository, LibraryNames,
    PlatformReading, RefRow,
};
use soundome::models::{DataQualityEntityType, StructuralFindingKind};
use soundome::server::routes::data_quality::{
    check_ignore_request, kind_as_str, parse_entity_type, DuplicateRequestError,
    IgnoreDuplicateBody,
};

fn reading(declared: Option<&str>, detected: Option<&str>) -> PlatformReading {
    PlatformReading { declared: declared.map(|s| s.to_string()), detected: detected.map(|s| s.to_string()) }
}

fn row(
    ref_id: i32,
    entity_type: DataQualityEntityType,
    entity_id: i32,
    ref_type: &str,
    platform: &str,
    external_id: Option<&str>,
    external_url: Option<&str>,
) -> RefRow {
    RefRow {
        ref_id,
        entity_type,
        entity_id,
        ref_type: ref_type.to_string(),
        platform: platform.to_string(),
        external_id: external_id.map(|s| s.to_string()),
        external_url: external_url.map(|s| s.to_string()),
    }
}

use DataQualityEntityType::{Album, Artist, Track};

#[test]
fn shared_external_id_across_artists_is_reported_once() {
    let refs = vec![
        row(1, Artist, 7, "metadata", "soundcloud", Some("u1"), None),
        row(2, Artist, 3, "metadata", "soundcloud", Some("u1"), None),
        row(3, Artist, 7, "metadata", "soundcloud", Some("u1"), None),
        row(4, Artist, 9, "metadata", "spotify", Some("u1"), None),
        row(5, Album, 3, "metadata", "soundcloud", Some("u1"), None),
    ];
    let found = shared_references(&refs, false);
    assert_eq!(found.len(), 1);
    assert_eq!(found[0].entity_type, Artist);
    assert_eq!(found[0].platform, "soundcloud");
    assert_eq!(found[0].value, "u1");
    assert_eq!(found[0].entity_ids, vec![3, 7]);
    assert!(!found[0].by_url);
}

#[test]
fn one_entity_holding_a_reference_twice_is_not_shared() {
    let refs = vec![
        row(1, Track, 5, "source", "youtube", Some("abc"), Some("https://y/abc")),
        row(2, Track, 5, "metadata", "youtube", Some("abc"), Some("https://y/abc")),
    ];
    assert!(shared_references(&refs, false).is_empty());
    assert!(shared_references(&refs, true).is_empty());
}

#[test]
fn shared_urls_are_reported_separately_from_ids() {
    let refs = vec![
        row(1, Track, 1, "source", "youtube", None, Some("https://y/x")),
        row(2, Track, 2, "source", "youtube", Some("x2"), Some("https://y/x")),
        row(3, Track, 4, "source", "youtube", None, Some("https://y/x")),
    ];
    let by_url = shared_references(&refs, true);
    assert_eq!(by_url.len(), 1);
    assert_eq!(by_url[0].entity_ids, vec![1, 2, 4]);
    assert!(by_url[0].by_url);
    assert!(shared_references(&refs, false).is_empty());
}

#[test]
fn divergent_ids_on_one_entity_are_reported() {
    let refs = vec![
        row(1, Artist, 2, "metadata", "spotify", Some("a"), None),
        row(2, Artist, 2, "metadata", "spotify", Some("b"), None),
        row(3, Artist, 2, "metadata", "spotify", Some("a"), None),
        row(4, Artist, 2, "source", "spotify", Some("c"), None),
        row(5, Artist, 3, "metadata", "spotify", Some("a"), None),
        row(6, Artist, 3, "metadata", "spotify", None, Some("https://s/a")),
    ];
    let found = divergent_references(&refs);
    assert_eq!(found.len(), 1);
    assert_eq!(found[0].entity_id, 2);
    assert_eq!(found[0].ref_type, "metadata");
    assert_eq!(found[0].external_ids, vec!["a".to_string(), "b".to_string()]);
}

#[test]
fn tracks_without_source_reference_are_listed_in_order() {
    let refs = vec![
        row(1, Track, 1, "Source", "youtube", Some("x"), None),
        row(2, Track, 2, "metadata", "spotify", Some("y"), None),
        row(3, Album, 3, "source", "spotify", Some("z"), None),
        row(4, Track, 4, "SOURCE", "soundcloud", None, None),
    ];
    let missing = tracks_missing_source(&vec![1, 2, 3, 4, 5], &refs);
    assert_eq!(missing, vec![2, 3, 5]);
}

#[test]
fn structural_audit_runs_every_check() {
    let refs = vec![
        row(1, Track, 1, "source", "youtube", Some("same"), None),
        row(2, Track, 2, "source", "youtube", Some("same"), None),
    ];
    let repo = DieselDataQualityRepository::new();
    let readings = vec![reading(Some("youtube"), None), reading(Some("youtube"), None)];
    let findings = repo.find_structural_findings(&refs, &readings, &vec![1, 2, 3]);
    assert_eq!(findings.shared_ids.len(), 1);
    assert!(findings.shared_urls.is_empty());
    assert!(findings.divergent.is_empty());
    assert!(findings.url_mismatches.is_empty());
    assert_eq!(findings.missing_source, vec![3]);

    let names = LibraryNames {
        artists: vec![],
        albums: vec![],
        tracks: vec![(1, "One".to_string()), (2, "Two".to_string())],
    };
    let named = DieselDataQualityRepository::named_findings(&findings, &names);
    assert_eq!(named.len(), 2);
    assert_eq!(named[0].kind, StructuralFindingKind::ConflictingReference);
    let first: Vec<(i32, String)> = named[0].entities.iter().map(|e| (e.id, e.name.clone())).collect();
    assert_eq!(first, vec![(1, "One".to_string()), (2, "Two".to_string())]);
    assert_eq!(named[0].reference_id, None);
    assert_eq!(named[1].kind, StructuralFindingKind::TrackMissingSourceReference);
    assert_eq!(named[1].entities.len(), 1);
    assert_eq!((named[1].entities[0].id, named[1].entities[0].name.as_str()), (3, "#3"));
}

#[test]
fn urls_that_point_at_another_platform_are_reported() {
    let refs = vec![
        row(10, Artist, 1, "metadata", "spotify", None, Some("https://soundcloud.com/x")),
        row(11, Artist, 2, "metadata", "spotify", None, Some("https://open.spotify.com/x")),
        row(12, Album, 3, "metadata", "spotify", None, Some("https://example.org/x")),
        row(13, Track, 4, "source", "youtube", Some("id"), None),
        row(14, Track, 5, "source", "odd", None, Some("https://youtube.com/w")),
    ];
    let readings = vec![
        reading(Some("spotify"), Some("soundcloud")),
        reading(Some("spotify"), Some("spotify")),
        reading(Some("spotify"), None),
        reading(Some("youtube"), Some("spotify")),
        reading(None, Some("youtube")),
    ];
    let found = platform_url_mismatches(&refs, &readings);
    let ids: Vec<(i32, i32)> = found.iter().map(|m| (m.ref_id, m.entity_id)).collect();
    assert_eq!(ids, vec![(10, 1), (14, 5)]);
    assert_eq!(found[0].declared.as_deref(), Some("spotify"));
    assert_eq!(found[1].declared, None);

    let repo = DieselDataQualityRepository::new();
    let findings = repo.find_structural_findings(&refs, &readings, &vec![]);
    let names = LibraryNames { artists: vec![(1, "Band".to_string())], albums: vec![], tracks: vec![] };
    let named = DieselDataQualityRepository::named_findings(&findings, &names);
    assert_eq!(named.len(), 2);
    assert_eq!(named[0].kind, StructuralFindingKind::PlatformUrlMismatch);
    assert_eq!(named[0].reference_id, Some(10));
    assert_eq!(named[0].entities[0].name, "Band");
    assert_eq!(named[1].reference_id, Some(14));
    assert_eq!(named[1].entities[0].name, "#5");
}

#[test]
fn ignore_pairs_are_stored_smaller_id_first() {
    assert_eq!(DieselDataQualityRepository::ordered_pair(9, 4), (4, 9));
    assert_eq!(DieselDataQualityRepository::ordered_pair(4, 9), (4, 9));
    assert_eq!(
        DieselDataQualityRepository::ordered_pair(-3, 8),
        DieselDataQualityRepository::ordered_pair(8, -3)
    );
}

#[test]
fn entity_type_path_segments() {
    assert_eq!(parse_entity_type("artists"), Some(Artist));
    assert_eq!(parse_entity_type("artist"), Some(Artist));
    assert_eq!(parse_entity_type("albums"), Some(Album));
    assert_eq!(parse_entity_type("track"), Some(Track));
    assert_eq!(parse_entity_type("Tracks"), None);
    assert_eq!(parse_entity_type("genres"), None);
    assert_eq!(Artist.as_str(), "artist");
    assert_eq!(Track.as_str(), "track");
}

#[test]
fn ignore_requests_are_checked() {
    let same = IgnoreDuplicateBody { id_a: 5, id_b: 5 };
    let pair = IgnoreDuplicateBody { id_a: 5, id_b: 6 };
    assert_eq!(
        check_ignore_request("genres", &pair),
        Err(DuplicateRequestError::UnknownEntityType)
    );
    assert_eq!(
        check_ignore_request("genres", &same),
        Err(DuplicateRequestError::UnknownEntityType)
    );
    assert_eq!(check_ignore_request("albums", &same), Err(DuplicateRequestError::SameIds));
    assert_eq!(check_ignore_request("albums", &pair), Ok((Album, 5, 6)));
}

#[test]
fn finding_kinds_have_wire_names() {
    assert_eq!(kind_as_str(StructuralFindingKind::ConflictingReference), "conflicting_reference");
    assert_eq!(
        kind_as_str(StructuralFindingKind::MultiplePlatformReferences),
        "multiple_platform_references"
    );
    assert_eq!(kind_as_str(StructuralFindingKind::PlatformUrlMismatch), "platform_url_mismatch");
    assert_eq!(
        kind_as_str(StructuralFindingKind::TrackMissingSourceReference),
        "track_missing_source_reference"
    );
}

#[test]
fn merges_drop_ignore_pairs_of_removed_entities() {
    let sources = vec![10, 11];
    let pair = |t: &str, a: i32, b: i32| DedupIgnoreRow { entity_type: t.to_string(), id_a: a, id_b: b };
    assert!(stale_after_merge(&pair("track", 10, 20), Track, &sources));
    assert!(stale_after_merge(&pair("track", 1, 11), Track, &sources));
    assert!(!stale_after_merge(&pair("track", 1, 2), Track, &sources));
    assert!(!stale_after_merge(&pair("album", 10, 20), Track, &sources));
    assert!(stale_after_merge(&pair("album", 10, 20), Album, &sources));
}

#[test]
fn finding_entities_are_named() {
    let names = vec![(1, "Old".to_string()), (2, "Two".to_string()), (1, "New".to_string())];
    let e = DieselDataQualityRepository::finding_entity(Artist, 1, &names);
    assert_eq!((e.entity_type, e.id, e.name.as_str()), (Artist, 1, "New"));
    assert_eq!(DieselDataQualityRepository::finding_entity(Track, 9, &names).name, "#9");
    assert_eq!(DieselDataQualityRepository::finding_entity(Album, -2, &vec![]).name, "#-2");
}

#[test]
fn divergent_ids_are_listed_in_ascending_order() {
    let refs = vec![
        row(1, Track, 7, "metadata", "spotify", Some("zeta"), None),
        row(2, Track, 7, "metadata", "spotify", Some("Beta"), None),
        row(3, Track, 7, "metadata", "spotify", Some("alpha"), None),
        row(4, Track, 7, "metadata", "spotify", Some("al"), None),
        row(5, Track, 7, "metadata", "spotify", Some("zeta"), None),
    ];
    let found = divergent_references(&refs);
    assert_eq!(found.len(), 1);
    assert_eq!(
        found[0].external_ids,
        vec!["Beta".to_string(), "al".to_string(), "alpha".to_string(), "zeta".to_string()]
    );
}
