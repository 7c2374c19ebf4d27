use soundome::server::routes::storage::format_bytes;

#[test]
fn test_format_bytes() {
    assert_eq!(format_bytes(0), "0 B");
    assert_eq!(format_bytes(512), "512 B");
    assert_eq!(format_bytes(1024), "1.0 KB");
    assert_eq!(format_bytes(1_048_576), "1.0 MB");
    assert_eq!(format_bytes(1_073_741_824), "1.0 GB");
    assert_eq!(format_bytes(1_099_511_627_776), "1.0 TB");
    assert_eq!(format_bytes(5_368_709_120), "5.0 GB");
}

/// The float computation that the integer formulation must agree with.
fn float_reference(bytes: u64) -> String {
    const UNITS: &[&str] = &["B", "KB", "MB", "GB", "TB"];
    let mut size = bytes as f64;
    let mut unit_idx = 0;
    while size >= 1024.0 && unit_idx < UNITS.len() - 1 {
        size /= 1024.0;
        unit_idx += 1;
    }
    match unit_idx {
        0 => format!("{} {}", bytes, UNITS[0]),
        _ => format!("{:.1} {}", size, UNITS[unit_idx]),
    }
}

#[test]
fn format_bytes_edges() {
    assert_eq!(format_bytes(1023), "1023 B");
    assert_eq!(format_bytes(1536), "1.5 KB");
    // 1.25 KB and 1.75 KB are exact ties at one decimal.
    assert_eq!(format_bytes(1280), float_reference(1280));
    assert_eq!(format_bytes(1792), float_reference(1792));
    assert_eq!(format_bytes(1_048_575), "1024.0 KB");
    assert_eq!(format_bytes(u64::MAX), float_reference(u64::MAX));
    assert_eq!(format_bytes(1_125_899_906_842_624), "1024.0 TB");
}

#[test]
fn format_bytes_matches_float_formula() {
    let mut x: u64 = 0x9E37_79B9_7F4A_7C15;
    for shift in 0..64u32 {
        for _ in 0..200 {
            x ^= x << 13;
            x ^= x >> 7;
            x ^= x << 17;
            let b = x >> shift;
            assert_eq!(format_bytes(b), float_reference(b), "bytes = {}", b);
        }
    }
    for k in 1..=4u32 {
        let d = 1u64 << (10 * k);
        for tenth in 0..40u64 {
            for delta in [0i64, 1, -1] {
                let base = (d / 20) * (2 * tenth + 1);
                let b = (base as i64 + delta).max(0) as u64;
                assert_eq!(format_bytes(b), float_reference(b), "bytes = {}", b);
            }
        }
    }
}

use soundome::server::routes::storage::{storage_breakdown, ArtistRef, TrackFile};

fn file(size: Option<u64>, ids: &[Option<i32>]) -> TrackFile {
    TrackFile { size, artist_ids: ids.to_vec() }
}

fn artist(id: Option<i32>, name: &str) -> ArtistRef {
    ArtistRef { id, name: name.to_string() }
}

#[test]
fn storage_breakdown_sums_and_orders_artists() {
    let tracks = vec![
        file(Some(1000), &[Some(1)]),
        file(Some(3000), &[Some(2), Some(1)]),
        file(None, &[Some(3)]),
        file(Some(500), &[Some(3), None]),
    ];
    let artists = vec![
        artist(Some(1), "One"),
        artist(None, "Nobody"),
        artist(Some(2), "Two"),
        artist(Some(3), "Three"),
        artist(Some(4), "Four"),
    ];
    let b = storage_breakdown(&tracks, artists);
    assert_eq!(b.total_bytes, 4500);
    assert_eq!(b.total_formatted, "4.4 KB");
    let rows: Vec<(i32, &str, u64)> = b.artists.iter().map(|a| (a.id, a.name.as_str(), a.bytes)).collect();
    assert_eq!(rows, vec![(1, "One", 4000), (2, "Two", 3000), (3, "Three", 500), (4, "Four", 0)]);
}

#[test]
fn equal_shares_keep_the_artist_order() {
    let tracks = vec![file(Some(10), &[Some(5), Some(6)])];
    let b = storage_breakdown(&tracks, vec![artist(Some(6), "B"), artist(Some(5), "A"), artist(Some(7), "C")]);
    let ids: Vec<i32> = b.artists.iter().map(|a| a.id).collect();
    assert_eq!(ids, vec![6, 5, 7]);
}

#[test]
fn an_artist_listed_twice_on_a_track_counts_it_twice() {
    let tracks = vec![file(Some(7), &[Some(1), Some(1)])];
    let b = storage_breakdown(&tracks, vec![artist(Some(1), "A")]);
    assert_eq!(b.total_bytes, 7);
    assert_eq!(b.artists[0].bytes, 14);
}
