//! Tracks awaiting manual validation.

use vstd::prelude::*;

use crate::server::routes::tracks::{ArtistRecord, ReferenceRecord, TrackRecord};
use crate::text::opt_chars;

verus! {

pub struct ArtistDto {
    pub id: Option<i32>,
    pub name: String,
}

pub struct AlbumDto {
    pub id: Option<i32>,
    pub title: String,
    pub artists: Vec<ArtistDto>,
}

pub struct ReferenceDto {
    pub id: Option<i32>,
    pub ref_type: String,
    pub platform: String,
    pub external_id: Option<String>,
    pub external_url: Option<String>,
}

pub struct PendingValidationDto {
    pub id: i32,
    pub title: String,
    pub artists: Vec<ArtistDto>,
    pub album: Option<AlbumDto>,
    pub date: Option<String>,
    pub genre: Option<String>,
    pub cover: Option<String>,
    pub duration: Option<i32>,
    pub track_number: Option<i32>,
    pub disc_number: Option<i32>,
    pub label: Option<String>,
    pub file_path: Option<String>,
    pub validation_reason: Option<String>,
    pub references: Vec<ReferenceDto>,
}

/// Number of recent tracks listed when the client does not say.
pub const DEFAULT_RECENT_LIMIT: i64 = 20;

/// Most recent tracks a client may ask for at once.
pub const MAX_RECENT_LIMIT: i64 = 100;

/// How many recent tracks to list: 20 by default, at most 100.
pub fn recent_limit(limit: Option<i64>) -> (res: i64)
    ensures
        res == match limit {
            Some(l) => if l < MAX_RECENT_LIMIT {
                l
            } else {
                MAX_RECENT_LIMIT
            },
            None => DEFAULT_RECENT_LIMIT,
        },
        res <= MAX_RECENT_LIMIT,
{
    let l = match limit {
        Some(l) => l,
        None => DEFAULT_RECENT_LIMIT,
    };
    if l < MAX_RECENT_LIMIT {
        l
    } else {
        MAX_RECENT_LIMIT
    }
}

fn opt_clone(o: &Option<String>) -> (res: Option<String>)
    ensures
        opt_chars(res) == opt_chars(*o),
{
    match o {
        Some(v) => Some(v.clone()),
        None => None,
    }
}

/// The DTO of a reference: every field carried over.
pub fn reference_to_dto(r: &ReferenceRecord) -> (res: ReferenceDto)
    ensures
        res.id == r.id,
        res.ref_type@ == r.ref_type@,
        res.platform@ == r.platform@,
        opt_chars(res.external_id) == opt_chars(r.external_id),
        opt_chars(res.external_url) == opt_chars(r.external_url),
{
    ReferenceDto {
        id: r.id,
        ref_type: r.ref_type.clone(),
        platform: r.platform.clone(),
        external_id: opt_clone(&r.external_id),
        external_url: opt_clone(&r.external_url),
    }
}

fn artist_dtos(artists: &Vec<ArtistRecord>) -> (res: Vec<ArtistDto>)
    ensures
        res@.len() == artists@.len(),
        forall|k: int| 0 <= k < res@.len() ==> (#[trigger] res@[k]).id == artists@[k].id
            && res@[k].name@ == artists@[k].name@,
{
    let mut out: Vec<ArtistDto> = Vec::new();
    let mut k: usize = 0;
    while k < artists.len()
        invariant
            k <= artists@.len(),
            out@.len() == k,
            forall|m: int| 0 <= m < k ==> (#[trigger] out@[m]).id == artists@[m].id
                && out@[m].name@ == artists@[m].name@,
        decreases artists@.len() - k,
    {
        out.push(ArtistDto { id: artists[k].id, name: artists[k].name.clone() });
        k = k + 1;
    }
    out
}

impl PendingValidationDto {
    /// The DTO of a track awaiting validation; `None` for one without an id.
    pub fn from_track(track: TrackRecord) -> (res: Option<Self>)
        ensures
            track.id is None ==> res is None,
            track.id is Some ==> (res matches Some(d) && d.id == track.id->0 && d.title@ == track.title@
                && d.artists@.len() == track.artists@.len() && (forall|k: int|
                0 <= k < d.artists@.len() ==> (#[trigger] d.artists@[k]).id == track.artists@[k].id
                    && d.artists@[k].name@ == track.artists@[k].name@) && (match track.album {
                Some(a) => d.album matches Some(b) && b.id == a.id && b.title@ == a.title@
                    && b.artists@.len() == a.artists@.len() && forall|k: int|
                    0 <= k < b.artists@.len() ==> (#[trigger] b.artists@[k]).id == a.artists@[k].id
                        && b.artists@[k].name@ == a.artists@[k].name@,
                None => d.album is None,
            }) && opt_chars(d.date) == opt_chars(track.date) && opt_chars(d.genre) == opt_chars(
                track.genre,
            ) && opt_chars(d.cover) == opt_chars(track.cover) && d.duration == track.duration
                && d.track_number == track.track_number && d.disc_number == track.disc_number
                && opt_chars(d.label) == opt_chars(track.label) && opt_chars(d.file_path)
                == opt_chars(track.file_path) && opt_chars(d.validation_reason) == opt_chars(
                track.validation_reason,
            ) && d.references@.len() == track.references@.len() && forall|k: int|
                0 <= k < d.references@.len() ==> (#[trigger] d.references@[k]).id
                    == track.references@[k].id && d.references@[k].ref_type@
                    == track.references@[k].ref_type@ && d.references@[k].platform@
                    == track.references@[k].platform@ && opt_chars(d.references@[k].external_id)
                    == opt_chars(track.references@[k].external_id) && opt_chars(
                    d.references@[k].external_url,
                ) == opt_chars(track.references@[k].external_url)),
    {
        let id = match track.id {
            Some(id) => id,
            None => return None,
        };
        let artists = artist_dtos(&track.artists);
        let album = match &track.album {
            Some(a) => Some(
                AlbumDto { id: a.id, title: a.title.clone(), artists: artist_dtos(&a.artists) },
            ),
            None => None,
        };
        let mut references: Vec<ReferenceDto> = Vec::new();
        let mut k: usize = 0;
        while k < track.references.len()
            invariant
                k <= track.references@.len(),
                references@.len() == k,
                forall|m: int| 0 <= m < k ==> (#[trigger] references@[m]).id == track.references@[m].id
                    && references@[m].ref_type@ == track.references@[m].ref_type@
                    && references@[m].platform@ == track.references@[m].platform@ && opt_chars(
                    references@[m].external_id,
                ) == opt_chars(track.references@[m].external_id) && opt_chars(
                    references@[m].external_url,
                ) == opt_chars(track.references@[m].external_url),
            decreases track.references@.len() - k,
        {
            references.push(reference_to_dto(&track.references[k]));
            k = k + 1;
        }
        Some(
            PendingValidationDto {
                id,
                title: track.title,
                artists,
                album,
                date: track.date,
                genre: track.genre,
                cover: track.cover,
                duration: track.duration,
                track_number: track.track_number,
                disc_number: track.disc_number,
                label: track.label,
                file_path: track.file_path,
                validation_reason: track.validation_reason,
                references,
            },
        )
    }
}

} // verus!
