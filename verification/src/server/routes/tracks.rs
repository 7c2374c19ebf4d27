//! Track resources.

use vstd::prelude::*;

use crate::text::opt_chars;

verus! {

pub struct TrackArtistDto {
    pub id: Option<i32>,
    pub name: String,
}

pub struct TrackAlbumDto {
    pub id: Option<i32>,
    pub title: String,
}

pub struct TrackDto {
    pub id: i32,
    pub title: String,
    pub artists: Vec<TrackArtistDto>,
    pub album: Option<TrackAlbumDto>,
    pub date: Option<String>,
    pub genre: Option<String>,
    pub cover: Option<String>,
    pub duration: Option<i32>,
    pub track_number: Option<i32>,
    pub disc_number: Option<i32>,
    pub label: Option<String>,
    pub file_path: Option<String>,
    pub needs_validation: bool,
}

/// Partial update of a track: every present field replaces the stored one.
pub struct UpdateTrackBody {
    pub title: Option<String>,
    pub artists: Option<Vec<String>>,
    pub album_title: Option<String>,
    pub genre: Option<String>,
    pub date: Option<String>,
    pub track_number: Option<i32>,
    pub disc_number: Option<i32>,
    pub label: Option<String>,
    pub cover: Option<String>,
}

/// An artist as the track service hands it.
pub struct ArtistRecord {
    pub id: Option<i32>,
    pub name: String,
    pub icon: Option<String>,
    pub references: Vec<ReferenceRecord>,
}

/// An album as the track service hands it.
pub struct AlbumRecord {
    pub id: Option<i32>,
    pub title: String,
    pub artists: Vec<ArtistRecord>,
    pub album_type: String,
    pub cover: Option<String>,
    pub date: Option<String>,
    pub references: Vec<ReferenceRecord>,
}

/// A track as the track service hands it.
pub struct TrackRecord {
    pub id: Option<i32>,
    pub title: String,
    pub artists: Vec<ArtistRecord>,
    pub album: Option<AlbumRecord>,
    pub date: Option<String>,
    pub genre: Option<String>,
    pub cover: Option<String>,
    pub duration: Option<i32>,
    pub track_number: Option<i32>,
    pub disc_number: Option<i32>,
    pub label: Option<String>,
    pub file_path: Option<String>,
    pub needs_validation: bool,
    pub validation_reason: Option<String>,
    pub references: Vec<ReferenceRecord>,
}

/// A reference as the service hands it; type and platform by their names.
pub struct ReferenceRecord {
    pub id: Option<i32>,
    pub ref_type: String,
    pub platform: String,
    pub external_id: Option<String>,
    pub external_url: Option<String>,
}

/// The new value of an optional field: the given one, else the stored one.
pub open spec fn edited(given: Option<String>, stored: Option<String>) -> Option<Seq<char>> {
    match given {
        Some(v) => Some(v@),
        None => opt_chars(stored),
    }
}

fn take_or_keep(given: Option<String>, stored: Option<String>) -> (res: Option<String>)
    ensures
        opt_chars(res) == edited(given, stored),
{
    match given {
        Some(v) => Some(v),
        None => stored,
    }
}

/// The artists named in an edit: new artists with those names, no id.
fn artists_named(names: Vec<String>) -> (res: Vec<ArtistRecord>)
    ensures
        res@.len() == names@.len(),
        forall|k: int|
            0 <= k < res@.len() ==> (#[trigger] res@[k]).id is None && res@[k].name@ == names@[k]@
                && res@[k].icon is None && res@[k].references@.len() == 0,
{
    let mut out: Vec<ArtistRecord> = Vec::new();
    let mut k: usize = 0;
    while k < names.len()
        invariant
            k <= names@.len(),
            out@.len() == k,
            forall|m: int|
                0 <= m < k ==> (#[trigger] out@[m]).id is None && out@[m].name@ == names@[m]@
                    && out@[m].icon is None && out@[m].references@.len() == 0,
        decreases names@.len() - k,
    {
        out.push(ArtistRecord { id: None, name: names[k].clone(), icon: None, references: Vec::new() });
        k = k + 1;
    }
    out
}

/// Applies a partial edit to a track: each given field replaces the stored one;
/// given artist names replace the artists by new, unidentified ones; a given
/// album title makes the album a plain `Album` of that title that keeps the
/// former album's id and artists and nothing else.
pub fn apply_track_update(track: &mut TrackRecord, body: UpdateTrackBody)
    ensures
        final(track).title@ == match body.title {
            Some(t) => t@,
            None => old(track).title@,
        },
        opt_chars(final(track).genre) == edited(body.genre, old(track).genre),
        opt_chars(final(track).date) == edited(body.date, old(track).date),
        opt_chars(final(track).label) == edited(body.label, old(track).label),
        opt_chars(final(track).cover) == edited(body.cover, old(track).cover),
        final(track).track_number == match body.track_number {
            Some(n) => Some(n),
            None => old(track).track_number,
        },
        final(track).disc_number == match body.disc_number {
            Some(n) => Some(n),
            None => old(track).disc_number,
        },
        match body.artists {
            Some(names) => final(track).artists@.len() == names@.len() && forall|k: int|
                0 <= k < names@.len() ==> (#[trigger] final(track).artists@[k]).id is None
                    && final(track).artists@[k].name@ == names@[k]@ && final(track).artists@[k].icon is None
                    && final(track).artists@[k].references@.len() == 0,
            None => final(track).artists == old(track).artists,
        },
        match body.album_title {
            Some(t) => final(track).album matches Some(a) && a.title@ == t@ && a.id == (match old(
                track,
            ).album {
                Some(o) => o.id,
                None => None,
            }) && a.album_type@ == "Album"@ && a.cover is None && a.date is None
                && a.references@.len() == 0 && (match old(track).album {
                Some(o) => a.artists == o.artists,
                None => a.artists@.len() == 0,
            }),
            None => final(track).album == old(track).album,
        },
        final(track).id == old(track).id,
        final(track).duration == old(track).duration,
        final(track).needs_validation == old(track).needs_validation,
        opt_chars(final(track).file_path) == opt_chars(old(track).file_path),
{
    let UpdateTrackBody {
        title,
        artists,
        album_title,
        genre,
        date,
        track_number,
        disc_number,
        label,
        cover,
    } = body;
    match title {
        Some(t) => track.title = t,
        None => {},
    }
    let g = track.genre.take();
    track.genre = take_or_keep(genre, g);
    let d = track.date.take();
    track.date = take_or_keep(date, d);
    match track_number {
        Some(n) => track.track_number = Some(n),
        None => {},
    }
    match disc_number {
        Some(n) => track.disc_number = Some(n),
        None => {},
    }
    let l = track.label.take();
    track.label = take_or_keep(label, l);
    let c = track.cover.take();
    track.cover = take_or_keep(cover, c);
    match artists {
        Some(names) => track.artists = artists_named(names),
        None => {},
    }
    match album_title {
        Some(t) => {
            let former = track.album.take();
            let (id, album_artists) = match former {
                Some(a) => (a.id, a.artists),
                None => (None, Vec::new()),
            };
            track.album = Some(
                AlbumRecord {
                    id,
                    title: t,
                    artists: album_artists,
                    album_type: "Album".to_owned(),
                    cover: None,
                    date: None,
                    references: Vec::new(),
                },
            );
        },
        None => {},
    }
}

impl TrackDto {
    /// The DTO of a track; `None` for one without an id.
    pub fn from_track(track: TrackRecord) -> (res: Option<Self>)
        ensures
            track.id is None ==> res is None,
            track.id is Some ==> (res matches Some(d) && d.id == track.id->0 && d.title@
                == track.title@ && d.artists@.len() == track.artists@.len() && (forall|k: int|
                0 <= k < d.artists@.len() ==> (#[trigger] d.artists@[k]).id == track.artists@[k].id
                    && d.artists@[k].name@ == track.artists@[k].name@) && (match track.album {
                Some(a) => d.album matches Some(b) && b.id == a.id && b.title@ == a.title@,
                None => d.album is None,
            }) && opt_chars(d.date) == opt_chars(track.date) && opt_chars(d.genre) == opt_chars(
                track.genre,
            ) && opt_chars(d.cover) == opt_chars(track.cover) && d.duration == track.duration
                && d.track_number == track.track_number && d.disc_number == track.disc_number
                && opt_chars(d.label) == opt_chars(track.label) && opt_chars(d.file_path)
                == opt_chars(track.file_path) && d.needs_validation == track.needs_validation),
    {
        let id = match track.id {
            Some(id) => id,
            None => return None,
        };
        let mut artists: Vec<TrackArtistDto> = Vec::new();
        let mut k: usize = 0;
        while k < track.artists.len()
            invariant
                k <= track.artists@.len(),
                artists@.len() == k,
                forall|m: int|
                    0 <= m < k ==> (#[trigger] artists@[m]).id == track.artists@[m].id
                        && artists@[m].name@ == track.artists@[m].name@,
            decreases track.artists@.len() - k,
        {
            artists.push(
                TrackArtistDto { id: track.artists[k].id, name: track.artists[k].name.clone() },
            );
            k = k + 1;
        }
        let album = match &track.album {
            Some(a) => Some(TrackAlbumDto { id: a.id, title: a.title.clone() }),
            None => None,
        };
        Some(
            TrackDto {
                id,
                title: track.title,
                artists,
                album,
                date: track.date,
                genre: track.genre,
                cover: track.cover,
                duration: track.duration,
                track_number: track.track_number,
                disc_number: track.disc_number,
                label: track.label,
                file_path: track.file_path,
                needs_validation: track.needs_validation,
            },
        )
    }
}

} // verus!
