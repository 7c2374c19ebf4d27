//! Playlist resources.

use vstd::prelude::*;

verus! {

pub struct PlaylistDto {
    pub id: i32,
    pub name: String,
    pub source: String,
    pub source_url: Option<String>,
    pub cover: Option<String>,
}

pub struct PlaylistTrackArtistDto {
    pub id: Option<i32>,
    pub name: String,
}

pub struct PlaylistTrackAlbumDto {
    pub id: Option<i32>,
    pub title: String,
}

pub struct PlaylistTrackDto {
    pub id: i32,
    pub title: String,
    pub artists: Vec<PlaylistTrackArtistDto>,
    pub album: Option<PlaylistTrackAlbumDto>,
    pub duration: Option<i32>,
    pub cover: Option<String>,
    pub genre: Option<String>,
}

pub struct ExportResult {
    pub path: String,
}

} // verus!
