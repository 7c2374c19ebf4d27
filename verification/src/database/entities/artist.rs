//! Artist rows, their links to tracks and albums, and their source rows.

use vstd::prelude::*;

verus! {

#[derive(Clone, Debug)]
pub struct ArtistEntity {
    pub id: i32,
    pub name: String,
    pub url: Option<String>,
    pub icon: Option<String>,
}

#[derive(Clone, Debug)]
pub struct NewArtistEntity {
    pub name: String,
    pub url: Option<String>,
    pub icon: Option<String>,
}

#[derive(Clone, Debug)]
pub struct UpdateArtistEntity {
    pub name: Option<String>,
    pub url: Option<String>,
    pub icon: Option<String>,
}

#[derive(Clone, Copy, Debug, PartialEq, Eq, Structural)]
pub struct ArtistTrackEntity {
    pub track_id: i32,
    pub artist_id: i32,
}

#[derive(Clone, Copy, Debug, PartialEq, Eq, Structural)]
pub struct ArtistAlbumEntity {
    pub album_id: i32,
    pub artist_id: i32,
}

#[derive(Clone, Debug)]
pub struct ArtistSourceEntity {
    pub id: i32,
    pub artist_id: i32,
    pub external_id: String,
    pub platform: String,
}

#[derive(Clone, Debug)]
pub struct NewArtistSourceEntity {
    pub artist_id: i32,
    pub external_id: String,
    pub platform: String,
}

#[derive(Clone, Debug)]
pub struct UpdateArtistSourceEntity {
    pub artist_id: Option<i32>,
    pub external_id: Option<String>,
    pub platform: Option<String>,
}

} // verus!
