//! Artist rows with their association rows, each with its own id.

use vstd::prelude::*;

verus! {

#[derive(Clone, Debug)]
pub struct ArtistEntity {
    pub id: i32,
    pub name: String,
    pub icon: Option<String>,
}

#[derive(Clone, Debug)]
pub struct NewArtist {
    pub name: String,
    pub icon: Option<String>,
}

#[derive(Clone, Debug)]
pub struct UpdateArtist {
    pub name: Option<String>,
    pub icon: Option<String>,
}

#[derive(Clone, Copy, Debug, PartialEq, Eq, Structural)]
pub struct ArtistTrack {
    pub id: i32,
    pub track_id: i32,
    pub artist_id: i32,
}

#[derive(Clone, Copy, Debug, PartialEq, Eq, Structural)]
pub struct NewArtistTrack {
    pub track_id: i32,
    pub artist_id: i32,
}

#[derive(Clone, Copy, Debug, PartialEq, Eq, Structural)]
pub struct ArtistAlbum {
    pub id: i32,
    pub album_id: i32,
    pub artist_id: i32,
}

#[derive(Clone, Copy, Debug, PartialEq, Eq, Structural)]
pub struct NewArtistAlbum {
    pub album_id: i32,
    pub artist_id: i32,
}

} // verus!
