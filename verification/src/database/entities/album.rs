//! Album rows and their reference rows.

use vstd::prelude::*;

verus! {

#[derive(Clone, Debug)]
pub struct AlbumEntity {
    pub id: i32,
    pub title: String,
    pub album_type: String,
    pub cover: Option<String>,
    pub date: Option<String>,
}

#[derive(Clone, Debug)]
pub struct NewAlbumEntity {
    pub title: String,
    pub album_type: String,
    pub cover: Option<String>,
    pub date: Option<String>,
}

#[derive(Clone, Debug)]
pub struct UpdateAlbumEntity {
    pub title: Option<String>,
    pub album_type: Option<String>,
    pub cover: Option<String>,
    pub date: Option<String>,
}

#[derive(Clone, Debug)]
pub struct AlbumRefEntity {
    pub id: i32,
    pub album_id: i32,
    pub ref_type: String,
    pub platform: String,
    pub external_id: Option<String>,
    pub external_url: Option<String>,
}

#[derive(Clone, Debug)]
pub struct NewAlbumRefEntity {
    pub album_id: i32,
    pub ref_type: String,
    pub platform: String,
    pub external_id: Option<String>,
    pub external_url: Option<String>,
}

#[derive(Clone, Debug)]
pub struct UpdateAlbumRefEntity {
    pub album_id: Option<i32>,
    pub ref_type: Option<String>,
    pub platform: Option<String>,
    pub external_id: Option<String>,
    pub external_url: Option<String>,
}

} // verus!
