//! Track rows and their source rows.

use vstd::prelude::*;

verus! {

#[derive(Clone, Debug)]
pub struct TrackEntity {
    pub id: i32,
    pub title: String,
    pub duration: Option<i32>,
    pub album_id: Option<i32>,
    pub track_number: Option<i32>,
    pub disc_number: Option<i32>,
    pub label: Option<String>,
    pub date: Option<String>,
    pub genre: Option<String>,
    pub cover: Option<String>,
    pub file_path: Option<String>,
    pub source: Option<String>,
    pub source_url: Option<String>,
    pub source_id: Option<String>,
    pub provider: Option<String>,
    pub provider_url: Option<String>,
    pub provider_id: Option<String>,
}

#[derive(Clone, Debug)]
pub struct NewTrackEntity {
    pub title: String,
    pub duration: Option<i32>,
    pub album_id: Option<i32>,
    pub track_number: Option<i32>,
    pub disc_number: Option<i32>,
    pub label: Option<String>,
    pub date: Option<String>,
    pub genre: Option<String>,
    pub cover: Option<String>,
    pub file_path: Option<String>,
    pub source: Option<String>,
    pub source_url: Option<String>,
    pub source_id: Option<String>,
    pub provider: Option<String>,
    pub provider_url: Option<String>,
    pub provider_id: Option<String>,
}

#[derive(Clone, Debug)]
pub struct UpdateTrackEntity {
    pub title: Option<String>,
    pub duration: Option<i32>,
    pub album_id: Option<i32>,
    pub track_number: Option<i32>,
    pub disc_number: Option<i32>,
    pub label: Option<String>,
    pub date: Option<String>,
    pub genre: Option<String>,
    pub cover: Option<String>,
    pub file_path: Option<String>,
    pub source: Option<String>,
    pub source_url: Option<String>,
    pub source_id: Option<String>,
    pub provider: Option<String>,
    pub provider_url: Option<String>,
    pub provider_id: Option<String>,
}

#[derive(Clone, Debug)]
pub struct TrackSourceEntity {
    pub id: i32,
    pub track_id: i32,
    pub external_id: String,
    pub platform: String,
}

#[derive(Clone, Debug)]
pub struct NewTrackSourceEntity {
    pub track_id: i32,
    pub external_id: String,
    pub platform: String,
}

#[derive(Clone, Debug)]
pub struct UpdateTrackSourceEntity {
    pub track_id: Option<i32>,
    pub external_id: Option<String>,
    pub platform: Option<String>,
}

} // verus!
