//! Per-resource route logic.

pub mod albums;
pub mod artists;
pub mod data_quality;
pub mod download;
pub mod images;
pub mod library;
pub mod misc;
pub mod playlists;
pub mod storage;
pub mod sync_schedules;
pub mod sync_settings;
pub mod tasks;
pub mod tracks;
pub mod validations;
