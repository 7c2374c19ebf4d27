//! Repository logic, one module per aggregate.

pub mod album;
pub mod artist;
pub mod data_quality;
pub mod playlist;
pub mod sync_schedule;
pub mod sync_settings;
pub mod track;
