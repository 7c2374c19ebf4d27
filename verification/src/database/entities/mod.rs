//! Rows of the library tables.

pub mod album;
pub mod artist;
pub mod track;
