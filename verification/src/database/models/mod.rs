//! Earlier row shapes of the artist tables.

pub mod artist;
