//! Storage-layer logic: the library rows, and what the repositories decide
//! over rows they have loaded.

pub mod entities;
pub mod models;
pub mod repositories;
