//! Command implementations of the command-line client.

pub mod ingest;
pub mod library;
pub mod scan;
