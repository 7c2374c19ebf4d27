//! `library` subcommands.

pub mod playlist;
pub mod search;
