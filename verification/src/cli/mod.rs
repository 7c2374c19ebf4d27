//! Logic of the command-line client, which talks to the server over HTTP.

pub mod api;
pub mod commands;
