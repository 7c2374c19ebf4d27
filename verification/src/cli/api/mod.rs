//! Data the command-line client receives from the server, and where it asks for it.

pub mod client;
pub mod models;
