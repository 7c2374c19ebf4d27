//! Logic behind the HTTP API.

pub mod routes;
pub mod utils;
