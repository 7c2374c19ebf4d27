//! Verified core of a self-hosted music library manager: pagination and query
//! helpers, library search filters, download file naming, storage statistics,
//! task cancellation bookkeeping, data-quality checks and configuration defaults.

use vstd::prelude::*;

pub mod ai;
pub mod cli;
pub mod config;
pub mod database;
pub mod ids;
pub mod models;
pub mod server;
pub mod services;
pub mod text;

verus! {

} // verus!
