//! Shared helpers of the HTTP API.

pub mod cancellation;
pub mod response;
