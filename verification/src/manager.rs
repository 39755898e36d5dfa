//! The job manager: configuration, result storage, job scheduling and the
//! checks of its HTTP API.

pub mod api;
pub mod config;
pub mod database;
pub mod player_tracking;
pub mod scan_jobs;
