//! The types of the manager's HTTP API.

pub mod server_data;

pub use super::manager_api as manager;
