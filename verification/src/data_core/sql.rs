//! The rows the manager keeps in its database.

pub mod analytics;
pub mod data;
