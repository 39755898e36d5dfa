//! Data shared between the manager and the workers: the API types, the
//! messages exchanged with the workers, and the rows kept in the database.

pub mod api;
pub mod manager_api;
pub mod proto;
pub mod sql;
