//! What the manager writes to its database.

pub mod data_parsing;

pub use data_parsing::ParsedForSqlServerData;
