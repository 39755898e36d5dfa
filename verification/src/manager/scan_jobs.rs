//! Jobs: how they are split between workers, which workers run them, and
//! when scheduled jobs run.

pub mod balancing;
pub mod schedule;
pub mod worker;
pub mod worker_manager;
