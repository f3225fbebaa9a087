//! MySQL 8.0 target evidence and replication progress.
pub mod checkpoint;
pub mod compatibility;
pub mod position;
