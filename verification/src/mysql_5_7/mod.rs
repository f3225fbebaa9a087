//! MySQL 5.7 capture and target evidence.
pub mod binlog;
pub mod compatibility;
pub mod declaration;
pub mod decoder;
pub mod error;
pub mod gtid;
pub mod json_value;
pub mod republished;
pub mod row;
pub mod snapshot;
pub mod type_mapping;
pub mod value;
