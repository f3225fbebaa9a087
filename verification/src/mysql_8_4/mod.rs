//! MySQL 8.4 target evidence and target SQL.
pub mod adapter;
pub mod apply;
pub mod compatibility;
pub mod error;
pub mod json_source;
pub mod replay;
pub mod sql;
pub mod statement;
pub mod value;
