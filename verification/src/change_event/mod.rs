//! The database-independent change event: its model, validation and planning.
pub mod adapter;
pub mod bits;
pub mod compatibility;
pub mod events;
pub mod failure;
pub mod model;
pub mod reader;
pub mod reordered;
pub mod snapshot;
pub mod sound;
pub mod spatial;
pub mod validate;
