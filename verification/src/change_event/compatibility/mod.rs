//! Which target representation a source field can have, and by which plan.
pub mod capability;
pub mod capability_failure;
pub mod error;
pub mod logical_type;
pub mod plan;
pub mod planner;
pub mod types;
pub mod values;
