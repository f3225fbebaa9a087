//! Planning: from a field binding to a conversion plan.
pub mod construction;
pub mod explain;
pub mod input;
pub mod matching;
pub mod options;
pub mod planned;
pub mod representation;
