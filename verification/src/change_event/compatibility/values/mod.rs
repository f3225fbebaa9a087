//! Values against the plan that converts them.
pub mod bytes;
pub mod check;
pub mod convert;
pub mod json_text;
pub mod kept;
pub mod members;
pub mod numeric;
pub mod recursive;
pub mod refusal;
pub mod temporal;
pub mod text;
