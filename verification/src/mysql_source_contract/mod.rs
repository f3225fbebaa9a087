//! MySQL-native source contract validation and sink capability evidence, shared
//! by the versioned adapters. The core contract stays database-neutral; the
//! adapters share only their native rules.
pub mod boundary;
pub mod catalog;
pub mod codes;
pub mod cursor;
pub mod identifier;
pub mod manifest;
pub mod offers;
pub mod source;
pub mod wire;
