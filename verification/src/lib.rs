//! Change-data-capture contracts: a vendor-neutral change event, its
//! validation, compatibility planning, and the MySQL rules around it.
pub mod change_event;
pub mod encoding;
pub mod json;
pub mod mysql_5_7;
pub mod mysql_8_0;
pub mod mysql_8_4;
pub mod mysql_source_contract;
pub mod number;
pub mod order;
pub mod parameters;
pub mod read_json;
pub mod text;
