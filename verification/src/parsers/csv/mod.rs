//! # CSV Parser
//!
//! Header-driven readers for the `.txt` tables of a GTFS dataset.
//! Column order does not matter and unrecognized columns are
//! ignored, as the specification requires. Values are trimmed; an
//! empty value maps to `None` for optional fields.
//!
//! [`Row`] and its typed accessors live in `row.rs`, the
//! [`CsvRecord`] trait in `record.rs` and the implementations for the
//! `model` entities in `records.rs`.

pub mod reader;
pub mod record;
pub mod records;
pub mod row;

pub use reader::{read, read_records};
pub use record::CsvRecord;
pub use row::{Coded, FloatParser, Integer, Row};
