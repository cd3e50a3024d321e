//! In-memory model, parsing and validation of GTFS Schedule datasets.
//!
//! The [`model`] holds one type per GTFS table, [`GtfsReference`]
//! holds a whole dataset with lookups across tables, [`parsers`] read
//! CSV tables and zipped feeds, and [`validate`] checks a dataset
//! against the rules of the specification.

pub mod text;
pub mod misc;
pub mod model;
pub mod seqs;
pub mod reference;
pub mod validate;
pub mod parsers;

pub use misc::{format_gtfs_time, parse_gtfs_time, CurrencyAmount, GtfsDate, GtfsError, Weekday};
pub use reference::GtfsReference;
pub use validate::{Rule, Severity, ValidationIssue, ValidationReport};
