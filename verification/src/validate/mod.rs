//! # Feed Validation
//!
//! Structural validation of an assembled
//! [`GtfsReference`](crate::GtfsReference): intra-record conditional
//! rules from the specification, primary-key uniqueness and
//! referential integrity across tables. Validation never stops at the
//! first problem: the report lists every found issue.

pub mod report;

pub use report::{Rule, Severity, ValidationIssue, ValidationReport};
pub mod records;
pub mod refs;
pub mod dataset;
pub mod run;
