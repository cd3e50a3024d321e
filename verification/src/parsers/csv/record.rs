//! The [`CsvRecord`] trait: one GTFS entity per CSV row.

use vstd::prelude::*;

use crate::parsers::csv::row::{Row, RowView};
use crate::parsers::error::{ParseError, ParseErrorView};

verus! {

/// Whether `out` is the error `e`.
pub open spec fn fails_with<T>(out: Result<T, ParseError>, e: ParseErrorView) -> bool {
    out matches Err(pe) && pe@ == e
}

/// A GTFS entity readable from one CSV row.
///
/// Implemented by the crate for its `model` entities, each stating
/// which record or error a row gives; implement it for custom types to
/// read GTFS extensions with the same machinery.
pub trait CsvRecord: Sized {
    /// Dataset file the entity comes from (e.g. "agency.txt").
    const FILE_NAME: &'static str;

    /// Whether `out` is what `row` reads as.
    spec fn parsed(row: RowView, out: Result<Self, ParseError>) -> bool;

    /// Builds the entity from one CSV row.
    ///
    /// # Errors
    ///
    /// Returns a [`ParseError`] describing the offending field when
    /// the row violates the entity's format.
    fn from_row(row: &Row<'_>) -> (r: Result<Self, ParseError>)
        ensures
            Self::parsed(row@, r),
    ;
}

} // verus!
