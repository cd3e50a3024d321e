//! # Feed Parsers
//!
//! Readers that turn dataset files into the `model` entities. The
//! shared [`ParseError`] carries full context (file, line, field) for
//! every failure.

pub mod csv;
pub mod error;
pub mod feed;
pub mod geojson;
pub mod zip;

pub use error::{ParseError, ParseErrorKind};
pub use feed::{read_tables, TableSource};
