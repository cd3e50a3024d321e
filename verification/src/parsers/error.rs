//! Parse errors: every parsing failure carries full context - which
//! file, which line, which field, and what exactly went wrong - so an
//! error in a million-row `stop_times.txt` points at the offending
//! record.

use vstd::prelude::*;

use crate::misc::GtfsError;
use crate::text::{append, owned, u64_to_decimal, decimal};

verus! {

/// The error of reading a file.
#[verifier::external_type_specification]
#[verifier::external_body]
pub struct ExIoError(std::io::Error);

/// The error of the CSV reader.
#[verifier::external_type_specification]
#[verifier::external_body]
pub struct ExCsvError(::csv::Error);

/// The error of the JSON reader.
#[verifier::external_type_specification]
#[verifier::external_body]
pub struct ExJsonError(serde_json::Error);

/// The error of the zip archive reader.
#[verifier::external_type_specification]
#[verifier::external_body]
pub struct ExZipError(zip::result::ZipError);

/// Where and why parsing failed.
#[derive(Debug)]
#[non_exhaustive]
pub struct ParseError {
    /// File the error occurred in (e.g. "agency.txt")
    pub file: String,
    /// One-based line number within the file; 0 when the error is
    /// not tied to a line (e.g. an I/O failure)
    pub line: u64,
    /// Column name, when the error is field-level
    pub field: Option<String>,
    /// What exactly went wrong
    pub kind: ParseErrorKind,
}

/// The failure kinds of [`ParseError`].
#[derive(Debug)]
#[non_exhaustive]
pub enum ParseErrorKind {
    /// Reading the underlying file failed
    Io(std::io::Error),
    /// The CSV structure is malformed
    Csv(::csv::Error),
    /// The JSON structure is malformed (`locations.geojson`)
    Json(serde_json::Error),
    /// The feed archive is malformed
    Zip(zip::result::ZipError),
    /// A required column is missing from the header
    MissingColumn,
    /// A column name appears more than once in the header
    DuplicateColumn,
    /// A required field has an empty value
    EmptyValue,
    /// A value does not match the expected format
    Invalid {
        /// The rejected raw value
        value: String,
        /// What the parser expected (e.g. "code 0-2")
        expected: String,
    },
    /// A value was rejected by one of the model value types
    /// ([`GtfsDate`](crate::misc::GtfsDate),
    /// [`CurrencyAmount`](crate::misc::CurrencyAmount), times)
    Model(GtfsError),
}

/// The content of a [`GtfsError`].
pub enum GtfsErrorView {
    InvalidDate(Seq<char>),
    InvalidTime(Seq<char>),
    InvalidAmount(Seq<char>),
}

/// The content of a [`GtfsError`].
pub open spec fn gtfs_error_view(e: GtfsError) -> GtfsErrorView {
    match e {
        GtfsError::InvalidDate { value } => GtfsErrorView::InvalidDate(value@),
        GtfsError::InvalidTime { value } => GtfsErrorView::InvalidTime(value@),
        GtfsError::InvalidAmount { value } => GtfsErrorView::InvalidAmount(value@),
    }
}

/// The content of a [`ParseErrorKind`]; the errors of outside readers
/// are kept as their kind alone.
pub enum KindView {
    Io,
    Csv,
    Json,
    Zip,
    MissingColumn,
    DuplicateColumn,
    EmptyValue,
    Invalid { value: Seq<char>, expected: Seq<char> },
    Model(GtfsErrorView),
}

/// The content of a [`ParseError`].
pub struct ParseErrorView {
    pub file: Seq<char>,
    pub line: u64,
    pub field: Option<Seq<char>>,
    pub kind: KindView,
}

impl View for ParseErrorKind {
    type V = KindView;

    open spec fn view(&self) -> KindView {
        match self {
            ParseErrorKind::Io(_) => KindView::Io,
            ParseErrorKind::Csv(_) => KindView::Csv,
            ParseErrorKind::Json(_) => KindView::Json,
            ParseErrorKind::Zip(_) => KindView::Zip,
            ParseErrorKind::MissingColumn => KindView::MissingColumn,
            ParseErrorKind::DuplicateColumn => KindView::DuplicateColumn,
            ParseErrorKind::EmptyValue => KindView::EmptyValue,
            ParseErrorKind::Invalid { value, expected } => KindView::Invalid {
                value: value@,
                expected: expected@,
            },
            ParseErrorKind::Model(e) => KindView::Model(gtfs_error_view(*e)),
        }
    }
}

impl View for ParseError {
    type V = ParseErrorView;

    open spec fn view(&self) -> ParseErrorView {
        ParseErrorView {
            file: self.file@,
            line: self.line,
            field: match self.field {
                Some(f) => Some(f@),
                None => None,
            },
            kind: self.kind@,
        }
    }
}

/// The text after the position of an error, for kinds that this crate
/// describes itself.
pub open spec fn kind_text(k: KindView) -> Seq<char> {
    match k {
        KindView::MissingColumn => ": required column is missing"@,
        KindView::DuplicateColumn => ": duplicate column in header"@,
        KindView::EmptyValue => ": required value is empty"@,
        KindView::Invalid { value, expected } => ": invalid value '"@ + value + "' (expected "@ + expected
            + ")"@,
        _ => Seq::empty(),
    }
}

/// The text that introduces the message of an outside library's error.
pub open spec fn outside_kind_text(k: KindView) -> Seq<char> {
    match k {
        KindView::Json => ": invalid JSON: "@,
        KindView::Zip => ": invalid zip archive: "@,
        _ => ": "@,
    }
}

/// The position part of an error's text: the file, then the line and
/// the field where known.
pub open spec fn position_text(e: ParseErrorView) -> Seq<char> {
    e.file + (if e.line > 0 {
        ", line "@ + decimal(e.line as nat)
    } else {
        Seq::empty()
    }) + match e.field {
        Some(f) => ", field `"@ + f + "`"@,
        None => Seq::empty(),
    }
}

/// The message of an I/O error (`ToString` through its `Display`);
/// nothing is claimed of what it says.
#[verifier::external_body]
fn io_error_text(e: &std::io::Error) -> String {
    e.to_string()
}

/// The message of a `csv::Error` (`ToString` through its `Display`);
/// nothing is claimed of what it says.
#[verifier::external_body]
fn csv_error_text(e: &::csv::Error) -> String {
    e.to_string()
}

/// The message of a `serde_json::Error` (`ToString` through its
/// `Display`); nothing is claimed of what it says.
#[verifier::external_body]
fn json_error_text(e: &serde_json::Error) -> String {
    e.to_string()
}

/// The message of a `zip::result::ZipError` (`ToString` through its
/// `Display`); nothing is claimed of what it says.
#[verifier::external_body]
fn zip_error_text(e: &zip::result::ZipError) -> String {
    e.to_string()
}

impl ParseError {
    /// An error of `file` at `line` (0 when not tied to a line), about
    /// `field` when it is field-level.
    pub fn new(file: &str, line: u64, field: Option<&str>, kind: ParseErrorKind) -> (r: ParseError)
        ensures
            r@ == (ParseErrorView {
                file: file@,
                line,
                field: match field {
                    Some(f) => Some(f@),
                    None => None,
                },
                kind: kind@,
            }),
    {
        let field = match field {
            Some(f) => Some(owned(f)),
            None => None,
        };
        ParseError { file: owned(file), line, field, kind }
    }

    /// The error as a message: the file, the line and the field where
    /// known, then what went wrong.
    pub fn to_string(&self) -> (out: String)
        ensures
            match self.kind {
                ParseErrorKind::MissingColumn
                | ParseErrorKind::DuplicateColumn
                | ParseErrorKind::EmptyValue
                | ParseErrorKind::Invalid { .. } => out@ == position_text(self@) + kind_text(self.kind@),
                ParseErrorKind::Model(e) => out@ == position_text(self@) + ": "@ + e.spec_message(),
                _ => {
                    let head = position_text(self@) + outside_kind_text(self.kind@);
                    out@.len() >= head.len() && out@.take(head.len() as int) == head
                },
            },
    {
        let mut out = owned(self.file.as_str());
        if self.line > 0 {
            append(&mut out, ", line ");
            append(&mut out, u64_to_decimal(self.line).as_str());
        }
        match &self.field {
            Some(f) => {
                append(&mut out, ", field `");
                append(&mut out, f.as_str());
                append(&mut out, "`");
            },
            None => {},
        }
        let ghost head = out@;
        assert(head == position_text(self@));
        match &self.kind {
            ParseErrorKind::MissingColumn => append(&mut out, ": required column is missing"),
            ParseErrorKind::DuplicateColumn => append(&mut out, ": duplicate column in header"),
            ParseErrorKind::EmptyValue => append(&mut out, ": required value is empty"),
            ParseErrorKind::Invalid { value, expected } => {
                append(&mut out, ": invalid value '");
                append(&mut out, value.as_str());
                append(&mut out, "' (expected ");
                append(&mut out, expected.as_str());
                append(&mut out, ")");
            },
            ParseErrorKind::Model(e) => {
                append(&mut out, ": ");
                append(&mut out, e.message().as_str());
            },
            ParseErrorKind::Io(e) => {
                append(&mut out, ": ");
                let ghost with_kind = out@;
                append(&mut out, io_error_text(e).as_str());
                assert(out@.take(with_kind.len() as int) =~= with_kind);
            },
            ParseErrorKind::Csv(e) => {
                append(&mut out, ": ");
                let ghost with_kind = out@;
                append(&mut out, csv_error_text(e).as_str());
                assert(out@.take(with_kind.len() as int) =~= with_kind);
            },
            ParseErrorKind::Json(e) => {
                append(&mut out, ": invalid JSON: ");
                let ghost with_kind = out@;
                append(&mut out, json_error_text(e).as_str());
                assert(out@.take(with_kind.len() as int) =~= with_kind);
            },
            ParseErrorKind::Zip(e) => {
                append(&mut out, ": invalid zip archive: ");
                let ghost with_kind = out@;
                append(&mut out, zip_error_text(e).as_str());
                assert(out@.take(with_kind.len() as int) =~= with_kind);
            },
        }
        out
    }
}

} // verus!
