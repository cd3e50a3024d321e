//! The [`Row`] accessor handed to record implementations: by-name
//! column lookups with typed helpers that attach full error context
//! (file, line, field).

use vstd::prelude::*;
use vstd::hash_map::StringHashMap;

use crate::misc::{
    all_digits, amount_text, date_text, digits_value, gtfs_time, parse_digits, parse_gtfs_time,
    CurrencyAmount, GtfsDate,
};
use crate::model::{
    BikesAllowed, BookingType, CarsAllowed, CemvSupport, ContinuousPickupDropOff, Direction,
    DurationLimitType, ExactTimes, ExceptionType, FareMediaType, FareTransferType, LocationType,
    PathwayMode, PaymentMethod, PickupDropOffType, RouteType, StopAccess, Timepoint, TransferType,
    WheelchairAccessible, WheelchairBoarding,
};
use crate::parsers::error::{gtfs_error_view, GtfsErrorView, KindView, ParseError, ParseErrorKind, ParseErrorView};
use crate::text::{chars_of, owned, trim, trimmed};

verus! {

/// Converts the text of a floating-point number to the bits of the
/// nearest `f64` (IEEE 754), `None` when the text is not a number.
///
/// The crate keeps floating-point values as their bits and leaves their
/// text syntax to the implementation handed to the readers.
pub trait FloatParser {
    /// Whether `out` is a reading of `text` that this reader admits. An
    /// implementation that states nothing keeps the default, which
    /// admits every reading.
    open spec fn reads_as(&self, text: Seq<char>, out: Option<u64>) -> bool {
        true
    }

    /// The bits of the number `text` names, `None` when it names none.
    fn float_bits(&self, text: &str) -> (r: Option<u64>)
        ensures
            self.reads_as(text@, r),
    ;
}

/// The readings a float reader admits.
pub open spec fn float_readings<F: FloatParser>(floats: F) -> spec_fn(Seq<char>, Option<u64>) -> bool {
    |text: Seq<char>, out: Option<u64>| floats.reads_as(text, out)
}

/// An integer-coded enumeration of the specification.
pub trait Coded: Sized {
    /// The value a wire code stands for, if any.
    spec fn code_value(code: int) -> Option<Self>;

    /// Converts a wire code.
    fn decode(code: i32) -> (r: Option<Self>)
        ensures
            r == Self::code_value(code as int),
    ;
}

impl Coded for LocationType {
    open spec fn code_value(code: int) -> Option<Self> {
        LocationType::spec_from_code(code)
    }

    fn decode(code: i32) -> (r: Option<Self>) {
        LocationType::from_code(code)
    }
}

impl Coded for WheelchairBoarding {
    open spec fn code_value(code: int) -> Option<Self> {
        WheelchairBoarding::spec_from_code(code)
    }

    fn decode(code: i32) -> (r: Option<Self>) {
        WheelchairBoarding::from_code(code)
    }
}

impl Coded for StopAccess {
    open spec fn code_value(code: int) -> Option<Self> {
        StopAccess::spec_from_code(code)
    }

    fn decode(code: i32) -> (r: Option<Self>) {
        StopAccess::from_code(code)
    }
}

impl Coded for ContinuousPickupDropOff {
    open spec fn code_value(code: int) -> Option<Self> {
        ContinuousPickupDropOff::spec_from_code(code)
    }

    fn decode(code: i32) -> (r: Option<Self>) {
        ContinuousPickupDropOff::from_code(code)
    }
}

impl Coded for CemvSupport {
    open spec fn code_value(code: int) -> Option<Self> {
        CemvSupport::spec_from_code(code)
    }

    fn decode(code: i32) -> (r: Option<Self>) {
        CemvSupport::from_code(code)
    }
}

impl Coded for Direction {
    open spec fn code_value(code: int) -> Option<Self> {
        Direction::spec_from_code(code)
    }

    fn decode(code: i32) -> (r: Option<Self>) {
        Direction::from_code(code)
    }
}

impl Coded for WheelchairAccessible {
    open spec fn code_value(code: int) -> Option<Self> {
        WheelchairAccessible::spec_from_code(code)
    }

    fn decode(code: i32) -> (r: Option<Self>) {
        WheelchairAccessible::from_code(code)
    }
}

impl Coded for BikesAllowed {
    open spec fn code_value(code: int) -> Option<Self> {
        BikesAllowed::spec_from_code(code)
    }

    fn decode(code: i32) -> (r: Option<Self>) {
        BikesAllowed::from_code(code)
    }
}

impl Coded for CarsAllowed {
    open spec fn code_value(code: int) -> Option<Self> {
        CarsAllowed::spec_from_code(code)
    }

    fn decode(code: i32) -> (r: Option<Self>) {
        CarsAllowed::from_code(code)
    }
}

impl Coded for PickupDropOffType {
    open spec fn code_value(code: int) -> Option<Self> {
        PickupDropOffType::spec_from_code(code)
    }

    fn decode(code: i32) -> (r: Option<Self>) {
        PickupDropOffType::from_code(code)
    }
}

impl Coded for Timepoint {
    open spec fn code_value(code: int) -> Option<Self> {
        Timepoint::spec_from_code(code)
    }

    fn decode(code: i32) -> (r: Option<Self>) {
        Timepoint::from_code(code)
    }
}

impl Coded for ExceptionType {
    open spec fn code_value(code: int) -> Option<Self> {
        ExceptionType::spec_from_code(code)
    }

    fn decode(code: i32) -> (r: Option<Self>) {
        ExceptionType::from_code(code)
    }
}

impl Coded for PaymentMethod {
    open spec fn code_value(code: int) -> Option<Self> {
        PaymentMethod::spec_from_code(code)
    }

    fn decode(code: i32) -> (r: Option<Self>) {
        PaymentMethod::from_code(code)
    }
}

impl Coded for FareMediaType {
    open spec fn code_value(code: int) -> Option<Self> {
        FareMediaType::spec_from_code(code)
    }

    fn decode(code: i32) -> (r: Option<Self>) {
        FareMediaType::from_code(code)
    }
}

impl Coded for FareTransferType {
    open spec fn code_value(code: int) -> Option<Self> {
        FareTransferType::spec_from_code(code)
    }

    fn decode(code: i32) -> (r: Option<Self>) {
        FareTransferType::from_code(code)
    }
}

impl Coded for DurationLimitType {
    open spec fn code_value(code: int) -> Option<Self> {
        DurationLimitType::spec_from_code(code)
    }

    fn decode(code: i32) -> (r: Option<Self>) {
        DurationLimitType::from_code(code)
    }
}

impl Coded for ExactTimes {
    open spec fn code_value(code: int) -> Option<Self> {
        ExactTimes::spec_from_code(code)
    }

    fn decode(code: i32) -> (r: Option<Self>) {
        ExactTimes::from_code(code)
    }
}

impl Coded for TransferType {
    open spec fn code_value(code: int) -> Option<Self> {
        TransferType::spec_from_code(code)
    }

    fn decode(code: i32) -> (r: Option<Self>) {
        TransferType::from_code(code)
    }
}

impl Coded for PathwayMode {
    open spec fn code_value(code: int) -> Option<Self> {
        PathwayMode::spec_from_code(code)
    }

    fn decode(code: i32) -> (r: Option<Self>) {
        PathwayMode::from_code(code)
    }
}

impl Coded for BookingType {
    open spec fn code_value(code: int) -> Option<Self> {
        BookingType::spec_from_code(code)
    }

    fn decode(code: i32) -> (r: Option<Self>) {
        BookingType::from_code(code)
    }
}

impl Coded for RouteType {
    open spec fn code_value(code: int) -> Option<Self> {
        RouteType::spec_from_code(code)
    }

    fn decode(code: i32) -> (r: Option<Self>) {
        RouteType::from_code(code)
    }
}

/// The value of the decimal digits `s`, when there is at least one and
/// all are digits.
pub open spec fn digits_number(s: Seq<char>) -> Option<int> {
    if s.len() > 0 && all_digits(s) {
        Some(digits_value(s) as int)
    } else {
        None
    }
}

/// The value of an integer text: an optional `+` (or `-` when `signed`)
/// followed by decimal digits.
pub open spec fn int_text(s: Seq<char>, signed: bool) -> Option<int> {
    if s.len() > 0 && s[0] == '+' {
        digits_number(s.drop_first())
    } else if signed && s.len() > 0 && s[0] == '-' {
        match digits_number(s.drop_first()) {
            Some(v) => Some(-v),
            None => None,
        }
    } else {
        digits_number(s)
    }
}

/// A fixed-width integer type read from decimal text.
pub trait Integer: Sized + Copy {
    /// The value a text stands for, if it is an integer in range.
    spec fn from_text_spec(text: Seq<char>) -> Option<Self>;

    /// Reads the integer.
    fn from_text(text: &str) -> (r: Option<Self>)
        ensures
            r == Self::from_text_spec(text@),
    ;
}

/// Reads the digits after an optional sign: `None` when there are none,
/// when one is not a digit or when the value exceeds `max`.
fn bounded_digits(chars: &Vec<char>, from: usize, max: u64) -> (r: Option<u64>)
    requires
        from <= chars.len(),
    ensures
        match digits_number(chars@.subrange(from as int, chars.len() as int)) {
            Some(v) => if v <= max {
                r == Some(v as u64)
            } else {
                r is None
            },
            None => r is None,
        },
{
    if from == chars.len() {
        return None;
    }
    parse_digits(chars, from, chars.len(), max)
}

impl Integer for u32 {
    open spec fn from_text_spec(text: Seq<char>) -> Option<u32> {
        match int_text(text, false) {
            Some(v) => if 0 <= v <= u32::MAX {
                Some(v as u32)
            } else {
                None
            },
            None => None,
        }
    }

    fn from_text(text: &str) -> (r: Option<u32>) {
        let chars = chars_of(text);
        let start: usize = if chars.len() > 0 && chars[0] == '+' { 1 } else { 0 };
        proof {
            if start == 1 {
                assert(chars@.subrange(1, chars.len() as int) =~= text@.drop_first());
            } else {
                assert(chars@.subrange(0, chars.len() as int) =~= text@);
            }
        }
        match bounded_digits(&chars, start, u32::MAX as u64) {
            Some(v) => Some(v as u32),
            None => None,
        }
    }
}

impl Integer for i32 {
    open spec fn from_text_spec(text: Seq<char>) -> Option<i32> {
        match int_text(text, true) {
            Some(v) => if i32::MIN <= v <= i32::MAX {
                Some(v as i32)
            } else {
                None
            },
            None => None,
        }
    }

    fn from_text(text: &str) -> (r: Option<i32>) {
        let chars = chars_of(text);
        let negative = chars.len() > 0 && chars[0] == '-';
        let start: usize = if chars.len() > 0 && (chars[0] == '+' || chars[0] == '-') { 1 } else { 0 };
        proof {
            if start == 1 {
                assert(chars@.subrange(1, chars.len() as int) =~= text@.drop_first());
            } else {
                assert(chars@.subrange(0, chars.len() as int) =~= text@);
            }
        }
        let max: u64 = if negative { 0x8000_0000 } else { 0x7fff_ffff };
        match bounded_digits(&chars, start, max) {
            Some(v) => if negative {
                Some((0 - (v as i64)) as i32)
            } else {
                Some(v as i32)
            },
            None => None,
        }
    }
}

/// The content of a [`Row`]: its position, the column of each header
/// name, the raw fields and the number each field reads as.
pub struct RowView {
    pub file: Seq<char>,
    pub line: u64,
    pub columns: Map<Seq<char>, usize>,
    pub fields: Seq<Seq<char>>,
    pub floats: Seq<Option<u64>>,
}

/// One CSV row with header context, handed to
/// [`CsvRecord::from_row`](crate::parsers::csv::CsvRecord::from_row)
/// implementations.
///
/// Lookups are by column name; positions in the file are irrelevant.
/// The accessors build [`ParseError`]s that already carry the file
/// name, line number and field name.
pub struct Row<'a> {
    file: &'a str,
    line: u64,
    columns: &'a StringHashMap<usize>,
    fields: &'a Vec<String>,
    floats: &'a Vec<Option<u64>>,
}

impl<'a> View for Row<'a> {
    type V = RowView;

    closed spec fn view(&self) -> RowView {
        RowView {
            file: self.file@,
            line: self.line,
            columns: self.columns@,
            fields: self.fields@.map_values(|s: String| s@),
            floats: self.floats@,
        }
    }
}

/// The trimmed value of a column, `None` when the column is absent, the
/// row is too short or the value is empty.
pub open spec fn column_text(r: RowView, name: Seq<char>) -> Option<Seq<char>> {
    if r.columns.contains_key(name) && r.columns[name] < r.fields.len() {
        let v = trimmed(r.fields[r.columns[name] as int]);
        if v.len() == 0 {
            None
        } else {
            Some(v)
        }
    } else {
        None
    }
}

/// The number the value of a column reads as.
pub open spec fn column_float(r: RowView, name: Seq<char>) -> Option<u64> {
    if r.columns.contains_key(name) && r.columns[name] < r.floats.len() {
        r.floats[r.columns[name] as int]
    } else {
        None
    }
}

/// A field-level error at the row's position.
pub open spec fn row_error(r: RowView, field: Seq<char>, kind: KindView) -> ParseErrorView {
    ParseErrorView { file: r.file, line: r.line, field: Some(field), kind }
}

/// An invalid-value error at the row's position.
pub open spec fn invalid_error(r: RowView, field: Seq<char>, value: Seq<char>, expected: Seq<char>) -> ParseErrorView {
    row_error(r, field, KindView::Invalid { value, expected })
}

/// A required column's value.
pub open spec fn row_req(r: RowView, name: Seq<char>) -> Result<Seq<char>, ParseErrorView> {
    if !r.columns.contains_key(name) {
        Err(row_error(r, name, KindView::MissingColumn))
    } else {
        match column_text(r, name) {
            Some(v) => Ok(v),
            None => Err(row_error(r, name, KindView::EmptyValue)),
        }
    }
}

/// The enumeration value a code text stands for.
pub open spec fn code_result<T: Coded>(r: RowView, name: Seq<char>, raw: Seq<char>, expected: Seq<char>) -> Result<T, ParseErrorView> {
    match <i32 as Integer>::from_text_spec(raw) {
        Some(code) => match T::code_value(code as int) {
            Some(v) => Ok(v),
            None => Err(invalid_error(r, name, raw, expected)),
        },
        None => Err(invalid_error(r, name, raw, expected)),
    }
}

/// An optional integer-coded column.
pub open spec fn row_opt_code<T: Coded>(r: RowView, name: Seq<char>, expected: Seq<char>) -> Result<Option<T>, ParseErrorView> {
    match column_text(r, name) {
        None => Ok(None),
        Some(raw) => match code_result::<T>(r, name, raw, expected) {
            Ok(v) => Ok(Some(v)),
            Err(e) => Err(e),
        },
    }
}

/// A required integer-coded column.
pub open spec fn row_req_code<T: Coded>(r: RowView, name: Seq<char>, expected: Seq<char>) -> Result<T, ParseErrorView> {
    match row_req(r, name) {
        Err(e) => Err(e),
        Ok(raw) => code_result::<T>(r, name, raw, expected),
    }
}

/// An optional integer column.
pub open spec fn row_opt_num<T: Integer>(r: RowView, name: Seq<char>, expected: Seq<char>) -> Result<Option<T>, ParseErrorView> {
    match column_text(r, name) {
        None => Ok(None),
        Some(raw) => match T::from_text_spec(raw) {
            Some(v) => Ok(Some(v)),
            None => Err(invalid_error(r, name, raw, expected)),
        },
    }
}

/// A required integer column.
pub open spec fn row_req_num<T: Integer>(r: RowView, name: Seq<char>, expected: Seq<char>) -> Result<T, ParseErrorView> {
    match row_req(r, name) {
        Err(e) => Err(e),
        Ok(raw) => match T::from_text_spec(raw) {
            Some(v) => Ok(v),
            None => Err(invalid_error(r, name, raw, expected)),
        },
    }
}

/// An optional floating-point column, as the bits of its value.
pub open spec fn row_opt_float(r: RowView, name: Seq<char>, expected: Seq<char>) -> Result<Option<u64>, ParseErrorView> {
    match column_text(r, name) {
        None => Ok(None),
        Some(raw) => match column_float(r, name) {
            Some(v) => Ok(Some(v)),
            None => Err(invalid_error(r, name, raw, expected)),
        },
    }
}

/// A required floating-point column, as the bits of its value.
pub open spec fn row_req_float(r: RowView, name: Seq<char>, expected: Seq<char>) -> Result<u64, ParseErrorView> {
    match row_req(r, name) {
        Err(e) => Err(e),
        Ok(raw) => match column_float(r, name) {
            Some(v) => Ok(v),
            None => Err(invalid_error(r, name, raw, expected)),
        },
    }
}

/// An optional `HH:MM:SS` column, in seconds.
pub open spec fn row_opt_time(r: RowView, name: Seq<char>) -> Result<Option<u32>, ParseErrorView> {
    match column_text(r, name) {
        None => Ok(None),
        Some(raw) => match gtfs_time(raw) {
            Some(v) => Ok(Some(v as u32)),
            None => Err(row_error(r, name, KindView::Model(GtfsErrorView::InvalidTime(raw)))),
        },
    }
}

/// A required `HH:MM:SS` column, in seconds.
pub open spec fn row_req_time(r: RowView, name: Seq<char>) -> Result<u32, ParseErrorView> {
    match row_req(r, name) {
        Err(e) => Err(e),
        Ok(raw) => match gtfs_time(raw) {
            Some(v) => Ok(v as u32),
            None => Err(row_error(r, name, KindView::Model(GtfsErrorView::InvalidTime(raw)))),
        },
    }
}

/// An optional `YYYYMMDD` column, as year, month and day.
pub open spec fn row_opt_date(r: RowView, name: Seq<char>) -> Result<Option<(int, int, int)>, ParseErrorView> {
    match column_text(r, name) {
        None => Ok(None),
        Some(raw) => match date_text(raw) {
            Some(d) => Ok(Some(d)),
            None => Err(row_error(r, name, KindView::Model(GtfsErrorView::InvalidDate(raw)))),
        },
    }
}

/// A required `YYYYMMDD` column, as year, month and day.
pub open spec fn row_req_date(r: RowView, name: Seq<char>) -> Result<(int, int, int), ParseErrorView> {
    match row_req(r, name) {
        Err(e) => Err(e),
        Ok(raw) => match date_text(raw) {
            Some(d) => Ok(d),
            None => Err(row_error(r, name, KindView::Model(GtfsErrorView::InvalidDate(raw)))),
        },
    }
}

/// A required decimal amount column, as units and scale.
pub open spec fn row_req_currency(r: RowView, name: Seq<char>) -> Result<(int, nat), ParseErrorView> {
    match row_req(r, name) {
        Err(e) => Err(e),
        Ok(raw) => match amount_text(raw) {
            Some(a) => Ok(a),
            None => Err(row_error(r, name, KindView::Model(GtfsErrorView::InvalidAmount(raw)))),
        },
    }
}

/// The flag a `0`/`1` text stands for.
pub open spec fn flag_text(raw: Seq<char>) -> Option<bool> {
    if raw == "0"@ {
        Some(false)
    } else if raw == "1"@ {
        Some(true)
    } else {
        None
    }
}

/// An optional `0`/`1` column.
pub open spec fn row_opt_bool(r: RowView, name: Seq<char>) -> Result<Option<bool>, ParseErrorView> {
    match column_text(r, name) {
        None => Ok(None),
        Some(raw) => match flag_text(raw) {
            Some(b) => Ok(Some(b)),
            None => Err(invalid_error(r, name, raw, "0 or 1"@)),
        },
    }
}

/// A required `0`/`1` column.
pub open spec fn row_req_bool(r: RowView, name: Seq<char>) -> Result<bool, ParseErrorView> {
    match row_req(r, name) {
        Err(e) => Err(e),
        Ok(raw) => match flag_text(raw) {
            Some(b) => Ok(b),
            None => Err(invalid_error(r, name, raw, "0 or 1"@)),
        },
    }
}

/// Lookups are by column name, and positions in the file are
/// irrelevant: two rows at one place of one file that hold the same
/// columns, with the same value and number under every column name,
/// read alike through every accessor.
pub proof fn lemma_lookup_by_name<C: Coded, N: Integer>(r1: RowView, r2: RowView, name: Seq<char>, expected: Seq<char>)
    requires
        r1.file == r2.file,
        r1.line == r2.line,
        r1.columns.dom() == r2.columns.dom(),
        forall|n: Seq<char>| #[trigger] column_text(r1, n) == column_text(r2, n),
        forall|n: Seq<char>| #[trigger] column_float(r1, n) == column_float(r2, n),
    ensures
        row_req(r1, name) == row_req(r2, name),
        row_opt_code::<C>(r1, name, expected) == row_opt_code::<C>(r2, name, expected),
        row_req_code::<C>(r1, name, expected) == row_req_code::<C>(r2, name, expected),
        row_opt_num::<N>(r1, name, expected) == row_opt_num::<N>(r2, name, expected),
        row_req_num::<N>(r1, name, expected) == row_req_num::<N>(r2, name, expected),
        row_opt_float(r1, name, expected) == row_opt_float(r2, name, expected),
        row_req_float(r1, name, expected) == row_req_float(r2, name, expected),
        row_opt_time(r1, name) == row_opt_time(r2, name),
        row_req_time(r1, name) == row_req_time(r2, name),
        row_opt_date(r1, name) == row_opt_date(r2, name),
        row_req_date(r1, name) == row_req_date(r2, name),
        row_req_currency(r1, name) == row_req_currency(r2, name),
        row_opt_bool(r1, name) == row_opt_bool(r2, name),
        row_req_bool(r1, name) == row_req_bool(r2, name),
{
    assert(column_text(r1, name) == column_text(r2, name));
    assert(column_float(r1, name) == column_float(r2, name));
    assert(r1.columns.contains_key(name) == r2.columns.contains_key(name));
}

/// A result with its error as content.
pub open spec fn err_view<V>(r: Result<V, ParseError>) -> Result<V, ParseErrorView> {
    match r {
        Ok(v) => Ok(v),
        Err(e) => Err(e@),
    }
}

/// A text result as content.
pub open spec fn str_view(r: Result<&str, ParseError>) -> Result<Seq<char>, ParseErrorView> {
    match r {
        Ok(v) => Ok(v@),
        Err(e) => Err(e@),
    }
}

/// The year, month and day of a date.
pub open spec fn date_parts(d: GtfsDate) -> (int, int, int) {
    (d.spec_year(), d.spec_month(), d.spec_day())
}

/// An optional date result as content.
pub open spec fn opt_date_view(r: Result<Option<GtfsDate>, ParseError>) -> Result<Option<(int, int, int)>, ParseErrorView> {
    match r {
        Ok(Some(d)) => Ok(Some(date_parts(d))),
        Ok(None) => Ok(None),
        Err(e) => Err(e@),
    }
}

/// A date result as content.
pub open spec fn date_view(r: Result<GtfsDate, ParseError>) -> Result<(int, int, int), ParseErrorView> {
    match r {
        Ok(d) => Ok(date_parts(d)),
        Err(e) => Err(e@),
    }
}

/// An amount result as content.
pub open spec fn currency_view(r: Result<CurrencyAmount, ParseError>) -> Result<(int, nat), ParseErrorView> {
    match r {
        Ok(a) => Ok((a.spec_units(), a.spec_scale())),
        Err(e) => Err(e@),
    }
}

/// An optional string as content.
pub open spec fn opt_str_view(v: Option<&str>) -> Option<Seq<char>> {
    match v {
        Some(s) => Some(s@),
        None => None,
    }
}

/// An optional owned string as content.
pub open spec fn opt_string_view(v: Option<String>) -> Option<Seq<char>> {
    match v {
        Some(s) => Some(s@),
        None => None,
    }
}

/// Reads an optional string column into an owned value.
pub fn opt_string(row: &Row<'_>, name: &str) -> (r: Option<String>)
    ensures
        opt_string_view(r) == column_text(row@, name@),
{
    match row.opt(name) {
        Some(v) => Some(owned(v)),
        None => None,
    }
}

impl<'a> Row<'a> {
    /// A row of `file` at `line`, with the columns of the header, the
    /// raw fields and the number each field reads as.
    pub(crate) fn new(
        file: &'a str,
        line: u64,
        columns: &'a StringHashMap<usize>,
        fields: &'a Vec<String>,
        floats: &'a Vec<Option<u64>>,
    ) -> (r: Row<'a>)
        ensures
            r@ == (RowView {
                file: file@,
                line,
                columns: columns@,
                fields: fields@.map_values(|s: String| s@),
                floats: floats@,
            }),
    {
        Row { file, line, columns, fields, floats }
    }

    /// Returns the trimmed value of an optional column, or `None`
    /// when the column is absent or the value is empty.
    pub fn opt(&self, name: &str) -> (r: Option<&'a str>)
        ensures
            opt_str_view(r) == column_text(self@, name@),
    {
        let fields: &'a Vec<String> = self.fields;
        match self.columns.get(name) {
            Some(index) => {
                let i = *index;
                if i < fields.len() {
                    let v = trim(fields[i].as_str());
                    if v.unicode_len() == 0 {
                        None
                    } else {
                        Some(v)
                    }
                } else {
                    None
                }
            },
            None => None,
        }
    }

    /// Returns the trimmed value of a required column.
    ///
    /// # Errors
    ///
    /// Returns [`ParseErrorKind::MissingColumn`] if the header lacks
    /// the column, or [`ParseErrorKind::EmptyValue`] if the value is
    /// empty.
    pub fn req(&self, name: &str) -> (r: Result<&'a str, ParseError>)
        ensures
            str_view(r) == row_req(self@, name@),
    {
        if !self.columns.contains_key(name) {
            return Err(self.err(name, ParseErrorKind::MissingColumn));
        }
        match self.opt(name) {
            Some(value) => Ok(value),
            None => Err(self.err(name, ParseErrorKind::EmptyValue)),
        }
    }

    fn code<T: Coded>(&self, name: &str, raw: &str, expected: &str) -> (r: Result<T, ParseError>)
        ensures
            err_view(r) == code_result::<T>(self@, name@, raw@, expected@),
    {
        match <i32 as Integer>::from_text(raw) {
            Some(code) => match T::decode(code) {
                Some(v) => Ok(v),
                None => Err(self.invalid(name, raw, expected)),
            },
            None => Err(self.invalid(name, raw, expected)),
        }
    }

    /// Parses an optional integer-coded enum column.
    ///
    /// # Errors
    ///
    /// Returns [`ParseErrorKind::Invalid`] if the value is not an
    /// integer or the code is not one of the enumeration's.
    pub fn opt_code<T: Coded>(&self, name: &str, expected: &str) -> (r: Result<Option<T>, ParseError>)
        ensures
            err_view(r) == row_opt_code::<T>(self@, name@, expected@),
    {
        match self.opt(name) {
            None => Ok(None),
            Some(raw) => match self.code::<T>(name, raw, expected) {
                Ok(v) => Ok(Some(v)),
                Err(e) => Err(e),
            },
        }
    }

    /// Parses a required integer-coded enum column.
    ///
    /// # Errors
    ///
    /// Returns [`ParseErrorKind::MissingColumn`],
    /// [`ParseErrorKind::EmptyValue`] or [`ParseErrorKind::Invalid`].
    pub fn req_code<T: Coded>(&self, name: &str, expected: &str) -> (r: Result<T, ParseError>)
        ensures
            err_view(r) == row_req_code::<T>(self@, name@, expected@),
    {
        match self.req(name) {
            Err(e) => Err(e),
            Ok(raw) => self.code::<T>(name, raw, expected),
        }
    }

    /// Parses an optional integer column.
    ///
    /// # Errors
    ///
    /// Returns [`ParseErrorKind::Invalid`] if the value fails to
    /// parse.
    pub fn opt_num<T: Integer>(&self, name: &str, expected: &str) -> (r: Result<Option<T>, ParseError>)
        ensures
            err_view(r) == row_opt_num::<T>(self@, name@, expected@),
    {
        match self.opt(name) {
            None => Ok(None),
            Some(raw) => match T::from_text(raw) {
                Some(v) => Ok(Some(v)),
                None => Err(self.invalid(name, raw, expected)),
            },
        }
    }

    /// Parses a required integer column.
    ///
    /// # Errors
    ///
    /// Returns [`ParseErrorKind::MissingColumn`],
    /// [`ParseErrorKind::EmptyValue`] or [`ParseErrorKind::Invalid`].
    pub fn req_num<T: Integer>(&self, name: &str, expected: &str) -> (r: Result<T, ParseError>)
        ensures
            err_view(r) == row_req_num::<T>(self@, name@, expected@),
    {
        match self.req(name) {
            Err(e) => Err(e),
            Ok(raw) => match T::from_text(raw) {
                Some(v) => Ok(v),
                None => Err(self.invalid(name, raw, expected)),
            },
        }
    }

    fn float_of(&self, name: &str) -> (r: Option<u64>)
        ensures
            r == column_float(self@, name@),
    {
        match self.columns.get(name) {
            Some(index) => {
                let i = *index;
                if i < self.floats.len() {
                    self.floats[i]
                } else {
                    None
                }
            },
            None => None,
        }
    }

    /// Parses an optional floating-point column into the bits of its
    /// value.
    ///
    /// # Errors
    ///
    /// Returns [`ParseErrorKind::Invalid`] if the value is not a
    /// number.
    pub fn opt_float(&self, name: &str, expected: &str) -> (r: Result<Option<u64>, ParseError>)
        ensures
            err_view(r) == row_opt_float(self@, name@, expected@),
    {
        match self.opt(name) {
            None => Ok(None),
            Some(raw) => match self.float_of(name) {
                Some(v) => Ok(Some(v)),
                None => Err(self.invalid(name, raw, expected)),
            },
        }
    }

    /// Parses a required floating-point column into the bits of its
    /// value.
    ///
    /// # Errors
    ///
    /// Returns [`ParseErrorKind::MissingColumn`],
    /// [`ParseErrorKind::EmptyValue`] or [`ParseErrorKind::Invalid`].
    pub fn req_float(&self, name: &str, expected: &str) -> (r: Result<u64, ParseError>)
        ensures
            err_view(r) == row_req_float(self@, name@, expected@),
    {
        match self.req(name) {
            Err(e) => Err(e),
            Ok(raw) => match self.float_of(name) {
                Some(v) => Ok(v),
                None => Err(self.invalid(name, raw, expected)),
            },
        }
    }

    /// Parses an optional `HH:MM:SS` time column into seconds since
    /// midnight of the service day (hours may exceed 23).
    ///
    /// # Errors
    ///
    /// Returns [`ParseErrorKind::Model`] if the value is not a valid
    /// GTFS time.
    pub fn opt_time(&self, name: &str) -> (r: Result<Option<u32>, ParseError>)
        ensures
            err_view(r) == row_opt_time(self@, name@),
    {
        match self.opt(name) {
            None => Ok(None),
            Some(raw) => match parse_gtfs_time(raw) {
                Ok(seconds) => Ok(Some(seconds)),
                Err(e) => Err(self.err(name, ParseErrorKind::Model(e))),
            },
        }
    }

    /// Parses a required `HH:MM:SS` time column into seconds since
    /// midnight of the service day.
    ///
    /// # Errors
    ///
    /// Returns [`ParseErrorKind::MissingColumn`],
    /// [`ParseErrorKind::EmptyValue`] or [`ParseErrorKind::Model`].
    pub fn req_time(&self, name: &str) -> (r: Result<u32, ParseError>)
        ensures
            err_view(r) == row_req_time(self@, name@),
    {
        match self.req(name) {
            Err(e) => Err(e),
            Ok(raw) => match parse_gtfs_time(raw) {
                Ok(seconds) => Ok(seconds),
                Err(e) => Err(self.err(name, ParseErrorKind::Model(e))),
            },
        }
    }

    /// Parses an optional `YYYYMMDD` date column.
    ///
    /// # Errors
    ///
    /// Returns [`ParseErrorKind::Model`] if the value is not a valid
    /// GTFS date.
    pub fn opt_date(&self, name: &str) -> (r: Result<Option<GtfsDate>, ParseError>)
        ensures
            opt_date_view(r) == row_opt_date(self@, name@),
    {
        match self.opt(name) {
            None => Ok(None),
            Some(raw) => match GtfsDate::parse(raw) {
                Ok(date) => Ok(Some(date)),
                Err(e) => Err(self.err(name, ParseErrorKind::Model(e))),
            },
        }
    }

    /// Parses a required `YYYYMMDD` date column.
    ///
    /// # Errors
    ///
    /// Returns [`ParseErrorKind::MissingColumn`],
    /// [`ParseErrorKind::EmptyValue`] or [`ParseErrorKind::Model`].
    pub fn req_date(&self, name: &str) -> (r: Result<GtfsDate, ParseError>)
        ensures
            date_view(r) == row_req_date(self@, name@),
    {
        match self.req(name) {
            Err(e) => Err(e),
            Ok(raw) => match GtfsDate::parse(raw) {
                Ok(date) => Ok(date),
                Err(e) => Err(self.err(name, ParseErrorKind::Model(e))),
            },
        }
    }

    /// Parses a required decimal currency amount column.
    ///
    /// # Errors
    ///
    /// Returns [`ParseErrorKind::MissingColumn`],
    /// [`ParseErrorKind::EmptyValue`] or [`ParseErrorKind::Model`].
    pub fn req_currency(&self, name: &str) -> (r: Result<CurrencyAmount, ParseError>)
        ensures
            currency_view(r) == row_req_currency(self@, name@),
    {
        match self.req(name) {
            Err(e) => Err(e),
            Ok(raw) => match CurrencyAmount::parse(raw) {
                Ok(amount) => Ok(amount),
                Err(e) => Err(self.err(name, ParseErrorKind::Model(e))),
            },
        }
    }

    fn flag(&self, name: &str, raw: &str) -> (r: Result<bool, ParseError>)
        ensures
            err_view(r) == match flag_text(raw@) {
                Some(b) => Ok(b),
                None => Err(invalid_error(self@, name@, raw@, "0 or 1"@)),
            },
    {
        let chars = chars_of(raw);
        if chars.len() == 1 && chars[0] == '0' {
            proof {
                reveal_strlit("0");
                assert(raw@ =~= "0"@);
            }
            Ok(false)
        } else if chars.len() == 1 && chars[0] == '1' {
            proof {
                reveal_strlit("0");
                reveal_strlit("1");
                assert(raw@ =~= "1"@);
                assert(raw@[0] != "0"@[0]);
            }
            Ok(true)
        } else {
            proof {
                reveal_strlit("0");
                reveal_strlit("1");
                if raw@ == "0"@ || raw@ == "1"@ {
                    assert(chars@.len() == 1);
                    assert(chars@[0] == raw@[0]);
                }
                assert(flag_text(raw@) is None);
            }
            Err(self.invalid(name, raw, "0 or 1"))
        }
    }

    /// Parses an optional `0`/`1` flag column.
    ///
    /// # Errors
    ///
    /// Returns [`ParseErrorKind::Invalid`] for values other than `0`
    /// and `1`.
    pub fn opt_bool01(&self, name: &str) -> (r: Result<Option<bool>, ParseError>)
        ensures
            err_view(r) == row_opt_bool(self@, name@),
    {
        match self.opt(name) {
            None => Ok(None),
            Some(raw) => match self.flag(name, raw) {
                Ok(b) => Ok(Some(b)),
                Err(e) => Err(e),
            },
        }
    }

    /// Parses a required `0`/`1` flag column.
    ///
    /// # Errors
    ///
    /// Returns [`ParseErrorKind::MissingColumn`],
    /// [`ParseErrorKind::EmptyValue`] or [`ParseErrorKind::Invalid`].
    pub fn req_bool01(&self, name: &str) -> (r: Result<bool, ParseError>)
        ensures
            err_view(r) == row_req_bool(self@, name@),
    {
        match self.req(name) {
            Err(e) => Err(e),
            Ok(raw) => self.flag(name, raw),
        }
    }

    /// Builds a field-level error at this row's position.
    pub fn err(&self, field: &str, kind: ParseErrorKind) -> (r: ParseError)
        ensures
            r@ == row_error(self@, field@, kind@),
    {
        ParseError { file: owned(self.file), line: self.line, field: Some(owned(field)), kind }
    }

    /// Builds an invalid-value error at this row's position.
    pub fn invalid(&self, field: &str, value: &str, expected: &str) -> (r: ParseError)
        ensures
            r@ == invalid_error(self@, field@, value@, expected@),
    {
        self.err(field, ParseErrorKind::Invalid { value: owned(value), expected: owned(expected) })
    }
}

} // verus!
