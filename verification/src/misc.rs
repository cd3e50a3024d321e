//! Value types of the model: calendar dates, service-day times and
//! exact currency amounts, with their text formats.

use vstd::prelude::*;

use crate::text::{
    char_of_digit, chars_of, decimal, digit_char, owned, string_from_chars,
};

verus! {

/// A value rejected by one of the model value types.
#[derive(Debug, Clone, PartialEq, Eq)]
pub enum GtfsError {
    /// A calendar date that does not exist or is not `YYYYMMDD`
    InvalidDate { value: String },
    /// A service-day time that is not `HH:MM:SS`
    InvalidTime { value: String },
    /// A currency amount that is not a decimal number
    InvalidAmount { value: String },
}

impl GtfsError {
    /// The description of the error: what was wrong, the text at fault and
    /// the expected form.
    pub open spec fn spec_message(self) -> Seq<char> {
        match self {
            GtfsError::InvalidDate { value } => "invalid GTFS date value: '"@ + value@ + "' (expected YYYYMMDD)"@,
            GtfsError::InvalidTime { value } => "invalid GTFS time value: '"@ + value@ + "' (expected HH:MM:SS)"@,
            GtfsError::InvalidAmount { value } => "invalid currency amount: '"@ + value@
                + "' (expected a decimal number)"@,
        }
    }

    /// Human-readable description of the error.
    pub fn message(&self) -> (out: String)
        ensures
            out@ == self.spec_message(),
    {
        let (head, value, tail) = match self {
            GtfsError::InvalidDate { value } => ("invalid GTFS date value: '", value, "' (expected YYYYMMDD)"),
            GtfsError::InvalidTime { value } => ("invalid GTFS time value: '", value, "' (expected HH:MM:SS)"),
            GtfsError::InvalidAmount { value } => ("invalid currency amount: '", value, "' (expected a decimal number)"),
        };
        let mut out = owned(head);
        out.append(value.as_str());
        out.append(tail);
        out
    }
}

/// Whether `c` is an ASCII decimal digit.
pub open spec fn is_digit(c: char) -> bool {
    '0' <= c && c <= '9'
}

/// The value of an ASCII decimal digit.
pub open spec fn digit_value(c: char) -> nat {
    (c as int - '0' as int) as nat
}

/// Whether every character of `s` is an ASCII decimal digit.
pub open spec fn all_digits(s: Seq<char>) -> bool {
    forall|i: int| 0 <= i < s.len() ==> is_digit(#[trigger] s[i])
}

/// The value of a string of decimal digits.
pub open spec fn digits_value(s: Seq<char>) -> nat
    decreases s.len(),
{
    if s.len() == 0 {
        0
    } else {
        digits_value(s.drop_last()) * 10 + digit_value(s.last())
    }
}

/// A longer prefix of digits never has a smaller value.
proof fn lemma_digits_value_prefix(s: Seq<char>, i: int, j: int)
    requires
        0 <= i <= j <= s.len(),
    ensures
        digits_value(s.subrange(0, i)) <= digits_value(s.subrange(0, j)),
    decreases j - i,
{
    if i < j {
        lemma_digits_value_prefix(s, i, j - 1);
        assert(s.subrange(0, j).drop_last() =~= s.subrange(0, j - 1));
    }
}

/// Parses the digits `chars[from..to]`; `None` unless they are all
/// digits with a value of at most `max`.
pub fn parse_digits(chars: &Vec<char>, from: usize, to: usize, max: u64) -> (r: Option<u64>)
    requires
        from <= to <= chars.len(),
    ensures
        ({
            let s = chars@.subrange(from as int, to as int);
            match r {
                Some(v) => all_digits(s) && v == digits_value(s) && v <= max,
                None => !all_digits(s) || digits_value(s) > max,
            }
        }),
{
    let ghost s = chars@.subrange(from as int, to as int);
    let mut value: u64 = 0;
    let mut i = from;
    while i < to
        invariant
            from <= i <= to <= chars.len(),
            s == chars@.subrange(from as int, to as int),
            all_digits(s.subrange(0, i - from)),
            value == digits_value(s.subrange(0, i - from)),
            value <= max,
        decreases to - i,
    {
        let c = chars[i];
        if !('0' <= c && c <= '9') {
            assert(s[i - from] == c);
            return None;
        }
        let d = (c as u32 - '0' as u32) as u64;
        proof {
            assert(s.subrange(0, i + 1 - from).drop_last() =~= s.subrange(0, i - from));
            assert(s.subrange(0, i + 1 - from).last() == c);
        }
        if d > max || value > (max - d) / 10 {
            proof {
                let total = digits_value(s.subrange(0, i + 1 - from));
                assert(total == value * 10 + d);
                assert(total > max) by (nonlinear_arith)
                    requires
                        total == value * 10 + d,
                        d > max || value > (max - d) / 10,
                ;
                lemma_digits_value_prefix(s, i + 1 - from, s.len() as int);
                assert(s.subrange(0, s.len() as int) =~= s);
            }
            return None;
        }
        value = value * 10 + d;
        i = i + 1;
        proof {
            assert forall|k: int| 0 <= k < i - from implies is_digit(#[trigger] s.subrange(0, i - from)[k]) by {
                if k < i - 1 - from {
                    assert(s.subrange(0, i - from)[k] == s.subrange(0, i - 1 - from)[k]);
                }
            }
        }
    }
    proof {
        assert(s.subrange(0, to - from) =~= s);
    }
    Some(value)
}

/// Days of the week.
#[derive(Debug, Clone, Copy, PartialEq, Eq, Hash, Structural)]
pub enum Weekday {
    Monday,
    Tuesday,
    Wednesday,
    Thursday,
    Friday,
    Saturday,
    Sunday,
}

/// Whether `year` is a Gregorian leap year.
pub open spec fn is_leap_year(year: int) -> bool {
    (year % 4 == 0 && year % 100 != 0) || year % 400 == 0
}

/// Number of days of a month (1-12) in the proleptic Gregorian calendar.
pub open spec fn days_in_month(year: int, month: int) -> int {
    if month == 2 {
        if is_leap_year(year) {
            29
        } else {
            28
        }
    } else if month == 4 || month == 6 || month == 9 || month == 11 {
        30
    } else {
        31
    }
}

/// Whether the triple names an existing date of years 0-9999.
pub open spec fn valid_date(year: int, month: int, day: int) -> bool {
    0 <= year <= 9999 && 1 <= month <= 12 && 1 <= day <= days_in_month(year, month)
}

/// Count of days since 0000-03-01 (a Wednesday) for a valid date.
pub open spec fn day_number(year: int, month: int, day: int) -> int {
    let y = if month <= 2 { year - 1 } else { year };
    let m = if month <= 2 { month + 9 } else { month - 3 };
    365 * y + y / 4 - y / 100 + y / 400 + (153 * m + 2) / 5 + day - 1
}

/// Index of a weekday, Monday being 0.
pub open spec fn weekday_index(w: Weekday) -> int {
    match w {
        Weekday::Monday => 0,
        Weekday::Tuesday => 1,
        Weekday::Wednesday => 2,
        Weekday::Thursday => 3,
        Weekday::Friday => 4,
        Weekday::Saturday => 5,
        Weekday::Sunday => 6,
    }
}

/// A calendar date of a GTFS dataset (`YYYYMMDD`).
///
/// Dates order chronologically: the derived order compares year,
/// then month, then day.
#[derive(Debug, Clone, Copy, PartialEq, Eq, PartialOrd, Ord, Hash, Structural)]
pub struct GtfsDate {
    year: u16,
    month: u8,
    day: u8,
}

impl GtfsDate {
    /// The year.
    pub closed spec fn spec_year(self) -> int {
        self.year as int
    }

    /// The month (1-12).
    pub closed spec fn spec_month(self) -> int {
        self.month as int
    }

    /// The day of the month.
    pub closed spec fn spec_day(self) -> int {
        self.day as int
    }

    /// Position of the date on the time line: later dates are larger.
    pub open spec fn ordinal(self) -> int {
        self.spec_year() * 10000 + self.spec_month() * 100 + self.spec_day()
    }

    /// Every date built by this crate exists.
    #[verifier::type_invariant]
    pub closed spec fn wf(self) -> bool {
        valid_date(self.spec_year(), self.spec_month(), self.spec_day())
    }

    /// Builds a date, checking that it exists.
    ///
    /// # Errors
    ///
    /// Returns [`GtfsError::InvalidDate`] for a month outside 1-12, a
    /// day outside the month or a year above 9999.
    pub fn new(year: u16, month: u8, day: u8) -> (r: Result<GtfsDate, GtfsError>)
        ensures
            r is Ok <==> valid_date(year as int, month as int, day as int),
            r matches Ok(d) ==> d.spec_year() == year && d.spec_month() == month && d.spec_day()
                == day,
            r matches Err(e) ==> e is InvalidDate,
    {
        let leap = (year % 4 == 0 && year % 100 != 0) || year % 400 == 0;
        let days: u8 = if month == 2 {
            if leap {
                29
            } else {
                28
            }
        } else if month == 4 || month == 6 || month == 9 || month == 11 {
            30
        } else {
            31
        };
        if year <= 9999 && 1 <= month && month <= 12 && 1 <= day && day <= days {
            Ok(GtfsDate { year, month, day })
        } else {
            let mut text = pad_decimal(year as u64, 4);
            text.append(pad_decimal(month as u64, 2).as_str());
            text.append(pad_decimal(day as u64, 2).as_str());
            Err(GtfsError::InvalidDate { value: text })
        }
    }

    /// The year.
    pub fn year(&self) -> (r: u16)
        ensures
            r == self.spec_year(),
    {
        self.year
    }

    /// The month (1-12).
    pub fn month(&self) -> (r: u8)
        ensures
            r == self.spec_month(),
    {
        self.month
    }

    /// The day of the month.
    pub fn day(&self) -> (r: u8)
        ensures
            r == self.spec_day(),
    {
        self.day
    }

    /// The date's position on the time line, as [`GtfsDate::ordinal`].
    pub fn ordinal_number(&self) -> (r: u64)
        ensures
            r == self.ordinal(),
    {
        self.year as u64 * 10000 + self.month as u64 * 100 + self.day as u64
    }

    /// Whether `self` is strictly before `other`.
    pub fn is_before(&self, other: &GtfsDate) -> (r: bool)
        ensures
            r == (self.ordinal() < other.ordinal()),
    {
        proof {
            use_type_invariant(self);
            use_type_invariant(other);
        }
        self.year < other.year || (self.year == other.year && (self.month < other.month || (
        self.month == other.month && self.day < other.day)))
    }

    /// The day of the week.
    #[verifier::spinoff_prover]
    pub fn weekday(&self) -> (w: Weekday)
        ensures
            weekday_index(w) == (day_number(self.spec_year(), self.spec_month(), self.spec_day()) + 2)
                % 7,
    {
        proof {
            use_type_invariant(self);
        }
        // shifting by 400 years (146097 days, a whole number of weeks)
        // keeps every intermediate value non-negative
        let shifted = self.month <= 2;
        let y: u64 = if shifted {
            self.year as u64 + 399
        } else {
            self.year as u64 + 400
        };
        let m: u64 = if shifted {
            self.month as u64 + 9
        } else {
            self.month as u64 - 3
        };
        let days: u64 = 365 * y + y / 4 - y / 100 + y / 400 + (153 * m + 2) / 5 + self.day as u64 - 1;
        let index = (days + 2) % 7;
        proof {
            let yy: int = if shifted { self.year - 1 } else { self.year as int };
            assert(y == yy + 400);
            assert((yy + 400) / 4 == yy / 4 + 100);
            assert((yy + 400) / 100 == yy / 100 + 4);
            assert((yy + 400) / 400 == yy / 400 + 1);
            assert(days == day_number(self.year as int, self.month as int, self.day as int) + 146097);
            assert((days + 2) % 7 == (day_number(self.year as int, self.month as int, self.day as int) + 2) % 7);
        }
        match index {
            0 => Weekday::Monday,
            1 => Weekday::Tuesday,
            2 => Weekday::Wednesday,
            3 => Weekday::Thursday,
            4 => Weekday::Friday,
            5 => Weekday::Saturday,
            _ => Weekday::Sunday,
        }
    }
}

/// Decimal rendering of `n`, left-padded with zeros to `width`.
pub open spec fn padded(n: nat, width: nat) -> Seq<char>
    decreases width,
{
    if decimal(n).len() >= width {
        decimal(n)
    } else {
        seq!['0'] + padded(n, (width - 1) as nat)
    }
}

/// Decimal rendering of `n`, left-padded with zeros to `width`.
pub fn pad_decimal(n: u64, width: usize) -> (out: String)
    ensures
        out@ == padded(n as nat, width as nat),
    decreases width,
{
    let digits = crate::text::u64_to_decimal(n);
    let len = digits.unicode_len();
    if len >= width {
        digits
    } else {
        let rest = pad_decimal(n, width - 1);
        let mut out = owned("0");
        proof {
            reveal_strlit("0");
        }
        out.append(rest.as_str());
        out
    }
}

/// The date a `YYYYMMDD` text names, if it is one.
pub open spec fn date_text(s: Seq<char>) -> Option<(int, int, int)> {
    if s.len() == 8 && all_digits(s) {
        let year = digits_value(s.subrange(0, 4)) as int;
        let month = digits_value(s.subrange(4, 6)) as int;
        let day = digits_value(s.subrange(6, 8)) as int;
        if valid_date(year, month, day) {
            Some((year, month, day))
        } else {
            None
        }
    } else {
        None
    }
}

proof fn lemma_all_digits_sub(s: Seq<char>, i: int, j: int)
    requires
        all_digits(s),
        0 <= i <= j <= s.len(),
    ensures
        all_digits(s.subrange(i, j)),
{
    assert forall|k: int| 0 <= k < j - i implies is_digit(#[trigger] s.subrange(i, j)[k]) by {
        assert(s.subrange(i, j)[k] == s[i + k]);
    }
}

proof fn lemma_all_digits_join(s: Seq<char>, i: int, j: int)
    requires
        0 <= i <= j <= s.len(),
        all_digits(s.subrange(0, i)),
        all_digits(s.subrange(i, j)),
        all_digits(s.subrange(j, s.len() as int)),
    ensures
        all_digits(s),
{
    assert forall|k: int| 0 <= k < s.len() implies is_digit(#[trigger] s[k]) by {
        if k < i {
            assert(s[k] == s.subrange(0, i)[k]);
        } else if k < j {
            assert(s[k] == s.subrange(i, j)[k - i]);
        } else {
            assert(s[k] == s.subrange(j, s.len() as int)[k - j]);
        }
    }
}

impl GtfsDate {
    /// Parses a `YYYYMMDD` date.
    ///
    /// # Errors
    ///
    /// Returns [`GtfsError::InvalidDate`] carrying the text when it is
    /// not eight digits naming an existing date.
    pub fn parse(text: &str) -> (r: Result<GtfsDate, GtfsError>)
        ensures
            match date_text(text@) {
                Some((y, m, d)) => r matches Ok(date) && date.spec_year() == y && date.spec_month()
                    == m && date.spec_day() == d,
                None => r matches Err(GtfsError::InvalidDate { value }) && value@ == text@,
            },
    {
        let chars = chars_of(text);
        if chars.len() != 8 {
            return Err(GtfsError::InvalidDate { value: owned(text) });
        }
        let year = parse_digits(&chars, 0, 4, 9999);
        let month = parse_digits(&chars, 4, 6, 99);
        let day = parse_digits(&chars, 6, 8, 99);
        match (year, month, day) {
            (Some(y), Some(m), Some(d)) => {
                proof {
                    lemma_all_digits_join(text@, 4, 6);
                    assert(text@.subrange(0, 4) == chars@.subrange(0, 4));
                    assert(text@.subrange(8, 8) =~= Seq::<char>::empty());
                }
                match GtfsDate::new(y as u16, m as u8, d as u8) {
                    Ok(date) => Ok(date),
                    Err(_) => Err(GtfsError::InvalidDate { value: owned(text) }),
                }
            },
            _ => {
                proof {
                    if all_digits(text@) {
                        lemma_all_digits_sub(text@, 0, 4);
                        lemma_all_digits_sub(text@, 4, 6);
                        lemma_all_digits_sub(text@, 6, 8);
                        assert(digits_value(text@.subrange(0, 4)) <= 9999) by {
                            lemma_digits_bound(text@.subrange(0, 4));
                            reveal_with_fuel(pow10, 5);
                        }
                        assert(digits_value(text@.subrange(4, 6)) <= 99) by {
                            lemma_digits_bound(text@.subrange(4, 6));
                            reveal_with_fuel(pow10, 3);
                        }
                        assert(digits_value(text@.subrange(6, 8)) <= 99) by {
                            lemma_digits_bound(text@.subrange(6, 8));
                            reveal_with_fuel(pow10, 3);
                        }
                    }
                }
                Err(GtfsError::InvalidDate { value: owned(text) })
            },
        }
    }

    /// The `YYYYMMDD` text of the date.
    pub open spec fn gtfs_text(self) -> Seq<char> {
        padded(self.spec_year() as nat, 4) + padded(self.spec_month() as nat, 2) + padded(
            self.spec_day() as nat,
            2,
        )
    }

    /// The `YYYYMMDD` text of the date.
    pub fn to_gtfs_string(&self) -> (out: String)
        ensures
            out@ == self.gtfs_text(),
    {
        let mut out = pad_decimal(self.year as u64, 4);
        out.append(pad_decimal(self.month as u64, 2).as_str());
        out.append(pad_decimal(self.day as u64, 2).as_str());
        out
    }
}

/// Ten to the power `n`.
pub open spec fn pow10(n: nat) -> nat
    decreases n,
{
    if n == 0 {
        1
    } else {
        10 * pow10((n - 1) as nat)
    }
}

/// A string of `n` digits has a value below `10^n`.
proof fn lemma_digits_bound(s: Seq<char>)
    requires
        all_digits(s),
    ensures
        digits_value(s) < pow10(s.len()),
    decreases s.len(),
{
    if s.len() > 0 {
        lemma_all_digits_sub(s, 0, s.len() - 1);
        assert(s.drop_last() =~= s.subrange(0, s.len() - 1));
        lemma_digits_bound(s.drop_last());
        assert(is_digit(s[s.len() - 1]));
        let p = pow10((s.len() - 1) as nat);
        let v = digits_value(s.drop_last());
        assert(v * 10 + digit_value(s.last()) < 10 * p) by (nonlinear_arith)
            requires
                v < p,
                digit_value(s.last()) < 10,
        ;
    }
}

/// Largest hour value of a service-day time: five digits.
pub const MAX_TIME_HOURS: u64 = 99999;

/// The seconds since midnight a `H:MM:SS` text names: one to five
/// hour digits (hours may exceed 23), two minute digits below 60 and
/// two second digits below 60.
pub open spec fn gtfs_time(s: Seq<char>) -> Option<nat> {
    let n = s.len() as int;
    if 7 <= n <= 11 && s[n - 6] == ':' && s[n - 3] == ':' && all_digits(s.subrange(0, n - 6))
        && all_digits(s.subrange(n - 5, n - 3)) && all_digits(s.subrange(n - 2, n)) {
        let hours = digits_value(s.subrange(0, n - 6));
        let minutes = digits_value(s.subrange(n - 5, n - 3));
        let seconds = digits_value(s.subrange(n - 2, n));
        if minutes < 60 && seconds < 60 {
            Some(hours * 3600 + minutes * 60 + seconds)
        } else {
            None
        }
    } else {
        None
    }
}

/// Parses a GTFS time (`HH:MM:SS`, `H:MM:SS` for single-digit hours)
/// into seconds since midnight of the service day; hours past 23 are
/// allowed (e.g. `25:10:00`).
///
/// # Errors
///
/// Returns [`GtfsError::InvalidTime`] carrying the text when it is not
/// such a time.
pub fn parse_gtfs_time(text: &str) -> (r: Result<u32, GtfsError>)
    ensures
        match gtfs_time(text@) {
            Some(v) => r == Ok::<u32, GtfsError>(v as u32),
            None => r matches Err(GtfsError::InvalidTime { value }) && value@ == text@,
        },
{
    let chars = chars_of(text);
    let n = chars.len();
    if n < 7 || n > 11 || chars[n - 6] != ':' || chars[n - 3] != ':' {
        return Err(GtfsError::InvalidTime { value: owned(text) });
    }
    let hours = parse_digits(&chars, 0, n - 6, MAX_TIME_HOURS);
    let minutes = parse_digits(&chars, n - 5, n - 3, 99);
    let seconds = parse_digits(&chars, n - 2, n, 99);
    proof {
        let s = text@;
        if all_digits(s.subrange(0, n - 6)) {
            lemma_digits_bound(s.subrange(0, n - 6));
            lemma_pow10_monotone((n - 6) as nat, 5);
            reveal_with_fuel(pow10, 6);
        }
        if all_digits(s.subrange(n - 5, n - 3)) {
            lemma_digits_bound(s.subrange(n - 5, n - 3));
            reveal_with_fuel(pow10, 3);
        }
        if all_digits(s.subrange(n - 2, n as int)) {
            lemma_digits_bound(s.subrange(n - 2, n as int));
            reveal_with_fuel(pow10, 3);
        }
    }
    match (hours, minutes, seconds) {
        (Some(h), Some(m), Some(sec)) => {
            if m < 60 && sec < 60 {
                Ok((h * 3600 + m * 60 + sec) as u32)
            } else {
                Err(GtfsError::InvalidTime { value: owned(text) })
            }
        },
        _ => Err(GtfsError::InvalidTime { value: owned(text) }),
    }
}

proof fn lemma_pow10_monotone(a: nat, b: nat)
    requires
        a <= b,
    ensures
        pow10(a) <= pow10(b),
    decreases b,
{
    if a < b {
        lemma_pow10_monotone(a, (b - 1) as nat);
    }
}

/// The digit character of `d` is a digit of value `d`.
proof fn lemma_digit_char(d: nat)
    requires
        d < 10,
    ensures
        is_digit(digit_char(d)),
        digit_value(digit_char(d)) == d,
{
    assert(((d + 48) as u32) as char as int == d + 48);
}

/// The decimal rendering of `n` is a non-empty string of digits of
/// value `n`, with at most `k` digits when `n < 10^k`.
proof fn lemma_decimal(n: nat, k: nat)
    ensures
        decimal(n).len() >= 1,
        all_digits(decimal(n)),
        digits_value(decimal(n)) == n,
        1 <= k && n < pow10(k) ==> decimal(n).len() <= k,
    decreases n,
{
    lemma_digit_char(n % 10);
    if n < 10 {
        assert(decimal(n) == seq![digit_char(n)]);
        assert(decimal(n).drop_last() =~= Seq::<char>::empty());
        assert(decimal(n).last() == digit_char(n));
        assert(digits_value(Seq::<char>::empty()) == 0);
        assert(digits_value(decimal(n)) == digits_value(decimal(n).drop_last()) * 10 + digit_value(decimal(n).last()));
    } else {
        let k1 = if k >= 1 { (k - 1) as nat } else { 0 };
        lemma_decimal(n / 10, k1);
        let d = decimal(n);
        assert(d.drop_last() =~= decimal(n / 10));
        assert(d.last() == digit_char(n % 10));
        assert(digits_value(d) == (n / 10) * 10 + n % 10);
        assert forall|i: int| 0 <= i < d.len() implies is_digit(#[trigger] d[i]) by {
            if i < d.len() - 1 {
                assert(d[i] == decimal(n / 10)[i]);
            }
        }
        if 1 <= k && n < pow10(k) {
            if k == 1 {
                assert(pow10(1) == 10) by {
                    reveal_with_fuel(pow10, 2);
                }
            } else {
                assert(n / 10 < pow10(k1)) by {
                    assert(pow10(k) == 10 * pow10(k1));
                }
            }
        }
    }
}

/// A leading zero does not change the value of a digit string.
proof fn lemma_leading_zero(s: Seq<char>)
    ensures
        digits_value(seq!['0'] + s) == digits_value(s),
    decreases s.len(),
{
    if s.len() == 0 {
        assert((seq!['0'] + s).drop_last() =~= Seq::<char>::empty());
        assert((seq!['0'] + s).last() == '0');
        assert(digits_value(Seq::<char>::empty()) == 0);
        assert(digits_value(seq!['0'] + s) == digits_value((seq!['0'] + s).drop_last()) * 10 + digit_value((seq!['0'] + s).last()));
    } else {
        lemma_leading_zero(s.drop_last());
        assert((seq!['0'] + s).drop_last() =~= seq!['0'] + s.drop_last());
        assert((seq!['0'] + s).last() == s.last());
        assert(digits_value(seq!['0'] + s) == digits_value((seq!['0'] + s).drop_last()) * 10 + digit_value((seq!['0'] + s).last()));
    }
}

/// The zero-padded rendering of `n` is a string of digits of value `n`,
/// exactly `width` long when `n` has at most `width` digits.
proof fn lemma_padded(n: nat, width: nat)
    ensures
        all_digits(padded(n, width)),
        digits_value(padded(n, width)) == n,
        padded(n, width).len() >= width,
        padded(n, width).len() >= 1,
        decimal(n).len() <= width ==> padded(n, width).len() == width,
        decimal(n).len() > width ==> padded(n, width) == decimal(n),
    decreases width,
{
    lemma_decimal(n, 0);
    if decimal(n).len() < width {
        lemma_padded(n, (width - 1) as nat);
        let p = padded(n, (width - 1) as nat);
        lemma_leading_zero(p);
        assert forall|i: int| 0 <= i < p.len() + 1 implies is_digit(#[trigger] (seq!['0'] + p)[i]) by {
            if i > 0 {
                assert((seq!['0'] + p)[i] == p[i - 1]);
            }
        }
    }
}

/// The `HH:MM:SS` text of a service-day time: hours padded to at
/// least two digits.
pub open spec fn time_text(seconds: nat) -> Seq<char> {
    padded(seconds / 3600, 2) + seq![':'] + padded((seconds % 3600) / 60, 2) + seq![':'] + padded(
        seconds % 60,
        2,
    )
}

/// Formats seconds since midnight of the service day as `HH:MM:SS`
/// (hours may exceed 23).
pub fn format_gtfs_time(seconds: u32) -> (out: String)
    ensures
        out@ == time_text(seconds as nat),
{
    let mut out = pad_decimal((seconds / 3600) as u64, 2);
    let colon = ":";
    proof {
        reveal_strlit(":");
    }
    out.append(colon);
    out.append(pad_decimal(((seconds % 3600) / 60) as u64, 2).as_str());
    out.append(colon);
    out.append(pad_decimal((seconds % 60) as u64, 2).as_str());
    out
}

/// Formatting a service-day time and parsing the text back gives the
/// same number of seconds, for every time whose hours fit the five hour
/// digits a time text may carry.
pub proof fn lemma_time_round_trip(seconds: nat)
    requires
        seconds < (MAX_TIME_HOURS + 1) * 3600,
    ensures
        gtfs_time(time_text(seconds)) == Some(seconds),
{
    let h = seconds / 3600;
    let m = (seconds % 3600) / 60;
    let sec = seconds % 60;
    let hh = padded(h, 2);
    let mm = padded(m, 2);
    let ss = padded(sec, 2);
    assert(pow10(5) == 100000 && pow10(2) == 100) by {
        reveal_with_fuel(pow10, 6);
    }
    lemma_decimal(h, 5);
    lemma_decimal(m, 2);
    lemma_decimal(sec, 2);
    lemma_padded(h, 2);
    lemma_padded(m, 2);
    lemma_padded(sec, 2);
    let t = time_text(seconds);
    let n = t.len() as int;
    assert(t == hh + seq![':'] + mm + seq![':'] + ss);
    assert(2 <= hh.len() <= 5);
    assert(mm.len() == 2 && ss.len() == 2);
    assert(n == hh.len() + 6);
    assert(t[n - 6] == ':');
    assert(t[n - 3] == ':');
    assert(t.subrange(0, n - 6) =~= hh);
    assert(t.subrange(n - 5, n - 3) =~= mm);
    assert(t.subrange(n - 2, n) =~= ss);
    assert(h * 3600 + m * 60 + sec == seconds) by (nonlinear_arith)
        requires
            h == seconds / 3600,
            m == (seconds % 3600) / 60,
            sec == seconds % 60,
    ;
}

/// Index of the first `.` of `s`, or its length when it has none.
pub open spec fn dot_index(s: Seq<char>) -> int
    decreases s.len(),
{
    if s.len() == 0 {
        0
    } else if s[0] == '.' {
        0
    } else {
        1 + dot_index(s.drop_first())
    }
}

proof fn lemma_dot_index(s: Seq<char>, k: int)
    requires
        0 <= k <= s.len(),
        forall|i: int| 0 <= i < k ==> #[trigger] s[i] != '.',
        k < s.len() ==> s[k] == '.',
    ensures
        dot_index(s) == k,
    decreases s.len(),
{
    if s.len() > 0 && k > 0 {
        assert(s[0] != '.');
        assert forall|i: int| 0 <= i < k - 1 implies #[trigger] s.drop_first()[i] != '.' by {
            assert(s.drop_first()[i] == s[i + 1]);
        }
        if k < s.len() {
            assert(s.drop_first()[k - 1] == s[k]);
        }
        lemma_dot_index(s.drop_first(), k - 1);
    }
}

/// The `(units, scale)` pair a decimal amount text names: an optional
/// leading `-`, one or more integer digits, and optionally `.` with
/// one or more fractional digits. `units` is the amount in units of
/// `10^-scale`, `scale` the number of fractional digits; the units
/// must fit an `i64`.
pub open spec fn amount_text(s: Seq<char>) -> Option<(int, nat)> {
    let negative = s.len() > 0 && s[0] == '-';
    let body = if negative { s.drop_first() } else { s };
    let k = dot_index(body);
    let whole = body.subrange(0, k);
    let fraction = if k < body.len() { body.subrange(k + 1, body.len() as int) } else { Seq::empty() };
    if whole.len() > 0 && all_digits(whole) && all_digits(fraction) && (k < body.len() ==> fraction.len() > 0) {
        let magnitude = digits_value(whole + fraction);
        if magnitude <= i64::MAX {
            Some((if negative { -magnitude } else { magnitude as int }, fraction.len()))
        } else {
            None
        }
    } else {
        None
    }
}

/// An exact decimal money amount, as fare prices require: no
/// floating-point rounding. The amount is `units * 10^-scale`; the
/// scale is the number of fractional digits the text carried, so
/// `57.00` keeps its two decimals.
#[derive(Debug, Clone, Copy, PartialEq, Eq, Hash, Structural)]
pub struct CurrencyAmount {
    units: i64,
    scale: u64,
}

impl CurrencyAmount {
    /// The amount in units of `10^-scale`.
    pub closed spec fn spec_units(self) -> int {
        self.units as int
    }

    /// The number of fractional digits.
    pub closed spec fn spec_scale(self) -> nat {
        self.scale as nat
    }

    /// The amount in units of `10^-scale`.
    pub fn units(&self) -> (r: i64)
        ensures
            r == self.spec_units(),
    {
        self.units
    }

    /// The scale of every amount fits the length of a text.
    #[verifier::type_invariant]
    closed spec fn wf(self) -> bool {
        self.scale < usize::MAX
    }

    /// The number of fractional digits.
    pub fn scale(&self) -> (r: u64)
        ensures
            r == self.spec_scale(),
    {
        self.scale
    }

    /// Parses a decimal amount such as `1.25`, `57.00` or `-3`.
    ///
    /// # Errors
    ///
    /// Returns [`GtfsError::InvalidAmount`] carrying the text when it is
    /// not a decimal number or its digits do not fit 63 bits.
    pub fn parse(text: &str) -> (r: Result<CurrencyAmount, GtfsError>)
        ensures
            match amount_text(text@) {
                Some((units, scale)) => r matches Ok(a) && a.spec_units() == units && a.spec_scale()
                    == scale,
                None => r matches Err(GtfsError::InvalidAmount { value }) && value@ == text@,
            },
    {
        let chars = chars_of(text);
        let n = chars.len();
        let negative = n > 0 && chars[0] == '-';
        let start: usize = if negative { 1 } else { 0 };
        let ghost body = if negative { text@.drop_first() } else { text@ };
        proof {
            assert(body =~= chars@.subrange(start as int, n as int));
        }
        // locate the first '.'
        let mut k = start;
        while k < n && chars[k] != '.'
            invariant
                start <= k <= n == chars.len(),
                body =~= chars@.subrange(start as int, n as int),
                forall|i: int| start <= i < k ==> #[trigger] chars@[i] != '.',
            decreases n - k,
        {
            k = k + 1;
        }
        proof {
            assert forall|i: int| 0 <= i < k - start implies #[trigger] body[i] != '.' by {
                assert(body[i] == chars@[start + i]);
            }
            lemma_dot_index(body, k - start);
        }
        let has_dot = k < n;
        // the digits of the whole and fractional parts, dot removed
        let mut digits: Vec<char> = Vec::new();
        let mut i = start;
        while i < n
            invariant
                start <= k <= n == chars.len(),
                start <= i <= n,
                has_dot == (k < n),
                digits@ == if i <= k {
                    chars@.subrange(start as int, i as int)
                } else {
                    chars@.subrange(start as int, k as int) + chars@.subrange(k + 1, i as int)
                },
            decreases n - i,
        {
            if i != k {
                digits.push(chars[i]);
            }
            i = i + 1;
            proof {
                if i <= k {
                    assert(digits@ =~= chars@.subrange(start as int, i as int));
                } else if i == k + 1 {
                    assert(digits@ =~= chars@.subrange(start as int, k as int) + chars@.subrange(k + 1, i as int));
                } else {
                    assert(digits@ =~= chars@.subrange(start as int, k as int) + chars@.subrange(k + 1, i as int));
                }
            }
        }
        let ghost whole = body.subrange(0, k - start);
        let ghost fraction = if k < n { body.subrange(k - start + 1, body.len() as int) } else { Seq::<char>::empty() };
        proof {
            assert(whole =~= chars@.subrange(start as int, k as int));
            if k < n {
                assert(fraction =~= chars@.subrange(k + 1, n as int));
                assert(digits@ =~= whole + fraction);
            } else {
                assert(digits@ =~= whole + fraction);
            }
        }
        let whole_len = k - start;
        let fraction_len = if has_dot { n - k - 1 } else { 0 };
        if whole_len == 0 || (has_dot && fraction_len == 0) {
            return Err(GtfsError::InvalidAmount { value: owned(text) });
        }
        let parsed = parse_digits(&digits, 0, digits.len(), i64::MAX as u64);
        proof {
            assert(digits@.subrange(0, digits@.len() as int) =~= digits@);
            if all_digits(whole + fraction) {
                lemma_all_digits_sub(whole + fraction, 0, whole.len() as int);
                assert((whole + fraction).subrange(0, whole.len() as int) =~= whole);
                lemma_all_digits_sub(whole + fraction, whole.len() as int, (whole + fraction).len() as int);
                assert((whole + fraction).subrange(whole.len() as int, (whole + fraction).len() as int) =~= fraction);
            } else {
                if all_digits(whole) && all_digits(fraction) {
                    assert forall|j: int| 0 <= j < (whole + fraction).len() implies is_digit(#[trigger] (whole + fraction)[j]) by {
                        if j < whole.len() {
                            assert((whole + fraction)[j] == whole[j]);
                        } else {
                            assert((whole + fraction)[j] == fraction[j - whole.len()]);
                        }
                    }
                }
            }
        }
        match parsed {
            Some(magnitude) => {
                let units: i64 = if negative { -(magnitude as i64) } else { magnitude as i64 };
                Ok(CurrencyAmount { units, scale: fraction_len as u64 })
            },
            None => Err(GtfsError::InvalidAmount { value: owned(text) }),
        }
    }
}

/// Two digit strings of one length with one value are the same text.
proof fn lemma_digits_injective(a: Seq<char>, b: Seq<char>)
    requires
        all_digits(a),
        all_digits(b),
        a.len() == b.len(),
        digits_value(a) == digits_value(b),
    ensures
        a == b,
    decreases a.len(),
{
    if a.len() > 0 {
        lemma_all_digits_sub(a, 0, a.len() - 1);
        lemma_all_digits_sub(b, 0, b.len() - 1);
        assert(a.drop_last() =~= a.subrange(0, a.len() - 1));
        assert(b.drop_last() =~= b.subrange(0, b.len() - 1));
        assert(is_digit(a[a.len() - 1]) && is_digit(b[b.len() - 1]));
        let x = digits_value(a.drop_last());
        let y = digits_value(b.drop_last());
        let u = digit_value(a.last());
        let v = digit_value(b.last());
        assert(x == y && u == v) by (nonlinear_arith)
            requires
                x * 10 + u == y * 10 + v,
                u < 10,
                v < 10,
        ;
        lemma_digits_injective(a.drop_last(), b.drop_last());
        assert(a =~= a.drop_last().push(a.last()));
        assert(b =~= b.drop_last().push(b.last()));
    }
}

/// A digit string is the zero-padded rendering of its own value.
proof fn lemma_digits_padded(t: Seq<char>)
    requires
        all_digits(t),
        t.len() >= 1,
    ensures
        padded(digits_value(t), t.len()) == t,
{
    let v = digits_value(t);
    lemma_digits_bound(t);
    lemma_decimal(v, t.len());
    lemma_padded(v, t.len());
    lemma_digits_injective(padded(v, t.len()), t);
}

/// Printing a date and reading the text back gives the same date.
pub proof fn lemma_date_round_trip(d: GtfsDate)
    requires
        valid_date(d.spec_year(), d.spec_month(), d.spec_day()),
    ensures
        date_text(d.gtfs_text()) == Some((d.spec_year(), d.spec_month(), d.spec_day())),
{
    let (y, m, dd) = (d.spec_year() as nat, d.spec_month() as nat, d.spec_day() as nat);
    assert(pow10(4) == 10000 && pow10(2) == 100) by {
        reveal_with_fuel(pow10, 5);
    }
    lemma_decimal(y, 4);
    lemma_decimal(m, 2);
    lemma_decimal(dd, 2);
    lemma_padded(y, 4);
    lemma_padded(m, 2);
    lemma_padded(dd, 2);
    let t = d.gtfs_text();
    assert(t.subrange(0, 4) =~= padded(y, 4));
    assert(t.subrange(4, 6) =~= padded(m, 2));
    assert(t.subrange(6, 8) =~= padded(dd, 2));
    assert(t.subrange(0, 6).subrange(0, 4) =~= padded(y, 4));
    lemma_all_digits_join(t, 4, 6);
}

/// Reading a `YYYYMMDD` text and printing the date gives the text back.
pub proof fn lemma_date_text_round_trip(s: Seq<char>)
    requires
        date_text(s) is Some,
    ensures
        ({
            let (y, m, d) = date_text(s)->Some_0;
            padded(y as nat, 4) + padded(m as nat, 2) + padded(d as nat, 2) == s
        }),
{
    lemma_all_digits_sub(s, 0, 4);
    lemma_all_digits_sub(s, 4, 6);
    lemma_all_digits_sub(s, 6, 8);
    lemma_digits_padded(s.subrange(0, 4));
    lemma_digits_padded(s.subrange(4, 6));
    lemma_digits_padded(s.subrange(6, 8));
    assert(s =~= s.subrange(0, 4) + s.subrange(4, 6) + s.subrange(6, 8));
}

/// The decimal text of an amount of `units * 10^-scale`: the digits of
/// its magnitude, zero-padded so that at least one digit precedes the
/// `scale` fractional digits, and a leading `-` when it is negative.
pub open spec fn amount_string(units: int, scale: nat) -> Seq<char> {
    let magnitude = (if units < 0 { -units } else { units }) as nat;
    let digits = padded(magnitude, scale + 1);
    let k = digits.len() - scale;
    let sign = if units < 0 { seq!['-'] } else { Seq::<char>::empty() };
    if scale == 0 {
        sign + digits
    } else {
        sign + digits.subrange(0, k) + seq!['.'] + digits.subrange(k, digits.len() as int)
    }
}

impl CurrencyAmount {
    /// The decimal text of the amount, keeping its scale: `57.00` prints
    /// as `57.00`, `-3` as `-3`.
    pub fn to_string(&self) -> (out: String)
        ensures
            out@ == amount_string(self.spec_units(), self.spec_scale()),
    {
        proof {
            use_type_invariant(self);
        }
        let magnitude: u64 = if self.units < 0 {
            ((-(self.units + 1)) as u64) + 1
        } else {
            self.units as u64
        };
        let scale = self.scale as usize;
        let digits = chars_of(pad_decimal(magnitude, scale + 1).as_str());
        let ghost ds = padded(magnitude as nat, (scale + 1) as nat);
        proof {
            lemma_padded(magnitude as nat, (scale + 1) as nat);
        }
        let n = digits.len();
        let k = n - scale;
        let mut out: Vec<char> = Vec::new();
        if self.units < 0 {
            out.push('-');
        }
        let ghost sign = out@;
        let mut i: usize = 0;
        while i < k
            invariant
                i <= k <= n == digits@.len(),
                digits@ == ds,
                out@ == sign + ds.subrange(0, i as int),
            decreases k - i,
        {
            out.push(digits[i]);
            i = i + 1;
            proof {
                assert(out@ =~= sign + ds.subrange(0, i as int));
            }
        }
        if scale > 0 {
            out.push('.');
            let ghost head = out@;
            while i < n
                invariant
                    k <= i <= n == digits@.len(),
                    digits@ == ds,
                    out@ == head + ds.subrange(k as int, i as int),
                decreases n - i,
            {
                out.push(digits[i]);
                i = i + 1;
                proof {
                    assert(out@ =~= head + ds.subrange(k as int, i as int));
                }
            }
        }
        proof {
            assert(ds.subrange(0, n as int) =~= ds);
            if scale > 0 {
                assert(out@ =~= amount_string(self.spec_units(), self.spec_scale()));
            } else {
                assert(out@ =~= amount_string(self.spec_units(), self.spec_scale()));
            }
        }
        string_from_chars(out.as_slice())
    }
}

/// Printing an amount and parsing the text back gives the same units
/// and scale, for every amount whose magnitude fits an `i64`.
pub proof fn lemma_amount_round_trip(units: int, scale: nat)
    requires
        -i64::MAX <= units <= i64::MAX,
    ensures
        amount_text(amount_string(units, scale)) == Some((units, scale)),
{
    let magnitude = (if units < 0 { -units } else { units }) as nat;
    let digits = padded(magnitude, scale + 1);
    lemma_padded(magnitude, scale + 1);
    let k = digits.len() - scale;
    let s = amount_string(units, scale);
    let negative = units < 0;
    let body = if negative { s.drop_first() } else { s };
    let whole = digits.subrange(0, k);
    let fraction = digits.subrange(k, digits.len() as int);
    lemma_all_digits_sub(digits, 0, k);
    lemma_all_digits_sub(digits, k, digits.len() as int);
    assert(is_digit(digits[0]));
    if negative {
        assert(s[0] == '-');
    } else {
        assert(s.len() > 0 ==> s[0] == digits[0]);
    }
    if scale == 0 {
        assert(body =~= digits);
        assert forall|i: int| 0 <= i < body.len() implies #[trigger] body[i] != '.' by {
            assert(is_digit(digits[i]));
        }
        lemma_dot_index(body, body.len() as int);
        assert(body.subrange(0, body.len() as int) =~= digits);
        assert(digits + Seq::<char>::empty() =~= digits);
    } else {
        assert(body =~= whole + seq!['.'] + fraction);
        assert forall|i: int| 0 <= i < k implies #[trigger] body[i] != '.' by {
            assert(body[i] == whole[i]);
            assert(is_digit(whole[i]));
        }
        assert(body[k] == '.');
        lemma_dot_index(body, k);
        assert(body.subrange(0, k) =~= whole);
        assert(body.subrange(k + 1, body.len() as int) =~= fraction);
        assert(whole + fraction =~= digits);
    }
}

/// The date after a valid date.
pub open spec fn next_day(year: int, month: int, day: int) -> (int, int, int) {
    if day < days_in_month(year, month) {
        (year, month, day + 1)
    } else if month < 12 {
        (year, month + 1, 1)
    } else {
        (year + 1, 1, 1)
    }
}

/// Counting multiples of `k`: one more multiple of `k` lies in
/// `1..=y` than in `1..=y-1` exactly when `k` divides `y`.
proof fn lemma_multiples_step(y: int, k: int)
    requires
        k > 0,
    ensures
        y / k - (y - 1) / k == if y % k == 0 {
            1int
        } else {
            0int
        },
{
    let q = y / k;
    let r = y % k;
    vstd::arithmetic::div_mod::lemma_fundamental_div_mod(y, k);
    assert((q - 1) * k == q * k - k && k * q == q * k) by (nonlinear_arith);
    if r == 0 {
        vstd::arithmetic::div_mod::lemma_fundamental_div_mod_converse(y - 1, k, q - 1, k - 1);
    } else {
        vstd::arithmetic::div_mod::lemma_fundamental_div_mod_converse(y - 1, k, q, r - 1);
    }
}

/// The day count advances by exactly one from each date to the next, so
/// consecutive dates fall on consecutive weekdays.
pub proof fn lemma_next_day_number(year: int, month: int, day: int)
    requires
        valid_date(year, month, day),
    ensures
        ({
            let (y, m, d) = next_day(year, month, day);
            day_number(y, m, d) == day_number(year, month, day) + 1
        }),
{
    if day == days_in_month(year, month) {
        if month == 2 {
            lemma_multiples_step(year, 4);
            lemma_multiples_step(year, 100);
            lemma_multiples_step(year, 400);
        }
    }
}

/// The day count of the first day of the month with index `t`, months
/// being counted from March of year 0 (`12 * year + month - 3`).
#[verifier::opaque]
pub open spec fn month_start(t: int) -> int {
    let y = t / 12;
    let m = t % 12;
    365 * y + y / 4 - y / 100 + y / 400 + (153 * m + 2) / 5
}

/// The day count of a date is that of the first day of its month plus
/// the days before it in the month.
proof fn lemma_day_number_month(year: int, month: int, day: int)
    requires
        1 <= month <= 12,
    ensures
        day_number(year, month, day) == month_start(12 * year + month - 3) + day - 1,
{
    let t = 12 * year + month - 3;
    reveal(month_start);
    if month <= 2 {
        vstd::arithmetic::div_mod::lemma_fundamental_div_mod_converse(t, 12, year - 1, month + 9);
    } else {
        vstd::arithmetic::div_mod::lemma_fundamental_div_mod_converse(t, 12, year, month - 3);
    }
}

/// A month starts right after the days of the month before it.
proof fn lemma_month_step(year: int, month: int)
    requires
        0 <= year <= 9999,
        1 <= month <= 12,
    ensures
        month_start(12 * year + month - 2) == month_start(12 * year + month - 3) + days_in_month(year, month),
{
    let last = days_in_month(year, month);
    lemma_next_day_number(year, month, last);
    lemma_day_number_month(year, month, last);
    if month < 12 {
        lemma_day_number_month(year, month + 1, 1);
    } else {
        lemma_day_number_month(year + 1, 1, 1);
    }
}

/// Every day of an earlier month counts before the first day of a later
/// one.
proof fn lemma_month_order(y1: int, m1: int, y2: int, m2: int)
    requires
        0 <= y1 <= 9999,
        0 <= y2 <= 9999,
        1 <= m1 <= 12,
        1 <= m2 <= 12,
        12 * y1 + m1 < 12 * y2 + m2,
    ensures
        month_start(12 * y1 + m1 - 3) + days_in_month(y1, m1) <= month_start(12 * y2 + m2 - 3),
    decreases 12 * y2 + m2 - 12 * y1 - m1,
{
    let (py, pm) = if m2 > 1 {
        (y2, m2 - 1)
    } else {
        (y2 - 1, 12)
    };
    lemma_month_step(py, pm);
    if 12 * y1 + m1 < 12 * py + pm {
        lemma_month_order(y1, m1, py, pm);
    }
}

/// Dates order chronologically: of two existing dates, the one with the
/// smaller `YYYYMMDD` value has the smaller day count, so it comes first
/// on the time line.
pub proof fn lemma_dates_order_chronologically(a: GtfsDate, b: GtfsDate)
    requires
        valid_date(a.spec_year(), a.spec_month(), a.spec_day()),
        valid_date(b.spec_year(), b.spec_month(), b.spec_day()),
    ensures
        a.ordinal() < b.ordinal() <==> day_number(a.spec_year(), a.spec_month(), a.spec_day()) < day_number(
            b.spec_year(),
            b.spec_month(),
            b.spec_day(),
        ),
{
    let (y1, m1, d1) = (a.spec_year(), a.spec_month(), a.spec_day());
    let (y2, m2, d2) = (b.spec_year(), b.spec_month(), b.spec_day());
    let (t1, t2) = (12 * y1 + m1, 12 * y2 + m2);
    assert(a.ordinal() < b.ordinal() <==> (t1 < t2 || (t1 == t2 && d1 < d2))) by {
        assert(1 <= m1 <= 12 && 1 <= m2 <= 12 && 1 <= d1 <= 31 && 1 <= d2 <= 31);
    }
    lemma_day_number_month(y1, m1, d1);
    lemma_day_number_month(y2, m2, d2);
    if t1 < t2 {
        lemma_month_order(y1, m1, y2, m2);
    } else if t2 < t1 {
        lemma_month_order(y2, m2, y1, m1);
    } else {
        assert(y1 == y2 && m1 == m2);
    }
}

} // verus!
