use gtfs_rs::misc::{format_gtfs_time, parse_gtfs_time};
use gtfs_rs::{CurrencyAmount, GtfsDate, GtfsError, Weekday};

#[test]
fn test_date_new_checks_existence() {
    assert!(GtfsDate::new(2024, 2, 29).is_ok());
    assert!(matches!(GtfsDate::new(2023, 2, 29), Err(GtfsError::InvalidDate { .. })));
    assert!(GtfsDate::new(1900, 2, 29).is_err());
    assert!(GtfsDate::new(2000, 2, 29).is_ok());
    assert!(GtfsDate::new(2026, 4, 31).is_err());
    assert!(GtfsDate::new(2026, 13, 1).is_err());
    assert!(GtfsDate::new(2026, 0, 1).is_err());
    assert!(GtfsDate::new(2026, 1, 0).is_err());
    assert!(GtfsDate::new(10000, 1, 1).is_err());
    let d = GtfsDate::new(2026, 7, 24).unwrap();
    assert_eq!((d.year(), d.month(), d.day()), (2026, 7, 24));
}

#[test]
fn test_date_parse_and_print() {
    let d = GtfsDate::parse("20070604").unwrap();
    assert_eq!((d.year(), d.month(), d.day()), (2007, 6, 4));
    assert_eq!(d.to_gtfs_string(), "20070604");
    assert_eq!(GtfsDate::new(7, 1, 9).unwrap().to_gtfs_string(), "00070109");
    match GtfsDate::parse("2007-06-04") {
        Err(GtfsError::InvalidDate { value }) => assert_eq!(value, "2007-06-04"),
        other => panic!("unexpected {:?}", other),
    }
    assert!(GtfsDate::parse("20070230").is_err());
    assert!(GtfsDate::parse("2007060").is_err());
    assert!(GtfsDate::parse("200706041").is_err());
    assert!(GtfsDate::parse("").is_err());
}

#[test]
fn test_date_round_trip_on_values() {
    for text in ["20260101", "20241231", "00000229", "99991231", "20000229"] {
        let d = GtfsDate::parse(text).unwrap();
        assert_eq!(d.to_gtfs_string(), text);
        assert_eq!(GtfsDate::parse(&d.to_gtfs_string()).unwrap(), d);
    }
}

#[test]
fn test_weekdays() {
    assert_eq!(GtfsDate::new(2026, 7, 24).unwrap().weekday(), Weekday::Friday);
    assert_eq!(GtfsDate::new(2026, 7, 26).unwrap().weekday(), Weekday::Sunday);
    assert_eq!(GtfsDate::new(2000, 1, 1).unwrap().weekday(), Weekday::Saturday);
    assert_eq!(GtfsDate::new(2007, 1, 1).unwrap().weekday(), Weekday::Monday);
    assert_eq!(GtfsDate::new(2024, 2, 29).unwrap().weekday(), Weekday::Thursday);
    assert_eq!(GtfsDate::new(2024, 3, 1).unwrap().weekday(), Weekday::Friday);
}

#[test]
fn test_dates_order_chronologically() {
    let a = GtfsDate::new(2025, 12, 31).unwrap();
    let b = GtfsDate::new(2026, 1, 1).unwrap();
    let c = GtfsDate::new(2026, 1, 2).unwrap();
    assert!(a.is_before(&b));
    assert!(b.is_before(&c));
    assert!(!b.is_before(&a));
    assert!(!b.is_before(&b));
    assert!(a < b && b < c);
    assert!(a.ordinal_number() < b.ordinal_number());
}

#[test]
fn test_time_parse() {
    assert_eq!(parse_gtfs_time("08:00:00").unwrap(), 8 * 3600);
    assert_eq!(parse_gtfs_time("8:00:00").unwrap(), 8 * 3600);
    assert_eq!(parse_gtfs_time("25:10:00").unwrap(), 25 * 3600 + 600);
    assert_eq!(parse_gtfs_time("00:00:59").unwrap(), 59);
    assert_eq!(parse_gtfs_time("99999:59:59").unwrap(), 99999 * 3600 + 59 * 60 + 59);
    match parse_gtfs_time("8:60:00") {
        Err(GtfsError::InvalidTime { value }) => assert_eq!(value, "8:60:00"),
        other => panic!("unexpected {:?}", other),
    }
    assert!(parse_gtfs_time("08:00:60").is_err());
    assert!(parse_gtfs_time("08:00").is_err());
    assert!(parse_gtfs_time("08-00-00").is_err());
    assert!(parse_gtfs_time("100000:00:00").is_err());
    assert!(parse_gtfs_time("").is_err());
}

#[test]
fn test_time_format_and_round_trip() {
    assert_eq!(format_gtfs_time(0), "00:00:00");
    assert_eq!(format_gtfs_time(8 * 3600 + 5), "08:00:05");
    assert_eq!(format_gtfs_time(25 * 3600 + 600), "25:10:00");
    assert_eq!(format_gtfs_time(123 * 3600), "123:00:00");
    for seconds in [0u32, 59, 3599, 86399, 90000, 359_999_999] {
        assert_eq!(parse_gtfs_time(&format_gtfs_time(seconds)).unwrap(), seconds);
    }
    // hours beyond five digits print but do not read back
    assert!(parse_gtfs_time(&format_gtfs_time(360_000_000)).is_err());
}

#[test]
fn test_currency_amounts() {
    let a = CurrencyAmount::parse("57.00").unwrap();
    assert_eq!((a.units(), a.scale()), (5700, 2));
    assert_eq!(a.to_string(), "57.00");
    let b = CurrencyAmount::parse("-3").unwrap();
    assert_eq!((b.units(), b.scale()), (-3, 0));
    assert_eq!(b.to_string(), "-3");
    let c = CurrencyAmount::parse("-0.05").unwrap();
    assert_eq!((c.units(), c.scale()), (-5, 2));
    assert_eq!(c.to_string(), "-0.05");
    assert_eq!(CurrencyAmount::parse("1.25").unwrap().to_string(), "1.25");
    assert_eq!(CurrencyAmount::parse("007.5").unwrap().to_string(), "7.5");
    match CurrencyAmount::parse("1.") {
        Err(GtfsError::InvalidAmount { value }) => assert_eq!(value, "1."),
        other => panic!("unexpected {:?}", other),
    }
    assert!(CurrencyAmount::parse(".5").is_err());
    assert!(CurrencyAmount::parse("1,5").is_err());
    assert!(CurrencyAmount::parse("-").is_err());
    assert!(CurrencyAmount::parse("").is_err());
    assert!(CurrencyAmount::parse("9223372036854775808").is_err());
    assert_eq!(CurrencyAmount::parse("9223372036854775807").unwrap().units(), i64::MAX);
}

#[test]
fn test_currency_round_trip_on_values() {
    for text in ["0", "0.00", "12.345", "-7.10", "9223372036854775807", "-922337203685477.5807"] {
        let a = CurrencyAmount::parse(text).unwrap();
        assert_eq!(a.to_string(), text);
        assert_eq!(CurrencyAmount::parse(&a.to_string()).unwrap(), a);
    }
}

#[test]
fn test_error_messages() {
    let e = GtfsDate::parse("x").unwrap_err();
    assert_eq!(e.message(), "invalid GTFS date value: 'x' (expected YYYYMMDD)");
    let e = parse_gtfs_time("x").unwrap_err();
    assert_eq!(e.message(), "invalid GTFS time value: 'x' (expected HH:MM:SS)");
    let e = CurrencyAmount::parse("x").unwrap_err();
    assert_eq!(e.message(), "invalid currency amount: 'x' (expected a decimal number)");
}
