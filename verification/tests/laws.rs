use gtfs_rs::model::{
    BikesAllowed, BookingType, CarsAllowed, ContinuousPickupDropOff, Direction, ExceptionType,
    FareMediaType, FareTransferType, LocationType, PathwayMode, PickupDropOffType, Route, RouteType,
    StopTime, TableName, TransferType, Trip, WheelchairAccessible, WheelchairBoarding,
};
use gtfs_rs::{GtfsDate, GtfsReference, Rule, Severity, Weekday};

#[test]
fn test_errors_and_warnings_partition_the_report() {
    let mut gtfs = GtfsReference::new();
    // a nameless route (error) and a trip without stop times (warning)
    gtfs.routes.push(Route::new("L1", RouteType::Bus));
    gtfs.trips.push(Trip::new("t0", "L1", "svc"));
    gtfs.trips.push(Trip::new("t1", "L1", "svc"));
    let report = gtfs.validate();
    assert_eq!(report.errors().len() + report.warnings().len(), report.issues().len());
    assert_eq!(report.errors().len(), 3);
    assert_eq!(report.warnings().len(), 2);
    assert!(!report.is_valid());
    assert_eq!(report.to_string(), "3 error(s), 2 warning(s)");
    for issue in report.issues() {
        assert_eq!(issue.severity == Severity::Warning, issue.rule == Rule::TripWithoutStopTimes);
    }
}

#[test]
fn test_warnings_alone_keep_a_dataset_valid() {
    let mut gtfs = GtfsReference::new();
    gtfs.trips.push(Trip::new("t0", "L1", "svc"));
    gtfs.routes.push(Route::new("L1", RouteType::Bus).with_short_name("1"));
    gtfs.calendar_dates.push(gtfs_rs::model::CalendarDate::new(
        "svc",
        GtfsDate::new(2026, 1, 1).unwrap(),
        ExceptionType::Added,
    ));
    let report = gtfs.validate();
    assert!(report.errors().is_empty());
    assert_eq!(report.warnings().len(), 1);
    assert!(report.is_valid());
}

#[test]
fn test_wire_codes_round_trip() {
    for code in -5..2000 {
        if let Some(x) = RouteType::from_code(code) {
            assert_eq!(x.code(), code);
        }
        if let Some(x) = LocationType::from_code(code) {
            assert_eq!(x.code(), code);
        }
        if let Some(x) = WheelchairBoarding::from_code(code) {
            assert_eq!(x.code(), code);
        }
        if let Some(x) = ContinuousPickupDropOff::from_code(code) {
            assert_eq!(x.code(), code);
        }
        if let Some(x) = Direction::from_code(code) {
            assert_eq!(x.code(), code);
        }
        if let Some(x) = WheelchairAccessible::from_code(code) {
            assert_eq!(x.code(), code);
        }
        if let Some(x) = BikesAllowed::from_code(code) {
            assert_eq!(x.code(), code);
        }
        if let Some(x) = CarsAllowed::from_code(code) {
            assert_eq!(x.code(), code);
        }
        if let Some(x) = PickupDropOffType::from_code(code) {
            assert_eq!(x.code(), code);
        }
        if let Some(x) = ExceptionType::from_code(code) {
            assert_eq!(x.code(), code);
        }
        if let Some(x) = FareMediaType::from_code(code) {
            assert_eq!(x.code(), code);
        }
        if let Some(x) = FareTransferType::from_code(code) {
            assert_eq!(x.code(), code);
        }
        if let Some(x) = TransferType::from_code(code) {
            assert_eq!(x.code(), code);
        }
        if let Some(x) = PathwayMode::from_code(code) {
            assert_eq!(x.code(), code);
        }
        if let Some(x) = BookingType::from_code(code) {
            assert_eq!(x.code(), code);
        }
    }
    assert_eq!(RouteType::from_code(3), Some(RouteType::Bus));
    assert_eq!(RouteType::from_code(715), Some(RouteType::Extended(715)));
    assert_eq!(RouteType::from_code(99), None);
    assert_eq!(RouteType::from_code(RouteType::Monorail.code()), Some(RouteType::Monorail));
    // an extended value outside the extended range does not read back
    assert_eq!(RouteType::from_code(RouteType::Extended(3).code()), Some(RouteType::Bus));
}

#[test]
fn test_table_names_round_trip() {
    for t in [
        TableName::Agency,
        TableName::Stops,
        TableName::Routes,
        TableName::Trips,
        TableName::StopTimes,
        TableName::Pathways,
        TableName::Levels,
        TableName::FeedInfo,
        TableName::Attributions,
    ] {
        assert_eq!(TableName::from_name(t.name()), Some(t));
    }
    assert_eq!(TableName::from_name("stop_times"), Some(TableName::StopTimes));
    assert_eq!(TableName::from_name("Stops"), None);
    assert_eq!(TableName::from_name(""), None);
}

#[test]
fn test_stop_times_sort_is_stable() {
    let mut gtfs = GtfsReference::new();
    gtfs.stop_times.push(StopTime::new("t0", "C", 3, 300));
    gtfs.stop_times.push(StopTime::new("t0", "B1", 2, 200));
    gtfs.stop_times.push(StopTime::new("t1", "X", 1, 0));
    gtfs.stop_times.push(StopTime::new("t0", "A", 1, 100));
    gtfs.stop_times.push(StopTime::new("t0", "B2", 2, 250));
    let pattern = gtfs.stop_times_of_trip("t0");
    let stops: Vec<&str> = pattern.iter().map(|st| st.stop_id.as_deref().unwrap()).collect();
    // ordered by stop_sequence; equal sequences keep dataset order
    assert_eq!(stops, ["A", "B1", "B2", "C"]);
    assert!(gtfs.stop_times_of_trip("none").is_empty());
}

#[test]
fn test_consecutive_days_have_consecutive_weekdays() {
    let order = [
        Weekday::Monday,
        Weekday::Tuesday,
        Weekday::Wednesday,
        Weekday::Thursday,
        Weekday::Friday,
        Weekday::Saturday,
        Weekday::Sunday,
    ];
    let index = |w: Weekday| order.iter().position(|x| *x == w).unwrap();
    for (a, b) in [
        ((2024, 2, 28), (2024, 2, 29)),
        ((2024, 2, 29), (2024, 3, 1)),
        ((2023, 2, 28), (2023, 3, 1)),
        ((1900, 2, 28), (1900, 3, 1)),
        ((2000, 2, 29), (2000, 3, 1)),
        ((2025, 12, 31), (2026, 1, 1)),
        ((2026, 4, 30), (2026, 5, 1)),
        ((0, 2, 29), (0, 3, 1)),
    ] {
        let da = GtfsDate::new(a.0, a.1, a.2).unwrap();
        let db = GtfsDate::new(b.0, b.1, b.2).unwrap();
        assert_eq!((index(da.weekday()) + 1) % 7, index(db.weekday()));
        assert_eq!(da.ordinal_number() < db.ordinal_number(), true);
    }
}
