use gtfs_rs::model::{
    Calendar, CalendarDate, Direction, ExceptionType, Frequency, Route, RouteType, ShapePoint,
    StopTime, Trip,
};
use gtfs_rs::{GtfsDate, GtfsError, GtfsReference};

fn bits(x: f64) -> u64 {
    x.to_bits()
}

#[test]
fn test_lookups() {
    let mut gtfs = GtfsReference::new();
    gtfs.routes.push(Route::new("L1", RouteType::Bus));
    gtfs.trips
        .push(Trip::new("t0", "L1", "daily").with_direction(Direction::Outbound));
    gtfs.trips
        .push(Trip::new("t1", "L1", "daily").with_direction(Direction::Inbound));
    // out-of-order sequences must be sorted by stop_sequence
    gtfs.stop_times.push(StopTime::new("t0", "B", 5, 100));
    gtfs.stop_times.push(StopTime::new("t0", "A", 1, 0));
    gtfs.frequencies.push(Frequency::new("t0", 0, 3600, 300));
    gtfs.shapes.push(ShapePoint::new("sh", bits(55.0), bits(37.1), 2));
    gtfs.shapes.push(ShapePoint::new("sh", bits(55.0), bits(37.0), 1));

    assert_eq!(gtfs.trips_of_route("L1").len(), 2);
    let pattern = gtfs.stop_times_of_trip("t0");
    assert_eq!(pattern[0].stop_id.as_deref(), Some("A"));
    assert_eq!(pattern[1].stop_id.as_deref(), Some("B"));
    assert_eq!(gtfs.frequencies_of_trip("t0").len(), 1);
    assert!(gtfs.frequencies_of_trip("t1").is_empty());
    assert_eq!(gtfs.route("L1").map(|r| r.route_type), Some(RouteType::Bus));
    assert_eq!(f64::from_bits(gtfs.shape("sh")[0].shape_pt_lon), 37.0);
}

#[test]
fn test_service_activity_with_exceptions() -> Result<(), GtfsError> {
    let mut gtfs = GtfsReference::new();
    gtfs.calendar.push(
        Calendar::new(
            "wd",
            GtfsDate::new(2026, 7, 1)?,
            GtfsDate::new(2026, 7, 31)?,
        )
        .with_weekdays(),
    );
    // Friday 2026-07-24 removed, Sunday 2026-07-26 added
    gtfs.calendar_dates.push(CalendarDate::new(
        "wd",
        GtfsDate::new(2026, 7, 24)?,
        ExceptionType::Removed,
    ));
    gtfs.calendar_dates.push(CalendarDate::new(
        "wd",
        GtfsDate::new(2026, 7, 26)?,
        ExceptionType::Added,
    ));

    assert!(gtfs.is_service_active("wd", &GtfsDate::new(2026, 7, 23)?));
    assert!(!gtfs.is_service_active("wd", &GtfsDate::new(2026, 7, 24)?));
    assert!(gtfs.is_service_active("wd", &GtfsDate::new(2026, 7, 26)?));
    assert!(!gtfs.is_service_active("unknown", &GtfsDate::new(2026, 7, 23)?));
    Ok(())
}

#[test]
fn lookups_return_the_first_match() {
    let mut gtfs = GtfsReference::new();
    gtfs.trips.push(Trip::new("t0", "L1", "a"));
    gtfs.trips.push(Trip::new("t0", "L2", "b"));
    assert_eq!(gtfs.trip("t0").map(|t| t.route_id.as_str()), Some("L1"));
    assert!(gtfs.trip("t9").is_none());
    assert!(gtfs.stop("nothing").is_none());
    assert!(gtfs.agency("nothing").is_none());
}

#[test]
fn equal_sequences_keep_table_order() {
    let mut gtfs = GtfsReference::new();
    gtfs.stop_times.push(StopTime::new("t0", "X", 2, 10));
    gtfs.stop_times.push(StopTime::new("t0", "Y", 1, 5));
    gtfs.stop_times.push(StopTime::new("t0", "Z", 2, 20));
    let pattern = gtfs.stop_times_of_trip("t0");
    let stops: Vec<&str> = pattern.iter().map(|st| st.stop_id.as_deref().unwrap_or("")).collect();
    assert_eq!(stops, ["Y", "X", "Z"]);
}

#[test]
fn service_without_calendar_follows_exceptions_only() -> Result<(), GtfsError> {
    let mut gtfs = GtfsReference::new();
    gtfs.calendar_dates.push(CalendarDate::new(
        "extra",
        GtfsDate::new(2026, 3, 1)?,
        ExceptionType::Added,
    ));
    assert!(gtfs.is_service_active("extra", &GtfsDate::new(2026, 3, 1)?));
    assert!(!gtfs.is_service_active("extra", &GtfsDate::new(2026, 3, 2)?));
    Ok(())
}
