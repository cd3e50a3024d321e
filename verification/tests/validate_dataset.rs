use gtfs_rs::model::{
    Agency, CalendarDate, ExceptionType, Frequency, Location, LocationGeometry, LocationGroup,
    Route, RouteNetwork, RouteType, ShapePoint, Stop, StopTime, TableName, Translation, Trip,
};
use gtfs_rs::{GtfsDate, GtfsError, GtfsReference, Rule, Severity};

fn bits(x: f64) -> u64 {
    x.to_bits()
}

#[test]
fn test_duplicates_and_id_space() {
    let mut gtfs = GtfsReference::new();
    gtfs.stops
        .push(Stop::new("A").with_name("A").with_coordinates(bits(0.0), bits(0.0)));
    gtfs.stops.push(
        Stop::new("A")
            .with_name("A twin")
            .with_coordinates(bits(0.0), bits(0.0)),
    );
    gtfs.location_groups.push(LocationGroup::new("A"));

    let report = gtfs.validate();
    let rules: Vec<_> = report.issues().iter().map(|i| i.rule).collect();
    assert!(rules.contains(&Rule::DuplicateId));
    assert!(rules.contains(&Rule::IdSpaceCollision));
}

#[test]
fn test_multi_agency_and_network_conflict() {
    let mut gtfs = GtfsReference::new();
    gtfs.agencies
        .push(Agency::new("First", "https://a.example", "UTC"));
    gtfs.agencies
        .push(Agency::new("Second", "https://b.example", "UTC"));
    let mut route = Route::new("L1", RouteType::Bus).with_short_name("1");
    route.network_id = Some("metro".to_string());
    gtfs.routes.push(route);
    gtfs.route_networks.push(RouteNetwork::new("metro", "L1"));

    let report = gtfs.validate();
    let rules: Vec<_> = report.issues().iter().map(|i| i.rule).collect();
    assert!(rules.contains(&Rule::MissingAgencyId));
    assert!(rules.contains(&Rule::NetworkIdConflict));
}

#[test]
fn test_duplicate_location_ids() {
    let mut gtfs = GtfsReference::new();
    let ring = vec![
        [bits(0.0), bits(0.0)],
        [bits(1.0), bits(0.0)],
        [bits(1.0), bits(1.0)],
        [bits(0.0), bits(0.0)],
    ];
    gtfs.locations.push(Location::new(
        "zone",
        LocationGeometry::Polygon(vec![ring.clone()]),
    ));
    gtfs.locations
        .push(Location::new("zone", LocationGeometry::Polygon(vec![ring])));

    let report = gtfs.validate();
    assert!(
        report
            .issues()
            .iter()
            .any(|issue| issue.rule == Rule::DuplicateId
                && issue.file == "locations.geojson"
                && issue.entity_id.as_deref() == Some("zone"))
    );
}

#[test]
fn test_composite_key_duplicates() -> Result<(), GtfsError> {
    let mut gtfs = GtfsReference::new();
    gtfs.stop_times.push(StopTime::new("t0", "A", 5, 3600));
    gtfs.stop_times.push(StopTime::new("t0", "B", 5, 3700));
    gtfs.shapes.push(ShapePoint::new("sh1", bits(0.0), bits(0.0), 3));
    gtfs.shapes.push(ShapePoint::new("sh1", bits(1.0), bits(1.0), 3));
    gtfs.calendar_dates.push(CalendarDate::new(
        "svc",
        GtfsDate::new(2026, 1, 1)?,
        ExceptionType::Added,
    ));
    gtfs.calendar_dates.push(CalendarDate::new(
        "svc",
        GtfsDate::new(2026, 1, 1)?,
        ExceptionType::Removed,
    ));
    gtfs.frequencies.push(Frequency::new("t0", 3600, 7200, 300));
    gtfs.frequencies.push(Frequency::new("t0", 3600, 9000, 600));

    let report = gtfs.validate();
    let duplicate_files: Vec<&str> = report
        .issues()
        .iter()
        .filter(|issue| issue.rule == Rule::DuplicateId)
        .map(|issue| issue.file)
        .collect();
    assert!(duplicate_files.contains(&"stop_times.txt"));
    assert!(duplicate_files.contains(&"shapes.txt"));
    assert!(duplicate_files.contains(&"calendar_dates.txt"));
    assert!(duplicate_files.contains(&"frequencies.txt"));
    assert!(
        report
            .issues()
            .iter()
            .any(|issue| issue.message == "duplicate stop_sequence `5` for trip `t0`")
    );
    // identical start times are duplicates, not overlaps
    assert!(
        !report
            .issues()
            .iter()
            .any(|issue| issue.rule == Rule::OverlappingFrequency)
    );
    Ok(())
}

#[test]
fn test_overlapping_frequencies() {
    let mut gtfs = GtfsReference::new();
    gtfs.frequencies
        .push(Frequency::new("t0", 6 * 3600, 8 * 3600, 300));
    gtfs.frequencies
        .push(Frequency::new("t0", 7 * 3600, 9 * 3600, 600));
    // touching windows are legal
    gtfs.frequencies
        .push(Frequency::new("t1", 6 * 3600, 8 * 3600, 300));
    gtfs.frequencies
        .push(Frequency::new("t1", 8 * 3600, 10 * 3600, 600));

    let report = gtfs.validate();
    assert!(
        report
            .issues()
            .iter()
            .any(|issue| issue.rule == Rule::OverlappingFrequency
                && issue.entity_id.as_deref() == Some("t0"))
    );
    assert!(
        !report
            .issues()
            .iter()
            .any(|issue| issue.rule == Rule::OverlappingFrequency
                && issue.entity_id.as_deref() == Some("t1"))
    );
}

#[test]
fn test_feed_info_required_with_translations() {
    let mut gtfs = GtfsReference::new();
    gtfs.translations.push(
        Translation::new(TableName::Stops, "stop_name", "en", "Central").for_record("S1"),
    );

    let report = gtfs.validate();
    assert!(
        report
            .issues()
            .iter()
            .any(|issue| issue.rule == Rule::MissingFeedInfo
                && issue.severity == Severity::Error)
    );
}

#[test]
fn overlap_message_names_both_times() {
    let mut gtfs = GtfsReference::new();
    gtfs.frequencies
        .push(Frequency::new("t0", 7 * 3600, 9 * 3600, 600));
    gtfs.frequencies
        .push(Frequency::new("t0", 6 * 3600, 8 * 3600, 300));
    let messages: Vec<String> = gtfs
        .validate()
        .into_issues()
        .into_iter()
        .filter(|issue| issue.rule == Rule::OverlappingFrequency)
        .map(|issue| issue.message)
        .collect();
    assert_eq!(
        messages,
        ["window starting at `07:00:00` overlaps an earlier window ending at `08:00:00`"]
    );
}

#[test]
fn trip_without_stop_times_is_a_warning() {
    let mut gtfs = GtfsReference::new();
    gtfs.trips.push(Trip::new("t0", "L1", "svc"));
    let report = gtfs.validate();
    let warnings = report.warnings();
    assert_eq!(warnings.len(), 1);
    assert_eq!(warnings[0].rule, Rule::TripWithoutStopTimes);
    assert_eq!(warnings[0].entity_id.as_deref(), Some("t0"));
}

#[test]
fn an_empty_dataset_is_valid() {
    let report = GtfsReference::new().validate();
    assert!(report.is_valid());
    assert!(report.issues().is_empty());
    assert_eq!(report.to_string(), "0 error(s), 0 warning(s)");
}

#[test]
fn a_collision_names_the_other_file() {
    let mut gtfs = GtfsReference::new();
    gtfs.stops.push(Stop::new("Z").with_name("Z").with_coordinates(bits(0.0), bits(0.0)));
    gtfs.location_groups.push(LocationGroup::new("Z"));
    let messages: Vec<String> = gtfs
        .validate()
        .into_issues()
        .into_iter()
        .filter(|issue| issue.rule == Rule::IdSpaceCollision)
        .map(|issue| issue.message)
        .collect();
    assert_eq!(messages, ["id also used in stops.txt"]);
}
