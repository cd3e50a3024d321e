use gtfs_rs::model::{
    Agency, Attribution, FareRuleV1, LocationType, Pathway, PathwayMode, Route, RouteType, Stop,
    StopTime, Timeframe, Trip,
};
use gtfs_rs::{GtfsReference, Rule};

fn bits(x: f64) -> u64 {
    x.to_bits()
}

#[test]
fn test_broken_references_are_reported() {
    let mut gtfs = GtfsReference::new();
    gtfs.routes
        .push(Route::new("L1", RouteType::Bus).with_short_name("1"));
    gtfs.trips.push(Trip::new("t0", "NO_SUCH_ROUTE", "NO_SVC"));
    gtfs.stop_times
        .push(StopTime::new("t0", "NO_SUCH_STOP", 1, 3600));

    let report = gtfs.validate();
    let unknown_count = report
        .issues()
        .iter()
        .filter(|issue| issue.rule == Rule::UnknownReference)
        .count();
    // trip route, trip service, stop_time stop
    assert_eq!(unknown_count, 3);
}

#[test]
fn test_stop_time_stop_must_be_platform() {
    let mut gtfs = GtfsReference::new();
    gtfs.stops.push(
        Stop::new("STA")
            .with_name("Station")
            .with_coordinates(bits(0.0), bits(0.0))
            .with_location_type(LocationType::Station),
    );
    gtfs.stop_times.push(StopTime::new("t0", "STA", 1, 3600));

    let report = gtfs.validate();
    assert!(
        report
            .issues()
            .iter()
            .any(|issue| issue.rule == Rule::StopTimeStopNotPlatform)
    );
}

#[test]
fn test_agency_refs_skipped_for_single_idless_agency() {
    let mut gtfs = GtfsReference::new();
    gtfs.agencies
        .push(Agency::new("Demo", "https://demo.example", "UTC"));
    let mut attribution = Attribution::new("Org");
    attribution.agency_id = Some("demo".to_string());
    gtfs.attributions.push(attribution);

    let report = gtfs.validate();
    assert!(
        !report
            .issues()
            .iter()
            .any(|issue| issue.rule == Rule::UnknownReference)
    );
}

#[test]
fn test_parent_station_must_be_station() {
    let mut gtfs = GtfsReference::new();
    gtfs.stops.push(
        Stop::new("A")
            .with_name("A")
            .with_coordinates(bits(0.0), bits(0.0))
            .with_parent_station("B"),
    );
    gtfs.stops
        .push(Stop::new("B").with_name("B").with_coordinates(bits(0.0), bits(0.0)));

    let report = gtfs.validate();
    assert!(
        report
            .issues()
            .iter()
            .any(|issue| issue.rule == Rule::ParentStationNotStation)
    );
}

#[test]
fn test_station_platform_boarding_area_chain_is_valid() {
    let mut gtfs = GtfsReference::new();
    gtfs.stops.push(
        Stop::new("STA")
            .with_name("Station")
            .with_coordinates(bits(0.0), bits(0.0))
            .with_location_type(LocationType::Station),
    );
    gtfs.stops.push(
        Stop::new("PLAT")
            .with_name("Platform")
            .with_coordinates(bits(0.0), bits(0.0))
            .with_parent_station("STA"),
    );
    gtfs.stops.push(
        Stop::new("BA")
            .with_location_type(LocationType::BoardingArea)
            .with_parent_station("PLAT"),
    );

    let report = gtfs.validate();
    assert!(report.issues().is_empty());
}

#[test]
fn test_boarding_area_parent_must_be_platform() {
    let mut gtfs = GtfsReference::new();
    gtfs.stops.push(
        Stop::new("STA")
            .with_name("Station")
            .with_coordinates(bits(0.0), bits(0.0))
            .with_location_type(LocationType::Station),
    );
    gtfs.stops.push(
        Stop::new("BA")
            .with_location_type(LocationType::BoardingArea)
            .with_parent_station("STA"),
    );

    let report = gtfs.validate();
    assert!(
        report
            .issues()
            .iter()
            .any(|issue| issue.rule == Rule::ParentStationNotPlatform
                && issue.entity_id.as_deref() == Some("BA"))
    );
}

#[test]
fn test_entrance_parent_must_be_station() {
    let mut gtfs = GtfsReference::new();
    gtfs.stops.push(
        Stop::new("STA")
            .with_name("Station")
            .with_coordinates(bits(0.0), bits(0.0))
            .with_location_type(LocationType::Station),
    );
    gtfs.stops.push(
        Stop::new("PLAT")
            .with_name("Platform")
            .with_coordinates(bits(0.0), bits(0.0))
            .with_parent_station("STA"),
    );
    gtfs.stops.push(
        Stop::new("E1")
            .with_name("Entrance")
            .with_coordinates(bits(0.0), bits(0.0))
            .with_location_type(LocationType::EntranceExit)
            .with_parent_station("PLAT"),
    );

    let report = gtfs.validate();
    assert!(
        report
            .issues()
            .iter()
            .any(|issue| issue.rule == Rule::ParentStationNotStation
                && issue.entity_id.as_deref() == Some("E1"))
    );
}

#[test]
fn test_pathway_endpoints_must_not_be_stations() {
    let mut gtfs = GtfsReference::new();
    gtfs.stops.push(
        Stop::new("STA")
            .with_name("Station")
            .with_coordinates(bits(0.0), bits(0.0))
            .with_location_type(LocationType::Station),
    );
    gtfs.stops.push(
        Stop::new("PLAT")
            .with_name("Platform")
            .with_coordinates(bits(0.0), bits(0.0))
            .with_parent_station("STA"),
    );
    gtfs.stops.push(
        Stop::new("E1")
            .with_name("Entrance")
            .with_coordinates(bits(0.0), bits(0.0))
            .with_location_type(LocationType::EntranceExit)
            .with_parent_station("STA"),
    );
    gtfs.pathways.push(Pathway::new(
        "pw1",
        "STA",
        "PLAT",
        PathwayMode::Walkway,
        true,
    ));
    gtfs.pathways.push(Pathway::new(
        "pw2",
        "E1",
        "PLAT",
        PathwayMode::Walkway,
        true,
    ));

    let flagged: Vec<(Option<String>, Option<String>)> = gtfs
        .validate()
        .into_issues()
        .into_iter()
        .filter(|issue| issue.rule == Rule::PathwayEndpointIsStation)
        .map(|issue| (issue.entity_id, issue.field))
        .collect();
    // only the station endpoint of pw1 is illegal
    assert_eq!(
        flagged,
        [(Some("pw1".to_string()), Some("from_stop_id".to_string()))]
    );
}

#[test]
fn test_timeframe_service_and_fare_rule_zones() {
    let mut gtfs = GtfsReference::new();
    gtfs.stops.push(
        Stop::new("A")
            .with_name("A")
            .with_coordinates(bits(0.0), bits(0.0))
            .with_zone_id("Z1"),
    );
    gtfs.timeframes.push(Timeframe::new("peak", "NO_SVC"));
    let mut rule = FareRuleV1::new("base");
    rule.origin_id = Some("Z1".to_string());
    rule.destination_id = Some("NO_ZONE".to_string());
    rule.contains_id = Some("NO_ZONE".to_string());
    gtfs.fare_rules.push(rule);

    let report = gtfs.validate();
    let fields: Vec<&str> = report
        .issues()
        .iter()
        .filter(|issue| issue.rule == Rule::UnknownReference)
        .filter_map(|issue| issue.field.as_deref())
        .collect();
    assert!(fields.contains(&"service_id"));
    assert!(fields.contains(&"destination_id"));
    assert!(fields.contains(&"contains_id"));
    // Z1 exists on a stop, so origin_id resolves
    assert!(!fields.contains(&"origin_id"));
}

#[test]
fn unknown_reference_message_quotes_the_value() {
    let mut gtfs = GtfsReference::new();
    gtfs.trips.push(Trip::new("t0", "NO_ROUTE", "NO_SERVICE"));
    gtfs.stop_times.push(StopTime::new("t0", "NO_STOP", 1, 8 * 3600));
    let report = gtfs.validate();
    let first = &report.errors()[0];
    assert_eq!(first.file, "trips.txt");
    assert_eq!(first.field.as_deref(), Some("route_id"));
    assert_eq!(first.message, "references unknown record `NO_ROUTE`");
    assert_eq!(
        first.to_string(),
        "trips.txt, record `t0`, field `route_id`: references unknown record `NO_ROUTE`"
    );
    assert!(!report.is_valid());
}
