use gtfs_rs::model::{
    Attribution, BookingRule, BookingType, Calendar, Frequency, LocationType, Pathway,
    PathwayMode, Route, RouteType, Stop, StopTime, Timeframe, Transfer, TransferType,
};
use gtfs_rs::{GtfsDate, GtfsError, GtfsReference, Rule};

fn bits(x: f64) -> u64 {
    x.to_bits()
}

fn rules_of(gtfs: &GtfsReference) -> Vec<Rule> {
    gtfs.validate()
        .issues()
        .iter()
        .map(|issue| issue.rule)
        .collect()
}

#[test]
fn test_route_and_stop_rules() {
    let mut gtfs = GtfsReference::new();
    gtfs.routes.push(Route::new("L1", RouteType::Bus));
    gtfs.stops.push(Stop::new("A"));
    gtfs.stops
        .push(Stop::new("E1").with_location_type(LocationType::EntranceExit));
    gtfs.stops.push(
        Stop::new("S1")
            .with_name("Central")
            .with_coordinates(bits(55.0), bits(37.0))
            .with_location_type(LocationType::Station)
            .with_parent_station("S2"),
    );

    let rules = rules_of(&gtfs);
    assert!(rules.contains(&Rule::MissingRouteName));
    assert!(rules.contains(&Rule::MissingStopName));
    assert!(rules.contains(&Rule::MissingStopCoordinates));
    assert!(rules.contains(&Rule::MissingParentStation));
    assert!(rules.contains(&Rule::ForbiddenParentStation));
}

#[test]
fn test_stop_time_rules() {
    let mut gtfs = GtfsReference::new();
    // no stop reference at all
    let mut orphan = StopTime::new("t0", "A", 1, 3600);
    orphan.stop_id = None;
    gtfs.stop_times.push(orphan);
    // both a stop and a flex location
    let mut double = StopTime::new("t0", "A", 2, 3600);
    double.location_id = Some("zone".to_string());
    gtfs.stop_times.push(double);
    // a window plus explicit times
    let mut windowed = StopTime::new("t0", "A", 3, 3600);
    windowed.start_pickup_drop_off_window = Some(8 * 3600);
    windowed.end_pickup_drop_off_window = Some(18 * 3600);
    gtfs.stop_times.push(windowed);
    // half a window
    let mut half = StopTime::new("t0", "A", 4, 3600);
    half.arrival_time = None;
    half.departure_time = None;
    half.start_pickup_drop_off_window = Some(8 * 3600);
    gtfs.stop_times.push(half);

    let rules = rules_of(&gtfs);
    assert!(rules.contains(&Rule::MissingStopTimeLocation));
    assert!(rules.contains(&Rule::ConflictingStopTimeLocation));
    assert!(rules.contains(&Rule::TimesWithPickupWindow));
    assert!(rules.contains(&Rule::IncompleteWindow));
}

#[test]
fn test_flex_row_requires_window() {
    let mut gtfs = GtfsReference::new();
    let mut flex = StopTime::new("t0", "A", 1, 3600);
    flex.stop_id = None;
    flex.arrival_time = None;
    flex.departure_time = None;
    flex.location_id = Some("zone".to_string());
    gtfs.stop_times.push(flex);

    let rules = rules_of(&gtfs);
    assert!(rules.contains(&Rule::MissingPickupWindow));
    // on-demand rows are exempt from the first/last requirement
    assert!(!rules.contains(&Rule::MissingFirstLastArrivalTime));
}

#[test]
fn test_first_and_last_stop_times_require_arrival() {
    let mut gtfs = GtfsReference::new();
    let mut first = StopTime::new("t0", "A", 1, 3600);
    first.arrival_time = None;
    first.departure_time = None;
    gtfs.stop_times.push(first);
    let mut middle = StopTime::new("t0", "B", 2, 3700);
    middle.arrival_time = None;
    middle.departure_time = None;
    gtfs.stop_times.push(middle);
    gtfs.stop_times.push(StopTime::new("t0", "C", 3, 3800));

    let flagged: Vec<_> = gtfs
        .validate()
        .issues()
        .iter()
        .filter(|issue| issue.rule == Rule::MissingFirstLastArrivalTime)
        .map(|issue| issue.entity_id.clone())
        .collect();
    // only the first row lacks a required arrival_time; the
    // interpolated middle row is legal
    assert_eq!(flagged, [Some("t0#1".to_string())]);
}

#[test]
fn test_transfer_stop_pair_required_for_types_0_to_3() {
    let mut gtfs = GtfsReference::new();
    gtfs.transfers
        .push(Transfer::new(TransferType::MinimumTime));

    let fields: Vec<Option<String>> = gtfs
        .validate()
        .into_issues()
        .into_iter()
        .filter(|issue| issue.rule == Rule::MissingTransferStop)
        .map(|issue| issue.field)
        .collect();
    assert_eq!(
        fields,
        [
            Some("from_stop_id".to_string()),
            Some("to_stop_id".to_string())
        ]
    );
}

#[test]
fn test_transfer_trip_pair_required_for_in_seat() {
    let mut gtfs = GtfsReference::new();
    gtfs.transfers.push(Transfer::new(TransferType::InSeat));

    let rules = rules_of(&gtfs);
    assert!(rules.contains(&Rule::MissingTransferTrip));
    // the stop pair is optional for in-seat transfer types
    assert!(!rules.contains(&Rule::MissingTransferStop));
}

#[test]
fn test_complete_transfers_pass() {
    let mut gtfs = GtfsReference::new();
    gtfs.transfers
        .push(Transfer::new(TransferType::Recommended).between_stops("A", "B"));
    gtfs.transfers
        .push(Transfer::new(TransferType::InSeatNotAllowed).between_trips("t1", "t2"));

    let rules = rules_of(&gtfs);
    assert!(!rules.contains(&Rule::MissingTransferStop));
    assert!(!rules.contains(&Rule::MissingTransferTrip));
}

#[test]
fn test_exit_gate_must_not_be_bidirectional() {
    let mut gtfs = GtfsReference::new();
    gtfs.pathways
        .push(Pathway::new("pw1", "A", "B", PathwayMode::ExitGate, true));
    gtfs.pathways
        .push(Pathway::new("pw2", "A", "B", PathwayMode::FareGate, true));
    gtfs.pathways
        .push(Pathway::new("pw3", "A", "B", PathwayMode::ExitGate, false));

    let flagged: Vec<Option<String>> = gtfs
        .validate()
        .into_issues()
        .into_iter()
        .filter(|issue| issue.rule == Rule::BidirectionalExitGate)
        .map(|issue| issue.entity_id)
        .collect();
    assert_eq!(flagged, [Some("pw1".to_string())]);
}

#[test]
fn test_booking_required_fields() {
    let mut gtfs = GtfsReference::new();
    gtfs.booking_rules
        .push(BookingRule::new("same_day", BookingType::SameDay));
    gtfs.booking_rules
        .push(BookingRule::new("prior_days", BookingType::PriorDays));
    let mut half_last = BookingRule::new("half_last", BookingType::PriorDays);
    half_last.prior_notice_last_day = Some(1);
    gtfs.booking_rules.push(half_last);

    let missing: Vec<(Option<String>, Option<String>)> = gtfs
        .validate()
        .into_issues()
        .into_iter()
        .filter(|issue| issue.rule == Rule::MissingBookingField)
        .map(|issue| (issue.entity_id, issue.field))
        .collect();
    assert_eq!(
        missing,
        [
            (
                Some("same_day".to_string()),
                Some("prior_notice_duration_min".to_string())
            ),
            (
                Some("prior_days".to_string()),
                Some("prior_notice_last_day".to_string())
            ),
            (
                Some("half_last".to_string()),
                Some("prior_notice_last_time".to_string())
            ),
        ]
    );
}

#[test]
fn test_booking_forbidden_fields() {
    let mut gtfs = GtfsReference::new();
    let mut real_time = BookingRule::new("real_time", BookingType::RealTime);
    real_time.prior_notice_duration_min = Some(30);
    real_time.prior_notice_duration_max = Some(120);
    real_time.prior_notice_start_day = Some(2);
    real_time.prior_notice_start_time = Some(8 * 3600);
    real_time.prior_notice_service_id = Some("svc".to_string());
    gtfs.booking_rules.push(real_time);
    let mut same_day = BookingRule::new("same_day", BookingType::SameDay);
    same_day.prior_notice_duration_min = Some(30);
    same_day.prior_notice_duration_max = Some(120);
    same_day.prior_notice_start_day = Some(2);
    same_day.prior_notice_start_time = Some(8 * 3600);
    same_day.prior_notice_last_time = Some(17 * 3600);
    gtfs.booking_rules.push(same_day);

    let forbidden: Vec<(Option<String>, Option<String>)> = gtfs
        .validate()
        .into_issues()
        .into_iter()
        .filter(|issue| issue.rule == Rule::ForbiddenBookingField)
        .map(|issue| (issue.entity_id, issue.field))
        .collect();
    assert_eq!(
        forbidden,
        [
            (
                Some("real_time".to_string()),
                Some("prior_notice_duration_min".to_string())
            ),
            (
                Some("real_time".to_string()),
                Some("prior_notice_duration_max".to_string())
            ),
            (
                Some("real_time".to_string()),
                Some("prior_notice_start_day".to_string())
            ),
            (
                Some("real_time".to_string()),
                Some("prior_notice_service_id".to_string())
            ),
            (
                Some("same_day".to_string()),
                Some("prior_notice_last_time".to_string())
            ),
            (
                Some("same_day".to_string()),
                Some("prior_notice_start_day".to_string())
            ),
        ]
    );
}

#[test]
fn test_booking_fields_allowed_for_their_type() -> Result<(), GtfsError> {
    let mut gtfs = GtfsReference::new();
    gtfs.calendar.push(Calendar::new(
        "svc",
        GtfsDate::new(2026, 1, 1)?,
        GtfsDate::new(2026, 12, 31)?,
    ));
    let mut same_day = BookingRule::new("same_day", BookingType::SameDay);
    same_day.prior_notice_duration_min = Some(30);
    same_day.prior_notice_duration_max = Some(120);
    gtfs.booking_rules.push(same_day);
    let mut prior_days = BookingRule::new("prior_days", BookingType::PriorDays);
    prior_days.prior_notice_last_day = Some(1);
    prior_days.prior_notice_last_time = Some(17 * 3600);
    prior_days.prior_notice_start_day = Some(7);
    prior_days.prior_notice_start_time = Some(0);
    prior_days.prior_notice_service_id = Some("svc".to_string());
    gtfs.booking_rules.push(prior_days);

    let rules = rules_of(&gtfs);
    assert!(!rules.contains(&Rule::MissingBookingField));
    assert!(!rules.contains(&Rule::ForbiddenBookingField));
    Ok(())
}

#[test]
fn test_period_window_and_attribution_rules() -> Result<(), GtfsError> {
    let mut gtfs = GtfsReference::new();
    gtfs.calendar.push(Calendar::new(
        "svc",
        GtfsDate::new(2026, 12, 31)?,
        GtfsDate::new(2026, 1, 1)?,
    ));
    gtfs.frequencies.push(Frequency::new("t0", 3600, 3600, 300));
    gtfs.timeframes
        .push(Timeframe::new("peak", "svc").with_period(0, 3600));
    let mut half_open = Timeframe::new("peak", "svc");
    half_open.start_time = Some(0);
    gtfs.timeframes.push(half_open);
    gtfs.attributions.push(Attribution::new("Nobody"));
    let mut double_target = Attribution::new("Both").as_producer();
    double_target.agency_id = Some("A".to_string());
    double_target.route_id = Some("R".to_string());
    gtfs.attributions.push(double_target);

    let rules = rules_of(&gtfs);
    assert!(rules.contains(&Rule::InvalidServicePeriod));
    assert!(rules.contains(&Rule::InvalidFrequencyWindow));
    assert!(rules.contains(&Rule::IncompleteTimeframe));
    assert!(rules.contains(&Rule::AttributionRoleMissing));
    assert!(rules.contains(&Rule::AttributionMultipleTargets));
    Ok(())
}

#[test]
fn last_stop_time_without_arrival_is_flagged_once() {
    let mut gtfs = GtfsReference::new();
    gtfs.stop_times.push(StopTime::new("t0", "A", 1, 3600));
    let mut last = StopTime::new("t0", "B", 9, 3700);
    last.arrival_time = None;
    gtfs.stop_times.push(last);
    let mut single = StopTime::new("t1", "A", 4, 3600);
    single.arrival_time = None;
    gtfs.stop_times.push(single);
    let flagged: Vec<Option<String>> = gtfs
        .validate()
        .into_issues()
        .into_iter()
        .filter(|issue| issue.rule == Rule::MissingFirstLastArrivalTime)
        .map(|issue| issue.entity_id)
        .collect();
    assert_eq!(flagged, [Some("t0#9".to_string()), Some("t1#4".to_string())]);
}

#[test]
fn transfer_rows_are_named_by_position() {
    let mut gtfs = GtfsReference::new();
    gtfs.transfers
        .push(Transfer::new(TransferType::Recommended).between_stops("A", "B"));
    gtfs.transfers.push(Transfer::new(TransferType::InSeat).between_trips("t1", "t2"));
    gtfs.transfers.push(Transfer::new(TransferType::Timed));
    let entities: Vec<Option<String>> = gtfs
        .validate()
        .into_issues()
        .into_iter()
        .filter(|issue| issue.rule == Rule::MissingTransferStop)
        .map(|issue| issue.entity_id)
        .collect();
    assert_eq!(entities, [Some("row 3".to_string()), Some("row 3".to_string())]);
}
