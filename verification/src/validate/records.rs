//! Intra-record rules: the conditionally required/forbidden field
//! combinations of the specification, checked one record at a time.

use vstd::prelude::*;

use crate::model::{
    Attribution, BookingRule, BookingType, Calendar, Frequency, LocationType, Pathway, PathwayMode,
    Route, Stop, StopTime, Timeframe, Transfer, TransferType,
};
use crate::reference::GtfsReference;
use crate::text::{append, decimal, owned, u64_to_decimal};
use crate::validate::report::{
    all_fit, flat_map, issues_view, lemma_fit_join, lemma_flat_map_fits, lemma_flat_map_all, lemma_flat_map_has, lemma_flat_map_step, lemma_join_has, push_error_if,
    push_field_error_if, record_error, field_issue, issue_if, IssueView, Rule, Severity, ValidationIssue,
};

verus! {

/// The record identifier of a stop time: `trip_id#stop_sequence`.
pub open spec fn stop_time_entity(st: StopTime) -> Seq<char> {
    st.trip_id@ + "#"@ + decimal(st.stop_sequence as nat)
}

/// Builds `trip_id#stop_sequence`.
pub fn stop_time_entity_of(trip_id: &str, stop_sequence: u32) -> (out: String)
    ensures
        out@ == trip_id@ + "#"@ + decimal(stop_sequence as nat),
{
    let mut out = owned(trip_id);
    append(&mut out, "#");
    append(&mut out, u64_to_decimal(stop_sequence as u64).as_str());
    out
}

/// The record identifier of the `index`-th (0-based) record of a table
/// without a primary key: `row N`, N counting from 1.
pub open spec fn row_entity(index: int) -> Seq<char> {
    "row "@ + decimal((index + 1) as nat)
}

/// Builds `row N` for the 0-based `index`.
pub fn row_entity_of(index: usize) -> (out: String)
    requires
        index < usize::MAX,
    ensures
        out@ == row_entity(index as int),
{
    let mut out = owned("row ");
    append(&mut out, u64_to_decimal((index + 1) as u64).as_str());
    out
}

/// The record identifier of an attribution: its id, or else its
/// organization name.
pub open spec fn attribution_entity(a: Attribution) -> Seq<char> {
    match a.attribution_id {
        Some(id) => id@,
        None => a.organization_name@,
    }
}

/// Issues of one route.
pub open spec fn route_issues(r: Route) -> Seq<IssueView> {
    issue_if(
        r.route_short_name is None && r.route_long_name is None,
        record_error(
            "routes.txt"@,
            r.route_id@,
            Rule::MissingRouteName,
            "neither route_short_name nor route_long_name is set"@,
        ),
    )
}

/// Whether a location kind needs a name and coordinates.
pub open spec fn is_named_kind(t: LocationType) -> bool {
    t == LocationType::StopOrPlatform || t == LocationType::Station || t == LocationType::EntranceExit
}

/// Issues of one stop.
pub open spec fn stop_issues(s: Stop) -> Seq<IssueView> {
    let named = is_named_kind(s.location_type);
    issue_if(
        named && s.stop_name is None,
        record_error(
            "stops.txt"@,
            s.stop_id@,
            Rule::MissingStopName,
            "stop_name is required for stops, stations and entrances"@,
        ),
    ) + issue_if(
        named && (s.stop_lat is None || s.stop_lon is None),
        record_error(
            "stops.txt"@,
            s.stop_id@,
            Rule::MissingStopCoordinates,
            "stop_lat/stop_lon are required for stops, stations and entrances"@,
        ),
    ) + issue_if(
        s.location_type == LocationType::Station && s.parent_station is Some,
        record_error(
            "stops.txt"@,
            s.stop_id@,
            Rule::ForbiddenParentStation,
            "a station must not have a parent_station"@,
        ),
    ) + issue_if(
        (s.location_type == LocationType::EntranceExit || s.location_type
            == LocationType::GenericNode || s.location_type == LocationType::BoardingArea)
            && s.parent_station is None,
        record_error(
            "stops.txt"@,
            s.stop_id@,
            Rule::MissingParentStation,
            "entrances, generic nodes and boarding areas require a parent_station"@,
        ),
    )
}

/// How many of `stop_id`, `location_group_id`, `location_id` a stop
/// time sets.
pub open spec fn location_references(st: StopTime) -> int {
    (if st.stop_id is Some { 1int } else { 0 }) + (if st.location_group_id is Some { 1int } else { 0 })
        + (if st.location_id is Some { 1int } else { 0 })
}

/// Issues of one stop time.
pub open spec fn stop_time_issues(st: StopTime) -> Seq<IssueView> {
    let entity = stop_time_entity(st);
    let refs = location_references(st);
    let start = st.start_pickup_drop_off_window is Some;
    let end = st.end_pickup_drop_off_window is Some;
    issue_if(
        refs == 0,
        record_error(
            "stop_times.txt"@,
            entity,
            Rule::MissingStopTimeLocation,
            "one of stop_id, location_group_id, location_id must be set"@,
        ),
    ) + issue_if(
        refs > 1,
        record_error(
            "stop_times.txt"@,
            entity,
            Rule::ConflictingStopTimeLocation,
            "only one of stop_id, location_group_id, location_id may be set"@,
        ),
    ) + issue_if(
        start != end,
        record_error(
            "stop_times.txt"@,
            entity,
            Rule::IncompleteWindow,
            "start and end of the pickup/drop-off window must be set together"@,
        ),
    ) + issue_if(
        start && end && (st.arrival_time is Some || st.departure_time is Some),
        record_error(
            "stop_times.txt"@,
            entity,
            Rule::TimesWithPickupWindow,
            "arrival/departure times are forbidden with a pickup/drop-off window"@,
        ),
    ) + issue_if(
        (st.location_group_id is Some || st.location_id is Some) && !start && !end,
        record_error(
            "stop_times.txt"@,
            entity,
            Rule::MissingPickupWindow,
            "a pickup/drop-off window is required with location_group_id or location_id"@,
        ),
    )
}

/// Issues of one timeframe.
pub open spec fn timeframe_issues(t: Timeframe) -> Seq<IssueView> {
    issue_if(
        (t.start_time is Some) != (t.end_time is Some),
        record_error(
            "timeframes.txt"@,
            t.timeframe_group_id@,
            Rule::IncompleteTimeframe,
            "start_time and end_time must be set together or both omitted"@,
        ),
    )
}

/// Issues of one weekly pattern.
pub open spec fn calendar_issues(c: Calendar) -> Seq<IssueView> {
    issue_if(
        c.start_date.ordinal() > c.end_date.ordinal(),
        record_error(
            "calendar.txt"@,
            c.service_id@,
            Rule::InvalidServicePeriod,
            "start_date is after end_date"@,
        ),
    )
}

/// Issues of one frequency window.
pub open spec fn frequency_issues(f: Frequency) -> Seq<IssueView> {
    issue_if(
        f.start_time >= f.end_time,
        record_error(
            "frequencies.txt"@,
            f.trip_id@,
            Rule::InvalidFrequencyWindow,
            "start_time must be before end_time"@,
        ),
    )
}

/// Whether a transfer type is in-seat (4 or 5).
pub open spec fn is_in_seat(t: TransferType) -> bool {
    t == TransferType::InSeat || t == TransferType::InSeatNotAllowed
}

/// Issues of the `index`-th transfer.
pub open spec fn transfer_issues(index: int, t: Transfer) -> Seq<IssueView> {
    let entity = row_entity(index);
    if is_in_seat(t.transfer_type) {
        issue_if(
            t.from_trip_id is None,
            field_issue(
                "transfers.txt"@,
                entity,
                "from_trip_id"@,
                Rule::MissingTransferTrip,
                "required for in-seat transfer types 4 and 5"@,
            ),
        ) + issue_if(
            t.to_trip_id is None,
            field_issue(
                "transfers.txt"@,
                entity,
                "to_trip_id"@,
                Rule::MissingTransferTrip,
                "required for in-seat transfer types 4 and 5"@,
            ),
        )
    } else {
        issue_if(
            t.from_stop_id is None,
            field_issue(
                "transfers.txt"@,
                entity,
                "from_stop_id"@,
                Rule::MissingTransferStop,
                "required for transfer types 0-3"@,
            ),
        ) + issue_if(
            t.to_stop_id is None,
            field_issue(
                "transfers.txt"@,
                entity,
                "to_stop_id"@,
                Rule::MissingTransferStop,
                "required for transfer types 0-3"@,
            ),
        )
    }
}

/// Issues of one pathway.
pub open spec fn pathway_issues(p: Pathway) -> Seq<IssueView> {
    issue_if(
        p.pathway_mode == PathwayMode::ExitGate && p.is_bidirectional,
        record_error(
            "pathways.txt"@,
            p.pathway_id@,
            Rule::BidirectionalExitGate,
            "an exit gate (pathway_mode 7) must not be bidirectional"@,
        ),
    )
}

/// A field-level issue of `booking_rules.txt`.
pub open spec fn booking_issue(b: BookingRule, field: Seq<char>, rule: Rule, message: Seq<char>) -> IssueView {
    field_issue("booking_rules.txt"@, b.booking_rule_id@, field, rule, message)
}

/// Issues of a booking rule about the notice durations and the last day.
pub open spec fn booking_notice_issues(b: BookingRule) -> Seq<IssueView> {
    let same_day = b.booking_type == BookingType::SameDay;
    let prior_days = b.booking_type == BookingType::PriorDays;
    issue_if(
        same_day && b.prior_notice_duration_min is None,
        booking_issue(
            b,
            "prior_notice_duration_min"@,
            Rule::MissingBookingField,
            "required for same-day booking (booking_type 1)"@,
        ),
    ) + issue_if(
        !same_day && b.prior_notice_duration_min is Some,
        booking_issue(
            b,
            "prior_notice_duration_min"@,
            Rule::ForbiddenBookingField,
            "forbidden unless booking_type is 1"@,
        ),
    ) + issue_if(
        !same_day && b.prior_notice_duration_max is Some,
        booking_issue(
            b,
            "prior_notice_duration_max"@,
            Rule::ForbiddenBookingField,
            "forbidden for booking_type 0 and 2"@,
        ),
    ) + issue_if(
        prior_days && b.prior_notice_last_day is None,
        booking_issue(
            b,
            "prior_notice_last_day"@,
            Rule::MissingBookingField,
            "required for prior-days booking (booking_type 2)"@,
        ),
    ) + issue_if(
        !prior_days && b.prior_notice_last_day is Some,
        booking_issue(
            b,
            "prior_notice_last_day"@,
            Rule::ForbiddenBookingField,
            "forbidden unless booking_type is 2"@,
        ),
    )
}

/// Issues of a booking rule about the last time and the start day.
pub open spec fn booking_day_issues(b: BookingRule) -> Seq<IssueView> {
    let same_day = b.booking_type == BookingType::SameDay;
    let prior_days = b.booking_type == BookingType::PriorDays;
    issue_if(
        b.prior_notice_last_day is Some && b.prior_notice_last_time is None,
        booking_issue(
            b,
            "prior_notice_last_time"@,
            Rule::MissingBookingField,
            "required when prior_notice_last_day is defined"@,
        ),
    ) + issue_if(
        b.prior_notice_last_day is None && b.prior_notice_last_time is Some,
        booking_issue(
            b,
            "prior_notice_last_time"@,
            Rule::ForbiddenBookingField,
            "forbidden without prior_notice_last_day"@,
        ),
    ) + issue_if(
        b.prior_notice_start_day is Some && b.booking_type == BookingType::RealTime,
        booking_issue(
            b,
            "prior_notice_start_day"@,
            Rule::ForbiddenBookingField,
            "forbidden for real-time booking (booking_type 0)"@,
        ),
    ) + issue_if(
        b.prior_notice_start_day is Some && same_day && b.prior_notice_duration_max is Some,
        booking_issue(
            b,
            "prior_notice_start_day"@,
            Rule::ForbiddenBookingField,
            "forbidden for booking_type 1 when prior_notice_duration_max is defined"@,
        ),
    )
}

/// Issues of a booking rule about the start time and the service.
pub open spec fn booking_window_issues(b: BookingRule) -> Seq<IssueView> {
    let same_day = b.booking_type == BookingType::SameDay;
    let prior_days = b.booking_type == BookingType::PriorDays;
    issue_if(
        b.prior_notice_start_day is Some && b.prior_notice_start_time is None,
        booking_issue(
            b,
            "prior_notice_start_time"@,
            Rule::MissingBookingField,
            "required when prior_notice_start_day is defined"@,
        ),
    ) + issue_if(
        b.prior_notice_start_day is None && b.prior_notice_start_time is Some,
        booking_issue(
            b,
            "prior_notice_start_time"@,
            Rule::ForbiddenBookingField,
            "forbidden without prior_notice_start_day"@,
        ),
    ) + issue_if(
        !prior_days && b.prior_notice_service_id is Some,
        booking_issue(
            b,
            "prior_notice_service_id"@,
            Rule::ForbiddenBookingField,
            "forbidden unless booking_type is 2"@,
        ),
    )
}

/// Issues of one booking rule: the conditionally required/forbidden
/// matrix around `booking_type`.
pub open spec fn booking_issues(b: BookingRule) -> Seq<IssueView> {
    booking_notice_issues(b) + booking_day_issues(b) + booking_window_issues(b)
}

/// How many of `agency_id`, `route_id`, `trip_id` an attribution
/// targets.
pub open spec fn attribution_targets(a: Attribution) -> int {
    (if a.agency_id is Some { 1int } else { 0 }) + (if a.route_id is Some { 1int } else { 0 }) + (
    if a.trip_id is Some { 1int } else { 0 })
}

/// Issues of one attribution.
pub open spec fn attribution_issues(a: Attribution) -> Seq<IssueView> {
    let entity = attribution_entity(a);
    issue_if(
        !(a.is_producer || a.is_operator || a.is_authority),
        record_error(
            "attributions.txt"@,
            entity,
            Rule::AttributionRoleMissing,
            "at least one of is_producer, is_operator, is_authority must be set"@,
        ),
    ) + issue_if(
        attribution_targets(a) > 1,
        record_error(
            "attributions.txt"@,
            entity,
            Rule::AttributionMultipleTargets,
            "at most one of agency_id, route_id, trip_id may be set"@,
        ),
    )
}

/// The intra-record issues of each route.
pub open spec fn each_route() -> spec_fn(int, Route) -> Seq<IssueView> {
    |_i: int, r: Route| route_issues(r)
}

/// The intra-record issues of each stop.
pub open spec fn each_stop() -> spec_fn(int, Stop) -> Seq<IssueView> {
    |_i: int, s: Stop| stop_issues(s)
}

/// The intra-record issues of each stop time.
pub open spec fn each_stop_time() -> spec_fn(int, StopTime) -> Seq<IssueView> {
    |_i: int, st: StopTime| stop_time_issues(st)
}

/// The intra-record issues of each timeframe.
pub open spec fn each_timeframe() -> spec_fn(int, Timeframe) -> Seq<IssueView> {
    |_i: int, t: Timeframe| timeframe_issues(t)
}

/// The intra-record issues of each calendar.
pub open spec fn each_calendar() -> spec_fn(int, Calendar) -> Seq<IssueView> {
    |_i: int, c: Calendar| calendar_issues(c)
}

/// The intra-record issues of each frequency.
pub open spec fn each_frequency() -> spec_fn(int, Frequency) -> Seq<IssueView> {
    |_i: int, f: Frequency| frequency_issues(f)
}

/// The intra-record issues of each transfer.
pub open spec fn each_transfer() -> spec_fn(int, Transfer) -> Seq<IssueView> {
    |i: int, t: Transfer| transfer_issues(i, t)
}

/// The intra-record issues of each pathway.
pub open spec fn each_pathway() -> spec_fn(int, Pathway) -> Seq<IssueView> {
    |_i: int, p: Pathway| pathway_issues(p)
}

/// The intra-record issues of each booking rule.
pub open spec fn each_booking_rule() -> spec_fn(int, BookingRule) -> Seq<IssueView> {
    |_i: int, b: BookingRule| booking_issues(b)
}

/// The intra-record issues of each attribution.
pub open spec fn each_attribution() -> spec_fn(int, Attribution) -> Seq<IssueView> {
    |_i: int, a: Attribution| attribution_issues(a)
}

/// Checks one stop.
fn check_stop(issues: &mut Vec<ValidationIssue>, s: &Stop)
    ensures
        issues_view(final(issues)@) == issues_view(old(issues)@) + stop_issues(*s),
{
    let ghost before = issues_view(issues@);
    let named = s.location_type == LocationType::StopOrPlatform || s.location_type
        == LocationType::Station || s.location_type == LocationType::EntranceExit;
    let id = s.stop_id.as_str();
    push_error_if(
        issues,
        named && s.stop_name.is_none(),
        "stops.txt",
        id,
        Rule::MissingStopName,
        "stop_name is required for stops, stations and entrances",
    );
    push_error_if(
        issues,
        named && (s.stop_lat.is_none() || s.stop_lon.is_none()),
        "stops.txt",
        id,
        Rule::MissingStopCoordinates,
        "stop_lat/stop_lon are required for stops, stations and entrances",
    );
    push_error_if(
        issues,
        s.location_type == LocationType::Station && s.parent_station.is_some(),
        "stops.txt",
        id,
        Rule::ForbiddenParentStation,
        "a station must not have a parent_station",
    );
    push_error_if(
        issues,
        (s.location_type == LocationType::EntranceExit || s.location_type
            == LocationType::GenericNode || s.location_type == LocationType::BoardingArea)
            && s.parent_station.is_none(),
        "stops.txt",
        id,
        Rule::MissingParentStation,
        "entrances, generic nodes and boarding areas require a parent_station",
    );
    assert(issues_view(issues@) =~= before + stop_issues(*s));
}

/// Checks one stop time.
fn check_stop_time(issues: &mut Vec<ValidationIssue>, st: &StopTime)
    ensures
        issues_view(final(issues)@) == issues_view(old(issues)@) + stop_time_issues(*st),
{
    let ghost before = issues_view(issues@);
    let entity = stop_time_entity_of(st.trip_id.as_str(), st.stop_sequence);
    let mut refs: u8 = 0;
    if st.stop_id.is_some() {
        refs = refs + 1;
    }
    if st.location_group_id.is_some() {
        refs = refs + 1;
    }
    if st.location_id.is_some() {
        refs = refs + 1;
    }
    assert(refs == location_references(*st));
    let start = st.start_pickup_drop_off_window.is_some();
    let end = st.end_pickup_drop_off_window.is_some();
    let e = entity.as_str();
    push_error_if(
        issues,
        refs == 0,
        "stop_times.txt",
        e,
        Rule::MissingStopTimeLocation,
        "one of stop_id, location_group_id, location_id must be set",
    );
    push_error_if(
        issues,
        refs > 1,
        "stop_times.txt",
        e,
        Rule::ConflictingStopTimeLocation,
        "only one of stop_id, location_group_id, location_id may be set",
    );
    push_error_if(
        issues,
        start != end,
        "stop_times.txt",
        e,
        Rule::IncompleteWindow,
        "start and end of the pickup/drop-off window must be set together",
    );
    push_error_if(
        issues,
        start && end && (st.arrival_time.is_some() || st.departure_time.is_some()),
        "stop_times.txt",
        e,
        Rule::TimesWithPickupWindow,
        "arrival/departure times are forbidden with a pickup/drop-off window",
    );
    push_error_if(
        issues,
        (st.location_group_id.is_some() || st.location_id.is_some()) && !start && !end,
        "stop_times.txt",
        e,
        Rule::MissingPickupWindow,
        "a pickup/drop-off window is required with location_group_id or location_id",
    );
    assert(issues_view(issues@) =~= before + stop_time_issues(*st));
}

/// Checks one transfer, the `index`-th of its table.
fn check_transfer(issues: &mut Vec<ValidationIssue>, index: usize, t: &Transfer)
    requires
        index < usize::MAX,
    ensures
        issues_view(final(issues)@) == issues_view(old(issues)@) + transfer_issues(index as int, *t),
{
    let ghost before = issues_view(issues@);
    let entity = row_entity_of(index);
    let e = entity.as_str();
    if t.transfer_type == TransferType::InSeat || t.transfer_type == TransferType::InSeatNotAllowed {
        push_field_error_if(
            issues,
            t.from_trip_id.is_none(),
            "transfers.txt",
            e,
            "from_trip_id",
            Rule::MissingTransferTrip,
            "required for in-seat transfer types 4 and 5",
        );
        push_field_error_if(
            issues,
            t.to_trip_id.is_none(),
            "transfers.txt",
            e,
            "to_trip_id",
            Rule::MissingTransferTrip,
            "required for in-seat transfer types 4 and 5",
        );
    } else {
        push_field_error_if(
            issues,
            t.from_stop_id.is_none(),
            "transfers.txt",
            e,
            "from_stop_id",
            Rule::MissingTransferStop,
            "required for transfer types 0-3",
        );
        push_field_error_if(
            issues,
            t.to_stop_id.is_none(),
            "transfers.txt",
            e,
            "to_stop_id",
            Rule::MissingTransferStop,
            "required for transfer types 0-3",
        );
    }
    assert(issues_view(issues@) =~= before + transfer_issues(index as int, *t));
}

/// Checks the notice durations and the last day of a booking rule.
fn check_booking_notice(issues: &mut Vec<ValidationIssue>, b: &BookingRule)
    ensures
        issues_view(final(issues)@) == issues_view(old(issues)@) + booking_notice_issues(*b),
{
    let ghost before = issues_view(issues@);
    let id = b.booking_rule_id.as_str();
    let f = "booking_rules.txt";
    let same_day = b.booking_type == BookingType::SameDay;
    let prior_days = b.booking_type == BookingType::PriorDays;
    push_field_error_if(
        issues,
        same_day && b.prior_notice_duration_min.is_none(),
        f,
        id,
        "prior_notice_duration_min",
        Rule::MissingBookingField,
        "required for same-day booking (booking_type 1)",
    );
    push_field_error_if(
        issues,
        !same_day && b.prior_notice_duration_min.is_some(),
        f,
        id,
        "prior_notice_duration_min",
        Rule::ForbiddenBookingField,
        "forbidden unless booking_type is 1",
    );
    push_field_error_if(
        issues,
        !same_day && b.prior_notice_duration_max.is_some(),
        f,
        id,
        "prior_notice_duration_max",
        Rule::ForbiddenBookingField,
        "forbidden for booking_type 0 and 2",
    );
    push_field_error_if(
        issues,
        prior_days && b.prior_notice_last_day.is_none(),
        f,
        id,
        "prior_notice_last_day",
        Rule::MissingBookingField,
        "required for prior-days booking (booking_type 2)",
    );
    push_field_error_if(
        issues,
        !prior_days && b.prior_notice_last_day.is_some(),
        f,
        id,
        "prior_notice_last_day",
        Rule::ForbiddenBookingField,
        "forbidden unless booking_type is 2",
    );
    assert(issues_view(issues@) =~= before + booking_notice_issues(*b));
}

/// Checks the last time and the start day of a booking rule.
fn check_booking_day(issues: &mut Vec<ValidationIssue>, b: &BookingRule)
    ensures
        issues_view(final(issues)@) == issues_view(old(issues)@) + booking_day_issues(*b),
{
    let ghost before = issues_view(issues@);
    let id = b.booking_rule_id.as_str();
    let f = "booking_rules.txt";
    let same_day = b.booking_type == BookingType::SameDay;
    let prior_days = b.booking_type == BookingType::PriorDays;
    push_field_error_if(
        issues,
        b.prior_notice_last_day.is_some() && b.prior_notice_last_time.is_none(),
        f,
        id,
        "prior_notice_last_time",
        Rule::MissingBookingField,
        "required when prior_notice_last_day is defined",
    );
    push_field_error_if(
        issues,
        b.prior_notice_last_day.is_none() && b.prior_notice_last_time.is_some(),
        f,
        id,
        "prior_notice_last_time",
        Rule::ForbiddenBookingField,
        "forbidden without prior_notice_last_day",
    );
    push_field_error_if(
        issues,
        b.prior_notice_start_day.is_some() && b.booking_type == BookingType::RealTime,
        f,
        id,
        "prior_notice_start_day",
        Rule::ForbiddenBookingField,
        "forbidden for real-time booking (booking_type 0)",
    );
    push_field_error_if(
        issues,
        b.prior_notice_start_day.is_some() && same_day && b.prior_notice_duration_max.is_some(),
        f,
        id,
        "prior_notice_start_day",
        Rule::ForbiddenBookingField,
        "forbidden for booking_type 1 when prior_notice_duration_max is defined",
    );
    assert(issues_view(issues@) =~= before + booking_day_issues(*b));
}

/// Checks the start time and the service of a booking rule.
fn check_booking_window(issues: &mut Vec<ValidationIssue>, b: &BookingRule)
    ensures
        issues_view(final(issues)@) == issues_view(old(issues)@) + booking_window_issues(*b),
{
    let ghost before = issues_view(issues@);
    let id = b.booking_rule_id.as_str();
    let f = "booking_rules.txt";
    let same_day = b.booking_type == BookingType::SameDay;
    let prior_days = b.booking_type == BookingType::PriorDays;
    push_field_error_if(
        issues,
        b.prior_notice_start_day.is_some() && b.prior_notice_start_time.is_none(),
        f,
        id,
        "prior_notice_start_time",
        Rule::MissingBookingField,
        "required when prior_notice_start_day is defined",
    );
    push_field_error_if(
        issues,
        b.prior_notice_start_day.is_none() && b.prior_notice_start_time.is_some(),
        f,
        id,
        "prior_notice_start_time",
        Rule::ForbiddenBookingField,
        "forbidden without prior_notice_start_day",
    );
    push_field_error_if(
        issues,
        !prior_days && b.prior_notice_service_id.is_some(),
        f,
        id,
        "prior_notice_service_id",
        Rule::ForbiddenBookingField,
        "forbidden unless booking_type is 2",
    );
    assert(issues_view(issues@) =~= before + booking_window_issues(*b));
}

/// Checks one booking rule.
fn check_booking_rule(issues: &mut Vec<ValidationIssue>, b: &BookingRule)
    ensures
        issues_view(final(issues)@) == issues_view(old(issues)@) + booking_issues(*b),
{
    let ghost before = issues_view(issues@);
    check_booking_notice(issues, b);
    check_booking_day(issues, b);
    check_booking_window(issues, b);
    assert(issues_view(issues@) =~= before + booking_issues(*b));
}

/// Checks one attribution.
fn check_attribution(issues: &mut Vec<ValidationIssue>, a: &Attribution)
    ensures
        issues_view(final(issues)@) == issues_view(old(issues)@) + attribution_issues(*a),
{
    let ghost before = issues_view(issues@);
    let entity: &str = match &a.attribution_id {
        Some(id) => id.as_str(),
        None => a.organization_name.as_str(),
    };
    let mut targets: u8 = 0;
    if a.agency_id.is_some() {
        targets = targets + 1;
    }
    if a.route_id.is_some() {
        targets = targets + 1;
    }
    if a.trip_id.is_some() {
        targets = targets + 1;
    }
    assert(targets == attribution_targets(*a));
    push_error_if(
        issues,
        !(a.is_producer || a.is_operator || a.is_authority),
        "attributions.txt",
        entity,
        Rule::AttributionRoleMissing,
        "at least one of is_producer, is_operator, is_authority must be set",
    );
    push_error_if(
        issues,
        targets > 1,
        "attributions.txt",
        entity,
        Rule::AttributionMultipleTargets,
        "at most one of agency_id, route_id, trip_id may be set",
    );
    assert(issues_view(issues@) =~= before + attribution_issues(*a));
}

/// The trips of `s` in the order in which they first occur.
pub open spec fn trip_order(s: Seq<StopTime>) -> Seq<Seq<char>>
    decreases s.len(),
{
    if s.len() == 0 {
        Seq::empty()
    } else {
        let before = trip_order(s.drop_last());
        let t = s.last().trip_id@;
        if before.contains(t) {
            before
        } else {
            before.push(t)
        }
    }
}

/// The positions in `s` of the first and the last stop time of trip `t`:
/// the earliest row with the smallest `stop_sequence` and the earliest
/// row with the largest one; `None` when the trip has no row.
pub open spec fn edge_indices(s: Seq<StopTime>, t: Seq<char>) -> Option<(int, int)>
    decreases s.len(),
{
    if s.len() == 0 {
        None
    } else {
        let before = edge_indices(s.drop_last(), t);
        let n = s.len() - 1;
        if s[n].trip_id@ != t {
            before
        } else {
            match before {
                None => Some((n, n)),
                Some((f, l)) => Some(
                    (
                        if s[n].stop_sequence < s[f].stop_sequence {
                            n
                        } else {
                            f
                        },
                        if s[n].stop_sequence > s[l].stop_sequence {
                            n
                        } else {
                            l
                        },
                    ),
                ),
            }
        }
    }
}

/// Whether a stop time is served on demand (and so may go without times).
pub open spec fn is_on_demand(st: StopTime) -> bool {
    st.location_group_id is Some || st.location_id is Some || st.start_pickup_drop_off_window is Some
        || st.end_pickup_drop_off_window is Some
}

/// The issue of a first or last stop time without `arrival_time`.
pub open spec fn arrival_issues(st: StopTime) -> Seq<IssueView> {
    issue_if(
        !is_on_demand(st) && st.arrival_time is None,
        record_error(
            "stop_times.txt"@,
            stop_time_entity(st),
            Rule::MissingFirstLastArrivalTime,
            "arrival_time is required for the first and last stop time of a trip"@,
        ),
    )
}

/// Issues of the first and last stop time of trip `t` (one row when
/// both have the same `stop_sequence`).
pub open spec fn edge_issues(s: Seq<StopTime>, t: Seq<char>) -> Seq<IssueView> {
    match edge_indices(s, t) {
        None => Seq::empty(),
        Some((f, l)) => arrival_issues(s[f]) + if s[f].stop_sequence == s[l].stop_sequence {
            Seq::empty()
        } else {
            arrival_issues(s[l])
        },
    }
}

/// The missing-arrival issues of the first and last stop time of each trip.
pub open spec fn each_trip_edge(s: Seq<StopTime>) -> spec_fn(int, Seq<char>) -> Seq<IssueView> {
    |_k: int, t: Seq<char>| edge_issues(s, t)
}

/// Issues of the first/last arrival rule, trip by trip in order of first
/// occurrence.
pub open spec fn first_last_issues(s: Seq<StopTime>) -> Seq<IssueView> {
    flat_map(trip_order(s), each_trip_edge(s))
}

/// A trip that has a first row is listed.
proof fn lemma_edge_listed(s: Seq<StopTime>, t: Seq<char>)
    ensures
        edge_indices(s, t) is Some ==> trip_order(s).contains(t),
        edge_indices(s, t) matches Some((f, l)) ==> 0 <= f < s.len() && 0 <= l < s.len(),
    decreases s.len(),
{
    if s.len() > 0 {
        lemma_edge_listed(s.drop_last(), t);
        let before = trip_order(s.drop_last());
        if before.contains(t) {
            let j = choose|j: int| 0 <= j < before.len() && before[j] == t;
            if !before.contains(s.last().trip_id@) {
                assert(before.push(s.last().trip_id@)[j] == t);
            }
        }
        if s.last().trip_id@ == t && !before.contains(t) {
            assert(before.push(t)[before.len() as int] == t);
        }
    }
}

/// Checks `arrival_time` on one first or last stop time.
fn check_arrival(issues: &mut Vec<ValidationIssue>, st: &StopTime)
    ensures
        issues_view(final(issues)@) == issues_view(old(issues)@) + arrival_issues(*st),
{
    let entity = stop_time_entity_of(st.trip_id.as_str(), st.stop_sequence);
    let on_demand = st.location_group_id.is_some() || st.location_id.is_some()
        || st.start_pickup_drop_off_window.is_some() || st.end_pickup_drop_off_window.is_some();
    push_error_if(
        issues,
        !on_demand && st.arrival_time.is_none(),
        "stop_times.txt",
        entity.as_str(),
        Rule::MissingFirstLastArrivalTime,
        "arrival_time is required for the first and last stop time of a trip",
    );
}

/// `arrival_time` is required on the first and last stop time of a trip
/// (by `stop_sequence`); rows served on demand are exempt.
fn check_first_last_arrival(stop_times: &Vec<StopTime>, issues: &mut Vec<ValidationIssue>)
    ensures
        issues_view(final(issues)@) == issues_view(old(issues)@) + first_last_issues(stop_times@),
{
    let ghost s = stop_times@;
    let mut slots: vstd::hash_map::StringHashMap<usize> = vstd::hash_map::StringHashMap::new();
    let mut edges: Vec<(usize, usize)> = Vec::new();
    let mut i: usize = 0;
    while i < stop_times.len()
        invariant
            s == stop_times@,
            i <= s.len(),
            edges@.len() == trip_order(s.take(i as int)).len(),
            trip_order(s.take(i as int)).no_duplicates(),
            forall|k: int|
                0 <= k < edges@.len() ==> edge_indices(s.take(i as int), #[trigger] trip_order(
                    s.take(i as int),
                )[k]) == Some((edges@[k].0 as int, edges@[k].1 as int)),
            forall|k: int| 0 <= k < edges@.len() ==> #[trigger] edges@[k].0 < i && edges@[k].1 < i,
            forall|t: Seq<char>|
                #[trigger] slots@.contains_key(t) <==> trip_order(s.take(i as int)).contains(t),
            forall|t: Seq<char>|
                #[trigger] slots@.contains_key(t) ==> slots@[t] < edges@.len() && trip_order(
                    s.take(i as int),
                )[slots@[t] as int] == t,
        decreases s.len() - i,
    {
        let ghost prev = s.take(i as int);
        let ghost next = s.take(i + 1);
        let ghost t = s[i as int].trip_id@;
        proof {
            assert(next.drop_last() =~= prev);
            assert(next.last() == s[i as int]);
            assert forall|j: int| 0 <= j < i implies next[j] == s[j] by {}
        }
        let st = &stop_times[i];
        match slots.get(st.trip_id.as_str()) {
            Some(slot_ref) => {
                let slot = *slot_ref;
                let (f, l) = edges[slot];
                let nf = if st.stop_sequence < stop_times[f].stop_sequence { i } else { f };
                let nl = if st.stop_sequence > stop_times[l].stop_sequence { i } else { l };
                edges.set(slot, (nf, nl));
                proof {
                    assert(trip_order(next) == trip_order(prev));
                    assert forall|k: int| 0 <= k < edges@.len() implies edge_indices(
                        next,
                        #[trigger] trip_order(next)[k],
                    ) == Some((edges@[k].0 as int, edges@[k].1 as int)) by {
                        if k != slot {
                            assert(trip_order(prev)[k] != t);
                        }
                    }
                }
            },
            None => {
                proof {
                    lemma_edge_listed(prev, t);
                }
                slots.insert(crate::text::owned(st.trip_id.as_str()), edges.len());
                edges.push((i, i));
                proof {
                    assert(trip_order(next) == trip_order(prev).push(t));
                    assert forall|k: int| 0 <= k < edges@.len() implies edge_indices(
                        next,
                        #[trigger] trip_order(next)[k],
                    ) == Some((edges@[k].0 as int, edges@[k].1 as int)) by {
                        if k < edges@.len() - 1 {
                            assert(trip_order(next)[k] == trip_order(prev)[k]);
                            assert(trip_order(prev)[k] != t);
                        }
                    }
                    assert forall|u: Seq<char>| #[trigger]
                        slots@.contains_key(u) <==> trip_order(next).contains(u) by {
                        if trip_order(prev).contains(u) {
                            let j = choose|j: int|
                                0 <= j < trip_order(prev).len() && trip_order(prev)[j] == u;
                            assert(trip_order(next)[j] == u);
                        }
                        if u == t {
                            assert(trip_order(next)[trip_order(prev).len() as int] == u);
                        }
                    }
                }
            },
        }
        i = i + 1;
    }
    let ghost order = trip_order(s);
    proof {
        assert(s.take(s.len() as int) =~= s);
    }
    let ghost start = issues_view(issues@);
    let mut k: usize = 0;
    while k < edges.len()
        invariant
            s == stop_times@,
            order == trip_order(s),
            edges@.len() == order.len(),
            forall|j: int|
                0 <= j < edges@.len() ==> edge_indices(s, #[trigger] order[j]) == Some(
                    (edges@[j].0 as int, edges@[j].1 as int),
                ),
            forall|j: int| 0 <= j < edges@.len() ==> #[trigger] edges@[j].0 < s.len() && edges@[j].1 < s.len(),
            k <= edges@.len(),
            issues_view(issues@) == start + flat_map(order.take(k as int), each_trip_edge(s)),
        decreases edges@.len() - k,
    {
        let (f, l) = edges[k];
        let ghost before = issues_view(issues@);
        check_arrival(issues, &stop_times[f]);
        if stop_times[f].stop_sequence != stop_times[l].stop_sequence {
            check_arrival(issues, &stop_times[l]);
        }
        proof {
            assert(edge_issues(s, order[k as int]) == each_trip_edge(s)(k as int, order[k as int]));
            assert(issues_view(issues@) =~= before + edge_issues(s, order[k as int]));
            lemma_flat_map_step(order, each_trip_edge(s), k as int);
        }
        k = k + 1;
    }
    proof {
        lemma_flat_map_all(order, each_trip_edge(s));
    }
}

/// Checks one route.
fn check_route(issues: &mut Vec<ValidationIssue>, r: &Route)
    ensures
        issues_view(final(issues)@) == issues_view(old(issues)@) + route_issues(*r),
{
    push_error_if(issues, r.route_short_name.is_none() && r.route_long_name.is_none(), "routes.txt", r.route_id.as_str(), Rule::MissingRouteName, "neither route_short_name nor route_long_name is set");
}

/// Checks one timeframe.
fn check_timeframe(issues: &mut Vec<ValidationIssue>, t: &Timeframe)
    ensures
        issues_view(final(issues)@) == issues_view(old(issues)@) + timeframe_issues(*t),
{
    push_error_if(issues, t.start_time.is_some() != t.end_time.is_some(), "timeframes.txt", t.timeframe_group_id.as_str(), Rule::IncompleteTimeframe, "start_time and end_time must be set together or both omitted");
}

/// Checks one calendar.
fn check_calendar(issues: &mut Vec<ValidationIssue>, c: &Calendar)
    ensures
        issues_view(final(issues)@) == issues_view(old(issues)@) + calendar_issues(*c),
{
    push_error_if(issues, c.end_date.is_before(&c.start_date), "calendar.txt", c.service_id.as_str(), Rule::InvalidServicePeriod, "start_date is after end_date");
}

/// Checks one frequency.
fn check_frequency(issues: &mut Vec<ValidationIssue>, f: &Frequency)
    ensures
        issues_view(final(issues)@) == issues_view(old(issues)@) + frequency_issues(*f),
{
    push_error_if(issues, f.start_time >= f.end_time, "frequencies.txt", f.trip_id.as_str(), Rule::InvalidFrequencyWindow, "start_time must be before end_time");
}

/// Checks one pathway.
fn check_pathway(issues: &mut Vec<ValidationIssue>, p: &Pathway)
    ensures
        issues_view(final(issues)@) == issues_view(old(issues)@) + pathway_issues(*p),
{
    push_error_if(issues, p.pathway_mode == PathwayMode::ExitGate && p.is_bidirectional, "pathways.txt", p.pathway_id.as_str(), Rule::BidirectionalExitGate, "an exit gate (pathway_mode 7) must not be bidirectional");
}

/// Checks every record of `routes`.
fn check_routes_table(items: &Vec<Route>, issues: &mut Vec<ValidationIssue>)
    ensures
        issues_view(final(issues)@) == issues_view(old(issues)@) + flat_map(items@, each_route()),
{
    let ghost start = issues_view(issues@);
    let mut i: usize = 0;
    while i < items.len()
        invariant
            i <= items.len(),
            issues_view(issues@) == start + flat_map(items@.take(i as int), each_route()),
        decreases items.len() - i,
    {
        check_route(issues, &items[i]);
        proof {
            lemma_flat_map_step(items@, each_route(), i as int);
        }
        i = i + 1;
    }
    proof {
        lemma_flat_map_all(items@, each_route());
    }
}

/// Checks every record of `stops`.
fn check_stops_table(items: &Vec<Stop>, issues: &mut Vec<ValidationIssue>)
    ensures
        issues_view(final(issues)@) == issues_view(old(issues)@) + flat_map(items@, each_stop()),
{
    let ghost start = issues_view(issues@);
    let mut i: usize = 0;
    while i < items.len()
        invariant
            i <= items.len(),
            issues_view(issues@) == start + flat_map(items@.take(i as int), each_stop()),
        decreases items.len() - i,
    {
        check_stop(issues, &items[i]);
        proof {
            lemma_flat_map_step(items@, each_stop(), i as int);
        }
        i = i + 1;
    }
    proof {
        lemma_flat_map_all(items@, each_stop());
    }
}

/// Checks every record of `stop_times`.
fn check_stop_times_table(items: &Vec<StopTime>, issues: &mut Vec<ValidationIssue>)
    ensures
        issues_view(final(issues)@) == issues_view(old(issues)@) + flat_map(items@, each_stop_time()),
{
    let ghost start = issues_view(issues@);
    let mut i: usize = 0;
    while i < items.len()
        invariant
            i <= items.len(),
            issues_view(issues@) == start + flat_map(items@.take(i as int), each_stop_time()),
        decreases items.len() - i,
    {
        check_stop_time(issues, &items[i]);
        proof {
            lemma_flat_map_step(items@, each_stop_time(), i as int);
        }
        i = i + 1;
    }
    proof {
        lemma_flat_map_all(items@, each_stop_time());
    }
}

/// Checks every record of `timeframes`.
fn check_timeframes_table(items: &Vec<Timeframe>, issues: &mut Vec<ValidationIssue>)
    ensures
        issues_view(final(issues)@) == issues_view(old(issues)@) + flat_map(items@, each_timeframe()),
{
    let ghost start = issues_view(issues@);
    let mut i: usize = 0;
    while i < items.len()
        invariant
            i <= items.len(),
            issues_view(issues@) == start + flat_map(items@.take(i as int), each_timeframe()),
        decreases items.len() - i,
    {
        check_timeframe(issues, &items[i]);
        proof {
            lemma_flat_map_step(items@, each_timeframe(), i as int);
        }
        i = i + 1;
    }
    proof {
        lemma_flat_map_all(items@, each_timeframe());
    }
}

/// Checks every record of `calendar`.
fn check_calendar_table(items: &Vec<Calendar>, issues: &mut Vec<ValidationIssue>)
    ensures
        issues_view(final(issues)@) == issues_view(old(issues)@) + flat_map(items@, each_calendar()),
{
    let ghost start = issues_view(issues@);
    let mut i: usize = 0;
    while i < items.len()
        invariant
            i <= items.len(),
            issues_view(issues@) == start + flat_map(items@.take(i as int), each_calendar()),
        decreases items.len() - i,
    {
        check_calendar(issues, &items[i]);
        proof {
            lemma_flat_map_step(items@, each_calendar(), i as int);
        }
        i = i + 1;
    }
    proof {
        lemma_flat_map_all(items@, each_calendar());
    }
}

/// Checks every record of `frequencies`.
fn check_frequencies_table(items: &Vec<Frequency>, issues: &mut Vec<ValidationIssue>)
    ensures
        issues_view(final(issues)@) == issues_view(old(issues)@) + flat_map(items@, each_frequency()),
{
    let ghost start = issues_view(issues@);
    let mut i: usize = 0;
    while i < items.len()
        invariant
            i <= items.len(),
            issues_view(issues@) == start + flat_map(items@.take(i as int), each_frequency()),
        decreases items.len() - i,
    {
        check_frequency(issues, &items[i]);
        proof {
            lemma_flat_map_step(items@, each_frequency(), i as int);
        }
        i = i + 1;
    }
    proof {
        lemma_flat_map_all(items@, each_frequency());
    }
}

/// Checks every record of `transfers`.
fn check_transfers_table(items: &Vec<Transfer>, issues: &mut Vec<ValidationIssue>)
    ensures
        issues_view(final(issues)@) == issues_view(old(issues)@) + flat_map(items@, each_transfer()),
{
    let ghost start = issues_view(issues@);
    let mut i: usize = 0;
    while i < items.len()
        invariant
            i <= items.len(),
            issues_view(issues@) == start + flat_map(items@.take(i as int), each_transfer()),
        decreases items.len() - i,
    {
        check_transfer(issues, i, &items[i]);
        proof {
            lemma_flat_map_step(items@, each_transfer(), i as int);
        }
        i = i + 1;
    }
    proof {
        lemma_flat_map_all(items@, each_transfer());
    }
}

/// Checks every record of `pathways`.
fn check_pathways_table(items: &Vec<Pathway>, issues: &mut Vec<ValidationIssue>)
    ensures
        issues_view(final(issues)@) == issues_view(old(issues)@) + flat_map(items@, each_pathway()),
{
    let ghost start = issues_view(issues@);
    let mut i: usize = 0;
    while i < items.len()
        invariant
            i <= items.len(),
            issues_view(issues@) == start + flat_map(items@.take(i as int), each_pathway()),
        decreases items.len() - i,
    {
        check_pathway(issues, &items[i]);
        proof {
            lemma_flat_map_step(items@, each_pathway(), i as int);
        }
        i = i + 1;
    }
    proof {
        lemma_flat_map_all(items@, each_pathway());
    }
}

/// Checks every record of `booking_rules`.
fn check_booking_rules_table(items: &Vec<BookingRule>, issues: &mut Vec<ValidationIssue>)
    ensures
        issues_view(final(issues)@) == issues_view(old(issues)@) + flat_map(items@, each_booking_rule()),
{
    let ghost start = issues_view(issues@);
    let mut i: usize = 0;
    while i < items.len()
        invariant
            i <= items.len(),
            issues_view(issues@) == start + flat_map(items@.take(i as int), each_booking_rule()),
        decreases items.len() - i,
    {
        check_booking_rule(issues, &items[i]);
        proof {
            lemma_flat_map_step(items@, each_booking_rule(), i as int);
        }
        i = i + 1;
    }
    proof {
        lemma_flat_map_all(items@, each_booking_rule());
    }
}

/// Checks every record of `attributions`.
fn check_attributions_table(items: &Vec<Attribution>, issues: &mut Vec<ValidationIssue>)
    ensures
        issues_view(final(issues)@) == issues_view(old(issues)@) + flat_map(items@, each_attribution()),
{
    let ghost start = issues_view(issues@);
    let mut i: usize = 0;
    while i < items.len()
        invariant
            i <= items.len(),
            issues_view(issues@) == start + flat_map(items@.take(i as int), each_attribution()),
        decreases items.len() - i,
    {
        check_attribution(issues, &items[i]);
        proof {
            lemma_flat_map_step(items@, each_attribution(), i as int);
        }
        i = i + 1;
    }
    proof {
        lemma_flat_map_all(items@, each_attribution());
    }
}

/// Issues of every intra-record rule, table by table in the order of
/// the checks.
pub open spec fn record_issues(g: GtfsReference) -> Seq<IssueView> {
    flat_map(g.routes@, each_route()) + flat_map(g.stops@, each_stop()) + flat_map(
        g.stop_times@,
        each_stop_time(),
    ) + first_last_issues(g.stop_times@) + flat_map(g.timeframes@, each_timeframe()) + flat_map(
        g.calendar@,
        each_calendar(),
    ) + flat_map(g.frequencies@, each_frequency()) + flat_map(g.transfers@, each_transfer())
        + flat_map(g.pathways@, each_pathway()) + flat_map(g.booking_rules@, each_booking_rule())
        + flat_map(g.attributions@, each_attribution())
}

/// Runs every intra-record rule.
#[verifier::rlimit(30)]
#[verifier::spinoff_prover]
pub fn check(gtfs: &GtfsReference, issues: &mut Vec<ValidationIssue>)
    ensures
        issues_view(final(issues)@) == issues_view(old(issues)@) + record_issues(*gtfs),
{
    let ghost start = issues_view(issues@);
    check_routes_table(&gtfs.routes, issues);
    check_stops_table(&gtfs.stops, issues);
    check_stop_times_table(&gtfs.stop_times, issues);
    check_first_last_arrival(&gtfs.stop_times, issues);
    check_timeframes_table(&gtfs.timeframes, issues);
    check_calendar_table(&gtfs.calendar, issues);
    check_frequencies_table(&gtfs.frequencies, issues);
    check_transfers_table(&gtfs.transfers, issues);
    check_pathways_table(&gtfs.pathways, issues);
    check_booking_rules_table(&gtfs.booking_rules, issues);
    check_attributions_table(&gtfs.attributions, issues);
    assert(issues_view(issues@) =~= start + record_issues(*gtfs));
}

#[verifier::spinoff_prover]
proof fn lemma_each_route_fits(g: GtfsReference)
    ensures
        forall|i: int, x: Route| all_fit(#[trigger] each_route()(i, x)),
{
    assert forall|i: int, x: Route| all_fit(#[trigger] each_route()(i, x)) by {}
}

#[verifier::spinoff_prover]
proof fn lemma_each_stop_fits(g: GtfsReference)
    ensures
        forall|i: int, x: Stop| all_fit(#[trigger] each_stop()(i, x)),
{
    assert forall|i: int, x: Stop| all_fit(#[trigger] each_stop()(i, x)) by {}
}

#[verifier::spinoff_prover]
proof fn lemma_each_stop_time_fits(g: GtfsReference)
    ensures
        forall|i: int, x: StopTime| all_fit(#[trigger] each_stop_time()(i, x)),
{
    assert forall|i: int, x: StopTime| all_fit(#[trigger] each_stop_time()(i, x)) by {}
}

#[verifier::spinoff_prover]
proof fn lemma_each_trip_edge_fits(g: GtfsReference)
    ensures
        forall|i: int, x: Seq<char>| all_fit(#[trigger] each_trip_edge(g.stop_times@)(i, x)),
{
    assert forall|i: int, x: Seq<char>| all_fit(#[trigger] each_trip_edge(g.stop_times@)(i, x)) by {}
}

#[verifier::spinoff_prover]
proof fn lemma_each_timeframe_fits(g: GtfsReference)
    ensures
        forall|i: int, x: Timeframe| all_fit(#[trigger] each_timeframe()(i, x)),
{
    assert forall|i: int, x: Timeframe| all_fit(#[trigger] each_timeframe()(i, x)) by {}
}

#[verifier::spinoff_prover]
proof fn lemma_each_calendar_fits(g: GtfsReference)
    ensures
        forall|i: int, x: Calendar| all_fit(#[trigger] each_calendar()(i, x)),
{
    assert forall|i: int, x: Calendar| all_fit(#[trigger] each_calendar()(i, x)) by {}
}

#[verifier::spinoff_prover]
proof fn lemma_each_frequency_fits(g: GtfsReference)
    ensures
        forall|i: int, x: Frequency| all_fit(#[trigger] each_frequency()(i, x)),
{
    assert forall|i: int, x: Frequency| all_fit(#[trigger] each_frequency()(i, x)) by {}
}

#[verifier::spinoff_prover]
proof fn lemma_each_transfer_fits(g: GtfsReference)
    ensures
        forall|i: int, x: Transfer| all_fit(#[trigger] each_transfer()(i, x)),
{
    assert forall|i: int, x: Transfer| all_fit(#[trigger] each_transfer()(i, x)) by {}
}

#[verifier::spinoff_prover]
proof fn lemma_each_pathway_fits(g: GtfsReference)
    ensures
        forall|i: int, x: Pathway| all_fit(#[trigger] each_pathway()(i, x)),
{
    assert forall|i: int, x: Pathway| all_fit(#[trigger] each_pathway()(i, x)) by {}
}

#[verifier::spinoff_prover]
proof fn lemma_each_booking_rule_fits(g: GtfsReference)
    ensures
        forall|i: int, x: BookingRule| all_fit(#[trigger] each_booking_rule()(i, x)),
{
    assert forall|i: int, x: BookingRule| all_fit(#[trigger] each_booking_rule()(i, x)) by {
        lemma_booking_fits(x);
    }
}

#[verifier::spinoff_prover]
proof fn lemma_booking_fits(b: BookingRule)
    ensures
        all_fit(booking_issues(b)),
{
    assert(all_fit(booking_notice_issues(b)));
    assert(all_fit(booking_day_issues(b)));
    assert(all_fit(booking_window_issues(b)));
    lemma_fit_join(booking_notice_issues(b), booking_day_issues(b));
    lemma_fit_join(booking_notice_issues(b) + booking_day_issues(b), booking_window_issues(b));
}

#[verifier::spinoff_prover]
proof fn lemma_each_attribution_fits(g: GtfsReference)
    ensures
        forall|i: int, x: Attribution| all_fit(#[trigger] each_attribution()(i, x)),
{
    assert forall|i: int, x: Attribution| all_fit(#[trigger] each_attribution()(i, x)) by {}
}

/// Every intra-record issue is an error, of a rule other than
/// [`Rule::TripWithoutStopTimes`].
pub proof fn lemma_record_issues_fit(g: GtfsReference)
    ensures
        all_fit(record_issues(g)),
{
    lemma_each_route_fits(g);
    lemma_flat_map_fits(g.routes@, each_route());
    lemma_each_stop_fits(g);
    lemma_flat_map_fits(g.stops@, each_stop());
    lemma_each_stop_time_fits(g);
    lemma_flat_map_fits(g.stop_times@, each_stop_time());
    lemma_each_trip_edge_fits(g);
    lemma_flat_map_fits(trip_order(g.stop_times@), each_trip_edge(g.stop_times@));
    lemma_each_timeframe_fits(g);
    lemma_flat_map_fits(g.timeframes@, each_timeframe());
    lemma_each_calendar_fits(g);
    lemma_flat_map_fits(g.calendar@, each_calendar());
    lemma_each_frequency_fits(g);
    lemma_flat_map_fits(g.frequencies@, each_frequency());
    lemma_each_transfer_fits(g);
    lemma_flat_map_fits(g.transfers@, each_transfer());
    lemma_each_pathway_fits(g);
    lemma_flat_map_fits(g.pathways@, each_pathway());
    lemma_each_booking_rule_fits(g);
    lemma_flat_map_fits(g.booking_rules@, each_booking_rule());
    lemma_each_attribution_fits(g);
    lemma_flat_map_fits(g.attributions@, each_attribution());
    lemma_fit_join(flat_map(g.routes@, each_route()), flat_map(g.stops@, each_stop()));
    lemma_fit_join(flat_map(g.routes@, each_route()) + flat_map(g.stops@, each_stop()), flat_map(g.stop_times@, each_stop_time()));
    lemma_fit_join(flat_map(g.routes@, each_route()) + flat_map(g.stops@, each_stop()) + flat_map(g.stop_times@, each_stop_time()), first_last_issues(g.stop_times@));
    lemma_fit_join(flat_map(g.routes@, each_route()) + flat_map(g.stops@, each_stop()) + flat_map(g.stop_times@, each_stop_time()) + first_last_issues(g.stop_times@), flat_map(g.timeframes@, each_timeframe()));
    lemma_fit_join(flat_map(g.routes@, each_route()) + flat_map(g.stops@, each_stop()) + flat_map(g.stop_times@, each_stop_time()) + first_last_issues(g.stop_times@) + flat_map(g.timeframes@, each_timeframe()), flat_map(g.calendar@, each_calendar()));
    lemma_fit_join(flat_map(g.routes@, each_route()) + flat_map(g.stops@, each_stop()) + flat_map(g.stop_times@, each_stop_time()) + first_last_issues(g.stop_times@) + flat_map(g.timeframes@, each_timeframe()) + flat_map(g.calendar@, each_calendar()), flat_map(g.frequencies@, each_frequency()));
    lemma_fit_join(flat_map(g.routes@, each_route()) + flat_map(g.stops@, each_stop()) + flat_map(g.stop_times@, each_stop_time()) + first_last_issues(g.stop_times@) + flat_map(g.timeframes@, each_timeframe()) + flat_map(g.calendar@, each_calendar()) + flat_map(g.frequencies@, each_frequency()), flat_map(g.transfers@, each_transfer()));
    lemma_fit_join(flat_map(g.routes@, each_route()) + flat_map(g.stops@, each_stop()) + flat_map(g.stop_times@, each_stop_time()) + first_last_issues(g.stop_times@) + flat_map(g.timeframes@, each_timeframe()) + flat_map(g.calendar@, each_calendar()) + flat_map(g.frequencies@, each_frequency()) + flat_map(g.transfers@, each_transfer()), flat_map(g.pathways@, each_pathway()));
    lemma_fit_join(flat_map(g.routes@, each_route()) + flat_map(g.stops@, each_stop()) + flat_map(g.stop_times@, each_stop_time()) + first_last_issues(g.stop_times@) + flat_map(g.timeframes@, each_timeframe()) + flat_map(g.calendar@, each_calendar()) + flat_map(g.frequencies@, each_frequency()) + flat_map(g.transfers@, each_transfer()) + flat_map(g.pathways@, each_pathway()), flat_map(g.booking_rules@, each_booking_rule()));
    lemma_fit_join(flat_map(g.routes@, each_route()) + flat_map(g.stops@, each_stop()) + flat_map(g.stop_times@, each_stop_time()) + first_last_issues(g.stop_times@) + flat_map(g.timeframes@, each_timeframe()) + flat_map(g.calendar@, each_calendar()) + flat_map(g.frequencies@, each_frequency()) + flat_map(g.transfers@, each_transfer()) + flat_map(g.pathways@, each_pathway()) + flat_map(g.booking_rules@, each_booking_rule()), flat_map(g.attributions@, each_attribution()));
}

/// A route is reported for a missing name exactly when it has neither a
/// short nor a long name, and that is all it is reported for.
pub proof fn lemma_route_name_rule(r: Route)
    ensures
        (exists|k: int| 0 <= k < route_issues(r).len() && (#[trigger] route_issues(r)[k]).rule == Rule::MissingRouteName)
            <==> (r.route_short_name is None && r.route_long_name is None),
        forall|k: int| 0 <= k < route_issues(r).len() ==> (#[trigger] route_issues(r)[k]).rule == Rule::MissingRouteName,
{
    if r.route_short_name is None && r.route_long_name is None {
        assert(route_issues(r)[0].rule == Rule::MissingRouteName);
    }
}

/// What each stop is reported for, by its `location_type`: a stop,
/// station or entrance/exit (0, 1 or 2) for a missing name and for
/// missing coordinates; a station for having a parent station; an
/// entrance/exit, generic node or boarding area (2, 3 or 4) for lacking
/// one. Each issue comes exactly when its condition holds.
pub proof fn lemma_stop_issue_rules(s: Stop)
    ensures
        (exists|k: int| 0 <= k < stop_issues(s).len() && (#[trigger] stop_issues(s)[k]).rule == Rule::MissingStopName)
            <==> ((s.location_type == LocationType::StopOrPlatform || s.location_type == LocationType::Station
                || s.location_type == LocationType::EntranceExit) && s.stop_name is None),
        (exists|k: int| 0 <= k < stop_issues(s).len() && (#[trigger] stop_issues(s)[k]).rule == Rule::MissingStopCoordinates)
            <==> ((s.location_type == LocationType::StopOrPlatform || s.location_type == LocationType::Station
                || s.location_type == LocationType::EntranceExit) && (s.stop_lat is None || s.stop_lon is None)),
        (exists|k: int| 0 <= k < stop_issues(s).len() && (#[trigger] stop_issues(s)[k]).rule == Rule::ForbiddenParentStation)
            <==> (s.location_type == LocationType::Station && s.parent_station is Some),
        (exists|k: int| 0 <= k < stop_issues(s).len() && (#[trigger] stop_issues(s)[k]).rule == Rule::MissingParentStation)
            <==> ((s.location_type == LocationType::EntranceExit || s.location_type == LocationType::GenericNode
                || s.location_type == LocationType::BoardingArea) && s.parent_station is None),
{
    let named = s.location_type == LocationType::StopOrPlatform || s.location_type == LocationType::Station
        || s.location_type == LocationType::EntranceExit;
    let a = issue_if(named && s.stop_name is None, record_error("stops.txt"@, s.stop_id@, Rule::MissingStopName, "stop_name is required for stops, stations and entrances"@));
    let b = issue_if(named && (s.stop_lat is None || s.stop_lon is None), record_error("stops.txt"@, s.stop_id@, Rule::MissingStopCoordinates, "stop_lat/stop_lon are required for stops, stations and entrances"@));
    let c = issue_if(s.location_type == LocationType::Station && s.parent_station is Some, record_error("stops.txt"@, s.stop_id@, Rule::ForbiddenParentStation, "a station must not have a parent_station"@));
    let d = issue_if(
        (s.location_type == LocationType::EntranceExit || s.location_type == LocationType::GenericNode
            || s.location_type == LocationType::BoardingArea) && s.parent_station is None,
        record_error("stops.txt"@, s.stop_id@, Rule::MissingParentStation, "entrances, generic nodes and boarding areas require a parent_station"@),
    );
    let all = stop_issues(s);
    assert(all =~= a + b + c + d);
    assert forall|k: int| 0 <= k < all.len() implies {
        let x = #[trigger] all[k];
        &&& x.rule == Rule::MissingStopName ==> k < a.len()
        &&& x.rule == Rule::MissingStopCoordinates ==> a.len() <= k < a.len() + b.len()
        &&& x.rule == Rule::ForbiddenParentStation ==> a.len() + b.len() <= k < a.len() + b.len() + c.len()
        &&& x.rule == Rule::MissingParentStation ==> a.len() + b.len() + c.len() <= k
    } by {
        if k < a.len() {
            assert(all[k] == a[k]);
        } else if k < a.len() + b.len() {
            assert(all[k] == b[k - a.len()]);
        } else if k < a.len() + b.len() + c.len() {
            assert(all[k] == c[k - a.len() - b.len()]);
        } else {
            assert(all[k] == d[k - a.len() - b.len() - c.len()]);
        }
    }
    if a.len() > 0 {
        assert(all[0] == a[0]);
    }
    if b.len() > 0 {
        assert(all[a.len() as int] == b[0]);
    }
    if c.len() > 0 {
        assert(all[(a.len() + b.len()) as int] == c[0]);
    }
    if d.len() > 0 {
        assert(all[(a.len() + b.len() + c.len()) as int] == d[0]);
    }
}

/// A stop, station or entrance/exit without a name, or without
/// coordinates, is reported: the record check lists an error on that
/// stop in `stops.txt` for each of the two.
pub proof fn lemma_unnamed_stop_is_reported(g: GtfsReference, i: int)
    requires
        0 <= i < g.stops@.len(),
        g.stops@[i].location_type == LocationType::StopOrPlatform || g.stops@[i].location_type == LocationType::Station
            || g.stops@[i].location_type == LocationType::EntranceExit,
    ensures
        g.stops@[i].stop_name is None ==> record_issues(g).contains(IssueView {
            severity: Severity::Error,
            file: "stops.txt"@,
            entity_id: Some(g.stops@[i].stop_id@),
            field: None,
            rule: Rule::MissingStopName,
            message: "stop_name is required for stops, stations and entrances"@,
        }),
        (g.stops@[i].stop_lat is None || g.stops@[i].stop_lon is None) ==> record_issues(g).contains(IssueView {
            severity: Severity::Error,
            file: "stops.txt"@,
            entity_id: Some(g.stops@[i].stop_id@),
            field: None,
            rule: Rule::MissingStopCoordinates,
            message: "stop_lat/stop_lon are required for stops, stations and entrances"@,
        }),
{
    let s = g.stops@[i];
    if s.stop_name is None {
        assert(stop_issues(s)[0] == record_error("stops.txt"@, s.stop_id@, Rule::MissingStopName, "stop_name is required for stops, stations and entrances"@));
        lemma_stop_issue_is_reported(g, i, record_error("stops.txt"@, s.stop_id@, Rule::MissingStopName, "stop_name is required for stops, stations and entrances"@));
    }
    if s.stop_lat is None || s.stop_lon is None {
        let a = issue_if(s.stop_name is None, record_error("stops.txt"@, s.stop_id@, Rule::MissingStopName, "stop_name is required for stops, stations and entrances"@));
        let x = record_error("stops.txt"@, s.stop_id@, Rule::MissingStopCoordinates, "stop_lat/stop_lon are required for stops, stations and entrances"@);
        assert(stop_issues(s)[a.len() as int] == x);
        lemma_stop_issue_is_reported(g, i, x);
    }
}

/// An issue of one stop is an issue of the record check.
proof fn lemma_stop_issue_is_reported(g: GtfsReference, i: int, x: IssueView)
    requires
        0 <= i < g.stops@.len(),
        stop_issues(g.stops@[i]).contains(x),
    ensures
        record_issues(g).contains(x),
{
    lemma_flat_map_has(g.stops@, each_stop(), i, x);
    lemma_join_has(flat_map(g.routes@, each_route()), flat_map(g.stops@, each_stop()), x);
    let acc = flat_map(g.routes@, each_route()) + flat_map(g.stops@, each_stop());
    lemma_join_has(acc, flat_map(g.stop_times@, each_stop_time()), x);
    let acc = acc + flat_map(g.stop_times@, each_stop_time());
    lemma_join_has(acc, first_last_issues(g.stop_times@), x);
    let acc = acc + first_last_issues(g.stop_times@);
    lemma_join_has(acc, flat_map(g.timeframes@, each_timeframe()), x);
    let acc = acc + flat_map(g.timeframes@, each_timeframe());
    lemma_join_has(acc, flat_map(g.calendar@, each_calendar()), x);
    let acc = acc + flat_map(g.calendar@, each_calendar());
    lemma_join_has(acc, flat_map(g.frequencies@, each_frequency()), x);
    let acc = acc + flat_map(g.frequencies@, each_frequency());
    lemma_join_has(acc, flat_map(g.transfers@, each_transfer()), x);
    let acc = acc + flat_map(g.transfers@, each_transfer());
    lemma_join_has(acc, flat_map(g.pathways@, each_pathway()), x);
    let acc = acc + flat_map(g.pathways@, each_pathway());
    lemma_join_has(acc, flat_map(g.booking_rules@, each_booking_rule()), x);
    let acc = acc + flat_map(g.booking_rules@, each_booking_rule());
    lemma_join_has(acc, flat_map(g.attributions@, each_attribution()), x);
    let acc = acc + flat_map(g.attributions@, each_attribution());
    assert(record_issues(g) == acc);
}

} // verus!
