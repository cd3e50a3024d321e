//! The validation report types: [`ValidationIssue`] with its
//! [`Rule`] and [`Severity`], collected into a [`ValidationReport`].

use vstd::prelude::*;

use crate::text::{append, owned};

verus! {

/// How serious a validation issue is.
#[derive(Debug, Clone, Copy, PartialEq, Eq, Hash, Structural)]
pub enum Severity {
    /// The dataset violates a hard specification requirement.
    Error,
    /// The dataset is questionable but not spec-invalid.
    Warning,
}

/// Machine-readable identifier of a validation rule.
#[derive(Debug, Clone, Copy, PartialEq, Eq, Hash, Structural)]
#[non_exhaustive]
pub enum Rule {
    /// A primary key value appears more than once in its table
    DuplicateId,
    /// A `stop_id`, `location_group_id` or `locations.geojson` id collides with another id of the shared GTFS-Flex id space
    IdSpaceCollision,
    /// A foreign key references a record that does not exist
    UnknownReference,
    /// A `parent_station` of a stop/platform, entrance or generic node references a location that is not a station (`location_type` 1)
    ParentStationNotStation,
    /// A `parent_station` of a boarding area (`location_type` 4) references a location that is not a stop/platform (`location_type` 0)
    ParentStationNotPlatform,
    /// A `stop_times.stop_id` references a location that is not a stop/platform (`location_type` 0)
    StopTimeStopNotPlatform,
    /// Neither `route_short_name` nor `route_long_name` is set
    MissingRouteName,
    /// A stop/platform, station or entrance has no `stop_name`
    MissingStopName,
    /// A stop/platform, station or entrance has no coordinates
    MissingStopCoordinates,
    /// A station (`location_type` 1) has a `parent_station`
    ForbiddenParentStation,
    /// An entrance, generic node or boarding area lacks the required `parent_station`
    MissingParentStation,
    /// A stop time references none of `stop_id`, `location_group_id`, `location_id`
    MissingStopTimeLocation,
    /// A stop time references more than one of `stop_id`, `location_group_id`, `location_id`
    ConflictingStopTimeLocation,
    /// Only one of `start_pickup_drop_off_window` and `end_pickup_drop_off_window` is set
    IncompleteWindow,
    /// `arrival_time`/`departure_time` set together with a pickup/drop-off window
    TimesWithPickupWindow,
    /// Only one of `timeframes.start_time` and `timeframes.end_time` is set
    IncompleteTimeframe,
    /// `calendar.start_date` is after `calendar.end_date`
    InvalidServicePeriod,
    /// `frequencies.start_time` is not before `frequencies.end_time`
    InvalidFrequencyWindow,
    /// An attribution activates none of the producer, operator and authority roles
    AttributionRoleMissing,
    /// An attribution targets more than one of `agency_id`, `route_id`, `trip_id`
    AttributionMultipleTargets,
    /// `agency_id` is required because the dataset has more than one agency
    MissingAgencyId,
    /// `routes.network_id` is used together with `route_networks.txt`
    NetworkIdConflict,
    /// `translations.txt` is present but `feed_info.txt` is missing
    MissingFeedInfo,
    /// A trip has no stop times
    TripWithoutStopTimes,
    /// Two `frequencies.txt` windows of the same trip overlap
    OverlappingFrequency,
    /// A stop time referencing `location_group_id` or `location_id` lacks the required pickup/drop-off window
    MissingPickupWindow,
    /// `arrival_time` is missing on the first or last stop time of a trip
    MissingFirstLastArrivalTime,
    /// `transfers.from_stop_id` or `to_stop_id` is missing for a `transfer_type` that requires the stop pair (0-3)
    MissingTransferStop,
    /// `transfers.from_trip_id` or `to_trip_id` is missing for an in-seat `transfer_type` (4 or 5)
    MissingTransferTrip,
    /// A pathway endpoint (`from_stop_id`/`to_stop_id`) references a station (`location_type` 1)
    PathwayEndpointIsStation,
    /// An exit gate pathway (`pathway_mode` 7) is bidirectional
    BidirectionalExitGate,
    /// A `booking_rules.txt` field required by the record's `booking_type` is missing
    MissingBookingField,
    /// A `booking_rules.txt` field forbidden for the record's `booking_type` is set
    ForbiddenBookingField,
}

/// One problem found by validation, with a full trace to its place:
/// file, record, field, machine-readable rule and human-readable
/// message.
#[derive(Debug, Clone)]
#[non_exhaustive]
pub struct ValidationIssue {
    /// How serious the issue is
    pub severity: Severity,
    /// Dataset file the issue belongs to (e.g. "stop_times.txt")
    pub file: &'static str,
    /// Primary-key value of the offending record, when applicable
    pub entity_id: Option<String>,
    /// Field (column) name, when the issue is field-level
    pub field: Option<String>,
    /// Machine-readable rule identifier
    pub rule: Rule,
    /// Human-readable detail
    pub message: String,
}

/// The content of a [`ValidationIssue`], strings as character
/// sequences.
pub struct IssueView {
    pub severity: Severity,
    pub file: Seq<char>,
    pub entity_id: Option<Seq<char>>,
    pub field: Option<Seq<char>>,
    pub rule: Rule,
    pub message: Seq<char>,
}

/// The character sequence of an optional string.
pub open spec fn opt_view(s: Option<String>) -> Option<Seq<char>> {
    match s {
        Some(v) => Some(v@),
        None => None,
    }
}

impl View for ValidationIssue {
    type V = IssueView;

    open spec fn view(&self) -> IssueView {
        IssueView {
            severity: self.severity,
            file: self.file@,
            entity_id: opt_view(self.entity_id),
            field: opt_view(self.field),
            rule: self.rule,
            message: self.message@,
        }
    }
}

/// The contents of a list of issues.
pub open spec fn issues_view(issues: Seq<ValidationIssue>) -> Seq<IssueView> {
    issues.map_values(|i: ValidationIssue| i@)
}

/// An error-severity issue of one record.
pub open spec fn record_error(file: Seq<char>, entity: Seq<char>, rule: Rule, message: Seq<char>) -> IssueView {
    IssueView { severity: Severity::Error, file, entity_id: Some(entity), field: None, rule, message }
}

/// An error-severity issue of one field of a record.
pub open spec fn field_issue(
    file: Seq<char>,
    entity: Seq<char>,
    field: Seq<char>,
    rule: Rule,
    message: Seq<char>,
) -> IssueView {
    IssueView {
        severity: Severity::Error,
        file,
        entity_id: Some(entity),
        field: Some(field),
        rule,
        message,
    }
}

/// Builds an error-severity issue for one record.
pub fn error(file: &'static str, entity_id: &str, rule: Rule, message: &str) -> (r: ValidationIssue)
    ensures
        r@ == record_error(file@, entity_id@, rule, message@),
{
    ValidationIssue {
        severity: Severity::Error,
        file,
        entity_id: Some(owned(entity_id)),
        field: None,
        rule,
        message: owned(message),
    }
}

/// Builds an error-severity issue for one field of a record.
pub fn field_error(
    file: &'static str,
    entity_id: &str,
    field: &str,
    rule: Rule,
    message: &str,
) -> (r: ValidationIssue)
    ensures
        r@ == field_issue(file@, entity_id@, field@, rule, message@),
{
    ValidationIssue {
        severity: Severity::Error,
        file,
        entity_id: Some(owned(entity_id)),
        field: Some(owned(field)),
        rule,
        message: owned(message),
    }
}

impl ValidationIssue {
    /// The display text: file, record and field when known, then the
    /// message, e.g. "trips.txt, record `t0`, field `route_id`:
    /// references unknown record `NO_ROUTE`".
    pub fn to_string(&self) -> (out: String)
        ensures
            out@ == issue_text(self@),
    {
        let mut out = owned(self.file);
        if let Some(entity_id) = &self.entity_id {
            append(&mut out, ", record `");
            append(&mut out, entity_id.as_str());
            append(&mut out, "`");
        }
        if let Some(field) = &self.field {
            append(&mut out, ", field `");
            append(&mut out, field.as_str());
            append(&mut out, "`");
        }
        append(&mut out, ": ");
        append(&mut out, self.message.as_str());
        out
    }
}

/// The display text of an issue.
pub open spec fn issue_text(i: IssueView) -> Seq<char> {
    i.file + match i.entity_id {
        Some(e) => ", record `"@ + e + "`"@,
        None => Seq::empty(),
    } + match i.field {
        Some(f) => ", field `"@ + f + "`"@,
        None => Seq::empty(),
    } + ": "@ + i.message
}

/// The outcome of [`GtfsReference::validate`](crate::GtfsReference::validate):
/// every found issue, errors and warnings alike, in detection order.
#[derive(Debug, Clone)]
pub struct ValidationReport {
    issues: Vec<ValidationIssue>,
}

impl View for ValidationReport {
    type V = Seq<IssueView>;

    closed spec fn view(&self) -> Seq<IssueView> {
        issues_view(self.issues@)
    }
}

/// Whether an issue has error severity.
pub open spec fn is_error(i: IssueView) -> bool {
    i.severity == Severity::Error
}

/// Whether an issue has the given severity.
pub open spec fn severity_is(severity: Severity) -> spec_fn(IssueView) -> bool {
    |i: IssueView| i.severity == severity
}

impl ValidationReport {
    /// Wraps the collected issues.
    pub fn new(issues: Vec<ValidationIssue>) -> (r: Self)
        ensures
            r@ == issues_view(issues@),
    {
        ValidationReport { issues }
    }

    /// Returns whether the dataset has no [`Severity::Error`] issues.
    /// Warnings do not make a dataset invalid.
    pub fn is_valid(&self) -> (r: bool)
        ensures
            r == !exists|i: int| 0 <= i < self@.len() && is_error(#[trigger] self@[i]),
    {
        let mut i: usize = 0;
        while i < self.issues.len()
            invariant
                i <= self.issues.len(),
                self@ == issues_view(self.issues@),
                forall|j: int| 0 <= j < i ==> !is_error(#[trigger] self@[j]),
            decreases self.issues.len() - i,
        {
            if self.issues[i].severity == Severity::Error {
                assert(is_error(self@[i as int]));
                return false;
            }
            i = i + 1;
        }
        true
    }

    /// Returns every found issue in detection order.
    pub fn issues(&self) -> (r: &[ValidationIssue])
        ensures
            issues_view(r@) == self@,
    {
        self.issues.as_slice()
    }

    /// Returns every found issue in detection order, consuming the
    /// report.
    pub fn into_issues(self) -> (r: Vec<ValidationIssue>)
        ensures
            issues_view(r@) == self@,
    {
        self.issues
    }

    /// Returns the [`Severity::Error`] issues in detection order.
    pub fn errors(&self) -> (r: Vec<&ValidationIssue>)
        ensures
            r@.map_values(|i: &ValidationIssue| i@) == self@.filter(severity_is(Severity::Error)),
    {
        self.with_severity(Severity::Error)
    }

    /// Returns the [`Severity::Warning`] issues in detection order.
    pub fn warnings(&self) -> (r: Vec<&ValidationIssue>)
        ensures
            r@.map_values(|i: &ValidationIssue| i@) == self@.filter(severity_is(Severity::Warning)),
    {
        self.with_severity(Severity::Warning)
    }

    fn with_severity(&self, severity: Severity) -> (r: Vec<&ValidationIssue>)
        ensures
            r@.map_values(|i: &ValidationIssue| i@) == self@.filter(severity_is(severity)),
    {
        let ghost p = severity_is(severity);
        let mut out: Vec<&ValidationIssue> = Vec::new();
        let mut i: usize = 0;
        while i < self.issues.len()
            invariant
                i <= self.issues.len(),
                self@ == issues_view(self.issues@),
                p == severity_is(severity),
                out@.map_values(|i: &ValidationIssue| i@) == self@.take(i as int).filter(p),
            decreases self.issues.len() - i,
        {
            if self.issues[i].severity == severity {
                out.push(&self.issues[i]);
            }
            proof {
                crate::reference::lemma_filter_step(self@, p, i as int);
                assert(out@.map_values(|i: &ValidationIssue| i@) =~= self@.take(i + 1).filter(p));
            }
            i = i + 1;
        }
        proof {
            assert(self@.take(i as int) =~= self@);
        }
        out
    }

    /// The summary text, e.g. "3 error(s), 0 warning(s)".
    pub fn to_string(&self) -> (out: String)
        ensures
            out@ == crate::text::decimal(self@.filter(severity_is(Severity::Error)).len()) + " error(s), "@
                + crate::text::decimal(self@.filter(severity_is(Severity::Warning)).len())
                + " warning(s)"@,
    {
        let errors = self.errors().len();
        let warnings = self.warnings().len();
        let mut out = crate::text::u64_to_decimal(errors as u64);
        append(&mut out, " error(s), ");
        append(&mut out, crate::text::u64_to_decimal(warnings as u64).as_str());
        append(&mut out, " warning(s)");
        out
    }
}

/// Every issue is an error or a warning: the errors and the warnings of
/// a report together are all of its issues.
pub proof fn lemma_errors_and_warnings_partition(issues: Seq<IssueView>)
    ensures
        issues.filter(severity_is(Severity::Error)).len() + issues.filter(
            severity_is(Severity::Warning),
        ).len() == issues.len(),
    decreases issues.len(),
{
    reveal_with_fuel(Seq::filter, 1);
    if issues.len() > 0 {
        lemma_errors_and_warnings_partition(issues.drop_last());
    }
}

/// A report is valid exactly when it lists no error; warnings do not
/// count.
pub proof fn lemma_valid_iff_no_errors(issues: Seq<IssueView>)
    ensures
        (!exists|i: int| 0 <= i < issues.len() && is_error(#[trigger] issues[i])) <==> issues.filter(
            severity_is(Severity::Error),
        ).len() == 0,
    decreases issues.len(),
{
    reveal_with_fuel(Seq::filter, 1);
    if issues.len() > 0 {
        let rest = issues.drop_last();
        lemma_valid_iff_no_errors(rest);
        if exists|i: int| 0 <= i < rest.len() && is_error(#[trigger] rest[i]) {
            let i = choose|i: int| 0 <= i < rest.len() && is_error(#[trigger] rest[i]);
            assert(issues[i] == rest[i]);
        }
        if exists|i: int| 0 <= i < issues.len() && is_error(#[trigger] issues[i]) {
            let i = choose|i: int| 0 <= i < issues.len() && is_error(#[trigger] issues[i]);
            if i < rest.len() {
                assert(rest[i] == issues[i]);
            }
        }
        assert forall|i: int| 0 <= i < rest.len() implies #[trigger] rest[i] == issues[i] by {}
    }
}

/// Whether an issue is a warning exactly when its rule is
/// [`Rule::TripWithoutStopTimes`].
pub open spec fn severity_fits(x: IssueView) -> bool {
    (x.severity == Severity::Warning) == (x.rule == Rule::TripWithoutStopTimes)
}

/// Whether every issue of `s` is a warning exactly when its rule is
/// [`Rule::TripWithoutStopTimes`].
pub open spec fn all_fit(s: Seq<IssueView>) -> bool {
    forall|i: int| 0 <= i < s.len() ==> severity_fits(#[trigger] s[i])
}

/// Issues that all fit keep fitting when joined.
pub proof fn lemma_fit_join(a: Seq<IssueView>, b: Seq<IssueView>)
    requires
        all_fit(a),
        all_fit(b),
    ensures
        all_fit(a + b),
{
    assert forall|i: int| 0 <= i < (a + b).len() implies severity_fits(#[trigger] (a + b)[i]) by {
        if i < a.len() {
            assert((a + b)[i] == a[i]);
        } else {
            assert((a + b)[i] == b[i - a.len()]);
        }
    }
}

/// The issues of a table fit when the issues of each record do.
pub proof fn lemma_flat_map_fits<T>(s: Seq<T>, f: spec_fn(int, T) -> Seq<IssueView>)
    requires
        forall|i: int, x: T| all_fit(#[trigger] f(i, x)),
    ensures
        all_fit(flat_map(s, f)),
    decreases s.len(),
{
    if s.len() > 0 {
        lemma_flat_map_fits(s.drop_last(), f);
        lemma_fit_join(flat_map(s.drop_last(), f), f(s.len() - 1, s.last()));
    }
}

/// The issues of a table: the issues of each record, in record order.
/// `f` receives the record's position and the record.
pub open spec fn flat_map<T>(s: Seq<T>, f: spec_fn(int, T) -> Seq<IssueView>) -> Seq<IssueView>
    decreases s.len(),
{
    if s.len() == 0 {
        Seq::empty()
    } else {
        flat_map(s.drop_last(), f) + f(s.len() - 1, s.last())
    }
}

/// One more record adds its own issues at the end.
pub proof fn lemma_flat_map_step<T>(s: Seq<T>, f: spec_fn(int, T) -> Seq<IssueView>, i: int)
    requires
        0 <= i < s.len(),
    ensures
        flat_map(s.take(i + 1), f) == flat_map(s.take(i), f) + f(i, s[i]),
{
    assert(s.take(i + 1).drop_last() =~= s.take(i));
    assert(s.take(i + 1).last() == s[i]);
}

/// Every issue of a record is among the issues of its table.
pub proof fn lemma_flat_map_has<T>(s: Seq<T>, f: spec_fn(int, T) -> Seq<IssueView>, i: int, x: IssueView)
    requires
        0 <= i < s.len(),
        f(i, s[i]).contains(x),
    ensures
        flat_map(s, f).contains(x),
    decreases s.len(),
{
    let prev = flat_map(s.drop_last(), f);
    let last = f(s.len() - 1, s.last());
    if i == s.len() - 1 {
        let k = choose|k: int| 0 <= k < last.len() && last[k] == x;
        assert((prev + last)[prev.len() + k] == x);
    } else {
        assert(s.drop_last()[i] == s[i]);
        lemma_flat_map_has(s.drop_last(), f, i, x);
        let k = choose|k: int| 0 <= k < prev.len() && prev[k] == x;
        assert((prev + last)[k] == x);
    }
}

/// Every issue of a table is an issue of one of its records.
pub proof fn lemma_flat_map_from<T>(s: Seq<T>, f: spec_fn(int, T) -> Seq<IssueView>, x: IssueView)
    requires
        flat_map(s, f).contains(x),
    ensures
        exists|i: int| 0 <= i < s.len() && #[trigger] f(i, s[i]).contains(x),
    decreases s.len(),
{
    let prev = flat_map(s.drop_last(), f);
    let last = f(s.len() - 1, s.last());
    let k = choose|k: int| 0 <= k < (prev + last).len() && (prev + last)[k] == x;
    if k < prev.len() {
        assert(prev[k] == x);
        lemma_flat_map_from(s.drop_last(), f, x);
        let i = choose|i: int| 0 <= i < s.drop_last().len() && #[trigger] f(i, s.drop_last()[i]).contains(x);
        assert(s.drop_last()[i] == s[i]);
    } else {
        assert(last[k - prev.len()] == x);
        assert(f(s.len() - 1, s[s.len() - 1]).contains(x));
    }
}

/// An issue of one part of a report is an issue of the report.
pub proof fn lemma_join_has(a: Seq<IssueView>, b: Seq<IssueView>, x: IssueView)
    requires
        a.contains(x) || b.contains(x),
    ensures
        (a + b).contains(x),
{
    if a.contains(x) {
        let k = choose|k: int| 0 <= k < a.len() && a[k] == x;
        assert((a + b)[k] == x);
    } else {
        let k = choose|k: int| 0 <= k < b.len() && b[k] == x;
        assert((a + b)[a.len() + k] == x);
    }
}

/// An issue of a report is an issue of one of its two parts.
pub proof fn lemma_join_from(a: Seq<IssueView>, b: Seq<IssueView>, x: IssueView)
    requires
        (a + b).contains(x),
    ensures
        a.contains(x) || b.contains(x),
{
    let k = choose|k: int| 0 <= k < (a + b).len() && (a + b)[k] == x;
    if k < a.len() {
        assert(a[k] == x);
    } else {
        assert(b[k - a.len()] == x);
    }
}

/// A whole table is its full prefix.
pub proof fn lemma_flat_map_all<T>(s: Seq<T>, f: spec_fn(int, T) -> Seq<IssueView>)
    ensures
        flat_map(s.take(s.len() as int), f) == flat_map(s, f),
{
    assert(s.take(s.len() as int) =~= s);
}

/// The singleton `[i]` when `c` holds, empty otherwise.
pub open spec fn issue_if(c: bool, i: IssueView) -> Seq<IssueView> {
    if c {
        seq![i]
    } else {
        Seq::empty()
    }
}

/// Pushing an issue appends its content.
pub proof fn lemma_push_issue(v: Seq<ValidationIssue>, x: ValidationIssue)
    ensures
        issues_view(v.push(x)) == issues_view(v).push(x@),
{
    assert(issues_view(v.push(x)) =~= issues_view(v).push(x@));
}

/// Pushes a record-level error when `cond` holds.
pub fn push_error_if(
    issues: &mut Vec<ValidationIssue>,
    cond: bool,
    file: &'static str,
    entity_id: &str,
    rule: Rule,
    message: &str,
)
    ensures
        issues_view(final(issues)@) == issues_view(old(issues)@) + issue_if(
            cond,
            record_error(file@, entity_id@, rule, message@),
        ),
{
    let ghost before = issues@;
    if cond {
        let issue = error(file, entity_id, rule, message);
        issues.push(issue);
        proof {
            lemma_push_issue(before, issue);
        }
    }
    assert(issues_view(issues@) =~= issues_view(before) + issue_if(
        cond,
        record_error(file@, entity_id@, rule, message@),
    ));
}

/// Pushes a field-level error when `cond` holds.
pub fn push_field_error_if(
    issues: &mut Vec<ValidationIssue>,
    cond: bool,
    file: &'static str,
    entity_id: &str,
    field: &str,
    rule: Rule,
    message: &str,
)
    ensures
        issues_view(final(issues)@) == issues_view(old(issues)@) + issue_if(
            cond,
            field_issue(file@, entity_id@, field@, rule, message@),
        ),
{
    let ghost before = issues@;
    if cond {
        let issue = field_error(file, entity_id, field, rule, message);
        issues.push(issue);
        proof {
            lemma_push_issue(before, issue);
        }
    }
    assert(issues_view(issues@) =~= issues_view(before) + issue_if(
        cond,
        field_issue(file@, entity_id@, field@, rule, message@),
    ));
}

} // verus!
