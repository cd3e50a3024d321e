//! The validation entry point: [`GtfsReference::validate`].

use vstd::prelude::*;

use crate::reference::GtfsReference;
use crate::validate::dataset::{
    self, composite_duplicate_issues, dataset_issues, duplicate_issues, feed_info_issues, flex_space_issues,
    multi_agency_issues, network_conflict_issues, overlap_issues, unserved_trip_issues,
};
use crate::model::LocationType;
use crate::validate::records::{self, record_issues};
use crate::validate::refs::{self, ref_issues};
use crate::validate::report::{
    issues_view, lemma_fit_join, lemma_join_has, severity_fits, IssueView, Rule, Severity, ValidationIssue, ValidationReport,
};

verus! {

/// Every issue of a dataset, in the order validation finds them:
/// intra-record rules, then references, then dataset-wide rules.
pub open spec fn all_issues(g: GtfsReference) -> Seq<IssueView> {
    record_issues(g) + ref_issues(g) + dataset_issues(g)
}

impl GtfsReference {
    /// Validates the dataset and returns every found issue - intra-record
    /// conditional rules, primary-key uniqueness and referential
    /// integrity. Validation never stops at the first problem: the
    /// report lists everything, split into errors (hard spec
    /// violations) and warnings (suspicious but legal data).
    pub fn validate(&self) -> (r: ValidationReport)
        ensures
            r@ == all_issues(*self),
    {
        let mut issues: Vec<ValidationIssue> = Vec::new();
        records::check(self, &mut issues);
        refs::check(self, &mut issues);
        dataset::check(self, &mut issues);
        proof {
            assert(issues_view(issues@) =~= all_issues(*self));
        }
        ValidationReport::new(issues)
    }
}

/// An empty dataset breaks no rules: validating it reports no issue at
/// all.
pub proof fn lemma_empty_dataset_is_valid(g: GtfsReference)
    requires
        g.is_empty(),
    ensures
        all_issues(g) == Seq::<IssueView>::empty(),
{
    assert(record_issues(g) =~= Seq::<IssueView>::empty());
    assert(ref_issues(g) =~= Seq::<IssueView>::empty());
    assert(dataset_issues(g) =~= Seq::<IssueView>::empty());
    assert(all_issues(g) =~= Seq::<IssueView>::empty());
}

/// Validation warns about one thing only: an issue is a warning exactly
/// when its rule is [`Rule::TripWithoutStopTimes`]; every other issue is
/// an error.
pub proof fn lemma_warnings_are_trips_without_stop_times(g: GtfsReference)
    ensures
        forall|i: int|
            0 <= i < all_issues(g).len() ==> ((#[trigger] all_issues(g)[i]).severity == Severity::Warning
                <==> all_issues(g)[i].rule == Rule::TripWithoutStopTimes),
{
    records::lemma_record_issues_fit(g);
    refs::lemma_ref_issues_fit(g);
    dataset::lemma_dataset_issues_fit(g);
    lemma_fit_join(record_issues(g), ref_issues(g));
    lemma_fit_join(record_issues(g) + ref_issues(g), dataset_issues(g));
    assert forall|i: int| 0 <= i < all_issues(g).len() implies ((#[trigger] all_issues(g)[i]).severity
        == Severity::Warning <==> all_issues(g)[i].rule == Rule::TripWithoutStopTimes) by {
        assert(severity_fits(all_issues(g)[i]));
    }
}

/// Every issue that one of the three checks finds is in the report of
/// [`GtfsReference::validate`].
pub proof fn lemma_validate_reports_each_check(g: GtfsReference, x: IssueView)
    requires
        record_issues(g).contains(x) || ref_issues(g).contains(x) || dataset_issues(g).contains(x),
    ensures
        all_issues(g).contains(x),
{
    if record_issues(g).contains(x) || ref_issues(g).contains(x) {
        lemma_join_has(record_issues(g), ref_issues(g), x);
    }
    lemma_join_has(record_issues(g) + ref_issues(g), dataset_issues(g), x);
}

/// With more than one agency, validation reports every route without an
/// `agency_id` in `routes.txt`, on its `agency_id` field.
pub proof fn lemma_validate_reports_route_without_agency(g: GtfsReference, i: int)
    requires
        g.agencies@.len() > 1,
        0 <= i < g.routes@.len(),
        g.routes@[i].agency_id is None,
    ensures
        all_issues(g).contains(
            IssueView {
                severity: Severity::Error,
                file: "routes.txt"@,
                entity_id: Some(g.routes@[i].route_id@),
                field: Some("agency_id"@),
                rule: Rule::MissingAgencyId,
                message: "agency_id is required when the dataset has multiple agencies"@,
            },
        ),
{
    let x = IssueView {
        severity: Severity::Error,
        file: "routes.txt"@,
        entity_id: Some(g.routes@[i].route_id@),
        field: Some("agency_id"@),
        rule: Rule::MissingAgencyId,
        message: "agency_id is required when the dataset has multiple agencies"@,
    };
    dataset::lemma_routes_need_agency_id(g);
    assert(multi_agency_issues(g).contains(x));
    lemma_join_has(duplicate_issues(g) + composite_duplicate_issues(g) + overlap_issues(g.frequencies@) + flex_space_issues(g), multi_agency_issues(g), x);
    lemma_join_has(duplicate_issues(g) + composite_duplicate_issues(g) + overlap_issues(g.frequencies@) + flex_space_issues(g) + multi_agency_issues(g), network_conflict_issues(g), x);
    lemma_join_has(duplicate_issues(g) + composite_duplicate_issues(g) + overlap_issues(g.frequencies@) + flex_space_issues(g) + multi_agency_issues(g) + network_conflict_issues(g), feed_info_issues(g), x);
    lemma_join_has(duplicate_issues(g) + composite_duplicate_issues(g) + overlap_issues(g.frequencies@) + flex_space_issues(g) + multi_agency_issues(g) + network_conflict_issues(g) + feed_info_issues(g), unserved_trip_issues(g), x);
    lemma_validate_reports_each_check(g, x);
}

/// Validation reports a trip whose `shape_id` names no point of
/// `shapes.txt`: an unknown-reference error on the trip in `trips.txt`,
/// on its `shape_id` field.
pub proof fn lemma_validate_reports_unknown_shape(g: GtfsReference, i: int)
    requires
        0 <= i < g.trips@.len(),
        g.trips@[i].shape_id is Some,
        forall|k: int| 0 <= k < g.shapes@.len() ==> (#[trigger] g.shapes@[k]).shape_id@ != g.trips@[i].shape_id->Some_0@,
    ensures
        exists|x: IssueView| {
            &&& #[trigger] all_issues(g).contains(x)
            &&& x.severity == Severity::Error
            &&& x.rule == Rule::UnknownReference
            &&& x.file == "trips.txt"@
            &&& x.entity_id == Some(g.trips@[i].trip_id@)
            &&& x.field == Some("shape_id"@)
        },
{
    refs::lemma_unknown_trip_references_are_reported(g, i);
    let x = choose|x: IssueView| {
        &&& #[trigger] ref_issues(g).contains(x)
        &&& x.severity == Severity::Error
        &&& x.rule == Rule::UnknownReference
        &&& x.file == "trips.txt"@
        &&& x.entity_id == Some(g.trips@[i].trip_id@)
        &&& x.field == Some("shape_id"@)
        &&& x.message == "references unknown record `"@ + g.trips@[i].shape_id->Some_0@ + "`"@
    };
    lemma_validate_reports_each_check(g, x);
}

/// Validation reports a stop, station or entrance/exit without a name,
/// and one without coordinates, in `stops.txt` on that stop.
pub proof fn lemma_validate_reports_unnamed_stop(g: GtfsReference, i: int)
    requires
        0 <= i < g.stops@.len(),
        g.stops@[i].location_type == LocationType::StopOrPlatform || g.stops@[i].location_type == LocationType::Station
            || g.stops@[i].location_type == LocationType::EntranceExit,
    ensures
        g.stops@[i].stop_name is None ==> exists|x: IssueView| {
            &&& #[trigger] all_issues(g).contains(x)
            &&& x.severity == Severity::Error
            &&& x.rule == Rule::MissingStopName
            &&& x.file == "stops.txt"@
            &&& x.entity_id == Some(g.stops@[i].stop_id@)
        },
        (g.stops@[i].stop_lat is None || g.stops@[i].stop_lon is None) ==> exists|x: IssueView| {
            &&& #[trigger] all_issues(g).contains(x)
            &&& x.severity == Severity::Error
            &&& x.rule == Rule::MissingStopCoordinates
            &&& x.file == "stops.txt"@
            &&& x.entity_id == Some(g.stops@[i].stop_id@)
        },
{
    records::lemma_unnamed_stop_is_reported(g, i);
    let s = g.stops@[i];
    let name = IssueView {
        severity: Severity::Error,
        file: "stops.txt"@,
        entity_id: Some(s.stop_id@),
        field: None,
        rule: Rule::MissingStopName,
        message: "stop_name is required for stops, stations and entrances"@,
    };
    let coordinates = IssueView {
        severity: Severity::Error,
        file: "stops.txt"@,
        entity_id: Some(s.stop_id@),
        field: None,
        rule: Rule::MissingStopCoordinates,
        message: "stop_lat/stop_lon are required for stops, stations and entrances"@,
    };
    if s.stop_name is None {
        lemma_validate_reports_each_check(g, name);
    }
    if s.stop_lat is None || s.stop_lon is None {
        lemma_validate_reports_each_check(g, coordinates);
    }
}

} // verus!
