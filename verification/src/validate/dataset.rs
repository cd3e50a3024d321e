//! Dataset-wide rules: primary-key uniqueness, the shared GTFS-Flex
//! id space, and cross-file conditionals.

use std::collections::HashSet;

use vstd::prelude::*;
use vstd::hash_map::StringHashMap;
use vstd::hash_set::StringHashSet;

use crate::misc::{format_gtfs_time, time_text};
use crate::model::{
    Agency, Area, BookingRule, Calendar, CalendarDate, FareAttributeV1, Frequency, Level, Location,
    LocationGroup, Network, Pathway, Route, ShapePoint, Stop, StopTime, Trip,
};
use crate::reference::GtfsReference;
use crate::text::{append, decimal, owned, str_eq, u64_to_decimal};
use crate::validate::refs::{
    agencies_key, areas_key, booking_rules_key, fares_v1_key, ids_of, lemma_ids_all, lemma_ids_step,
    levels_key, location_groups_key, locations_key, networks_key_networks, routes_key,
    services_key_calendar, stops_key, trips_key,
};
use crate::validate::report::{
    all_fit, field_issue, flat_map, issue_if, lemma_fit_join, lemma_flat_map_fits, issues_view, lemma_flat_map_all, lemma_flat_map_from, lemma_flat_map_has, lemma_flat_map_step, lemma_join_from, lemma_join_has,
    lemma_push_issue, push_error_if, push_field_error_if, record_error, IssueView, Rule, Severity,
    ValidationIssue,
};

verus! {

/// The primary key of a pathway.
pub open spec fn pathway_key() -> spec_fn(Pathway) -> Option<Seq<char>> {
    |x: Pathway| Some(x.pathway_id@)
}

/// The duplicate-key issues of a table: one per record whose key
/// appeared on an earlier record.
pub open spec fn dup_issues<T>(s: Seq<T>, key: spec_fn(T) -> Option<Seq<char>>, file: Seq<char>) -> Seq<IssueView> {
    flat_map(s, each_dup(s, key, file))
}

/// The duplicate-key issue of each record: one for every record whose
/// key an earlier record already has.
pub open spec fn each_dup<T>(s: Seq<T>, key: spec_fn(T) -> Option<Seq<char>>, file: Seq<char>) -> spec_fn(int, T) -> Seq<IssueView> {
    |i: int, x: T|
        match key(x) {
            Some(k) => issue_if(
                ids_of(s.take(i), key).contains(k),
                record_error(file, k, Rule::DuplicateId, "primary key appears more than once"@),
            ),
            None => Seq::empty(),
        }
}

fn check_agencies_duplicates(issues: &mut Vec<ValidationIssue>, items: &Vec<Agency>)
    ensures
        issues_view(final(issues)@) == issues_view(old(issues)@) + dup_issues(items@, agencies_key(), "agency.txt"@),
{
    let ghost start = issues_view(issues@);
    let mut seen = StringHashSet::new();
    let mut i: usize = 0;
    while i < items.len()
        invariant
            i <= items.len(),
            seen@ == ids_of(items@.take(i as int), agencies_key()),
            issues_view(issues@) == start + flat_map(items@.take(i as int), each_dup(items@, agencies_key(), "agency.txt"@)),
        decreases items.len() - i,
    {
        let k: Option<&str> = match &items[i].agency_id {
            Some(id) => Some(id.as_str()),
            None => None,
        };
        let ghost before = issues_view(issues@);
        match k {
            Some(id) => {
                let fresh = seen.insert(owned(id));
                push_error_if(issues, !fresh, "agency.txt", id, Rule::DuplicateId, "primary key appears more than once");
            },
            None => {},
        }
        proof {
            lemma_ids_step(items@, agencies_key(), i as int);
            lemma_flat_map_step(items@, each_dup(items@, agencies_key(), "agency.txt"@), i as int);
            assert(issues_view(issues@) =~= before + each_dup(items@, agencies_key(), "agency.txt"@)(i as int, items@[i as int]));
        }
        i = i + 1;
    }
    proof {
        lemma_flat_map_all(items@, each_dup(items@, agencies_key(), "agency.txt"@));
    }
}

fn check_stops_duplicates(issues: &mut Vec<ValidationIssue>, items: &Vec<Stop>)
    ensures
        issues_view(final(issues)@) == issues_view(old(issues)@) + dup_issues(items@, stops_key(), "stops.txt"@),
{
    let ghost start = issues_view(issues@);
    let mut seen = StringHashSet::new();
    let mut i: usize = 0;
    while i < items.len()
        invariant
            i <= items.len(),
            seen@ == ids_of(items@.take(i as int), stops_key()),
            issues_view(issues@) == start + flat_map(items@.take(i as int), each_dup(items@, stops_key(), "stops.txt"@)),
        decreases items.len() - i,
    {
        let k: Option<&str> = Some(items[i].stop_id.as_str());
        let ghost before = issues_view(issues@);
        match k {
            Some(id) => {
                let fresh = seen.insert(owned(id));
                push_error_if(issues, !fresh, "stops.txt", id, Rule::DuplicateId, "primary key appears more than once");
            },
            None => {},
        }
        proof {
            lemma_ids_step(items@, stops_key(), i as int);
            lemma_flat_map_step(items@, each_dup(items@, stops_key(), "stops.txt"@), i as int);
            assert(issues_view(issues@) =~= before + each_dup(items@, stops_key(), "stops.txt"@)(i as int, items@[i as int]));
        }
        i = i + 1;
    }
    proof {
        lemma_flat_map_all(items@, each_dup(items@, stops_key(), "stops.txt"@));
    }
}

fn check_routes_duplicates(issues: &mut Vec<ValidationIssue>, items: &Vec<Route>)
    ensures
        issues_view(final(issues)@) == issues_view(old(issues)@) + dup_issues(items@, routes_key(), "routes.txt"@),
{
    let ghost start = issues_view(issues@);
    let mut seen = StringHashSet::new();
    let mut i: usize = 0;
    while i < items.len()
        invariant
            i <= items.len(),
            seen@ == ids_of(items@.take(i as int), routes_key()),
            issues_view(issues@) == start + flat_map(items@.take(i as int), each_dup(items@, routes_key(), "routes.txt"@)),
        decreases items.len() - i,
    {
        let k: Option<&str> = Some(items[i].route_id.as_str());
        let ghost before = issues_view(issues@);
        match k {
            Some(id) => {
                let fresh = seen.insert(owned(id));
                push_error_if(issues, !fresh, "routes.txt", id, Rule::DuplicateId, "primary key appears more than once");
            },
            None => {},
        }
        proof {
            lemma_ids_step(items@, routes_key(), i as int);
            lemma_flat_map_step(items@, each_dup(items@, routes_key(), "routes.txt"@), i as int);
            assert(issues_view(issues@) =~= before + each_dup(items@, routes_key(), "routes.txt"@)(i as int, items@[i as int]));
        }
        i = i + 1;
    }
    proof {
        lemma_flat_map_all(items@, each_dup(items@, routes_key(), "routes.txt"@));
    }
}

fn check_trips_duplicates(issues: &mut Vec<ValidationIssue>, items: &Vec<Trip>)
    ensures
        issues_view(final(issues)@) == issues_view(old(issues)@) + dup_issues(items@, trips_key(), "trips.txt"@),
{
    let ghost start = issues_view(issues@);
    let mut seen = StringHashSet::new();
    let mut i: usize = 0;
    while i < items.len()
        invariant
            i <= items.len(),
            seen@ == ids_of(items@.take(i as int), trips_key()),
            issues_view(issues@) == start + flat_map(items@.take(i as int), each_dup(items@, trips_key(), "trips.txt"@)),
        decreases items.len() - i,
    {
        let k: Option<&str> = Some(items[i].trip_id.as_str());
        let ghost before = issues_view(issues@);
        match k {
            Some(id) => {
                let fresh = seen.insert(owned(id));
                push_error_if(issues, !fresh, "trips.txt", id, Rule::DuplicateId, "primary key appears more than once");
            },
            None => {},
        }
        proof {
            lemma_ids_step(items@, trips_key(), i as int);
            lemma_flat_map_step(items@, each_dup(items@, trips_key(), "trips.txt"@), i as int);
            assert(issues_view(issues@) =~= before + each_dup(items@, trips_key(), "trips.txt"@)(i as int, items@[i as int]));
        }
        i = i + 1;
    }
    proof {
        lemma_flat_map_all(items@, each_dup(items@, trips_key(), "trips.txt"@));
    }
}

fn check_calendar_duplicates(issues: &mut Vec<ValidationIssue>, items: &Vec<Calendar>)
    ensures
        issues_view(final(issues)@) == issues_view(old(issues)@) + dup_issues(items@, services_key_calendar(), "calendar.txt"@),
{
    let ghost start = issues_view(issues@);
    let mut seen = StringHashSet::new();
    let mut i: usize = 0;
    while i < items.len()
        invariant
            i <= items.len(),
            seen@ == ids_of(items@.take(i as int), services_key_calendar()),
            issues_view(issues@) == start + flat_map(items@.take(i as int), each_dup(items@, services_key_calendar(), "calendar.txt"@)),
        decreases items.len() - i,
    {
        let k: Option<&str> = Some(items[i].service_id.as_str());
        let ghost before = issues_view(issues@);
        match k {
            Some(id) => {
                let fresh = seen.insert(owned(id));
                push_error_if(issues, !fresh, "calendar.txt", id, Rule::DuplicateId, "primary key appears more than once");
            },
            None => {},
        }
        proof {
            lemma_ids_step(items@, services_key_calendar(), i as int);
            lemma_flat_map_step(items@, each_dup(items@, services_key_calendar(), "calendar.txt"@), i as int);
            assert(issues_view(issues@) =~= before + each_dup(items@, services_key_calendar(), "calendar.txt"@)(i as int, items@[i as int]));
        }
        i = i + 1;
    }
    proof {
        lemma_flat_map_all(items@, each_dup(items@, services_key_calendar(), "calendar.txt"@));
    }
}

fn check_fare_attributes_duplicates(issues: &mut Vec<ValidationIssue>, items: &Vec<FareAttributeV1>)
    ensures
        issues_view(final(issues)@) == issues_view(old(issues)@) + dup_issues(items@, fares_v1_key(), "fare_attributes.txt"@),
{
    let ghost start = issues_view(issues@);
    let mut seen = StringHashSet::new();
    let mut i: usize = 0;
    while i < items.len()
        invariant
            i <= items.len(),
            seen@ == ids_of(items@.take(i as int), fares_v1_key()),
            issues_view(issues@) == start + flat_map(items@.take(i as int), each_dup(items@, fares_v1_key(), "fare_attributes.txt"@)),
        decreases items.len() - i,
    {
        let k: Option<&str> = Some(items[i].fare_id.as_str());
        let ghost before = issues_view(issues@);
        match k {
            Some(id) => {
                let fresh = seen.insert(owned(id));
                push_error_if(issues, !fresh, "fare_attributes.txt", id, Rule::DuplicateId, "primary key appears more than once");
            },
            None => {},
        }
        proof {
            lemma_ids_step(items@, fares_v1_key(), i as int);
            lemma_flat_map_step(items@, each_dup(items@, fares_v1_key(), "fare_attributes.txt"@), i as int);
            assert(issues_view(issues@) =~= before + each_dup(items@, fares_v1_key(), "fare_attributes.txt"@)(i as int, items@[i as int]));
        }
        i = i + 1;
    }
    proof {
        lemma_flat_map_all(items@, each_dup(items@, fares_v1_key(), "fare_attributes.txt"@));
    }
}

fn check_areas_duplicates(issues: &mut Vec<ValidationIssue>, items: &Vec<Area>)
    ensures
        issues_view(final(issues)@) == issues_view(old(issues)@) + dup_issues(items@, areas_key(), "areas.txt"@),
{
    let ghost start = issues_view(issues@);
    let mut seen = StringHashSet::new();
    let mut i: usize = 0;
    while i < items.len()
        invariant
            i <= items.len(),
            seen@ == ids_of(items@.take(i as int), areas_key()),
            issues_view(issues@) == start + flat_map(items@.take(i as int), each_dup(items@, areas_key(), "areas.txt"@)),
        decreases items.len() - i,
    {
        let k: Option<&str> = Some(items[i].area_id.as_str());
        let ghost before = issues_view(issues@);
        match k {
            Some(id) => {
                let fresh = seen.insert(owned(id));
                push_error_if(issues, !fresh, "areas.txt", id, Rule::DuplicateId, "primary key appears more than once");
            },
            None => {},
        }
        proof {
            lemma_ids_step(items@, areas_key(), i as int);
            lemma_flat_map_step(items@, each_dup(items@, areas_key(), "areas.txt"@), i as int);
            assert(issues_view(issues@) =~= before + each_dup(items@, areas_key(), "areas.txt"@)(i as int, items@[i as int]));
        }
        i = i + 1;
    }
    proof {
        lemma_flat_map_all(items@, each_dup(items@, areas_key(), "areas.txt"@));
    }
}

fn check_networks_duplicates(issues: &mut Vec<ValidationIssue>, items: &Vec<Network>)
    ensures
        issues_view(final(issues)@) == issues_view(old(issues)@) + dup_issues(items@, networks_key_networks(), "networks.txt"@),
{
    let ghost start = issues_view(issues@);
    let mut seen = StringHashSet::new();
    let mut i: usize = 0;
    while i < items.len()
        invariant
            i <= items.len(),
            seen@ == ids_of(items@.take(i as int), networks_key_networks()),
            issues_view(issues@) == start + flat_map(items@.take(i as int), each_dup(items@, networks_key_networks(), "networks.txt"@)),
        decreases items.len() - i,
    {
        let k: Option<&str> = Some(items[i].network_id.as_str());
        let ghost before = issues_view(issues@);
        match k {
            Some(id) => {
                let fresh = seen.insert(owned(id));
                push_error_if(issues, !fresh, "networks.txt", id, Rule::DuplicateId, "primary key appears more than once");
            },
            None => {},
        }
        proof {
            lemma_ids_step(items@, networks_key_networks(), i as int);
            lemma_flat_map_step(items@, each_dup(items@, networks_key_networks(), "networks.txt"@), i as int);
            assert(issues_view(issues@) =~= before + each_dup(items@, networks_key_networks(), "networks.txt"@)(i as int, items@[i as int]));
        }
        i = i + 1;
    }
    proof {
        lemma_flat_map_all(items@, each_dup(items@, networks_key_networks(), "networks.txt"@));
    }
}

fn check_levels_duplicates(issues: &mut Vec<ValidationIssue>, items: &Vec<Level>)
    ensures
        issues_view(final(issues)@) == issues_view(old(issues)@) + dup_issues(items@, levels_key(), "levels.txt"@),
{
    let ghost start = issues_view(issues@);
    let mut seen = StringHashSet::new();
    let mut i: usize = 0;
    while i < items.len()
        invariant
            i <= items.len(),
            seen@ == ids_of(items@.take(i as int), levels_key()),
            issues_view(issues@) == start + flat_map(items@.take(i as int), each_dup(items@, levels_key(), "levels.txt"@)),
        decreases items.len() - i,
    {
        let k: Option<&str> = Some(items[i].level_id.as_str());
        let ghost before = issues_view(issues@);
        match k {
            Some(id) => {
                let fresh = seen.insert(owned(id));
                push_error_if(issues, !fresh, "levels.txt", id, Rule::DuplicateId, "primary key appears more than once");
            },
            None => {},
        }
        proof {
            lemma_ids_step(items@, levels_key(), i as int);
            lemma_flat_map_step(items@, each_dup(items@, levels_key(), "levels.txt"@), i as int);
            assert(issues_view(issues@) =~= before + each_dup(items@, levels_key(), "levels.txt"@)(i as int, items@[i as int]));
        }
        i = i + 1;
    }
    proof {
        lemma_flat_map_all(items@, each_dup(items@, levels_key(), "levels.txt"@));
    }
}

fn check_pathways_duplicates(issues: &mut Vec<ValidationIssue>, items: &Vec<Pathway>)
    ensures
        issues_view(final(issues)@) == issues_view(old(issues)@) + dup_issues(items@, pathway_key(), "pathways.txt"@),
{
    let ghost start = issues_view(issues@);
    let mut seen = StringHashSet::new();
    let mut i: usize = 0;
    while i < items.len()
        invariant
            i <= items.len(),
            seen@ == ids_of(items@.take(i as int), pathway_key()),
            issues_view(issues@) == start + flat_map(items@.take(i as int), each_dup(items@, pathway_key(), "pathways.txt"@)),
        decreases items.len() - i,
    {
        let k: Option<&str> = Some(items[i].pathway_id.as_str());
        let ghost before = issues_view(issues@);
        match k {
            Some(id) => {
                let fresh = seen.insert(owned(id));
                push_error_if(issues, !fresh, "pathways.txt", id, Rule::DuplicateId, "primary key appears more than once");
            },
            None => {},
        }
        proof {
            lemma_ids_step(items@, pathway_key(), i as int);
            lemma_flat_map_step(items@, each_dup(items@, pathway_key(), "pathways.txt"@), i as int);
            assert(issues_view(issues@) =~= before + each_dup(items@, pathway_key(), "pathways.txt"@)(i as int, items@[i as int]));
        }
        i = i + 1;
    }
    proof {
        lemma_flat_map_all(items@, each_dup(items@, pathway_key(), "pathways.txt"@));
    }
}

fn check_location_groups_duplicates(issues: &mut Vec<ValidationIssue>, items: &Vec<LocationGroup>)
    ensures
        issues_view(final(issues)@) == issues_view(old(issues)@) + dup_issues(items@, location_groups_key(), "location_groups.txt"@),
{
    let ghost start = issues_view(issues@);
    let mut seen = StringHashSet::new();
    let mut i: usize = 0;
    while i < items.len()
        invariant
            i <= items.len(),
            seen@ == ids_of(items@.take(i as int), location_groups_key()),
            issues_view(issues@) == start + flat_map(items@.take(i as int), each_dup(items@, location_groups_key(), "location_groups.txt"@)),
        decreases items.len() - i,
    {
        let k: Option<&str> = Some(items[i].location_group_id.as_str());
        let ghost before = issues_view(issues@);
        match k {
            Some(id) => {
                let fresh = seen.insert(owned(id));
                push_error_if(issues, !fresh, "location_groups.txt", id, Rule::DuplicateId, "primary key appears more than once");
            },
            None => {},
        }
        proof {
            lemma_ids_step(items@, location_groups_key(), i as int);
            lemma_flat_map_step(items@, each_dup(items@, location_groups_key(), "location_groups.txt"@), i as int);
            assert(issues_view(issues@) =~= before + each_dup(items@, location_groups_key(), "location_groups.txt"@)(i as int, items@[i as int]));
        }
        i = i + 1;
    }
    proof {
        lemma_flat_map_all(items@, each_dup(items@, location_groups_key(), "location_groups.txt"@));
    }
}

fn check_booking_rules_duplicates(issues: &mut Vec<ValidationIssue>, items: &Vec<BookingRule>)
    ensures
        issues_view(final(issues)@) == issues_view(old(issues)@) + dup_issues(items@, booking_rules_key(), "booking_rules.txt"@),
{
    let ghost start = issues_view(issues@);
    let mut seen = StringHashSet::new();
    let mut i: usize = 0;
    while i < items.len()
        invariant
            i <= items.len(),
            seen@ == ids_of(items@.take(i as int), booking_rules_key()),
            issues_view(issues@) == start + flat_map(items@.take(i as int), each_dup(items@, booking_rules_key(), "booking_rules.txt"@)),
        decreases items.len() - i,
    {
        let k: Option<&str> = Some(items[i].booking_rule_id.as_str());
        let ghost before = issues_view(issues@);
        match k {
            Some(id) => {
                let fresh = seen.insert(owned(id));
                push_error_if(issues, !fresh, "booking_rules.txt", id, Rule::DuplicateId, "primary key appears more than once");
            },
            None => {},
        }
        proof {
            lemma_ids_step(items@, booking_rules_key(), i as int);
            lemma_flat_map_step(items@, each_dup(items@, booking_rules_key(), "booking_rules.txt"@), i as int);
            assert(issues_view(issues@) =~= before + each_dup(items@, booking_rules_key(), "booking_rules.txt"@)(i as int, items@[i as int]));
        }
        i = i + 1;
    }
    proof {
        lemma_flat_map_all(items@, each_dup(items@, booking_rules_key(), "booking_rules.txt"@));
    }
}

fn check_locations_duplicates(issues: &mut Vec<ValidationIssue>, items: &Vec<Location>)
    ensures
        issues_view(final(issues)@) == issues_view(old(issues)@) + dup_issues(items@, locations_key(), "locations.geojson"@),
{
    let ghost start = issues_view(issues@);
    let mut seen = StringHashSet::new();
    let mut i: usize = 0;
    while i < items.len()
        invariant
            i <= items.len(),
            seen@ == ids_of(items@.take(i as int), locations_key()),
            issues_view(issues@) == start + flat_map(items@.take(i as int), each_dup(items@, locations_key(), "locations.geojson"@)),
        decreases items.len() - i,
    {
        let k: Option<&str> = Some(items[i].location_id.as_str());
        let ghost before = issues_view(issues@);
        match k {
            Some(id) => {
                let fresh = seen.insert(owned(id));
                push_error_if(issues, !fresh, "locations.geojson", id, Rule::DuplicateId, "primary key appears more than once");
            },
            None => {},
        }
        proof {
            lemma_ids_step(items@, locations_key(), i as int);
            lemma_flat_map_step(items@, each_dup(items@, locations_key(), "locations.geojson"@), i as int);
            assert(issues_view(issues@) =~= before + each_dup(items@, locations_key(), "locations.geojson"@)(i as int, items@[i as int]));
        }
        i = i + 1;
    }
    proof {
        lemma_flat_map_all(items@, each_dup(items@, locations_key(), "locations.geojson"@));
    }
}

/// Duplicate primary keys of the single-key tables.
pub open spec fn duplicate_issues(g: GtfsReference) -> Seq<IssueView> {
    dup_issues(g.agencies@, agencies_key(), "agency.txt"@)
        + dup_issues(g.stops@, stops_key(), "stops.txt"@)
        + dup_issues(g.routes@, routes_key(), "routes.txt"@)
        + dup_issues(g.trips@, trips_key(), "trips.txt"@)
        + dup_issues(g.calendar@, services_key_calendar(), "calendar.txt"@)
        + dup_issues(g.fare_attributes@, fares_v1_key(), "fare_attributes.txt"@)
        + dup_issues(g.areas@, areas_key(), "areas.txt"@)
        + dup_issues(g.networks@, networks_key_networks(), "networks.txt"@)
        + dup_issues(g.levels@, levels_key(), "levels.txt"@)
        + dup_issues(g.pathways@, pathway_key(), "pathways.txt"@)
        + dup_issues(g.location_groups@, location_groups_key(), "location_groups.txt"@)
        + dup_issues(g.booking_rules@, booking_rules_key(), "booking_rules.txt"@)
        + dup_issues(g.locations@, locations_key(), "locations.geojson"@)
}

fn check_duplicates(issues: &mut Vec<ValidationIssue>, g: &GtfsReference)
    ensures
        issues_view(final(issues)@) == issues_view(old(issues)@) + duplicate_issues(*g),
{
    // `acc` holds the issues of the tables checked so far
    let ghost start = issues_view(issues@);
    let ghost mut acc = Seq::<IssueView>::empty();
    check_agencies_duplicates(issues, &g.agencies);
    proof {
        acc = dup_issues(g.agencies@, agencies_key(), "agency.txt"@);
        assert(issues_view(issues@) =~= start + acc);
    }
    check_stops_duplicates(issues, &g.stops);
    proof {
        acc = acc + dup_issues(g.stops@, stops_key(), "stops.txt"@);
        assert(issues_view(issues@) =~= start + acc);
    }
    check_routes_duplicates(issues, &g.routes);
    proof {
        acc = acc + dup_issues(g.routes@, routes_key(), "routes.txt"@);
        assert(issues_view(issues@) =~= start + acc);
    }
    check_trips_duplicates(issues, &g.trips);
    proof {
        acc = acc + dup_issues(g.trips@, trips_key(), "trips.txt"@);
        assert(issues_view(issues@) =~= start + acc);
    }
    check_calendar_duplicates(issues, &g.calendar);
    proof {
        acc = acc + dup_issues(g.calendar@, services_key_calendar(), "calendar.txt"@);
        assert(issues_view(issues@) =~= start + acc);
    }
    check_fare_attributes_duplicates(issues, &g.fare_attributes);
    proof {
        acc = acc + dup_issues(g.fare_attributes@, fares_v1_key(), "fare_attributes.txt"@);
        assert(issues_view(issues@) =~= start + acc);
    }
    check_areas_duplicates(issues, &g.areas);
    proof {
        acc = acc + dup_issues(g.areas@, areas_key(), "areas.txt"@);
        assert(issues_view(issues@) =~= start + acc);
    }
    check_networks_duplicates(issues, &g.networks);
    proof {
        acc = acc + dup_issues(g.networks@, networks_key_networks(), "networks.txt"@);
        assert(issues_view(issues@) =~= start + acc);
    }
    check_levels_duplicates(issues, &g.levels);
    proof {
        acc = acc + dup_issues(g.levels@, levels_key(), "levels.txt"@);
        assert(issues_view(issues@) =~= start + acc);
    }
    check_pathways_duplicates(issues, &g.pathways);
    proof {
        acc = acc + dup_issues(g.pathways@, pathway_key(), "pathways.txt"@);
        assert(issues_view(issues@) =~= start + acc);
    }
    check_location_groups_duplicates(issues, &g.location_groups);
    proof {
        acc = acc + dup_issues(g.location_groups@, location_groups_key(), "location_groups.txt"@);
        assert(issues_view(issues@) =~= start + acc);
    }
    check_booking_rules_duplicates(issues, &g.booking_rules);
    proof {
        acc = acc + dup_issues(g.booking_rules@, booking_rules_key(), "booking_rules.txt"@);
        assert(issues_view(issues@) =~= start + acc);
    }
    check_locations_duplicates(issues, &g.locations);
    proof {
        acc = acc + dup_issues(g.locations@, locations_key(), "locations.geojson"@);
        assert(issues_view(issues@) =~= start + acc);
    }
}

/// `slot * 2^64 + n`: a pair of a slot and a 64-bit number as one key.
pub open spec fn pair_code(slot: int, n: int) -> int {
    slot * 0x1_0000_0000_0000_0000 + n
}

/// Two pair codes are equal only for equal slots and numbers.
proof fn lemma_pair_code_injective(a: int, n: int, b: int, m: int)
    requires
        0 <= a,
        0 <= b,
        0 <= n < 0x1_0000_0000_0000_0000,
        0 <= m < 0x1_0000_0000_0000_0000,
        pair_code(a, n) == pair_code(b, m),
    ensures
        a == b,
        n == m,
{
    assert(a == b) by (nonlinear_arith)
        requires
            0 <= a,
            0 <= b,
            0 <= n < 0x1_0000_0000_0000_0000,
            0 <= m < 0x1_0000_0000_0000_0000,
            a * 0x1_0000_0000_0000_0000 + n == b * 0x1_0000_0000_0000_0000 + m,
    ;
}

/// A set of (text, number) pairs: each text gets a slot, and a pair is
/// kept as the number `slot * 2^64 + number`.
struct PairSet {
    slots: StringHashMap<usize>,
    count: usize,
    seen: HashSet<u128>,
    pairs: Ghost<Set<(Seq<char>, u64)>>,
}

impl PairSet {
    spec fn wf(&self) -> bool {
        &&& forall|t: Seq<char>| #[trigger] self.slots@.contains_key(t) ==> self.slots@[t] < self.count
        &&& forall|t1: Seq<char>, t2: Seq<char>|
            #![trigger self.slots@[t1], self.slots@[t2]]
            self.slots@.contains_key(t1) && self.slots@.contains_key(t2) && self.slots@[t1]
                == self.slots@[t2] ==> t1 == t2
        &&& forall|t: Seq<char>, n: u64| #[trigger]
            self.pairs@.contains((t, n)) <==> (self.slots@.contains_key(t) && self.seen@.contains(
                pair_code(self.slots@[t] as int, n as int) as u128,
            ))
        &&& forall|k: u128| #[trigger]
            self.seen@.contains(k) ==> exists|t: Seq<char>, n: u64| #[trigger]
                self.pairs@.contains((t, n)) && k == pair_code(self.slots@[t] as int, n as int)
    }

    fn new() -> (r: PairSet)
        ensures
            r.wf(),
            r.pairs@ == Set::<(Seq<char>, u64)>::empty(),
            r.count == 0,
    {
        PairSet {
            slots: StringHashMap::new(),
            count: 0,
            seen: HashSet::new(),
            pairs: Ghost(Set::empty()),
        }
    }

    /// Adds the pair; returns whether it was new.
    fn insert(&mut self, t: &str, n: u64) -> (fresh: bool)
        requires
            old(self).wf(),
            old(self).count < usize::MAX,
        ensures
            final(self).wf(),
            final(self).pairs@ == old(self).pairs@.insert((t@, n)),
            fresh == !old(self).pairs@.contains((t@, n)),
            final(self).count <= old(self).count + 1,
    {
        broadcast use vstd::std_specs::hash::group_hash_axioms;

        let ghost old_self = *self;
        let slot: usize = match self.slots.get(t) {
            Some(s) => *s,
            None => {
                let s = self.count;
                self.slots.insert(owned(t), s);
                self.count = self.count + 1;
                proof {
                    assert forall|k: u128| #[trigger] self.seen@.contains(k) implies exists|
                        u: Seq<char>,
                        m: u64,
                    | #[trigger] self.pairs@.contains((u, m)) && k == pair_code(
                        self.slots@[u] as int,
                        m as int,
                    ) by {
                        let (u, m) = choose|u: Seq<char>, m: u64| #[trigger]
                            old_self.pairs@.contains((u, m)) && k == pair_code(
                                old_self.slots@[u] as int,
                                m as int,
                            );
                        assert(old_self.slots@.contains_key(u));
                        assert(u != t@);
                        assert(self.slots@[u] == old_self.slots@[u]);
                    }
                }
                s
            },
        };
        assert(slot as int <= u64::MAX);
        let code: u128 = slot as u128 * 0x1_0000_0000_0000_0000u128 + n as u128;
        let fresh = self.seen.insert(code);
        proof {
            self.pairs@ = self.pairs@.insert((t@, n));
            assert forall|u: Seq<char>, m: u64| #[trigger]
                self.pairs@.contains((u, m)) <==> (self.slots@.contains_key(u) && self.seen@.contains(
                    pair_code(self.slots@[u] as int, m as int) as u128,
                )) by {
                if self.slots@.contains_key(u) && pair_code(self.slots@[u] as int, m as int) as u128
                    == code {
                    lemma_pair_code_injective(self.slots@[u] as int, m as int, slot as int, n as int);
                }
            }
            assert forall|k: u128| #[trigger] self.seen@.contains(k) implies exists|
                u: Seq<char>,
                m: u64,
            | #[trigger] self.pairs@.contains((u, m)) && k == pair_code(self.slots@[u] as int, m as int) by {
                if k == code {
                    assert(self.pairs@.contains((t@, n)));
                } else {
                    let (u, m) = choose|u: Seq<char>, m: u64| #[trigger]
                        old(self).pairs@.contains((u, m)) && k == pair_code(
                            old(self).slots@[u] as int,
                            m as int,
                        );
                    assert(self.pairs@.contains((u, m)));
                }
            }
            if !fresh {
                assert(old(self).pairs@.contains((t@, n)));
            } else {
                if old(self).pairs@.contains((t@, n)) {
                    assert(old(self).slots@.contains_key(t@));
                }
            }
        }
        fresh
    }
}

/// The issues of a table keyed by a (text, number) pair: one per record
/// whose pair appeared on an earlier record.
pub open spec fn composite_issues<T>(
    s: Seq<T>,
    key: spec_fn(T) -> Option<(Seq<char>, u64)>,
    file: Seq<char>,
    message: spec_fn(T) -> Seq<char>,
) -> Seq<IssueView> {
    flat_map(s, each_composite(s, key, file, message))
}

/// The duplicate-key issue of each record of a table with a composite key.
pub open spec fn each_composite<T>(
    s: Seq<T>,
    key: spec_fn(T) -> Option<(Seq<char>, u64)>,
    file: Seq<char>,
    message: spec_fn(T) -> Seq<char>,
) -> spec_fn(int, T) -> Seq<IssueView> {
    |i: int, x: T|
        match key(x) {
            Some(k) => issue_if(
                ids_of(s.take(i), key).contains(k),
                record_error(file, k.0, Rule::DuplicateId, message(x)),
            ),
            None => Seq::empty(),
        }
}

/// The composite primary key of a record of `stop_times.txt`.
pub open spec fn stop_time_pair() -> spec_fn(StopTime) -> Option<(Seq<char>, u64)> {
    |x: StopTime| Some((x.trip_id@, x.stop_sequence as u64))
}

/// The message of a duplicate composite key of `stop_times.txt`.
pub open spec fn stop_sequence_message() -> spec_fn(StopTime) -> Seq<char> {
    |x: StopTime| "duplicate stop_sequence `"@ + decimal(x.stop_sequence as nat) + "` for trip `"@ + x.trip_id@ + "`"@
}

fn check_stop_times_composite(issues: &mut Vec<ValidationIssue>, items: &Vec<StopTime>)
    ensures
        issues_view(final(issues)@) == issues_view(old(issues)@) + composite_issues(
            items@,
            stop_time_pair(),
            "stop_times.txt"@,
            stop_sequence_message(),
        ),
{
    let ghost start = issues_view(issues@);
    let ghost f = each_composite(items@, stop_time_pair(), "stop_times.txt"@, stop_sequence_message());
    let mut seen = PairSet::new();
    proof {
        assert(ids_of(items@.take(0), stop_time_pair()) =~= Set::<(Seq<char>, u64)>::empty());
    }
    let mut i: usize = 0;
    while i < items.len()
        invariant
            i <= items.len(),
            seen.wf(),
            seen.count <= i,
            f == each_composite(items@, stop_time_pair(), "stop_times.txt"@, stop_sequence_message()),
            seen.pairs@ == ids_of(items@.take(i as int), stop_time_pair()),
            issues_view(issues@) == start + flat_map(items@.take(i as int), f),
        decreases items.len() - i,
    {
        let x = &items[i];
        let ghost before = issues_view(issues@);
        let mut m = owned("duplicate stop_sequence `");
        append(&mut m, u64_to_decimal(x.stop_sequence as u64).as_str());
        append(&mut m, "` for trip `");
        append(&mut m, x.trip_id.as_str());
        append(&mut m, "`");
        let fresh = seen.insert(x.trip_id.as_str(), x.stop_sequence as u64);
        push_error_if(issues, !fresh, "stop_times.txt", x.trip_id.as_str(), Rule::DuplicateId, m.as_str());
        proof {
            lemma_ids_step(items@, stop_time_pair(), i as int);
            lemma_flat_map_step(items@, f, i as int);
            assert(issues_view(issues@) =~= before + f(i as int, items@[i as int]));
        }
        i = i + 1;
    }
    proof {
        lemma_flat_map_all(items@, f);
    }
}

/// The composite primary key of a record of `shapes.txt`.
pub open spec fn shape_point_pair() -> spec_fn(ShapePoint) -> Option<(Seq<char>, u64)> {
    |x: ShapePoint| Some((x.shape_id@, x.shape_pt_sequence as u64))
}

/// The message of a duplicate composite key of `shapes.txt`.
pub open spec fn shape_sequence_message() -> spec_fn(ShapePoint) -> Seq<char> {
    |x: ShapePoint| "duplicate shape_pt_sequence `"@ + decimal(x.shape_pt_sequence as nat) + "` for shape `"@ + x.shape_id@ + "`"@
}

fn check_shapes_composite(issues: &mut Vec<ValidationIssue>, items: &Vec<ShapePoint>)
    ensures
        issues_view(final(issues)@) == issues_view(old(issues)@) + composite_issues(
            items@,
            shape_point_pair(),
            "shapes.txt"@,
            shape_sequence_message(),
        ),
{
    let ghost start = issues_view(issues@);
    let ghost f = each_composite(items@, shape_point_pair(), "shapes.txt"@, shape_sequence_message());
    let mut seen = PairSet::new();
    proof {
        assert(ids_of(items@.take(0), shape_point_pair()) =~= Set::<(Seq<char>, u64)>::empty());
    }
    let mut i: usize = 0;
    while i < items.len()
        invariant
            i <= items.len(),
            seen.wf(),
            seen.count <= i,
            f == each_composite(items@, shape_point_pair(), "shapes.txt"@, shape_sequence_message()),
            seen.pairs@ == ids_of(items@.take(i as int), shape_point_pair()),
            issues_view(issues@) == start + flat_map(items@.take(i as int), f),
        decreases items.len() - i,
    {
        let x = &items[i];
        let ghost before = issues_view(issues@);
        let mut m = owned("duplicate shape_pt_sequence `");
        append(&mut m, u64_to_decimal(x.shape_pt_sequence as u64).as_str());
        append(&mut m, "` for shape `");
        append(&mut m, x.shape_id.as_str());
        append(&mut m, "`");
        let fresh = seen.insert(x.shape_id.as_str(), x.shape_pt_sequence as u64);
        push_error_if(issues, !fresh, "shapes.txt", x.shape_id.as_str(), Rule::DuplicateId, m.as_str());
        proof {
            lemma_ids_step(items@, shape_point_pair(), i as int);
            lemma_flat_map_step(items@, f, i as int);
            assert(issues_view(issues@) =~= before + f(i as int, items@[i as int]));
        }
        i = i + 1;
    }
    proof {
        lemma_flat_map_all(items@, f);
    }
}

/// The composite primary key of a record of `calendar_dates.txt`.
pub open spec fn calendar_date_pair() -> spec_fn(CalendarDate) -> Option<(Seq<char>, u64)> {
    |x: CalendarDate| Some((x.service_id@, x.date.ordinal() as u64))
}

/// The message of a duplicate composite key of `calendar_dates.txt`.
pub open spec fn calendar_date_message() -> spec_fn(CalendarDate) -> Seq<char> {
    |x: CalendarDate| "duplicate date `"@ + x.date.gtfs_text() + "` for service `"@ + x.service_id@ + "`"@
}

fn check_calendar_dates_composite(issues: &mut Vec<ValidationIssue>, items: &Vec<CalendarDate>)
    ensures
        issues_view(final(issues)@) == issues_view(old(issues)@) + composite_issues(
            items@,
            calendar_date_pair(),
            "calendar_dates.txt"@,
            calendar_date_message(),
        ),
{
    let ghost start = issues_view(issues@);
    let ghost f = each_composite(items@, calendar_date_pair(), "calendar_dates.txt"@, calendar_date_message());
    let mut seen = PairSet::new();
    proof {
        assert(ids_of(items@.take(0), calendar_date_pair()) =~= Set::<(Seq<char>, u64)>::empty());
    }
    let mut i: usize = 0;
    while i < items.len()
        invariant
            i <= items.len(),
            seen.wf(),
            seen.count <= i,
            f == each_composite(items@, calendar_date_pair(), "calendar_dates.txt"@, calendar_date_message()),
            seen.pairs@ == ids_of(items@.take(i as int), calendar_date_pair()),
            issues_view(issues@) == start + flat_map(items@.take(i as int), f),
        decreases items.len() - i,
    {
        let x = &items[i];
        let ghost before = issues_view(issues@);
        let mut m = owned("duplicate date `");
        append(&mut m, x.date.to_gtfs_string().as_str());
        append(&mut m, "` for service `");
        append(&mut m, x.service_id.as_str());
        append(&mut m, "`");
        let fresh = seen.insert(x.service_id.as_str(), x.date.ordinal_number());
        push_error_if(issues, !fresh, "calendar_dates.txt", x.service_id.as_str(), Rule::DuplicateId, m.as_str());
        proof {
            lemma_ids_step(items@, calendar_date_pair(), i as int);
            lemma_flat_map_step(items@, f, i as int);
            assert(issues_view(issues@) =~= before + f(i as int, items@[i as int]));
        }
        i = i + 1;
    }
    proof {
        lemma_flat_map_all(items@, f);
    }
}

/// The composite primary key of a record of `frequencies.txt`.
pub open spec fn frequency_pair() -> spec_fn(Frequency) -> Option<(Seq<char>, u64)> {
    |x: Frequency| Some((x.trip_id@, x.start_time as u64))
}

/// The message of a duplicate composite key of `frequencies.txt`.
pub open spec fn frequency_start_message() -> spec_fn(Frequency) -> Seq<char> {
    |x: Frequency| "duplicate start_time `"@ + time_text(x.start_time as nat) + "` for trip `"@ + x.trip_id@ + "`"@
}

fn check_frequencies_composite(issues: &mut Vec<ValidationIssue>, items: &Vec<Frequency>)
    ensures
        issues_view(final(issues)@) == issues_view(old(issues)@) + composite_issues(
            items@,
            frequency_pair(),
            "frequencies.txt"@,
            frequency_start_message(),
        ),
{
    let ghost start = issues_view(issues@);
    let ghost f = each_composite(items@, frequency_pair(), "frequencies.txt"@, frequency_start_message());
    let mut seen = PairSet::new();
    proof {
        assert(ids_of(items@.take(0), frequency_pair()) =~= Set::<(Seq<char>, u64)>::empty());
    }
    let mut i: usize = 0;
    while i < items.len()
        invariant
            i <= items.len(),
            seen.wf(),
            seen.count <= i,
            f == each_composite(items@, frequency_pair(), "frequencies.txt"@, frequency_start_message()),
            seen.pairs@ == ids_of(items@.take(i as int), frequency_pair()),
            issues_view(issues@) == start + flat_map(items@.take(i as int), f),
        decreases items.len() - i,
    {
        let x = &items[i];
        let ghost before = issues_view(issues@);
        let mut m = owned("duplicate start_time `");
        append(&mut m, format_gtfs_time(x.start_time).as_str());
        append(&mut m, "` for trip `");
        append(&mut m, x.trip_id.as_str());
        append(&mut m, "`");
        let fresh = seen.insert(x.trip_id.as_str(), x.start_time as u64);
        push_error_if(issues, !fresh, "frequencies.txt", x.trip_id.as_str(), Rule::DuplicateId, m.as_str());
        proof {
            lemma_ids_step(items@, frequency_pair(), i as int);
            lemma_flat_map_step(items@, f, i as int);
            assert(issues_view(issues@) =~= before + f(i as int, items@[i as int]));
        }
        i = i + 1;
    }
    proof {
        lemma_flat_map_all(items@, f);
    }
}

/// Duplicate composite keys of stop times, shapes, calendar dates and
/// frequencies.
pub open spec fn composite_duplicate_issues(g: GtfsReference) -> Seq<IssueView> {
    composite_issues(g.stop_times@, stop_time_pair(), "stop_times.txt"@, stop_sequence_message())
        + composite_issues(g.shapes@, shape_point_pair(), "shapes.txt"@, shape_sequence_message())
        + composite_issues(g.calendar_dates@, calendar_date_pair(), "calendar_dates.txt"@, calendar_date_message())
        + composite_issues(g.frequencies@, frequency_pair(), "frequencies.txt"@, frequency_start_message())
}

fn check_composite_duplicates(issues: &mut Vec<ValidationIssue>, g: &GtfsReference)
    ensures
        issues_view(final(issues)@) == issues_view(old(issues)@) + composite_duplicate_issues(*g),
{
    let ghost start = issues_view(issues@);
    check_stop_times_composite(issues, &g.stop_times);
    check_shapes_composite(issues, &g.shapes);
    check_calendar_dates_composite(issues, &g.calendar_dates);
    check_frequencies_composite(issues, &g.frequencies);
    assert(issues_view(issues@) =~= start + composite_duplicate_issues(*g));
}

/// The trips of the frequency windows, in order of first occurrence.
pub open spec fn window_trips(s: Seq<Frequency>) -> Seq<Seq<char>>
    decreases s.len(),
{
    if s.len() == 0 {
        Seq::empty()
    } else {
        let before = window_trips(s.drop_last());
        let t = s.last().trip_id@;
        if before.contains(t) {
            before
        } else {
            before.push(t)
        }
    }
}

/// The windows `(start_time, end_time)` of trip `t`, in table order.
pub open spec fn trip_windows(s: Seq<Frequency>, t: Seq<char>) -> Seq<(u32, u32)>
    decreases s.len(),
{
    if s.len() == 0 {
        Seq::empty()
    } else {
        let before = trip_windows(s.drop_last(), t);
        if s.last().trip_id@ == t {
            before.push((s.last().start_time, s.last().end_time))
        } else {
            before
        }
    }
}

/// The order of windows: by start, then by end.
pub open spec fn window_le(a: (u32, u32), b: (u32, u32)) -> bool {
    a.0 < b.0 || (a.0 == b.0 && a.1 <= b.1)
}

/// Inserts `x` before the first window that is not below it.
pub open spec fn insert_window(s: Seq<(u32, u32)>, x: (u32, u32)) -> Seq<(u32, u32)>
    decreases s.len(),
{
    if s.len() == 0 {
        seq![x]
    } else if window_le(x, s[0]) {
        seq![x] + s
    } else {
        seq![s[0]] + insert_window(s.drop_first(), x)
    }
}

/// The windows in ascending order.
pub open spec fn sort_windows(s: Seq<(u32, u32)>) -> Seq<(u32, u32)>
    decreases s.len(),
{
    if s.len() == 0 {
        Seq::empty()
    } else {
        insert_window(sort_windows(s.drop_last()), s.last())
    }
}

/// The issue of a window that starts inside an earlier one.
pub open spec fn overlap_issue(t: Seq<char>, start: u32, reach: u32) -> IssueView {
    record_error(
        "frequencies.txt"@,
        t,
        Rule::OverlappingFrequency,
        "window starting at `"@ + time_text(start as nat) + "` overlaps an earlier window ending at `"@
            + time_text(reach as nat) + "`"@,
    )
}

/// Sweeps the sorted windows of trip `t`; `reach` holds the start of the
/// previous window and the latest end so far.
pub open spec fn sweep(t: Seq<char>, ws: Seq<(u32, u32)>, reach: Option<(u32, u32)>) -> Seq<IssueView>
    decreases ws.len(),
{
    if ws.len() == 0 {
        Seq::empty()
    } else {
        let start = ws[0].0;
        let end = ws[0].1;
        match reach {
            None => sweep(t, ws.drop_first(), Some((start, end))),
            Some((previous, furthest)) => issue_if(
                start > previous && start < furthest,
                overlap_issue(t, start, furthest),
            ) + sweep(
                t,
                ws.drop_first(),
                Some(
                    (
                        start,
                        if furthest >= end {
                            furthest
                        } else {
                            end
                        },
                    ),
                ),
            ),
        }
    }
}

/// The latest end among the first `k` windows (`k >= 1`).
pub open spec fn latest_end(ws: Seq<(u32, u32)>, k: int) -> u32
    decreases k,
{
    if k <= 1 {
        ws[0].1
    } else {
        let e = latest_end(ws, k - 1);
        if e >= ws[k - 1].1 {
            e
        } else {
            ws[k - 1].1
        }
    }
}

/// Whether window `k` of sorted windows overlaps an earlier one: it
/// starts strictly after the window before it, and strictly before the
/// end of some earlier window.
pub open spec fn overlaps_earlier(ws: Seq<(u32, u32)>, k: int) -> bool {
    &&& 0 < k < ws.len()
    &&& ws[k - 1].0 < ws[k].0
    &&& exists|j: int| 0 <= j < k && ws[k].0 < #[trigger] ws[j].1
}

/// The overlap issues of windows `k..` of trip `t`, window by window:
/// one for each window that overlaps an earlier one, naming the latest
/// end before it.
pub open spec fn window_issues(t: Seq<char>, ws: Seq<(u32, u32)>, k: int) -> Seq<IssueView>
    decreases ws.len() - k,
{
    if k < 0 || k >= ws.len() {
        Seq::empty()
    } else {
        issue_if(overlaps_earlier(ws, k), overlap_issue(t, ws[k].0, latest_end(ws, k))) + window_issues(t, ws, k + 1)
    }
}

/// The latest end is the end of some earlier window and no earlier
/// window ends later.
proof fn lemma_latest_end(ws: Seq<(u32, u32)>, k: int)
    requires
        1 <= k <= ws.len(),
    ensures
        forall|j: int| 0 <= j < k ==> #[trigger] ws[j].1 <= latest_end(ws, k),
        exists|j: int| 0 <= j < k && #[trigger] ws[j].1 == latest_end(ws, k),
    decreases k,
{
    if k > 1 {
        lemma_latest_end(ws, k - 1);
        let j0 = choose|j: int| 0 <= j < k - 1 && #[trigger] ws[j].1 == latest_end(ws, k - 1);
        if latest_end(ws, k - 1) >= ws[k - 1].1 {
            assert(ws[j0].1 == latest_end(ws, k));
        } else {
            assert(ws[k - 1].1 == latest_end(ws, k));
        }
    } else {
        assert(ws[0].1 == latest_end(ws, 1));
    }
}

proof fn lemma_sweep_from(t: Seq<char>, ws: Seq<(u32, u32)>, k: int)
    requires
        1 <= k <= ws.len(),
    ensures
        sweep(t, ws.skip(k), Some((ws[k - 1].0, latest_end(ws, k)))) == window_issues(t, ws, k),
    decreases ws.len() - k,
{
    if k < ws.len() {
        let rest = ws.skip(k);
        assert(rest[0] == ws[k]);
        assert(rest.drop_first() =~= ws.skip(k + 1));
        lemma_latest_end(ws, k);
        if ws[k].0 < latest_end(ws, k) {
            let j = choose|j: int| 0 <= j < k && #[trigger] ws[j].1 == latest_end(ws, k);
            assert(ws[k].0 < ws[j].1);
        }
        lemma_sweep_from(t, ws, k + 1);
    } else {
        assert(ws.skip(k) =~= Seq::<(u32, u32)>::empty());
    }
}

/// The sweep flags exactly the windows that overlap an earlier one: of
/// the sorted windows of a trip, window `k` is reported when it starts
/// strictly after window `k - 1` and strictly before the end of some
/// earlier window, and the report names the latest such end.
pub proof fn lemma_sweep_flags_overlaps(t: Seq<char>, ws: Seq<(u32, u32)>)
    ensures
        sweep(t, ws, None) == window_issues(t, ws, 0),
{
    if ws.len() > 0 {
        assert(ws.drop_first() =~= ws.skip(1));
        lemma_sweep_from(t, ws, 1);
        assert(!overlaps_earlier(ws, 0));
        assert(window_issues(t, ws, 0) =~= window_issues(t, ws, 1));
    }
}

/// The overlap issues of each trip, taken in order of first appearance.
pub open spec fn each_window_trip(s: Seq<Frequency>) -> spec_fn(int, Seq<char>) -> Seq<IssueView> {
    |_k: int, t: Seq<char>| sweep(t, sort_windows(trip_windows(s, t)), None)
}

/// Overlapping frequency windows, trip by trip in order of first
/// occurrence.
pub open spec fn overlap_issues(s: Seq<Frequency>) -> Seq<IssueView> {
    flat_map(window_trips(s), each_window_trip(s))
}

/// The first position at which `x` is not above the window there.
pub open spec fn insert_position(s: Seq<(u32, u32)>, x: (u32, u32), p: int) -> bool {
    &&& 0 <= p <= s.len()
    &&& forall|j: int| 0 <= j < p ==> !window_le(x, #[trigger] s[j])
    &&& p < s.len() ==> window_le(x, s[p])
}

proof fn lemma_insert_window(s: Seq<(u32, u32)>, x: (u32, u32), p: int)
    requires
        insert_position(s, x, p),
    ensures
        insert_window(s, x) == s.take(p) + seq![x] + s.skip(p),
    decreases s.len(),
{
    if s.len() == 0 {
        assert(s.take(p) + seq![x] + s.skip(p) =~= seq![x]);
    } else if window_le(x, s[0]) {
        assert(p == 0);
        assert(s.take(p) + seq![x] + s.skip(p) =~= seq![x] + s);
    } else {
        let rest = s.drop_first();
        assert(insert_position(rest, x, p - 1)) by {
            assert forall|j: int| 0 <= j < p - 1 implies !window_le(x, #[trigger] rest[j]) by {
                assert(rest[j] == s[j + 1]);
            }
        }
        lemma_insert_window(rest, x, p - 1);
        assert(s.take(p) + seq![x] + s.skip(p) =~= seq![s[0]] + (rest.take(p - 1) + seq![x] + rest.skip(p - 1)));
    }
}

/// Sorts windows by insertion.
fn sort_window_list(w: &Vec<(u32, u32)>) -> (r: Vec<(u32, u32)>)
    ensures
        r@ == sort_windows(w@),
{
    let mut r: Vec<(u32, u32)> = Vec::new();
    let mut i: usize = 0;
    while i < w.len()
        invariant
            i <= w.len(),
            r@ == sort_windows(w@.take(i as int)),
        decreases w.len() - i,
    {
        let x = w[i];
        let mut p: usize = 0;
        while p < r.len() && !(x.0 < r[p].0 || (x.0 == r[p].0 && x.1 <= r[p].1))
            invariant
                p <= r.len(),
                forall|j: int| 0 <= j < p ==> !window_le(x, #[trigger] r@[j]),
            decreases r.len() - p,
        {
            p = p + 1;
        }
        proof {
            lemma_insert_window(r@, x, p as int);
            assert(w@.take(i + 1).drop_last() =~= w@.take(i as int));
        }
        r.insert(p, x);
        proof {
            assert(r@ =~= sort_windows(w@.take(i + 1)));
        }
        i = i + 1;
    }
    proof {
        assert(w@.take(w.len() as int) =~= w@);
    }
    r
}

/// Collects the windows of trip `t`.
fn windows_of(items: &Vec<Frequency>, t: &str) -> (r: Vec<(u32, u32)>)
    ensures
        r@ == trip_windows(items@, t@),
{
    let mut r: Vec<(u32, u32)> = Vec::new();
    let mut i: usize = 0;
    while i < items.len()
        invariant
            i <= items.len(),
            r@ == trip_windows(items@.take(i as int), t@),
        decreases items.len() - i,
    {
        proof {
            assert(items@.take(i + 1).drop_last() =~= items@.take(i as int));
        }
        if str_eq(items[i].trip_id.as_str(), t) {
            r.push((items[i].start_time, items[i].end_time));
        }
        i = i + 1;
    }
    proof {
        assert(items@.take(items.len() as int) =~= items@);
    }
    r
}

/// Reports the windows of trip `t` that start inside an earlier one.
fn check_trip_overlaps(issues: &mut Vec<ValidationIssue>, items: &Vec<Frequency>, t: &str)
    ensures
        issues_view(final(issues)@) == issues_view(old(issues)@) + sweep(
            t@,
            sort_windows(trip_windows(items@, t@)),
            None,
        ),
{
    let ws = sort_window_list(&windows_of(items, t));
    let ghost base = issues_view(issues@);
    let mut reach: Option<(u32, u32)> = None;
    let mut j: usize = 0;
    proof {
        assert(ws@.skip(0) =~= ws@);
        assert(base + sweep(t@, ws@, None) =~= issues_view(issues@) + sweep(t@, ws@.skip(0), reach));
    }
    while j < ws.len()
        invariant
            j <= ws.len(),
            base + sweep(t@, ws@, None) == issues_view(issues@) + sweep(t@, ws@.skip(j as int), reach),
        decreases ws.len() - j,
    {
        let (start, end) = ws[j];
        let ghost before = issues_view(issues@);
        proof {
            assert(ws@.skip(j as int).drop_first() =~= ws@.skip(j + 1));
            assert(ws@.skip(j as int)[0] == ws@[j as int]);
        }
        match reach {
            None => {
                reach = Some((start, end));
            },
            Some((previous, furthest)) => {
                let mut m = owned("window starting at `");
                append(&mut m, format_gtfs_time(start).as_str());
                append(&mut m, "` overlaps an earlier window ending at `");
                append(&mut m, format_gtfs_time(furthest).as_str());
                append(&mut m, "`");
                push_error_if(issues, start > previous && start < furthest, "frequencies.txt", t, Rule::OverlappingFrequency, m.as_str());
                let reach_end = if furthest >= end { furthest } else { end };
                reach = Some((start, reach_end));
            },
        }
        proof {
            assert(base + sweep(t@, ws@, None) =~= issues_view(issues@) + sweep(t@, ws@.skip(j + 1), reach));
        }
        j = j + 1;
    }
    proof {
        assert(ws@.skip(ws.len() as int) =~= Seq::<(u32, u32)>::empty());
        assert(issues_view(issues@) =~= base + sweep(t@, ws@, None));
    }
}

fn check_overlapping_frequencies(issues: &mut Vec<ValidationIssue>, items: &Vec<Frequency>)
    ensures
        issues_view(final(issues)@) == issues_view(old(issues)@) + overlap_issues(items@),
{
    let ghost s = items@;
    let mut seen = StringHashSet::new();
    let mut firsts: Vec<usize> = Vec::new();
    let mut i: usize = 0;
    while i < items.len()
        invariant
            s == items@,
            i <= s.len(),
            firsts@.len() == window_trips(s.take(i as int)).len(),
            forall|k: int|
                0 <= k < firsts@.len() ==> #[trigger] firsts@[k] < i && s[firsts@[k] as int].trip_id@
                    == window_trips(s.take(i as int))[k],
            forall|t: Seq<char>| #[trigger] seen@.contains(t) <==> window_trips(s.take(i as int)).contains(t),
        decreases s.len() - i,
    {
        let ghost prev = s.take(i as int);
        let ghost next = s.take(i + 1);
        proof {
            assert(next.drop_last() =~= prev);
            assert(next.last() == s[i as int]);
        }
        let fresh = seen.insert(owned(items[i].trip_id.as_str()));
        if fresh {
            firsts.push(i);
            proof {
                let t = s[i as int].trip_id@;
                assert(window_trips(next) == window_trips(prev).push(t));
                assert forall|u: Seq<char>| #[trigger] seen@.contains(u) <==> window_trips(next).contains(u) by {
                    if window_trips(prev).contains(u) {
                        let j = choose|j: int| 0 <= j < window_trips(prev).len() && window_trips(prev)[j] == u;
                        assert(window_trips(next)[j] == u);
                    }
                    if u == t {
                        assert(window_trips(next)[window_trips(prev).len() as int] == u);
                    }
                }
            }
        } else {
            proof {
                assert(window_trips(next) == window_trips(prev));
            }
        }
        i = i + 1;
    }
    let ghost order = window_trips(s);
    proof {
        assert(s.take(s.len() as int) =~= s);
    }
    let ghost start = issues_view(issues@);
    let mut k: usize = 0;
    while k < firsts.len()
        invariant
            s == items@,
            order == window_trips(s),
            firsts@.len() == order.len(),
            forall|j: int| 0 <= j < firsts@.len() ==> #[trigger] firsts@[j] < s.len() && s[firsts@[j] as int].trip_id@ == order[j],
            k <= firsts@.len(),
            issues_view(issues@) == start + flat_map(order.take(k as int), each_window_trip(s)),
        decreases firsts@.len() - k,
    {
        let ghost before = issues_view(issues@);
        check_trip_overlaps(issues, items, items[firsts[k]].trip_id.as_str());
        proof {
            lemma_flat_map_step(order, each_window_trip(s), k as int);
        }
        k = k + 1;
    }
    proof {
        lemma_flat_map_all(order, each_window_trip(s));
    }
}

/// The file of a code of the shared id space.
pub open spec fn space_file(code: u8) -> Seq<char> {
    if code == 0 {
        "stops.txt"@
    } else if code == 1 {
        "location_groups.txt"@
    } else {
        "locations.geojson"@
    }
}

fn space_file_name(code: u8) -> (r: &'static str)
    ensures
        r@ == space_file(code),
{
    if code == 0 {
        "stops.txt"
    } else if code == 1 {
        "location_groups.txt"
    } else {
        "locations.geojson"
    }
}

/// The ids of the shared GTFS-Flex id space, in the order they are
/// placed: stops (code 0), location groups (1), then GeoJSON
/// locations (2).
pub open spec fn space_entries(g: GtfsReference) -> Seq<(Seq<char>, u8)> {
    g.stops@.map_values(|s: Stop| (s.stop_id@, 0u8)) + g.location_groups@.map_values(
        |x: LocationGroup| (x.location_group_id@, 1u8),
    ) + g.locations@.map_values(|x: Location| (x.location_id@, 2u8))
}

/// Which code each id was last placed with.
pub open spec fn space_of(e: Seq<(Seq<char>, u8)>) -> Map<Seq<char>, u8>
    decreases e.len(),
{
    if e.len() == 0 {
        Map::empty()
    } else {
        space_of(e.drop_last()).insert(e.last().0, e.last().1)
    }
}

/// The issue of placing `id` with `code` into `space`: a location group
/// or location whose id was last placed by another file.
pub open spec fn place_issues(space: Map<Seq<char>, u8>, id: Seq<char>, code: u8) -> Seq<IssueView> {
    if code == 0 {
        Seq::empty()
    } else {
        issue_if(
            space.contains_key(id) && space[id] != code,
            record_error(space_file(code), id, Rule::IdSpaceCollision, "id also used in "@ + space_file(space[id])),
        )
    }
}

/// The id-space collision issue of each entry of the shared GTFS-Flex id space.
pub open spec fn each_place(e: Seq<(Seq<char>, u8)>) -> spec_fn(int, (Seq<char>, u8)) -> Seq<IssueView> {
    |i: int, x: (Seq<char>, u8)| place_issues(space_of(e.take(i)), x.0, x.1)
}

/// Collisions in the shared id space.
pub open spec fn flex_space_issues(g: GtfsReference) -> Seq<IssueView> {
    flat_map(space_entries(g), each_place(space_entries(g)))
}

fn place(issues: &mut Vec<ValidationIssue>, space: &mut StringHashMap<u8>, id: &str, code: u8)
    ensures
        final(space)@ == old(space)@.insert(id@, code),
        issues_view(final(issues)@) == issues_view(old(issues)@) + place_issues(old(space)@, id@, code),
{
    let ghost before = issues_view(issues@);
    if code != 0 {
        match space.get(id) {
            Some(other) => {
                let other_code = *other;
                let mut m = owned("id also used in ");
                append(&mut m, space_file_name(other_code));
                push_error_if(issues, other_code != code, space_file_name(code), id, Rule::IdSpaceCollision, m.as_str());
            },
            None => {},
        }
    }
    space.insert(owned(id), code);
    assert(issues_view(issues@) =~= before + place_issues(old(space)@, id@, code));
}

fn check_flex_id_space(issues: &mut Vec<ValidationIssue>, g: &GtfsReference)
    ensures
        issues_view(final(issues)@) == issues_view(old(issues)@) + flex_space_issues(*g),
{
    let ghost e = space_entries(*g);
    let ghost f = each_place(e);
    let ghost start = issues_view(issues@);
    let ghost n0 = g.stops@.len();
    let ghost n1 = g.location_groups@.len();
    let mut space: StringHashMap<u8> = StringHashMap::new();
    let mut i: usize = 0;
    while i < g.stops.len()
        invariant
            e == space_entries(*g),
            f == each_place(e),
            i <= g.stops.len(),
            space@ == space_of(e.take(i as int)),
            issues_view(issues@) == start + flat_map(e.take(i as int), f),
        decreases g.stops.len() - i,
    {
        proof {
            assert(e[i as int] == (g.stops@[i as int].stop_id@, 0u8));
            assert(e.take(i + 1).drop_last() =~= e.take(i as int));
            lemma_flat_map_step(e, f, i as int);
        }
        place(issues, &mut space, g.stops[i].stop_id.as_str(), 0);
        i = i + 1;
    }
    let mut j: usize = 0;
    while j < g.location_groups.len()
        invariant
            e == space_entries(*g),
            f == each_place(e),
            n0 == g.stops@.len(),
            j <= g.location_groups.len(),
            space@ == space_of(e.take(n0 + j)),
            issues_view(issues@) == start + flat_map(e.take(n0 + j), f),
        decreases g.location_groups.len() - j,
    {
        proof {
            assert(e[n0 + j] == (g.location_groups@[j as int].location_group_id@, 1u8));
            assert(e.take(n0 + j + 1).drop_last() =~= e.take(n0 + j));
            lemma_flat_map_step(e, f, n0 + j);
        }
        place(issues, &mut space, g.location_groups[j].location_group_id.as_str(), 1);
        j = j + 1;
    }
    let mut k: usize = 0;
    while k < g.locations.len()
        invariant
            e == space_entries(*g),
            f == each_place(e),
            n0 == g.stops@.len(),
            n1 == g.location_groups@.len(),
            k <= g.locations.len(),
            space@ == space_of(e.take(n0 + n1 + k)),
            issues_view(issues@) == start + flat_map(e.take(n0 + n1 + k), f),
        decreases g.locations.len() - k,
    {
        proof {
            assert(e[n0 + n1 + k] == (g.locations@[k as int].location_id@, 2u8));
            assert(e.take(n0 + n1 + k + 1).drop_last() =~= e.take(n0 + n1 + k));
            lemma_flat_map_step(e, f, n0 + n1 + k);
        }
        place(issues, &mut space, g.locations[k].location_id.as_str(), 2);
        k = k + 1;
    }
    proof {
        lemma_flat_map_all(e, f);
    }
}

/// The issue of a record without `agency_id` in a dataset with several
/// agencies.
pub open spec fn missing_agency_issue(file: Seq<char>, entity: Seq<char>) -> IssueView {
    field_issue(
        file,
        entity,
        "agency_id"@,
        Rule::MissingAgencyId,
        "agency_id is required when the dataset has multiple agencies"@,
    )
}

/// The missing-`agency_id` issue of each agency.
pub open spec fn each_agency_without_id() -> spec_fn(int, Agency) -> Seq<IssueView> {
    |_i: int, a: Agency| issue_if(a.agency_id is None, missing_agency_issue("agency.txt"@, a.agency_name@))
}

/// The missing-`agency_id` issue of each route.
pub open spec fn each_route_without_agency() -> spec_fn(int, Route) -> Seq<IssueView> {
    |_i: int, r: Route| issue_if(r.agency_id is None, missing_agency_issue("routes.txt"@, r.route_id@))
}

/// The missing-`agency_id` issue of each Fares v1 fare.
pub open spec fn each_fare_without_agency() -> spec_fn(int, FareAttributeV1) -> Seq<IssueView> {
    |_i: int, f: FareAttributeV1|
        issue_if(f.agency_id is None, missing_agency_issue("fare_attributes.txt"@, f.fare_id@))
}

/// With more than one agency, `agency_id` is required on agencies,
/// routes and fare attributes.
pub open spec fn multi_agency_issues(g: GtfsReference) -> Seq<IssueView> {
    if g.agencies@.len() <= 1 {
        Seq::empty()
    } else {
        flat_map(g.agencies@, each_agency_without_id()) + flat_map(g.routes@, each_route_without_agency())
            + flat_map(g.fare_attributes@, each_fare_without_agency())
    }
}

fn check_agencies_agency_ids(issues: &mut Vec<ValidationIssue>, items: &Vec<Agency>)
    ensures
        issues_view(final(issues)@) == issues_view(old(issues)@) + flat_map(items@, each_agency_without_id()),
{
    let ghost start = issues_view(issues@);
    let mut i: usize = 0;
    while i < items.len()
        invariant
            i <= items.len(),
            issues_view(issues@) == start + flat_map(items@.take(i as int), each_agency_without_id()),
        decreases items.len() - i,
    {
        push_field_error_if(
            issues,
            items[i].agency_id.is_none(),
            "agency.txt",
            items[i].agency_name.as_str(),
            "agency_id",
            Rule::MissingAgencyId,
            "agency_id is required when the dataset has multiple agencies",
        );
        proof {
            lemma_flat_map_step(items@, each_agency_without_id(), i as int);
        }
        i = i + 1;
    }
    proof {
        lemma_flat_map_all(items@, each_agency_without_id());
    }
}

fn check_routes_agency_ids(issues: &mut Vec<ValidationIssue>, items: &Vec<Route>)
    ensures
        issues_view(final(issues)@) == issues_view(old(issues)@) + flat_map(items@, each_route_without_agency()),
{
    let ghost start = issues_view(issues@);
    let mut i: usize = 0;
    while i < items.len()
        invariant
            i <= items.len(),
            issues_view(issues@) == start + flat_map(items@.take(i as int), each_route_without_agency()),
        decreases items.len() - i,
    {
        push_field_error_if(
            issues,
            items[i].agency_id.is_none(),
            "routes.txt",
            items[i].route_id.as_str(),
            "agency_id",
            Rule::MissingAgencyId,
            "agency_id is required when the dataset has multiple agencies",
        );
        proof {
            lemma_flat_map_step(items@, each_route_without_agency(), i as int);
        }
        i = i + 1;
    }
    proof {
        lemma_flat_map_all(items@, each_route_without_agency());
    }
}

fn check_fare_attributes_agency_ids(issues: &mut Vec<ValidationIssue>, items: &Vec<FareAttributeV1>)
    ensures
        issues_view(final(issues)@) == issues_view(old(issues)@) + flat_map(items@, each_fare_without_agency()),
{
    let ghost start = issues_view(issues@);
    let mut i: usize = 0;
    while i < items.len()
        invariant
            i <= items.len(),
            issues_view(issues@) == start + flat_map(items@.take(i as int), each_fare_without_agency()),
        decreases items.len() - i,
    {
        push_field_error_if(
            issues,
            items[i].agency_id.is_none(),
            "fare_attributes.txt",
            items[i].fare_id.as_str(),
            "agency_id",
            Rule::MissingAgencyId,
            "agency_id is required when the dataset has multiple agencies",
        );
        proof {
            lemma_flat_map_step(items@, each_fare_without_agency(), i as int);
        }
        i = i + 1;
    }
    proof {
        lemma_flat_map_all(items@, each_fare_without_agency());
    }
}

fn check_multi_agency(issues: &mut Vec<ValidationIssue>, g: &GtfsReference)
    ensures
        issues_view(final(issues)@) == issues_view(old(issues)@) + multi_agency_issues(*g),
{
    let ghost start = issues_view(issues@);
    if g.agencies.len() > 1 {
        check_agencies_agency_ids(issues, &g.agencies);
        check_routes_agency_ids(issues, &g.routes);
        check_fare_attributes_agency_ids(issues, &g.fare_attributes);
    }
    assert(issues_view(issues@) =~= start + multi_agency_issues(*g));
}

/// Whether some route sets `network_id`.
pub open spec fn uses_inline_network(routes: Seq<Route>) -> bool {
    exists|i: int| 0 <= i < routes.len() && routes[i].network_id is Some
}

/// `routes.network_id` and `route_networks.txt` are mutually exclusive.
pub open spec fn network_conflict_issues(g: GtfsReference) -> Seq<IssueView> {
    issue_if(
        uses_inline_network(g.routes@) && g.route_networks@.len() > 0,
        IssueView {
            severity: Severity::Error,
            file: "route_networks.txt"@,
            entity_id: None,
            field: None,
            rule: Rule::NetworkIdConflict,
            message: "routes.network_id must not be used together with route_networks.txt"@,
        },
    )
}

fn check_network_conflict(issues: &mut Vec<ValidationIssue>, g: &GtfsReference)
    ensures
        issues_view(final(issues)@) == issues_view(old(issues)@) + network_conflict_issues(*g),
{
    let mut uses_inline = false;
    let mut i: usize = 0;
    while i < g.routes.len()
        invariant
            i <= g.routes.len(),
            uses_inline == exists|j: int| 0 <= j < i && g.routes@[j].network_id is Some,
        decreases g.routes.len() - i,
    {
        if g.routes[i].network_id.is_some() {
            uses_inline = true;
        }
        i = i + 1;
    }
    if uses_inline && g.route_networks.len() > 0 {
        let issue = ValidationIssue {
            severity: Severity::Error,
            file: "route_networks.txt",
            entity_id: None,
            field: None,
            rule: Rule::NetworkIdConflict,
            message: owned("routes.network_id must not be used together with route_networks.txt"),
        };
        let ghost before = issues@;
        issues.push(issue);
        proof {
            lemma_push_issue(before, issue);
        }
    }
    assert(issues_view(issues@) =~= issues_view(old(issues)@) + network_conflict_issues(*g));
}

/// `feed_info.txt` is required when translations are present.
pub open spec fn feed_info_issues(g: GtfsReference) -> Seq<IssueView> {
    issue_if(
        g.translations@.len() > 0 && g.feed_info is None,
        IssueView {
            severity: Severity::Error,
            file: "feed_info.txt"@,
            entity_id: None,
            field: None,
            rule: Rule::MissingFeedInfo,
            message: "feed_info.txt is required when translations.txt is present"@,
        },
    )
}

fn check_feed_info(issues: &mut Vec<ValidationIssue>, g: &GtfsReference)
    ensures
        issues_view(final(issues)@) == issues_view(old(issues)@) + feed_info_issues(*g),
{
    if g.translations.len() > 0 && g.feed_info.is_none() {
        let issue = ValidationIssue {
            severity: Severity::Error,
            file: "feed_info.txt",
            entity_id: None,
            field: None,
            rule: Rule::MissingFeedInfo,
            message: owned("feed_info.txt is required when translations.txt is present"),
        };
        let ghost before = issues@;
        issues.push(issue);
        proof {
            lemma_push_issue(before, issue);
        }
    }
    assert(issues_view(issues@) =~= issues_view(old(issues)@) + feed_info_issues(*g));
}

/// The trip a stop time serves.
pub open spec fn served_key() -> spec_fn(StopTime) -> Option<Seq<char>> {
    |st: StopTime| Some(st.trip_id@)
}

/// The warning of each trip that no stop time refers to.
pub open spec fn each_unserved_trip(served: Set<Seq<char>>) -> spec_fn(int, Trip) -> Seq<IssueView> {
    |_i: int, t: Trip|
        issue_if(
            !served.contains(t.trip_id@),
            IssueView {
                severity: Severity::Warning,
                file: "trips.txt"@,
                entity_id: Some(t.trip_id@),
                field: None,
                rule: Rule::TripWithoutStopTimes,
                message: "trip has no stop times"@,
            },
        )
}

/// Trips without any stop time: a warning each.
pub open spec fn unserved_trip_issues(g: GtfsReference) -> Seq<IssueView> {
    flat_map(g.trips@, each_unserved_trip(ids_of(g.stop_times@, served_key())))
}

fn check_trips_without_stop_times(issues: &mut Vec<ValidationIssue>, g: &GtfsReference)
    ensures
        issues_view(final(issues)@) == issues_view(old(issues)@) + unserved_trip_issues(*g),
{
    let mut served = StringHashSet::new();
    let mut i: usize = 0;
    while i < g.stop_times.len()
        invariant
            i <= g.stop_times.len(),
            served@ == ids_of(g.stop_times@.take(i as int), served_key()),
        decreases g.stop_times.len() - i,
    {
        served.insert(owned(g.stop_times[i].trip_id.as_str()));
        proof {
            lemma_ids_step(g.stop_times@, served_key(), i as int);
        }
        i = i + 1;
    }
    proof {
        lemma_ids_all(g.stop_times@, served_key());
    }
    let ghost f = each_unserved_trip(served@);
    let ghost start = issues_view(issues@);
    let mut k: usize = 0;
    while k < g.trips.len()
        invariant
            f == each_unserved_trip(served@),
            k <= g.trips.len(),
            issues_view(issues@) == start + flat_map(g.trips@.take(k as int), f),
        decreases g.trips.len() - k,
    {
        let trip = &g.trips[k];
        if !served.contains(trip.trip_id.as_str()) {
            let issue = ValidationIssue {
                severity: Severity::Warning,
                file: "trips.txt",
                entity_id: Some(owned(trip.trip_id.as_str())),
                field: None,
                rule: Rule::TripWithoutStopTimes,
                message: owned("trip has no stop times"),
            };
            let ghost before = issues@;
            issues.push(issue);
            proof {
                lemma_push_issue(before, issue);
            }
        }
        proof {
            lemma_flat_map_step(g.trips@, f, k as int);
            assert(issues_view(issues@) =~= start + flat_map(g.trips@.take(k + 1), f));
        }
        k = k + 1;
    }
    proof {
        lemma_flat_map_all(g.trips@, f);
    }
}

/// Issues of every dataset-wide rule, in the order of the checks.
pub open spec fn dataset_issues(g: GtfsReference) -> Seq<IssueView> {
    duplicate_issues(g) + composite_duplicate_issues(g) + overlap_issues(g.frequencies@)
        + flex_space_issues(g) + multi_agency_issues(g) + network_conflict_issues(g)
        + feed_info_issues(g) + unserved_trip_issues(g)
}

/// Runs every dataset-wide rule.
pub fn check(gtfs: &GtfsReference, issues: &mut Vec<ValidationIssue>)
    ensures
        issues_view(final(issues)@) == issues_view(old(issues)@) + dataset_issues(*gtfs),
{
    let ghost start = issues_view(issues@);
    check_duplicates(issues, gtfs);
    check_composite_duplicates(issues, gtfs);
    check_overlapping_frequencies(issues, &gtfs.frequencies);
    check_flex_id_space(issues, gtfs);
    check_multi_agency(issues, gtfs);
    check_network_conflict(issues, gtfs);
    check_feed_info(issues, gtfs);
    check_trips_without_stop_times(issues, gtfs);
    assert(issues_view(issues@) =~= start + dataset_issues(*gtfs));
}

#[verifier::spinoff_prover]
proof fn lemma_dup_each_fits<T>(s: Seq<T>, key: spec_fn(T) -> Option<Seq<char>>, file: Seq<char>)
    ensures
        forall|i: int, x: T| all_fit(#[trigger] each_dup(s, key, file)(i, x)),
{
    assert forall|i: int, x: T| all_fit(#[trigger] each_dup(s, key, file)(i, x)) by {}
}

#[verifier::spinoff_prover]
proof fn lemma_composite_each_fits<T>(s: Seq<T>, key: spec_fn(T) -> Option<(Seq<char>, u64)>, file: Seq<char>, message: spec_fn(T) -> Seq<char>)
    ensures
        forall|i: int, x: T| all_fit(#[trigger] each_composite(s, key, file, message)(i, x)),
{
    assert forall|i: int, x: T| all_fit(#[trigger] each_composite(s, key, file, message)(i, x)) by {}
}

#[verifier::spinoff_prover]
proof fn lemma_window_each_fits(s: Seq<Frequency>)
    ensures
        forall|i: int, x: Seq<char>| all_fit(#[trigger] each_window_trip(s)(i, x)),
{
    assert forall|i: int, x: Seq<char>| all_fit(#[trigger] each_window_trip(s)(i, x)) by {
        lemma_sweep_fits(x, sort_windows(trip_windows(s, x)), None);
    }
}

proof fn lemma_sweep_fits(t: Seq<char>, ws: Seq<(u32, u32)>, reach: Option<(u32, u32)>)
    ensures
        all_fit(sweep(t, ws, reach)),
    decreases ws.len(),
{
    if ws.len() > 0 {
        let start = ws[0].0;
        let end = ws[0].1;
        match reach {
            None => lemma_sweep_fits(t, ws.drop_first(), Some((start, end))),
            Some((previous, furthest)) => {
                let next = Some((start, if furthest >= end { furthest } else { end }));
                lemma_sweep_fits(t, ws.drop_first(), next);
                lemma_fit_join(
                    issue_if(start > previous && start < furthest, overlap_issue(t, start, furthest)),
                    sweep(t, ws.drop_first(), next),
                );
            },
        }
    }
}

#[verifier::spinoff_prover]
proof fn lemma_place_each_fits(e: Seq<(Seq<char>, u8)>)
    ensures
        forall|i: int, x: (Seq<char>, u8)| all_fit(#[trigger] each_place(e)(i, x)),
{
    assert forall|i: int, x: (Seq<char>, u8)| all_fit(#[trigger] each_place(e)(i, x)) by {}
}

#[verifier::spinoff_prover]
proof fn lemma_agency_each_fits()
    ensures
        forall|i: int, x: Agency| all_fit(#[trigger] each_agency_without_id()(i, x)),
{
    assert forall|i: int, x: Agency| all_fit(#[trigger] each_agency_without_id()(i, x)) by {}
}

#[verifier::spinoff_prover]
proof fn lemma_route_each_fits()
    ensures
        forall|i: int, x: Route| all_fit(#[trigger] each_route_without_agency()(i, x)),
{
    assert forall|i: int, x: Route| all_fit(#[trigger] each_route_without_agency()(i, x)) by {}
}

#[verifier::spinoff_prover]
proof fn lemma_fare_each_fits()
    ensures
        forall|i: int, x: FareAttributeV1| all_fit(#[trigger] each_fare_without_agency()(i, x)),
{
    assert forall|i: int, x: FareAttributeV1| all_fit(#[trigger] each_fare_without_agency()(i, x)) by {}
}

#[verifier::spinoff_prover]
proof fn lemma_unserved_each_fits(served: Set<Seq<char>>)
    ensures
        forall|i: int, x: Trip| all_fit(#[trigger] each_unserved_trip(served)(i, x)),
{
    assert forall|i: int, x: Trip| all_fit(#[trigger] each_unserved_trip(served)(i, x)) by {}
}

proof fn lemma_duplicate_issues_fit(g: GtfsReference)
    ensures
        all_fit(duplicate_issues(g)),
{
    lemma_dup_each_fits(g.agencies@, agencies_key(), "agency.txt"@);
    lemma_flat_map_fits(g.agencies@, each_dup(g.agencies@, agencies_key(), "agency.txt"@));
    lemma_dup_each_fits(g.stops@, stops_key(), "stops.txt"@);
    lemma_flat_map_fits(g.stops@, each_dup(g.stops@, stops_key(), "stops.txt"@));
    lemma_dup_each_fits(g.routes@, routes_key(), "routes.txt"@);
    lemma_flat_map_fits(g.routes@, each_dup(g.routes@, routes_key(), "routes.txt"@));
    lemma_dup_each_fits(g.trips@, trips_key(), "trips.txt"@);
    lemma_flat_map_fits(g.trips@, each_dup(g.trips@, trips_key(), "trips.txt"@));
    lemma_dup_each_fits(g.calendar@, services_key_calendar(), "calendar.txt"@);
    lemma_flat_map_fits(g.calendar@, each_dup(g.calendar@, services_key_calendar(), "calendar.txt"@));
    lemma_dup_each_fits(g.fare_attributes@, fares_v1_key(), "fare_attributes.txt"@);
    lemma_flat_map_fits(g.fare_attributes@, each_dup(g.fare_attributes@, fares_v1_key(), "fare_attributes.txt"@));
    lemma_dup_each_fits(g.areas@, areas_key(), "areas.txt"@);
    lemma_flat_map_fits(g.areas@, each_dup(g.areas@, areas_key(), "areas.txt"@));
    lemma_dup_each_fits(g.networks@, networks_key_networks(), "networks.txt"@);
    lemma_flat_map_fits(g.networks@, each_dup(g.networks@, networks_key_networks(), "networks.txt"@));
    lemma_dup_each_fits(g.levels@, levels_key(), "levels.txt"@);
    lemma_flat_map_fits(g.levels@, each_dup(g.levels@, levels_key(), "levels.txt"@));
    lemma_dup_each_fits(g.pathways@, pathway_key(), "pathways.txt"@);
    lemma_flat_map_fits(g.pathways@, each_dup(g.pathways@, pathway_key(), "pathways.txt"@));
    lemma_dup_each_fits(g.location_groups@, location_groups_key(), "location_groups.txt"@);
    lemma_flat_map_fits(g.location_groups@, each_dup(g.location_groups@, location_groups_key(), "location_groups.txt"@));
    lemma_dup_each_fits(g.booking_rules@, booking_rules_key(), "booking_rules.txt"@);
    lemma_flat_map_fits(g.booking_rules@, each_dup(g.booking_rules@, booking_rules_key(), "booking_rules.txt"@));
    lemma_dup_each_fits(g.locations@, locations_key(), "locations.geojson"@);
    lemma_flat_map_fits(g.locations@, each_dup(g.locations@, locations_key(), "locations.geojson"@));
    lemma_fit_join(dup_issues(g.agencies@, agencies_key(), "agency.txt"@), dup_issues(g.stops@, stops_key(), "stops.txt"@));
    lemma_fit_join(dup_issues(g.agencies@, agencies_key(), "agency.txt"@) + dup_issues(g.stops@, stops_key(), "stops.txt"@), dup_issues(g.routes@, routes_key(), "routes.txt"@));
    lemma_fit_join(dup_issues(g.agencies@, agencies_key(), "agency.txt"@) + dup_issues(g.stops@, stops_key(), "stops.txt"@) + dup_issues(g.routes@, routes_key(), "routes.txt"@), dup_issues(g.trips@, trips_key(), "trips.txt"@));
    lemma_fit_join(dup_issues(g.agencies@, agencies_key(), "agency.txt"@) + dup_issues(g.stops@, stops_key(), "stops.txt"@) + dup_issues(g.routes@, routes_key(), "routes.txt"@) + dup_issues(g.trips@, trips_key(), "trips.txt"@), dup_issues(g.calendar@, services_key_calendar(), "calendar.txt"@));
    lemma_fit_join(dup_issues(g.agencies@, agencies_key(), "agency.txt"@) + dup_issues(g.stops@, stops_key(), "stops.txt"@) + dup_issues(g.routes@, routes_key(), "routes.txt"@) + dup_issues(g.trips@, trips_key(), "trips.txt"@) + dup_issues(g.calendar@, services_key_calendar(), "calendar.txt"@), dup_issues(g.fare_attributes@, fares_v1_key(), "fare_attributes.txt"@));
    lemma_fit_join(dup_issues(g.agencies@, agencies_key(), "agency.txt"@) + dup_issues(g.stops@, stops_key(), "stops.txt"@) + dup_issues(g.routes@, routes_key(), "routes.txt"@) + dup_issues(g.trips@, trips_key(), "trips.txt"@) + dup_issues(g.calendar@, services_key_calendar(), "calendar.txt"@) + dup_issues(g.fare_attributes@, fares_v1_key(), "fare_attributes.txt"@), dup_issues(g.areas@, areas_key(), "areas.txt"@));
    lemma_fit_join(dup_issues(g.agencies@, agencies_key(), "agency.txt"@) + dup_issues(g.stops@, stops_key(), "stops.txt"@) + dup_issues(g.routes@, routes_key(), "routes.txt"@) + dup_issues(g.trips@, trips_key(), "trips.txt"@) + dup_issues(g.calendar@, services_key_calendar(), "calendar.txt"@) + dup_issues(g.fare_attributes@, fares_v1_key(), "fare_attributes.txt"@) + dup_issues(g.areas@, areas_key(), "areas.txt"@), dup_issues(g.networks@, networks_key_networks(), "networks.txt"@));
    lemma_fit_join(dup_issues(g.agencies@, agencies_key(), "agency.txt"@) + dup_issues(g.stops@, stops_key(), "stops.txt"@) + dup_issues(g.routes@, routes_key(), "routes.txt"@) + dup_issues(g.trips@, trips_key(), "trips.txt"@) + dup_issues(g.calendar@, services_key_calendar(), "calendar.txt"@) + dup_issues(g.fare_attributes@, fares_v1_key(), "fare_attributes.txt"@) + dup_issues(g.areas@, areas_key(), "areas.txt"@) + dup_issues(g.networks@, networks_key_networks(), "networks.txt"@), dup_issues(g.levels@, levels_key(), "levels.txt"@));
    lemma_fit_join(dup_issues(g.agencies@, agencies_key(), "agency.txt"@) + dup_issues(g.stops@, stops_key(), "stops.txt"@) + dup_issues(g.routes@, routes_key(), "routes.txt"@) + dup_issues(g.trips@, trips_key(), "trips.txt"@) + dup_issues(g.calendar@, services_key_calendar(), "calendar.txt"@) + dup_issues(g.fare_attributes@, fares_v1_key(), "fare_attributes.txt"@) + dup_issues(g.areas@, areas_key(), "areas.txt"@) + dup_issues(g.networks@, networks_key_networks(), "networks.txt"@) + dup_issues(g.levels@, levels_key(), "levels.txt"@), dup_issues(g.pathways@, pathway_key(), "pathways.txt"@));
    lemma_fit_join(dup_issues(g.agencies@, agencies_key(), "agency.txt"@) + dup_issues(g.stops@, stops_key(), "stops.txt"@) + dup_issues(g.routes@, routes_key(), "routes.txt"@) + dup_issues(g.trips@, trips_key(), "trips.txt"@) + dup_issues(g.calendar@, services_key_calendar(), "calendar.txt"@) + dup_issues(g.fare_attributes@, fares_v1_key(), "fare_attributes.txt"@) + dup_issues(g.areas@, areas_key(), "areas.txt"@) + dup_issues(g.networks@, networks_key_networks(), "networks.txt"@) + dup_issues(g.levels@, levels_key(), "levels.txt"@) + dup_issues(g.pathways@, pathway_key(), "pathways.txt"@), dup_issues(g.location_groups@, location_groups_key(), "location_groups.txt"@));
    lemma_fit_join(dup_issues(g.agencies@, agencies_key(), "agency.txt"@) + dup_issues(g.stops@, stops_key(), "stops.txt"@) + dup_issues(g.routes@, routes_key(), "routes.txt"@) + dup_issues(g.trips@, trips_key(), "trips.txt"@) + dup_issues(g.calendar@, services_key_calendar(), "calendar.txt"@) + dup_issues(g.fare_attributes@, fares_v1_key(), "fare_attributes.txt"@) + dup_issues(g.areas@, areas_key(), "areas.txt"@) + dup_issues(g.networks@, networks_key_networks(), "networks.txt"@) + dup_issues(g.levels@, levels_key(), "levels.txt"@) + dup_issues(g.pathways@, pathway_key(), "pathways.txt"@) + dup_issues(g.location_groups@, location_groups_key(), "location_groups.txt"@), dup_issues(g.booking_rules@, booking_rules_key(), "booking_rules.txt"@));
    lemma_fit_join(dup_issues(g.agencies@, agencies_key(), "agency.txt"@) + dup_issues(g.stops@, stops_key(), "stops.txt"@) + dup_issues(g.routes@, routes_key(), "routes.txt"@) + dup_issues(g.trips@, trips_key(), "trips.txt"@) + dup_issues(g.calendar@, services_key_calendar(), "calendar.txt"@) + dup_issues(g.fare_attributes@, fares_v1_key(), "fare_attributes.txt"@) + dup_issues(g.areas@, areas_key(), "areas.txt"@) + dup_issues(g.networks@, networks_key_networks(), "networks.txt"@) + dup_issues(g.levels@, levels_key(), "levels.txt"@) + dup_issues(g.pathways@, pathway_key(), "pathways.txt"@) + dup_issues(g.location_groups@, location_groups_key(), "location_groups.txt"@) + dup_issues(g.booking_rules@, booking_rules_key(), "booking_rules.txt"@), dup_issues(g.locations@, locations_key(), "locations.geojson"@));
}

proof fn lemma_composite_issues_fit(g: GtfsReference)
    ensures
        all_fit(composite_duplicate_issues(g)),
{
    lemma_composite_each_fits(g.stop_times@, stop_time_pair(), "stop_times.txt"@, stop_sequence_message());
    lemma_flat_map_fits(g.stop_times@, each_composite(g.stop_times@, stop_time_pair(), "stop_times.txt"@, stop_sequence_message()));
    lemma_composite_each_fits(g.shapes@, shape_point_pair(), "shapes.txt"@, shape_sequence_message());
    lemma_flat_map_fits(g.shapes@, each_composite(g.shapes@, shape_point_pair(), "shapes.txt"@, shape_sequence_message()));
    lemma_composite_each_fits(g.calendar_dates@, calendar_date_pair(), "calendar_dates.txt"@, calendar_date_message());
    lemma_flat_map_fits(g.calendar_dates@, each_composite(g.calendar_dates@, calendar_date_pair(), "calendar_dates.txt"@, calendar_date_message()));
    lemma_composite_each_fits(g.frequencies@, frequency_pair(), "frequencies.txt"@, frequency_start_message());
    lemma_flat_map_fits(g.frequencies@, each_composite(g.frequencies@, frequency_pair(), "frequencies.txt"@, frequency_start_message()));
    lemma_fit_join(composite_issues(g.stop_times@, stop_time_pair(), "stop_times.txt"@, stop_sequence_message()), composite_issues(g.shapes@, shape_point_pair(), "shapes.txt"@, shape_sequence_message()));
    lemma_fit_join(composite_issues(g.stop_times@, stop_time_pair(), "stop_times.txt"@, stop_sequence_message()) + composite_issues(g.shapes@, shape_point_pair(), "shapes.txt"@, shape_sequence_message()), composite_issues(g.calendar_dates@, calendar_date_pair(), "calendar_dates.txt"@, calendar_date_message()));
    lemma_fit_join(composite_issues(g.stop_times@, stop_time_pair(), "stop_times.txt"@, stop_sequence_message()) + composite_issues(g.shapes@, shape_point_pair(), "shapes.txt"@, shape_sequence_message()) + composite_issues(g.calendar_dates@, calendar_date_pair(), "calendar_dates.txt"@, calendar_date_message()), composite_issues(g.frequencies@, frequency_pair(), "frequencies.txt"@, frequency_start_message()));
}

proof fn lemma_multi_agency_issues_fit(g: GtfsReference)
    ensures
        all_fit(multi_agency_issues(g)),
{
    if g.agencies@.len() > 1 {
        lemma_agency_each_fits();
        lemma_route_each_fits();
        lemma_fare_each_fits();
        lemma_flat_map_fits(g.agencies@, each_agency_without_id());
        lemma_flat_map_fits(g.routes@, each_route_without_agency());
        lemma_flat_map_fits(g.fare_attributes@, each_fare_without_agency());
        lemma_fit_join(flat_map(g.agencies@, each_agency_without_id()), flat_map(g.routes@, each_route_without_agency()));
        lemma_fit_join(
            flat_map(g.agencies@, each_agency_without_id()) + flat_map(g.routes@, each_route_without_agency()),
            flat_map(g.fare_attributes@, each_fare_without_agency()),
        );
    }
}

/// Every dataset-wide issue is an error of a rule other than
/// [`Rule::TripWithoutStopTimes`], but for the warnings of trips without
/// stop times.
pub proof fn lemma_dataset_issues_fit(g: GtfsReference)
    ensures
        all_fit(dataset_issues(g)),
{
    lemma_duplicate_issues_fit(g);
    lemma_composite_issues_fit(g);
    lemma_window_each_fits(g.frequencies@);
    lemma_flat_map_fits(window_trips(g.frequencies@), each_window_trip(g.frequencies@));
    lemma_place_each_fits(space_entries(g));
    lemma_flat_map_fits(space_entries(g), each_place(space_entries(g)));
    lemma_multi_agency_issues_fit(g);
    assert(all_fit(network_conflict_issues(g)));
    assert(all_fit(feed_info_issues(g)));
    lemma_unserved_each_fits(ids_of(g.stop_times@, served_key()));
    lemma_flat_map_fits(g.trips@, each_unserved_trip(ids_of(g.stop_times@, served_key())));
    lemma_fit_join(duplicate_issues(g), composite_duplicate_issues(g));
    lemma_fit_join(duplicate_issues(g) + composite_duplicate_issues(g), overlap_issues(g.frequencies@));
    lemma_fit_join(duplicate_issues(g) + composite_duplicate_issues(g) + overlap_issues(g.frequencies@), flex_space_issues(g));
    lemma_fit_join(duplicate_issues(g) + composite_duplicate_issues(g) + overlap_issues(g.frequencies@) + flex_space_issues(g), multi_agency_issues(g));
    lemma_fit_join(duplicate_issues(g) + composite_duplicate_issues(g) + overlap_issues(g.frequencies@) + flex_space_issues(g) + multi_agency_issues(g), network_conflict_issues(g));
    lemma_fit_join(duplicate_issues(g) + composite_duplicate_issues(g) + overlap_issues(g.frequencies@) + flex_space_issues(g) + multi_agency_issues(g) + network_conflict_issues(g), feed_info_issues(g));
    lemma_fit_join(duplicate_issues(g) + composite_duplicate_issues(g) + overlap_issues(g.frequencies@) + flex_space_issues(g) + multi_agency_issues(g) + network_conflict_issues(g) + feed_info_issues(g), unserved_trip_issues(g));
}

/// With more than one agency, a route is reported for a missing
/// `agency_id` exactly when it has none: every route without one gets
/// that error in `routes.txt`, and every such error of `routes.txt`
/// names a route without one. With one agency or none, nothing is
/// reported for it.
pub proof fn lemma_routes_need_agency_id(g: GtfsReference)
    ensures
        g.agencies@.len() <= 1 ==> multi_agency_issues(g).len() == 0,
        g.agencies@.len() > 1 ==> forall|i: int|
            0 <= i < g.routes@.len() && (#[trigger] g.routes@[i]).agency_id is None ==> multi_agency_issues(g).contains(
                IssueView {
                    severity: Severity::Error,
                    file: "routes.txt"@,
                    entity_id: Some(g.routes@[i].route_id@),
                    field: Some("agency_id"@),
                    rule: Rule::MissingAgencyId,
                    message: "agency_id is required when the dataset has multiple agencies"@,
                },
            ),
        forall|x: IssueView|
            #[trigger] multi_agency_issues(g).contains(x) && x.file == "routes.txt"@ ==> x.rule == Rule::MissingAgencyId
                && exists|i: int|
                0 <= i < g.routes@.len() && (#[trigger] g.routes@[i]).agency_id is None && x.entity_id == Some(
                    g.routes@[i].route_id@,
                ),
{
    let a = flat_map(g.agencies@, each_agency_without_id());
    let r = flat_map(g.routes@, each_route_without_agency());
    let f = flat_map(g.fare_attributes@, each_fare_without_agency());
    if g.agencies@.len() > 1 {
        assert forall|i: int|
            0 <= i < g.routes@.len() && (#[trigger] g.routes@[i]).agency_id is None implies multi_agency_issues(g).contains(
                missing_agency_issue("routes.txt"@, g.routes@[i].route_id@),
            ) by {
            let x = missing_agency_issue("routes.txt"@, g.routes@[i].route_id@);
            assert(each_route_without_agency()(i, g.routes@[i])[0] == x);
            lemma_flat_map_has(g.routes@, each_route_without_agency(), i, x);
            lemma_join_has(a, r, x);
            lemma_join_has(a + r, f, x);
        }
    }
    assert forall|x: IssueView|
        #[trigger] multi_agency_issues(g).contains(x) && x.file == "routes.txt"@ implies x.rule == Rule::MissingAgencyId
            && exists|i: int|
            0 <= i < g.routes@.len() && (#[trigger] g.routes@[i]).agency_id is None && x.entity_id == Some(
                g.routes@[i].route_id@,
            ) by {
        reveal_strlit("routes.txt");
        reveal_strlit("agency.txt");
        reveal_strlit("fare_attributes.txt");
        lemma_join_from(a + r, f, x);
        if f.contains(x) {
            lemma_flat_map_from(g.fare_attributes@, each_fare_without_agency(), x);
            assert(x.file[0] == 'f');
        } else {
            lemma_join_from(a, r, x);
            if a.contains(x) {
                lemma_flat_map_from(g.agencies@, each_agency_without_id(), x);
                assert(x.file[0] == 'a');
            } else {
                lemma_flat_map_from(g.routes@, each_route_without_agency(), x);
            }
        }
    }
}

/// With more than one agency, every agency without an `agency_id` is
/// reported in `agency.txt` under its name, and every Fares v1 fare
/// without one in `fare_attributes.txt` under its `fare_id`.
pub proof fn lemma_agencies_and_fares_need_agency_id(g: GtfsReference)
    requires
        g.agencies@.len() > 1,
    ensures
        forall|i: int|
            0 <= i < g.agencies@.len() && (#[trigger] g.agencies@[i]).agency_id is None ==> multi_agency_issues(g).contains(
                IssueView {
                    severity: Severity::Error,
                    file: "agency.txt"@,
                    entity_id: Some(g.agencies@[i].agency_name@),
                    field: Some("agency_id"@),
                    rule: Rule::MissingAgencyId,
                    message: "agency_id is required when the dataset has multiple agencies"@,
                },
            ),
        forall|i: int|
            0 <= i < g.fare_attributes@.len() && (#[trigger] g.fare_attributes@[i]).agency_id is None
                ==> multi_agency_issues(g).contains(
                IssueView {
                    severity: Severity::Error,
                    file: "fare_attributes.txt"@,
                    entity_id: Some(g.fare_attributes@[i].fare_id@),
                    field: Some("agency_id"@),
                    rule: Rule::MissingAgencyId,
                    message: "agency_id is required when the dataset has multiple agencies"@,
                },
            ),
{
    let a = flat_map(g.agencies@, each_agency_without_id());
    let r = flat_map(g.routes@, each_route_without_agency());
    let f = flat_map(g.fare_attributes@, each_fare_without_agency());
    assert forall|i: int|
        0 <= i < g.agencies@.len() && (#[trigger] g.agencies@[i]).agency_id is None implies multi_agency_issues(g).contains(
            missing_agency_issue("agency.txt"@, g.agencies@[i].agency_name@),
        ) by {
        let x = missing_agency_issue("agency.txt"@, g.agencies@[i].agency_name@);
        assert(each_agency_without_id()(i, g.agencies@[i])[0] == x);
        lemma_flat_map_has(g.agencies@, each_agency_without_id(), i, x);
        lemma_join_has(a, r, x);
        lemma_join_has(a + r, f, x);
    }
    assert forall|i: int|
        0 <= i < g.fare_attributes@.len() && (#[trigger] g.fare_attributes@[i]).agency_id is None implies multi_agency_issues(
            g,
        ).contains(missing_agency_issue("fare_attributes.txt"@, g.fare_attributes@[i].fare_id@)) by {
        let x = missing_agency_issue("fare_attributes.txt"@, g.fare_attributes@[i].fare_id@);
        assert(each_fare_without_agency()(i, g.fare_attributes@[i])[0] == x);
        lemma_flat_map_has(g.fare_attributes@, each_fare_without_agency(), i, x);
        lemma_join_has(a + r, f, x);
    }
}

} // verus!
