//! Referential integrity: every foreign key must point at an
//! existing record.

use vstd::prelude::*;
use vstd::hash_set::StringHashSet;

use crate::model::{
    Agency, Area, Attribution, BookingRule, Calendar, CalendarDate, FareAttributeV1, FareLegJoinRule,
    FareLegRule, FareMedia, FareProduct, FareRuleV1, FareTransferRule, Frequency, Level, Location,
    LocationGroup, LocationGroupStop, LocationType, Network, Pathway, RiderCategory, Route,
    RouteNetwork, ShapePoint, Stop, StopArea, StopTime, Timeframe, Transfer, Trip,
};
use crate::reference::GtfsReference;
use crate::text::{append, owned};
use crate::validate::records::{attribution_entity, row_entity, row_entity_of, stop_time_entity, stop_time_entity_of};
use crate::validate::report::{
    all_fit, field_issue, flat_map, lemma_fit_join, lemma_flat_map_fits, issue_if, issues_view, lemma_flat_map_all, lemma_flat_map_has, lemma_flat_map_step, lemma_join_has, opt_view,
    push_field_error_if, IssueView, Rule, Severity, ValidationIssue,
};

verus! {

/// The keys that the records of `s` define, `key` giving each record's
/// key, if it has one.
pub open spec fn ids_of<T, K>(s: Seq<T>, key: spec_fn(T) -> Option<K>) -> Set<K> {
    Set::new(|x: K| exists|i: int| 0 <= i < s.len() && key(s[i]) == Some(x))
}

/// One more record adds its id.
pub proof fn lemma_ids_step<T, K>(s: Seq<T>, key: spec_fn(T) -> Option<K>, i: int)
    requires
        0 <= i < s.len(),
    ensures
        ids_of(s.take(i + 1), key) == match key(s[i]) {
            Some(x) => ids_of(s.take(i), key).insert(x),
            None => ids_of(s.take(i), key),
        },
{
    let next = s.take(i + 1);
    let prev = s.take(i);
    let target = match key(s[i]) {
        Some(x) => ids_of(prev, key).insert(x),
        None => ids_of(prev, key),
    };
    assert forall|x: K| ids_of(next, key).contains(x) implies target.contains(x) by {
        let j = choose|j: int| 0 <= j < next.len() && key(next[j]) == Some(x);
        if j < i {
            assert(prev[j] == next[j]);
        }
    }
    assert forall|x: K| target.contains(x) implies ids_of(next, key).contains(x) by {
        if ids_of(prev, key).contains(x) {
            let j = choose|j: int| 0 <= j < prev.len() && key(prev[j]) == Some(x);
            assert(next[j] == prev[j]);
        } else {
            assert(next[i] == s[i]);
        }
    }
    assert(ids_of(next, key) =~= target);
}

/// A whole table is its full prefix.
pub proof fn lemma_ids_all<T, K>(s: Seq<T>, key: spec_fn(T) -> Option<K>)
    ensures
        ids_of(s.take(s.len() as int), key) == ids_of(s, key),
{
    assert(s.take(s.len() as int) =~= s);
}

/// Adds the key of every record of `items` that has one to `set`; `key`
/// gives a record's key as `spec_key` states it.
fn add_keys<T, F: Fn(&T) -> Option<String>>(
    set: &mut StringHashSet,
    items: &Vec<T>,
    key: F,
    Ghost(spec_key): Ghost<spec_fn(T) -> Option<Seq<char>>>,
)
    requires
        forall|x: &T| #[trigger] key.requires((x,)),
        forall|x: &T, r: Option<String>| #[trigger] key.ensures((x,), r) ==> opt_view(r) == spec_key(*x),
    ensures
        final(set)@ == old(set)@ + ids_of(items@, spec_key),
{
    let ghost start = set@;
    let mut i: usize = 0;
    while i < items.len()
        invariant
            i <= items.len(),
            set@ == start + ids_of(items@.take(i as int), spec_key),
            forall|x: &T| #[trigger] key.requires((x,)),
            forall|x: &T, r: Option<String>| #[trigger] key.ensures((x,), r) ==> opt_view(r) == spec_key(*x),
        decreases items.len() - i,
    {
        match key(&items[i]) {
            Some(k) => {
                set.insert(k);
            },
            None => {},
        }
        proof {
            lemma_ids_step(items@, spec_key, i as int);
            assert(set@ =~= start + ids_of(items@.take(i + 1), spec_key));
        }
        i = i + 1;
    }
    proof {
        lemma_ids_all(items@, spec_key);
    }
}

/// The id that a record of `agencies` contributes to the agency ids.
pub open spec fn agencies_key() -> spec_fn(Agency) -> Option<Seq<char>> {
    |x: Agency| opt_view(x.agency_id)
}


/// The id that a record of `stops` contributes to the stop ids.
pub open spec fn stops_key() -> spec_fn(Stop) -> Option<Seq<char>> {
    |x: Stop| Some(x.stop_id@)
}


/// The id that a record of `stops` contributes to the ids of stations (location_type 1).
pub open spec fn stations_key() -> spec_fn(Stop) -> Option<Seq<char>> {
    |x: Stop| if x.location_type == LocationType::Station { Some(x.stop_id@) } else { None }
}


/// The id that a record of `stops` contributes to the ids of stops/platforms (location_type 0).
pub open spec fn platforms_key() -> spec_fn(Stop) -> Option<Seq<char>> {
    |x: Stop| if x.location_type == LocationType::StopOrPlatform { Some(x.stop_id@) } else { None }
}


/// The id that a record of `stops` contributes to the fare zone ids.
pub open spec fn zones_key() -> spec_fn(Stop) -> Option<Seq<char>> {
    |x: Stop| opt_view(x.zone_id)
}


/// The id that a record of `routes` contributes to the route ids.
pub open spec fn routes_key() -> spec_fn(Route) -> Option<Seq<char>> {
    |x: Route| Some(x.route_id@)
}


/// The id that a record of `trips` contributes to the trip ids.
pub open spec fn trips_key() -> spec_fn(Trip) -> Option<Seq<char>> {
    |x: Trip| Some(x.trip_id@)
}


/// The id that a record of `calendar` contributes to the service ids of both calendar tables.
pub open spec fn services_key_calendar() -> spec_fn(Calendar) -> Option<Seq<char>> {
    |x: Calendar| Some(x.service_id@)
}


/// The id that a record of `calendar_dates` contributes to the service ids of both calendar tables.
pub open spec fn services_key_calendar_dates() -> spec_fn(CalendarDate) -> Option<Seq<char>> {
    |x: CalendarDate| Some(x.service_id@)
}


/// The id that a record of `shapes` contributes to the shape ids.
pub open spec fn shapes_key() -> spec_fn(ShapePoint) -> Option<Seq<char>> {
    |x: ShapePoint| Some(x.shape_id@)
}


/// The id that a record of `levels` contributes to the level ids.
pub open spec fn levels_key() -> spec_fn(Level) -> Option<Seq<char>> {
    |x: Level| Some(x.level_id@)
}


/// The id that a record of `areas` contributes to the area ids.
pub open spec fn areas_key() -> spec_fn(Area) -> Option<Seq<char>> {
    |x: Area| Some(x.area_id@)
}


/// The id that a record of `networks` contributes to the network ids, declared or used by routes.
pub open spec fn networks_key_networks() -> spec_fn(Network) -> Option<Seq<char>> {
    |x: Network| Some(x.network_id@)
}


/// The id that a record of `routes` contributes to the network ids, declared or used by routes.
pub open spec fn networks_key_routes() -> spec_fn(Route) -> Option<Seq<char>> {
    |x: Route| opt_view(x.network_id)
}


/// The id that a record of `location_groups` contributes to the location group ids.
pub open spec fn location_groups_key() -> spec_fn(LocationGroup) -> Option<Seq<char>> {
    |x: LocationGroup| Some(x.location_group_id@)
}


/// The id that a record of `locations` contributes to the GeoJSON location ids.
pub open spec fn locations_key() -> spec_fn(Location) -> Option<Seq<char>> {
    |x: Location| Some(x.location_id@)
}


/// The id that a record of `booking_rules` contributes to the booking rule ids.
pub open spec fn booking_rules_key() -> spec_fn(BookingRule) -> Option<Seq<char>> {
    |x: BookingRule| Some(x.booking_rule_id@)
}


/// The id that a record of `fare_attributes` contributes to the fare ids of fare_attributes.
pub open spec fn fares_v1_key() -> spec_fn(FareAttributeV1) -> Option<Seq<char>> {
    |x: FareAttributeV1| Some(x.fare_id@)
}


/// The id that a record of `fare_products` contributes to the fare product ids.
pub open spec fn fare_products_key() -> spec_fn(FareProduct) -> Option<Seq<char>> {
    |x: FareProduct| Some(x.fare_product_id@)
}


/// The id that a record of `fare_media` contributes to the fare media ids.
pub open spec fn fare_media_key() -> spec_fn(FareMedia) -> Option<Seq<char>> {
    |x: FareMedia| Some(x.fare_media_id@)
}


/// The id that a record of `rider_categories` contributes to the rider category ids.
pub open spec fn rider_categories_key() -> spec_fn(RiderCategory) -> Option<Seq<char>> {
    |x: RiderCategory| Some(x.rider_category_id@)
}


/// The id that a record of `timeframes` contributes to the timeframe group ids.
pub open spec fn timeframe_groups_key() -> spec_fn(Timeframe) -> Option<Seq<char>> {
    |x: Timeframe| Some(x.timeframe_group_id@)
}


/// The id that a record of `fare_leg_rules` contributes to the leg group ids.
pub open spec fn leg_groups_key() -> spec_fn(FareLegRule) -> Option<Seq<char>> {
    |x: FareLegRule| opt_view(x.leg_group_id)
}


/// The id sets of a dataset.
pub struct IdSets {
    /// The agency ids
    pub agencies: Set<Seq<char>>,
    /// The stop ids
    pub stops: Set<Seq<char>>,
    /// The ids of stations (location_type 1)
    pub stations: Set<Seq<char>>,
    /// The ids of stops/platforms (location_type 0)
    pub platforms: Set<Seq<char>>,
    /// The fare zone ids
    pub zones: Set<Seq<char>>,
    /// The route ids
    pub routes: Set<Seq<char>>,
    /// The trip ids
    pub trips: Set<Seq<char>>,
    /// The service ids of both calendar tables
    pub services: Set<Seq<char>>,
    /// The shape ids
    pub shapes: Set<Seq<char>>,
    /// The level ids
    pub levels: Set<Seq<char>>,
    /// The area ids
    pub areas: Set<Seq<char>>,
    /// The network ids, declared or used by routes
    pub networks: Set<Seq<char>>,
    /// The location group ids
    pub location_groups: Set<Seq<char>>,
    /// The GeoJSON location ids
    pub locations: Set<Seq<char>>,
    /// The booking rule ids
    pub booking_rules: Set<Seq<char>>,
    /// The fare ids of fare_attributes
    pub fares_v1: Set<Seq<char>>,
    /// The fare product ids
    pub fare_products: Set<Seq<char>>,
    /// The fare media ids
    pub fare_media: Set<Seq<char>>,
    /// The rider category ids
    pub rider_categories: Set<Seq<char>>,
    /// The timeframe group ids
    pub timeframe_groups: Set<Seq<char>>,
    /// The leg group ids
    pub leg_groups: Set<Seq<char>>,
}

/// The id sets of `g`.
pub open spec fn id_sets(g: GtfsReference) -> IdSets {
    IdSets {
        agencies: ids_of(g.agencies@, agencies_key()),
        stops: ids_of(g.stops@, stops_key()),
        stations: ids_of(g.stops@, stations_key()),
        platforms: ids_of(g.stops@, platforms_key()),
        zones: ids_of(g.stops@, zones_key()),
        routes: ids_of(g.routes@, routes_key()),
        trips: ids_of(g.trips@, trips_key()),
        services: ids_of(g.calendar@, services_key_calendar()) + ids_of(g.calendar_dates@, services_key_calendar_dates()),
        shapes: ids_of(g.shapes@, shapes_key()),
        levels: ids_of(g.levels@, levels_key()),
        areas: ids_of(g.areas@, areas_key()),
        networks: ids_of(g.networks@, networks_key_networks()) + ids_of(g.routes@, networks_key_routes()),
        location_groups: ids_of(g.location_groups@, location_groups_key()),
        locations: ids_of(g.locations@, locations_key()),
        booking_rules: ids_of(g.booking_rules@, booking_rules_key()),
        fares_v1: ids_of(g.fare_attributes@, fares_v1_key()),
        fare_products: ids_of(g.fare_products@, fare_products_key()),
        fare_media: ids_of(g.fare_media@, fare_media_key()),
        rider_categories: ids_of(g.rider_categories@, rider_categories_key()),
        timeframe_groups: ids_of(g.timeframes@, timeframe_groups_key()),
        leg_groups: ids_of(g.fare_leg_rules@, leg_groups_key()),
    }
}

/// The id sets of a dataset, collected once for all lookups.
struct Ids {
    agencies: StringHashSet,
    stops: StringHashSet,
    stations: StringHashSet,
    platforms: StringHashSet,
    zones: StringHashSet,
    routes: StringHashSet,
    trips: StringHashSet,
    services: StringHashSet,
    shapes: StringHashSet,
    levels: StringHashSet,
    areas: StringHashSet,
    networks: StringHashSet,
    location_groups: StringHashSet,
    locations: StringHashSet,
    booking_rules: StringHashSet,
    fares_v1: StringHashSet,
    fare_products: StringHashSet,
    fare_media: StringHashSet,
    rider_categories: StringHashSet,
    timeframe_groups: StringHashSet,
    leg_groups: StringHashSet,
}

impl Ids {
    spec fn view(&self) -> IdSets {
        IdSets {
            agencies: self.agencies@,
            stops: self.stops@,
            stations: self.stations@,
            platforms: self.platforms@,
            zones: self.zones@,
            routes: self.routes@,
            trips: self.trips@,
            services: self.services@,
            shapes: self.shapes@,
            levels: self.levels@,
            areas: self.areas@,
            networks: self.networks@,
            location_groups: self.location_groups@,
            locations: self.locations@,
            booking_rules: self.booking_rules@,
            fares_v1: self.fares_v1@,
            fare_products: self.fare_products@,
            fare_media: self.fare_media@,
            rider_categories: self.rider_categories@,
            timeframe_groups: self.timeframe_groups@,
            leg_groups: self.leg_groups@,
        }
    }

    fn collect(g: &GtfsReference) -> (r: Ids)
        ensures
            r.view() == id_sets(*g),
    {
        let mut agencies = StringHashSet::new();
        let agencies_key_of = |x: &Agency| -> (r: Option<String>)
            ensures
                opt_view(r) == opt_view(x.agency_id),
            {
                match &x.agency_id {
                    Some(id) => Some(owned(id.as_str())),
                    None => None,
                }
            };
        add_keys(&mut agencies, &g.agencies, agencies_key_of, Ghost(agencies_key()));
        assert(agencies@ =~= ids_of(g.agencies@, agencies_key()));
        let mut stops = StringHashSet::new();
        let stops_key_of = |x: &Stop| -> (r: Option<String>)
            ensures
                opt_view(r) == Some(x.stop_id@),
            {
                Some(owned(x.stop_id.as_str()))
            };
        add_keys(&mut stops, &g.stops, stops_key_of, Ghost(stops_key()));
        assert(stops@ =~= ids_of(g.stops@, stops_key()));
        let mut stations = StringHashSet::new();
        let stations_key_of = |x: &Stop| -> (r: Option<String>)
            ensures
                opt_view(r) == (if x.location_type == LocationType::Station { Some(x.stop_id@) } else { None }),
            {
                if x.location_type == LocationType::Station {
                    Some(owned(x.stop_id.as_str()))
                } else {
                    None
                }
            };
        add_keys(&mut stations, &g.stops, stations_key_of, Ghost(stations_key()));
        assert(stations@ =~= ids_of(g.stops@, stations_key()));
        let mut platforms = StringHashSet::new();
        let platforms_key_of = |x: &Stop| -> (r: Option<String>)
            ensures
                opt_view(r) == (if x.location_type == LocationType::StopOrPlatform { Some(x.stop_id@) } else { None }),
            {
                if x.location_type == LocationType::StopOrPlatform {
                    Some(owned(x.stop_id.as_str()))
                } else {
                    None
                }
            };
        add_keys(&mut platforms, &g.stops, platforms_key_of, Ghost(platforms_key()));
        assert(platforms@ =~= ids_of(g.stops@, platforms_key()));
        let mut zones = StringHashSet::new();
        let zones_key_of = |x: &Stop| -> (r: Option<String>)
            ensures
                opt_view(r) == opt_view(x.zone_id),
            {
                match &x.zone_id {
                    Some(id) => Some(owned(id.as_str())),
                    None => None,
                }
            };
        add_keys(&mut zones, &g.stops, zones_key_of, Ghost(zones_key()));
        assert(zones@ =~= ids_of(g.stops@, zones_key()));
        let mut routes = StringHashSet::new();
        let routes_key_of = |x: &Route| -> (r: Option<String>)
            ensures
                opt_view(r) == Some(x.route_id@),
            {
                Some(owned(x.route_id.as_str()))
            };
        add_keys(&mut routes, &g.routes, routes_key_of, Ghost(routes_key()));
        assert(routes@ =~= ids_of(g.routes@, routes_key()));
        let mut trips = StringHashSet::new();
        let trips_key_of = |x: &Trip| -> (r: Option<String>)
            ensures
                opt_view(r) == Some(x.trip_id@),
            {
                Some(owned(x.trip_id.as_str()))
            };
        add_keys(&mut trips, &g.trips, trips_key_of, Ghost(trips_key()));
        assert(trips@ =~= ids_of(g.trips@, trips_key()));
        let mut services = StringHashSet::new();
        let services_key_calendar_of = |x: &Calendar| -> (r: Option<String>)
            ensures
                opt_view(r) == Some(x.service_id@),
            {
                Some(owned(x.service_id.as_str()))
            };
        add_keys(&mut services, &g.calendar, services_key_calendar_of, Ghost(services_key_calendar()));
        let services_key_calendar_dates_of = |x: &CalendarDate| -> (r: Option<String>)
            ensures
                opt_view(r) == Some(x.service_id@),
            {
                Some(owned(x.service_id.as_str()))
            };
        add_keys(&mut services, &g.calendar_dates, services_key_calendar_dates_of, Ghost(services_key_calendar_dates()));
        assert(services@ =~= ids_of(g.calendar@, services_key_calendar()) + ids_of(g.calendar_dates@, services_key_calendar_dates()));
        let mut shapes = StringHashSet::new();
        let shapes_key_of = |x: &ShapePoint| -> (r: Option<String>)
            ensures
                opt_view(r) == Some(x.shape_id@),
            {
                Some(owned(x.shape_id.as_str()))
            };
        add_keys(&mut shapes, &g.shapes, shapes_key_of, Ghost(shapes_key()));
        assert(shapes@ =~= ids_of(g.shapes@, shapes_key()));
        let mut levels = StringHashSet::new();
        let levels_key_of = |x: &Level| -> (r: Option<String>)
            ensures
                opt_view(r) == Some(x.level_id@),
            {
                Some(owned(x.level_id.as_str()))
            };
        add_keys(&mut levels, &g.levels, levels_key_of, Ghost(levels_key()));
        assert(levels@ =~= ids_of(g.levels@, levels_key()));
        let mut areas = StringHashSet::new();
        let areas_key_of = |x: &Area| -> (r: Option<String>)
            ensures
                opt_view(r) == Some(x.area_id@),
            {
                Some(owned(x.area_id.as_str()))
            };
        add_keys(&mut areas, &g.areas, areas_key_of, Ghost(areas_key()));
        assert(areas@ =~= ids_of(g.areas@, areas_key()));
        let mut networks = StringHashSet::new();
        let networks_key_networks_of = |x: &Network| -> (r: Option<String>)
            ensures
                opt_view(r) == Some(x.network_id@),
            {
                Some(owned(x.network_id.as_str()))
            };
        add_keys(&mut networks, &g.networks, networks_key_networks_of, Ghost(networks_key_networks()));
        let networks_key_routes_of = |x: &Route| -> (r: Option<String>)
            ensures
                opt_view(r) == opt_view(x.network_id),
            {
                match &x.network_id {
                    Some(id) => Some(owned(id.as_str())),
                    None => None,
                }
            };
        add_keys(&mut networks, &g.routes, networks_key_routes_of, Ghost(networks_key_routes()));
        assert(networks@ =~= ids_of(g.networks@, networks_key_networks()) + ids_of(g.routes@, networks_key_routes()));
        let mut location_groups = StringHashSet::new();
        let location_groups_key_of = |x: &LocationGroup| -> (r: Option<String>)
            ensures
                opt_view(r) == Some(x.location_group_id@),
            {
                Some(owned(x.location_group_id.as_str()))
            };
        add_keys(&mut location_groups, &g.location_groups, location_groups_key_of, Ghost(location_groups_key()));
        assert(location_groups@ =~= ids_of(g.location_groups@, location_groups_key()));
        let mut locations = StringHashSet::new();
        let locations_key_of = |x: &Location| -> (r: Option<String>)
            ensures
                opt_view(r) == Some(x.location_id@),
            {
                Some(owned(x.location_id.as_str()))
            };
        add_keys(&mut locations, &g.locations, locations_key_of, Ghost(locations_key()));
        assert(locations@ =~= ids_of(g.locations@, locations_key()));
        let mut booking_rules = StringHashSet::new();
        let booking_rules_key_of = |x: &BookingRule| -> (r: Option<String>)
            ensures
                opt_view(r) == Some(x.booking_rule_id@),
            {
                Some(owned(x.booking_rule_id.as_str()))
            };
        add_keys(&mut booking_rules, &g.booking_rules, booking_rules_key_of, Ghost(booking_rules_key()));
        assert(booking_rules@ =~= ids_of(g.booking_rules@, booking_rules_key()));
        let mut fares_v1 = StringHashSet::new();
        let fares_v1_key_of = |x: &FareAttributeV1| -> (r: Option<String>)
            ensures
                opt_view(r) == Some(x.fare_id@),
            {
                Some(owned(x.fare_id.as_str()))
            };
        add_keys(&mut fares_v1, &g.fare_attributes, fares_v1_key_of, Ghost(fares_v1_key()));
        assert(fares_v1@ =~= ids_of(g.fare_attributes@, fares_v1_key()));
        let mut fare_products = StringHashSet::new();
        let fare_products_key_of = |x: &FareProduct| -> (r: Option<String>)
            ensures
                opt_view(r) == Some(x.fare_product_id@),
            {
                Some(owned(x.fare_product_id.as_str()))
            };
        add_keys(&mut fare_products, &g.fare_products, fare_products_key_of, Ghost(fare_products_key()));
        assert(fare_products@ =~= ids_of(g.fare_products@, fare_products_key()));
        let mut fare_media = StringHashSet::new();
        let fare_media_key_of = |x: &FareMedia| -> (r: Option<String>)
            ensures
                opt_view(r) == Some(x.fare_media_id@),
            {
                Some(owned(x.fare_media_id.as_str()))
            };
        add_keys(&mut fare_media, &g.fare_media, fare_media_key_of, Ghost(fare_media_key()));
        assert(fare_media@ =~= ids_of(g.fare_media@, fare_media_key()));
        let mut rider_categories = StringHashSet::new();
        let rider_categories_key_of = |x: &RiderCategory| -> (r: Option<String>)
            ensures
                opt_view(r) == Some(x.rider_category_id@),
            {
                Some(owned(x.rider_category_id.as_str()))
            };
        add_keys(&mut rider_categories, &g.rider_categories, rider_categories_key_of, Ghost(rider_categories_key()));
        assert(rider_categories@ =~= ids_of(g.rider_categories@, rider_categories_key()));
        let mut timeframe_groups = StringHashSet::new();
        let timeframe_groups_key_of = |x: &Timeframe| -> (r: Option<String>)
            ensures
                opt_view(r) == Some(x.timeframe_group_id@),
            {
                Some(owned(x.timeframe_group_id.as_str()))
            };
        add_keys(&mut timeframe_groups, &g.timeframes, timeframe_groups_key_of, Ghost(timeframe_groups_key()));
        assert(timeframe_groups@ =~= ids_of(g.timeframes@, timeframe_groups_key()));
        let mut leg_groups = StringHashSet::new();
        let leg_groups_key_of = |x: &FareLegRule| -> (r: Option<String>)
            ensures
                opt_view(r) == opt_view(x.leg_group_id),
            {
                match &x.leg_group_id {
                    Some(id) => Some(owned(id.as_str())),
                    None => None,
                }
            };
        add_keys(&mut leg_groups, &g.fare_leg_rules, leg_groups_key_of, Ghost(leg_groups_key()));
        assert(leg_groups@ =~= ids_of(g.fare_leg_rules@, leg_groups_key()));
        Ids {
            agencies,
            stops,
            stations,
            platforms,
            zones,
            routes,
            trips,
            services,
            shapes,
            levels,
            areas,
            networks,
            location_groups,
            locations,
            booking_rules,
            fares_v1,
            fare_products,
            fare_media,
            rider_categories,
            timeframe_groups,
            leg_groups,
        }
    }
}

/// The issue of a reference to an unknown record.
pub open spec fn unknown_issue(file: Seq<char>, entity: Seq<char>, field: Seq<char>, value: Seq<char>) -> IssueView {
    field_issue(file, entity, field, Rule::UnknownReference, "references unknown record `"@ + value + "`"@)
}

/// The issues of a required reference: one when `value` is not in `set`.
pub open spec fn req_issues(
    set: Set<Seq<char>>,
    file: Seq<char>,
    entity: Seq<char>,
    field: Seq<char>,
    value: Seq<char>,
) -> Seq<IssueView> {
    issue_if(!set.contains(value), unknown_issue(file, entity, field, value))
}

/// The issues of an optional reference: none when it is not set.
pub open spec fn opt_req_issues(
    set: Set<Seq<char>>,
    file: Seq<char>,
    entity: Seq<char>,
    field: Seq<char>,
    value: Option<Seq<char>>,
) -> Seq<IssueView> {
    match value {
        Some(v) => req_issues(set, file, entity, field, v),
        None => Seq::empty(),
    }
}

/// Builds "references unknown record `value`".
fn unknown_message(value: &str) -> (out: String)
    ensures
        out@ == "references unknown record `"@ + value@ + "`"@,
{
    let mut out = owned("references unknown record `");
    append(&mut out, value);
    append(&mut out, "`");
    out
}

/// Builds `a`, `sep` and `b` one after the other.
fn joined(a: &str, sep: &str, b: &str) -> (out: String)
    ensures
        out@ == a@ + sep@ + b@,
{
    let mut out = owned(a);
    append(&mut out, sep);
    append(&mut out, b);
    out
}

/// Pushes an unknown-reference issue when `value` is not in `set`.
fn req(
    issues: &mut Vec<ValidationIssue>,
    file: &'static str,
    entity: &str,
    field: &str,
    value: &str,
    set: &StringHashSet,
)
    ensures
        issues_view(final(issues)@) == issues_view(old(issues)@) + req_issues(set@, file@, entity@, field@, value@),
{
    let known = set.contains(value);
    let message = unknown_message(value);
    push_field_error_if(issues, !known, file, entity, field, Rule::UnknownReference, message.as_str());
}

/// Pushes an unknown-reference issue when `value` is set and not in `set`.
fn opt_req(
    issues: &mut Vec<ValidationIssue>,
    file: &'static str,
    entity: &str,
    field: &str,
    value: &Option<String>,
    set: &StringHashSet,
)
    ensures
        issues_view(final(issues)@) == issues_view(old(issues)@) + opt_req_issues(
            set@,
            file@,
            entity@,
            field@,
            opt_view(*value),
        ),
{
    match value {
        Some(v) => req(issues, file, entity, field, v.as_str(), set),
        None => {
            assert(issues_view(issues@) =~= issues_view(issues@) + Seq::<IssueView>::empty());
        },
    }
}

/// Reference issues of one record of `trips.txt`.
pub open spec fn trip_ref_issues(ids: IdSets, t: Trip) -> Seq<IssueView> {
    let e = t.trip_id@;
    req_issues(ids.routes, "trips.txt"@, e, "route_id"@, t.route_id@)
        + req_issues(ids.services, "trips.txt"@, e, "service_id"@, t.service_id@)
        + opt_req_issues(ids.shapes, "trips.txt"@, e, "shape_id"@, opt_view(t.shape_id))
}

fn check_trip_refs(issues: &mut Vec<ValidationIssue>, ids: &Ids, t: &Trip)
    ensures
        issues_view(final(issues)@) == issues_view(old(issues)@) + trip_ref_issues(ids.view(), *t),
{
    let ghost before = issues_view(issues@);
    let e = t.trip_id.as_str();
    let ghost ids_v = ids.view();
    let ghost e_s = t.trip_id@;
    req(issues, "trips.txt", e, "route_id", t.route_id.as_str(), &ids.routes);
    req(issues, "trips.txt", e, "service_id", t.service_id.as_str(), &ids.services);
    opt_req(issues, "trips.txt", e, "shape_id", &t.shape_id, &ids.shapes);
    assert(issues_view(issues@) =~= before + trip_ref_issues(ids.view(), *t));
}

/// The reference issues of each trip, given the ids of the dataset.
pub open spec fn each_trip_refs(ids: IdSets) -> spec_fn(int, Trip) -> Seq<IssueView> {
    |i: int, x: Trip| trip_ref_issues(ids, x)
}

fn check_trips_refs(issues: &mut Vec<ValidationIssue>, ids: &Ids, items: &Vec<Trip>)
    ensures
        issues_view(final(issues)@) == issues_view(old(issues)@) + flat_map(items@, each_trip_refs(ids.view())),
{
    let ghost start = issues_view(issues@);
    let mut i: usize = 0;
    while i < items.len()
        invariant
            i <= items.len(),
            issues_view(issues@) == start + flat_map(items@.take(i as int), each_trip_refs(ids.view())),
        decreases items.len() - i,
    {
        check_trip_refs(issues, ids, &items[i]);
        proof {
            lemma_flat_map_step(items@, each_trip_refs(ids.view()), i as int);
        }
        i = i + 1;
    }
    proof {
        lemma_flat_map_all(items@, each_trip_refs(ids.view()));
    }
}

/// Reference issues of one record of `stop_times.txt`.
pub open spec fn stop_time_ref_issues(ids: IdSets, st: StopTime) -> Seq<IssueView> {
    let e = stop_time_entity(st);
    req_issues(ids.trips, "stop_times.txt"@, e, "trip_id"@, st.trip_id@)
        + (stop_time_stop_issues(ids, st))
        + opt_req_issues(ids.location_groups, "stop_times.txt"@, e, "location_group_id"@, opt_view(st.location_group_id))
        + opt_req_issues(ids.locations, "stop_times.txt"@, e, "location_id"@, opt_view(st.location_id))
        + opt_req_issues(ids.booking_rules, "stop_times.txt"@, e, "pickup_booking_rule_id"@, opt_view(st.pickup_booking_rule_id))
        + opt_req_issues(ids.booking_rules, "stop_times.txt"@, e, "drop_off_booking_rule_id"@, opt_view(st.drop_off_booking_rule_id))
}

#[verifier::spinoff_prover]
fn check_stop_time_refs(issues: &mut Vec<ValidationIssue>, ids: &Ids, st: &StopTime)
    ensures
        issues_view(final(issues)@) == issues_view(old(issues)@) + stop_time_ref_issues(ids.view(), *st),
{
    let ghost before = issues_view(issues@);
    let entity = stop_time_entity_of(st.trip_id.as_str(), st.stop_sequence);
    let e = entity.as_str();
    let ghost ids_v = ids.view();
    let ghost e_s = stop_time_entity(*st);
    req(issues, "stop_times.txt", e, "trip_id", st.trip_id.as_str(), &ids.trips);
    check_stop_time_stop(issues, ids, st, e);
    opt_req(issues, "stop_times.txt", e, "location_group_id", &st.location_group_id, &ids.location_groups);
    opt_req(issues, "stop_times.txt", e, "location_id", &st.location_id, &ids.locations);
    opt_req(issues, "stop_times.txt", e, "pickup_booking_rule_id", &st.pickup_booking_rule_id, &ids.booking_rules);
    opt_req(issues, "stop_times.txt", e, "drop_off_booking_rule_id", &st.drop_off_booking_rule_id, &ids.booking_rules);
    assert(issues_view(issues@) =~= before + stop_time_ref_issues(ids.view(), *st));
}

/// The reference issues of each stop time, given the ids of the dataset.
pub open spec fn each_stop_time_refs(ids: IdSets) -> spec_fn(int, StopTime) -> Seq<IssueView> {
    |i: int, x: StopTime| stop_time_ref_issues(ids, x)
}

fn check_stop_times_refs(issues: &mut Vec<ValidationIssue>, ids: &Ids, items: &Vec<StopTime>)
    ensures
        issues_view(final(issues)@) == issues_view(old(issues)@) + flat_map(items@, each_stop_time_refs(ids.view())),
{
    let ghost start = issues_view(issues@);
    let mut i: usize = 0;
    while i < items.len()
        invariant
            i <= items.len(),
            issues_view(issues@) == start + flat_map(items@.take(i as int), each_stop_time_refs(ids.view())),
        decreases items.len() - i,
    {
        check_stop_time_refs(issues, ids, &items[i]);
        proof {
            lemma_flat_map_step(items@, each_stop_time_refs(ids.view()), i as int);
        }
        i = i + 1;
    }
    proof {
        lemma_flat_map_all(items@, each_stop_time_refs(ids.view()));
    }
}

/// Reference issues of one record of `stops.txt`.
pub open spec fn stop_ref_issues(ids: IdSets, s: Stop) -> Seq<IssueView> {
    let e = s.stop_id@;
    (parent_station_issues(ids, s))
        + opt_req_issues(ids.levels, "stops.txt"@, e, "level_id"@, opt_view(s.level_id))
}

fn check_stop_refs(issues: &mut Vec<ValidationIssue>, ids: &Ids, s: &Stop)
    ensures
        issues_view(final(issues)@) == issues_view(old(issues)@) + stop_ref_issues(ids.view(), *s),
{
    let ghost before = issues_view(issues@);
    let e = s.stop_id.as_str();
    let ghost ids_v = ids.view();
    let ghost e_s = s.stop_id@;
    check_parent_station(issues, ids, s);
    opt_req(issues, "stops.txt", e, "level_id", &s.level_id, &ids.levels);
    assert(issues_view(issues@) =~= before + stop_ref_issues(ids.view(), *s));
}

/// The reference issues of each stop, given the ids of the dataset.
pub open spec fn each_stop_refs(ids: IdSets) -> spec_fn(int, Stop) -> Seq<IssueView> {
    |i: int, x: Stop| stop_ref_issues(ids, x)
}

fn check_stops_refs(issues: &mut Vec<ValidationIssue>, ids: &Ids, items: &Vec<Stop>)
    ensures
        issues_view(final(issues)@) == issues_view(old(issues)@) + flat_map(items@, each_stop_refs(ids.view())),
{
    let ghost start = issues_view(issues@);
    let mut i: usize = 0;
    while i < items.len()
        invariant
            i <= items.len(),
            issues_view(issues@) == start + flat_map(items@.take(i as int), each_stop_refs(ids.view())),
        decreases items.len() - i,
    {
        check_stop_refs(issues, ids, &items[i]);
        proof {
            lemma_flat_map_step(items@, each_stop_refs(ids.view()), i as int);
        }
        i = i + 1;
    }
    proof {
        lemma_flat_map_all(items@, each_stop_refs(ids.view()));
    }
}

/// Reference issues of one record of `routes.txt`.
pub open spec fn route_ref_issues(ids: IdSets, r: Route) -> Seq<IssueView> {
    let e = r.route_id@;
    opt_req_issues(ids.agencies, "routes.txt"@, e, "agency_id"@, opt_view(r.agency_id))
}

fn check_route_refs(issues: &mut Vec<ValidationIssue>, ids: &Ids, r: &Route)
    ensures
        issues_view(final(issues)@) == issues_view(old(issues)@) + route_ref_issues(ids.view(), *r),
{
    let ghost before = issues_view(issues@);
    let e = r.route_id.as_str();
    let ghost ids_v = ids.view();
    let ghost e_s = r.route_id@;
    opt_req(issues, "routes.txt", e, "agency_id", &r.agency_id, &ids.agencies);
    assert(issues_view(issues@) =~= before + route_ref_issues(ids.view(), *r));
}

/// The reference issues of each route, given the ids of the dataset.
pub open spec fn each_route_refs(ids: IdSets) -> spec_fn(int, Route) -> Seq<IssueView> {
    |i: int, x: Route| route_ref_issues(ids, x)
}

fn check_routes_refs(issues: &mut Vec<ValidationIssue>, ids: &Ids, items: &Vec<Route>)
    ensures
        issues_view(final(issues)@) == issues_view(old(issues)@) + flat_map(items@, each_route_refs(ids.view())),
{
    let ghost start = issues_view(issues@);
    let mut i: usize = 0;
    while i < items.len()
        invariant
            i <= items.len(),
            issues_view(issues@) == start + flat_map(items@.take(i as int), each_route_refs(ids.view())),
        decreases items.len() - i,
    {
        check_route_refs(issues, ids, &items[i]);
        proof {
            lemma_flat_map_step(items@, each_route_refs(ids.view()), i as int);
        }
        i = i + 1;
    }
    proof {
        lemma_flat_map_all(items@, each_route_refs(ids.view()));
    }
}

/// Reference issues of one record of `fare_attributes.txt`.
pub open spec fn fare_attribute_ref_issues(ids: IdSets, f: FareAttributeV1) -> Seq<IssueView> {
    let e = f.fare_id@;
    opt_req_issues(ids.agencies, "fare_attributes.txt"@, e, "agency_id"@, opt_view(f.agency_id))
}

fn check_fare_attribute_refs(issues: &mut Vec<ValidationIssue>, ids: &Ids, f: &FareAttributeV1)
    ensures
        issues_view(final(issues)@) == issues_view(old(issues)@) + fare_attribute_ref_issues(ids.view(), *f),
{
    let ghost before = issues_view(issues@);
    let e = f.fare_id.as_str();
    let ghost ids_v = ids.view();
    let ghost e_s = f.fare_id@;
    opt_req(issues, "fare_attributes.txt", e, "agency_id", &f.agency_id, &ids.agencies);
    assert(issues_view(issues@) =~= before + fare_attribute_ref_issues(ids.view(), *f));
}

/// The reference issues of each fare attribute, given the ids of the dataset.
pub open spec fn each_fare_attribute_refs(ids: IdSets) -> spec_fn(int, FareAttributeV1) -> Seq<IssueView> {
    |i: int, x: FareAttributeV1| fare_attribute_ref_issues(ids, x)
}

fn check_fare_attributes_refs(issues: &mut Vec<ValidationIssue>, ids: &Ids, items: &Vec<FareAttributeV1>)
    ensures
        issues_view(final(issues)@) == issues_view(old(issues)@) + flat_map(items@, each_fare_attribute_refs(ids.view())),
{
    let ghost start = issues_view(issues@);
    let mut i: usize = 0;
    while i < items.len()
        invariant
            i <= items.len(),
            issues_view(issues@) == start + flat_map(items@.take(i as int), each_fare_attribute_refs(ids.view())),
        decreases items.len() - i,
    {
        check_fare_attribute_refs(issues, ids, &items[i]);
        proof {
            lemma_flat_map_step(items@, each_fare_attribute_refs(ids.view()), i as int);
        }
        i = i + 1;
    }
    proof {
        lemma_flat_map_all(items@, each_fare_attribute_refs(ids.view()));
    }
}

/// Reference issues of one record of `frequencies.txt`.
pub open spec fn frequency_ref_issues(ids: IdSets, f: Frequency) -> Seq<IssueView> {
    let e = f.trip_id@;
    req_issues(ids.trips, "frequencies.txt"@, e, "trip_id"@, f.trip_id@)
}

fn check_frequency_refs(issues: &mut Vec<ValidationIssue>, ids: &Ids, f: &Frequency)
    ensures
        issues_view(final(issues)@) == issues_view(old(issues)@) + frequency_ref_issues(ids.view(), *f),
{
    let ghost before = issues_view(issues@);
    let e = f.trip_id.as_str();
    let ghost ids_v = ids.view();
    let ghost e_s = f.trip_id@;
    req(issues, "frequencies.txt", e, "trip_id", f.trip_id.as_str(), &ids.trips);
    assert(issues_view(issues@) =~= before + frequency_ref_issues(ids.view(), *f));
}

/// The reference issues of each frequency, given the ids of the dataset.
pub open spec fn each_frequency_refs(ids: IdSets) -> spec_fn(int, Frequency) -> Seq<IssueView> {
    |i: int, x: Frequency| frequency_ref_issues(ids, x)
}

fn check_frequencies_refs(issues: &mut Vec<ValidationIssue>, ids: &Ids, items: &Vec<Frequency>)
    ensures
        issues_view(final(issues)@) == issues_view(old(issues)@) + flat_map(items@, each_frequency_refs(ids.view())),
{
    let ghost start = issues_view(issues@);
    let mut i: usize = 0;
    while i < items.len()
        invariant
            i <= items.len(),
            issues_view(issues@) == start + flat_map(items@.take(i as int), each_frequency_refs(ids.view())),
        decreases items.len() - i,
    {
        check_frequency_refs(issues, ids, &items[i]);
        proof {
            lemma_flat_map_step(items@, each_frequency_refs(ids.view()), i as int);
        }
        i = i + 1;
    }
    proof {
        lemma_flat_map_all(items@, each_frequency_refs(ids.view()));
    }
}

/// Reference issues of one record of `timeframes.txt`.
pub open spec fn timeframe_ref_issues(ids: IdSets, t: Timeframe) -> Seq<IssueView> {
    let e = t.timeframe_group_id@;
    req_issues(ids.services, "timeframes.txt"@, e, "service_id"@, t.service_id@)
}

fn check_timeframe_refs(issues: &mut Vec<ValidationIssue>, ids: &Ids, t: &Timeframe)
    ensures
        issues_view(final(issues)@) == issues_view(old(issues)@) + timeframe_ref_issues(ids.view(), *t),
{
    let ghost before = issues_view(issues@);
    let e = t.timeframe_group_id.as_str();
    let ghost ids_v = ids.view();
    let ghost e_s = t.timeframe_group_id@;
    req(issues, "timeframes.txt", e, "service_id", t.service_id.as_str(), &ids.services);
    assert(issues_view(issues@) =~= before + timeframe_ref_issues(ids.view(), *t));
}

/// The reference issues of each timeframe, given the ids of the dataset.
pub open spec fn each_timeframe_refs(ids: IdSets) -> spec_fn(int, Timeframe) -> Seq<IssueView> {
    |i: int, x: Timeframe| timeframe_ref_issues(ids, x)
}

fn check_timeframes_refs(issues: &mut Vec<ValidationIssue>, ids: &Ids, items: &Vec<Timeframe>)
    ensures
        issues_view(final(issues)@) == issues_view(old(issues)@) + flat_map(items@, each_timeframe_refs(ids.view())),
{
    let ghost start = issues_view(issues@);
    let mut i: usize = 0;
    while i < items.len()
        invariant
            i <= items.len(),
            issues_view(issues@) == start + flat_map(items@.take(i as int), each_timeframe_refs(ids.view())),
        decreases items.len() - i,
    {
        check_timeframe_refs(issues, ids, &items[i]);
        proof {
            lemma_flat_map_step(items@, each_timeframe_refs(ids.view()), i as int);
        }
        i = i + 1;
    }
    proof {
        lemma_flat_map_all(items@, each_timeframe_refs(ids.view()));
    }
}

/// Reference issues of one record of `transfers.txt`.
pub open spec fn transfer_ref_issues(ids: IdSets, index: int, t: Transfer) -> Seq<IssueView> {
    let e = row_entity(index);
    opt_req_issues(ids.stops, "transfers.txt"@, e, "from_stop_id"@, opt_view(t.from_stop_id))
        + opt_req_issues(ids.stops, "transfers.txt"@, e, "to_stop_id"@, opt_view(t.to_stop_id))
        + opt_req_issues(ids.routes, "transfers.txt"@, e, "from_route_id"@, opt_view(t.from_route_id))
        + opt_req_issues(ids.routes, "transfers.txt"@, e, "to_route_id"@, opt_view(t.to_route_id))
        + opt_req_issues(ids.trips, "transfers.txt"@, e, "from_trip_id"@, opt_view(t.from_trip_id))
        + opt_req_issues(ids.trips, "transfers.txt"@, e, "to_trip_id"@, opt_view(t.to_trip_id))
}

#[verifier::rlimit(40)]
#[verifier::spinoff_prover]
fn check_transfer_refs(issues: &mut Vec<ValidationIssue>, ids: &Ids, index: usize, t: &Transfer)
    requires
        index < usize::MAX,
    ensures
        issues_view(final(issues)@) == issues_view(old(issues)@) + transfer_ref_issues(ids.view(), index as int, *t),
{
    let ghost before = issues_view(issues@);
    let entity = row_entity_of(index);
    let e = entity.as_str();
    let ghost ids_v = ids.view();
    let ghost e_s = row_entity(index as int);
    opt_req(issues, "transfers.txt", e, "from_stop_id", &t.from_stop_id, &ids.stops);
    opt_req(issues, "transfers.txt", e, "to_stop_id", &t.to_stop_id, &ids.stops);
    opt_req(issues, "transfers.txt", e, "from_route_id", &t.from_route_id, &ids.routes);
    opt_req(issues, "transfers.txt", e, "to_route_id", &t.to_route_id, &ids.routes);
    opt_req(issues, "transfers.txt", e, "from_trip_id", &t.from_trip_id, &ids.trips);
    opt_req(issues, "transfers.txt", e, "to_trip_id", &t.to_trip_id, &ids.trips);
    assert(issues_view(issues@) =~= before + transfer_ref_issues(ids.view(), index as int, *t));
}

/// The reference issues of each transfer, given the ids of the dataset.
pub open spec fn each_transfer_refs(ids: IdSets) -> spec_fn(int, Transfer) -> Seq<IssueView> {
    |i: int, x: Transfer| transfer_ref_issues(ids, i, x)
}

fn check_transfers_refs(issues: &mut Vec<ValidationIssue>, ids: &Ids, items: &Vec<Transfer>)
    ensures
        issues_view(final(issues)@) == issues_view(old(issues)@) + flat_map(items@, each_transfer_refs(ids.view())),
{
    let ghost start = issues_view(issues@);
    let mut i: usize = 0;
    while i < items.len()
        invariant
            i <= items.len(),
            issues_view(issues@) == start + flat_map(items@.take(i as int), each_transfer_refs(ids.view())),
        decreases items.len() - i,
    {
        check_transfer_refs(issues, ids, i, &items[i]);
        proof {
            lemma_flat_map_step(items@, each_transfer_refs(ids.view()), i as int);
        }
        i = i + 1;
    }
    proof {
        lemma_flat_map_all(items@, each_transfer_refs(ids.view()));
    }
}

/// Reference issues of one record of `pathways.txt`.
pub open spec fn pathway_ref_issues(ids: IdSets, p: Pathway) -> Seq<IssueView> {
    let e = p.pathway_id@;
    (endpoint_issues(ids, p.pathway_id@, "from_stop_id"@, p.from_stop_id@))
        + (endpoint_issues(ids, p.pathway_id@, "to_stop_id"@, p.to_stop_id@))
}

fn check_pathway_refs(issues: &mut Vec<ValidationIssue>, ids: &Ids, p: &Pathway)
    ensures
        issues_view(final(issues)@) == issues_view(old(issues)@) + pathway_ref_issues(ids.view(), *p),
{
    let ghost before = issues_view(issues@);
    let e = p.pathway_id.as_str();
    let ghost ids_v = ids.view();
    let ghost e_s = p.pathway_id@;
    check_endpoint(issues, ids, p.pathway_id.as_str(), "from_stop_id", p.from_stop_id.as_str());
    check_endpoint(issues, ids, p.pathway_id.as_str(), "to_stop_id", p.to_stop_id.as_str());
    assert(issues_view(issues@) =~= before + pathway_ref_issues(ids.view(), *p));
}

/// The reference issues of each pathway, given the ids of the dataset.
pub open spec fn each_pathway_refs(ids: IdSets) -> spec_fn(int, Pathway) -> Seq<IssueView> {
    |i: int, x: Pathway| pathway_ref_issues(ids, x)
}

fn check_pathways_refs(issues: &mut Vec<ValidationIssue>, ids: &Ids, items: &Vec<Pathway>)
    ensures
        issues_view(final(issues)@) == issues_view(old(issues)@) + flat_map(items@, each_pathway_refs(ids.view())),
{
    let ghost start = issues_view(issues@);
    let mut i: usize = 0;
    while i < items.len()
        invariant
            i <= items.len(),
            issues_view(issues@) == start + flat_map(items@.take(i as int), each_pathway_refs(ids.view())),
        decreases items.len() - i,
    {
        check_pathway_refs(issues, ids, &items[i]);
        proof {
            lemma_flat_map_step(items@, each_pathway_refs(ids.view()), i as int);
        }
        i = i + 1;
    }
    proof {
        lemma_flat_map_all(items@, each_pathway_refs(ids.view()));
    }
}

/// Reference issues of one record of `fare_rules.txt`.
pub open spec fn fare_rule_ref_issues(ids: IdSets, r: FareRuleV1) -> Seq<IssueView> {
    let e = r.fare_id@;
    req_issues(ids.fares_v1, "fare_rules.txt"@, e, "fare_id"@, r.fare_id@)
        + opt_req_issues(ids.routes, "fare_rules.txt"@, e, "route_id"@, opt_view(r.route_id))
        + opt_req_issues(ids.zones, "fare_rules.txt"@, e, "origin_id"@, opt_view(r.origin_id))
        + opt_req_issues(ids.zones, "fare_rules.txt"@, e, "destination_id"@, opt_view(r.destination_id))
        + opt_req_issues(ids.zones, "fare_rules.txt"@, e, "contains_id"@, opt_view(r.contains_id))
}

#[verifier::spinoff_prover]
fn check_fare_rule_refs(issues: &mut Vec<ValidationIssue>, ids: &Ids, r: &FareRuleV1)
    ensures
        issues_view(final(issues)@) == issues_view(old(issues)@) + fare_rule_ref_issues(ids.view(), *r),
{
    let ghost before = issues_view(issues@);
    let e = r.fare_id.as_str();
    let ghost ids_v = ids.view();
    let ghost e_s = r.fare_id@;
    req(issues, "fare_rules.txt", e, "fare_id", r.fare_id.as_str(), &ids.fares_v1);
    opt_req(issues, "fare_rules.txt", e, "route_id", &r.route_id, &ids.routes);
    opt_req(issues, "fare_rules.txt", e, "origin_id", &r.origin_id, &ids.zones);
    opt_req(issues, "fare_rules.txt", e, "destination_id", &r.destination_id, &ids.zones);
    opt_req(issues, "fare_rules.txt", e, "contains_id", &r.contains_id, &ids.zones);
    assert(issues_view(issues@) =~= before + fare_rule_ref_issues(ids.view(), *r));
}

/// The reference issues of each fare rule, given the ids of the dataset.
pub open spec fn each_fare_rule_refs(ids: IdSets) -> spec_fn(int, FareRuleV1) -> Seq<IssueView> {
    |i: int, x: FareRuleV1| fare_rule_ref_issues(ids, x)
}

fn check_fare_rules_refs(issues: &mut Vec<ValidationIssue>, ids: &Ids, items: &Vec<FareRuleV1>)
    ensures
        issues_view(final(issues)@) == issues_view(old(issues)@) + flat_map(items@, each_fare_rule_refs(ids.view())),
{
    let ghost start = issues_view(issues@);
    let mut i: usize = 0;
    while i < items.len()
        invariant
            i <= items.len(),
            issues_view(issues@) == start + flat_map(items@.take(i as int), each_fare_rule_refs(ids.view())),
        decreases items.len() - i,
    {
        check_fare_rule_refs(issues, ids, &items[i]);
        proof {
            lemma_flat_map_step(items@, each_fare_rule_refs(ids.view()), i as int);
        }
        i = i + 1;
    }
    proof {
        lemma_flat_map_all(items@, each_fare_rule_refs(ids.view()));
    }
}

/// Reference issues of one record of `fare_products.txt`.
pub open spec fn fare_product_ref_issues(ids: IdSets, p: FareProduct) -> Seq<IssueView> {
    let e = p.fare_product_id@;
    opt_req_issues(ids.rider_categories, "fare_products.txt"@, e, "rider_category_id"@, opt_view(p.rider_category_id))
        + opt_req_issues(ids.fare_media, "fare_products.txt"@, e, "fare_media_id"@, opt_view(p.fare_media_id))
}

fn check_fare_product_refs(issues: &mut Vec<ValidationIssue>, ids: &Ids, p: &FareProduct)
    ensures
        issues_view(final(issues)@) == issues_view(old(issues)@) + fare_product_ref_issues(ids.view(), *p),
{
    let ghost before = issues_view(issues@);
    let e = p.fare_product_id.as_str();
    let ghost ids_v = ids.view();
    let ghost e_s = p.fare_product_id@;
    opt_req(issues, "fare_products.txt", e, "rider_category_id", &p.rider_category_id, &ids.rider_categories);
    opt_req(issues, "fare_products.txt", e, "fare_media_id", &p.fare_media_id, &ids.fare_media);
    assert(issues_view(issues@) =~= before + fare_product_ref_issues(ids.view(), *p));
}

/// The reference issues of each fare product, given the ids of the dataset.
pub open spec fn each_fare_product_refs(ids: IdSets) -> spec_fn(int, FareProduct) -> Seq<IssueView> {
    |i: int, x: FareProduct| fare_product_ref_issues(ids, x)
}

fn check_fare_products_refs(issues: &mut Vec<ValidationIssue>, ids: &Ids, items: &Vec<FareProduct>)
    ensures
        issues_view(final(issues)@) == issues_view(old(issues)@) + flat_map(items@, each_fare_product_refs(ids.view())),
{
    let ghost start = issues_view(issues@);
    let mut i: usize = 0;
    while i < items.len()
        invariant
            i <= items.len(),
            issues_view(issues@) == start + flat_map(items@.take(i as int), each_fare_product_refs(ids.view())),
        decreases items.len() - i,
    {
        check_fare_product_refs(issues, ids, &items[i]);
        proof {
            lemma_flat_map_step(items@, each_fare_product_refs(ids.view()), i as int);
        }
        i = i + 1;
    }
    proof {
        lemma_flat_map_all(items@, each_fare_product_refs(ids.view()));
    }
}

/// Reference issues of one record of `fare_leg_rules.txt`.
pub open spec fn fare_leg_rule_ref_issues(ids: IdSets, r: FareLegRule) -> Seq<IssueView> {
    let e = fare_leg_entity(r);
    req_issues(ids.fare_products, "fare_leg_rules.txt"@, e, "fare_product_id"@, r.fare_product_id@)
        + opt_req_issues(ids.networks, "fare_leg_rules.txt"@, e, "network_id"@, opt_view(r.network_id))
        + opt_req_issues(ids.areas, "fare_leg_rules.txt"@, e, "from_area_id"@, opt_view(r.from_area_id))
        + opt_req_issues(ids.areas, "fare_leg_rules.txt"@, e, "to_area_id"@, opt_view(r.to_area_id))
        + opt_req_issues(ids.timeframe_groups, "fare_leg_rules.txt"@, e, "from_timeframe_group_id"@, opt_view(r.from_timeframe_group_id))
        + opt_req_issues(ids.timeframe_groups, "fare_leg_rules.txt"@, e, "to_timeframe_group_id"@, opt_view(r.to_timeframe_group_id))
}

#[verifier::spinoff_prover]
fn check_fare_leg_rule_refs(issues: &mut Vec<ValidationIssue>, ids: &Ids, r: &FareLegRule)
    ensures
        issues_view(final(issues)@) == issues_view(old(issues)@) + fare_leg_rule_ref_issues(ids.view(), *r),
{
    let ghost before = issues_view(issues@);
    let entity: &str = match &r.leg_group_id {
        Some(g) => g.as_str(),
        None => r.fare_product_id.as_str(),
    };
    let e = entity;
    let ghost ids_v = ids.view();
    let ghost e_s = fare_leg_entity(*r);
    req(issues, "fare_leg_rules.txt", e, "fare_product_id", r.fare_product_id.as_str(), &ids.fare_products);
    opt_req(issues, "fare_leg_rules.txt", e, "network_id", &r.network_id, &ids.networks);
    opt_req(issues, "fare_leg_rules.txt", e, "from_area_id", &r.from_area_id, &ids.areas);
    opt_req(issues, "fare_leg_rules.txt", e, "to_area_id", &r.to_area_id, &ids.areas);
    opt_req(issues, "fare_leg_rules.txt", e, "from_timeframe_group_id", &r.from_timeframe_group_id, &ids.timeframe_groups);
    opt_req(issues, "fare_leg_rules.txt", e, "to_timeframe_group_id", &r.to_timeframe_group_id, &ids.timeframe_groups);
    assert(issues_view(issues@) =~= before + fare_leg_rule_ref_issues(ids.view(), *r));
}

/// The reference issues of each fare leg rule, given the ids of the dataset.
pub open spec fn each_fare_leg_rule_refs(ids: IdSets) -> spec_fn(int, FareLegRule) -> Seq<IssueView> {
    |i: int, x: FareLegRule| fare_leg_rule_ref_issues(ids, x)
}

fn check_fare_leg_rules_refs(issues: &mut Vec<ValidationIssue>, ids: &Ids, items: &Vec<FareLegRule>)
    ensures
        issues_view(final(issues)@) == issues_view(old(issues)@) + flat_map(items@, each_fare_leg_rule_refs(ids.view())),
{
    let ghost start = issues_view(issues@);
    let mut i: usize = 0;
    while i < items.len()
        invariant
            i <= items.len(),
            issues_view(issues@) == start + flat_map(items@.take(i as int), each_fare_leg_rule_refs(ids.view())),
        decreases items.len() - i,
    {
        check_fare_leg_rule_refs(issues, ids, &items[i]);
        proof {
            lemma_flat_map_step(items@, each_fare_leg_rule_refs(ids.view()), i as int);
        }
        i = i + 1;
    }
    proof {
        lemma_flat_map_all(items@, each_fare_leg_rule_refs(ids.view()));
    }
}

/// Reference issues of one record of `fare_transfer_rules.txt`.
pub open spec fn fare_transfer_rule_ref_issues(ids: IdSets, index: int, r: FareTransferRule) -> Seq<IssueView> {
    let e = row_entity(index);
    opt_req_issues(ids.leg_groups, "fare_transfer_rules.txt"@, e, "from_leg_group_id"@, opt_view(r.from_leg_group_id))
        + opt_req_issues(ids.leg_groups, "fare_transfer_rules.txt"@, e, "to_leg_group_id"@, opt_view(r.to_leg_group_id))
        + opt_req_issues(ids.fare_products, "fare_transfer_rules.txt"@, e, "fare_product_id"@, opt_view(r.fare_product_id))
}

fn check_fare_transfer_rule_refs(issues: &mut Vec<ValidationIssue>, ids: &Ids, index: usize, r: &FareTransferRule)
    requires
        index < usize::MAX,
    ensures
        issues_view(final(issues)@) == issues_view(old(issues)@) + fare_transfer_rule_ref_issues(ids.view(), index as int, *r),
{
    let ghost before = issues_view(issues@);
    let entity = row_entity_of(index);
    let e = entity.as_str();
    let ghost ids_v = ids.view();
    let ghost e_s = row_entity(index as int);
    opt_req(issues, "fare_transfer_rules.txt", e, "from_leg_group_id", &r.from_leg_group_id, &ids.leg_groups);
    opt_req(issues, "fare_transfer_rules.txt", e, "to_leg_group_id", &r.to_leg_group_id, &ids.leg_groups);
    opt_req(issues, "fare_transfer_rules.txt", e, "fare_product_id", &r.fare_product_id, &ids.fare_products);
    assert(issues_view(issues@) =~= before + fare_transfer_rule_ref_issues(ids.view(), index as int, *r));
}

/// The reference issues of each fare transfer rule, given the ids of the dataset.
pub open spec fn each_fare_transfer_rule_refs(ids: IdSets) -> spec_fn(int, FareTransferRule) -> Seq<IssueView> {
    |i: int, x: FareTransferRule| fare_transfer_rule_ref_issues(ids, i, x)
}

fn check_fare_transfer_rules_refs(issues: &mut Vec<ValidationIssue>, ids: &Ids, items: &Vec<FareTransferRule>)
    ensures
        issues_view(final(issues)@) == issues_view(old(issues)@) + flat_map(items@, each_fare_transfer_rule_refs(ids.view())),
{
    let ghost start = issues_view(issues@);
    let mut i: usize = 0;
    while i < items.len()
        invariant
            i <= items.len(),
            issues_view(issues@) == start + flat_map(items@.take(i as int), each_fare_transfer_rule_refs(ids.view())),
        decreases items.len() - i,
    {
        check_fare_transfer_rule_refs(issues, ids, i, &items[i]);
        proof {
            lemma_flat_map_step(items@, each_fare_transfer_rule_refs(ids.view()), i as int);
        }
        i = i + 1;
    }
    proof {
        lemma_flat_map_all(items@, each_fare_transfer_rule_refs(ids.view()));
    }
}

/// Reference issues of one record of `fare_leg_join_rules.txt`.
pub open spec fn fare_leg_join_rule_ref_issues(ids: IdSets, j: FareLegJoinRule) -> Seq<IssueView> {
    let e = j.from_network_id@ + "->"@ + j.to_network_id@;
    req_issues(ids.networks, "fare_leg_join_rules.txt"@, e, "from_network_id"@, j.from_network_id@)
        + req_issues(ids.networks, "fare_leg_join_rules.txt"@, e, "to_network_id"@, j.to_network_id@)
        + opt_req_issues(ids.stops, "fare_leg_join_rules.txt"@, e, "from_stop_id"@, opt_view(j.from_stop_id))
        + opt_req_issues(ids.stops, "fare_leg_join_rules.txt"@, e, "to_stop_id"@, opt_view(j.to_stop_id))
}

#[verifier::spinoff_prover]
fn check_fare_leg_join_rule_refs(issues: &mut Vec<ValidationIssue>, ids: &Ids, j: &FareLegJoinRule)
    ensures
        issues_view(final(issues)@) == issues_view(old(issues)@) + fare_leg_join_rule_ref_issues(ids.view(), *j),
{
    let ghost before = issues_view(issues@);
    let entity = joined(j.from_network_id.as_str(), "->", j.to_network_id.as_str());
    let e = entity.as_str();
    let ghost ids_v = ids.view();
    let ghost e_s = j.from_network_id@ + "->"@ + j.to_network_id@;
    req(issues, "fare_leg_join_rules.txt", e, "from_network_id", j.from_network_id.as_str(), &ids.networks);
    req(issues, "fare_leg_join_rules.txt", e, "to_network_id", j.to_network_id.as_str(), &ids.networks);
    opt_req(issues, "fare_leg_join_rules.txt", e, "from_stop_id", &j.from_stop_id, &ids.stops);
    opt_req(issues, "fare_leg_join_rules.txt", e, "to_stop_id", &j.to_stop_id, &ids.stops);
    assert(issues_view(issues@) =~= before + fare_leg_join_rule_ref_issues(ids.view(), *j));
}

/// The reference issues of each fare leg join rule, given the ids of the dataset.
pub open spec fn each_fare_leg_join_rule_refs(ids: IdSets) -> spec_fn(int, FareLegJoinRule) -> Seq<IssueView> {
    |i: int, x: FareLegJoinRule| fare_leg_join_rule_ref_issues(ids, x)
}

fn check_fare_leg_join_rules_refs(issues: &mut Vec<ValidationIssue>, ids: &Ids, items: &Vec<FareLegJoinRule>)
    ensures
        issues_view(final(issues)@) == issues_view(old(issues)@) + flat_map(items@, each_fare_leg_join_rule_refs(ids.view())),
{
    let ghost start = issues_view(issues@);
    let mut i: usize = 0;
    while i < items.len()
        invariant
            i <= items.len(),
            issues_view(issues@) == start + flat_map(items@.take(i as int), each_fare_leg_join_rule_refs(ids.view())),
        decreases items.len() - i,
    {
        check_fare_leg_join_rule_refs(issues, ids, &items[i]);
        proof {
            lemma_flat_map_step(items@, each_fare_leg_join_rule_refs(ids.view()), i as int);
        }
        i = i + 1;
    }
    proof {
        lemma_flat_map_all(items@, each_fare_leg_join_rule_refs(ids.view()));
    }
}

/// Reference issues of one record of `stop_areas.txt`.
pub open spec fn stop_area_ref_issues(ids: IdSets, a: StopArea) -> Seq<IssueView> {
    let e = a.area_id@ + ":"@ + a.stop_id@;
    req_issues(ids.areas, "stop_areas.txt"@, e, "area_id"@, a.area_id@)
        + req_issues(ids.stops, "stop_areas.txt"@, e, "stop_id"@, a.stop_id@)
}

fn check_stop_area_refs(issues: &mut Vec<ValidationIssue>, ids: &Ids, a: &StopArea)
    ensures
        issues_view(final(issues)@) == issues_view(old(issues)@) + stop_area_ref_issues(ids.view(), *a),
{
    let ghost before = issues_view(issues@);
    let entity = joined(a.area_id.as_str(), ":", a.stop_id.as_str());
    let e = entity.as_str();
    let ghost ids_v = ids.view();
    let ghost e_s = a.area_id@ + ":"@ + a.stop_id@;
    req(issues, "stop_areas.txt", e, "area_id", a.area_id.as_str(), &ids.areas);
    req(issues, "stop_areas.txt", e, "stop_id", a.stop_id.as_str(), &ids.stops);
    assert(issues_view(issues@) =~= before + stop_area_ref_issues(ids.view(), *a));
}

/// The reference issues of each stop area, given the ids of the dataset.
pub open spec fn each_stop_area_refs(ids: IdSets) -> spec_fn(int, StopArea) -> Seq<IssueView> {
    |i: int, x: StopArea| stop_area_ref_issues(ids, x)
}

fn check_stop_areas_refs(issues: &mut Vec<ValidationIssue>, ids: &Ids, items: &Vec<StopArea>)
    ensures
        issues_view(final(issues)@) == issues_view(old(issues)@) + flat_map(items@, each_stop_area_refs(ids.view())),
{
    let ghost start = issues_view(issues@);
    let mut i: usize = 0;
    while i < items.len()
        invariant
            i <= items.len(),
            issues_view(issues@) == start + flat_map(items@.take(i as int), each_stop_area_refs(ids.view())),
        decreases items.len() - i,
    {
        check_stop_area_refs(issues, ids, &items[i]);
        proof {
            lemma_flat_map_step(items@, each_stop_area_refs(ids.view()), i as int);
        }
        i = i + 1;
    }
    proof {
        lemma_flat_map_all(items@, each_stop_area_refs(ids.view()));
    }
}

/// Reference issues of one record of `route_networks.txt`.
pub open spec fn route_network_ref_issues(ids: IdSets, n: RouteNetwork) -> Seq<IssueView> {
    let e = n.network_id@ + ":"@ + n.route_id@;
    req_issues(ids.networks, "route_networks.txt"@, e, "network_id"@, n.network_id@)
        + req_issues(ids.routes, "route_networks.txt"@, e, "route_id"@, n.route_id@)
}

fn check_route_network_refs(issues: &mut Vec<ValidationIssue>, ids: &Ids, n: &RouteNetwork)
    ensures
        issues_view(final(issues)@) == issues_view(old(issues)@) + route_network_ref_issues(ids.view(), *n),
{
    let ghost before = issues_view(issues@);
    let entity = joined(n.network_id.as_str(), ":", n.route_id.as_str());
    let e = entity.as_str();
    let ghost ids_v = ids.view();
    let ghost e_s = n.network_id@ + ":"@ + n.route_id@;
    req(issues, "route_networks.txt", e, "network_id", n.network_id.as_str(), &ids.networks);
    req(issues, "route_networks.txt", e, "route_id", n.route_id.as_str(), &ids.routes);
    assert(issues_view(issues@) =~= before + route_network_ref_issues(ids.view(), *n));
}

/// The reference issues of each route network, given the ids of the dataset.
pub open spec fn each_route_network_refs(ids: IdSets) -> spec_fn(int, RouteNetwork) -> Seq<IssueView> {
    |i: int, x: RouteNetwork| route_network_ref_issues(ids, x)
}

fn check_route_networks_refs(issues: &mut Vec<ValidationIssue>, ids: &Ids, items: &Vec<RouteNetwork>)
    ensures
        issues_view(final(issues)@) == issues_view(old(issues)@) + flat_map(items@, each_route_network_refs(ids.view())),
{
    let ghost start = issues_view(issues@);
    let mut i: usize = 0;
    while i < items.len()
        invariant
            i <= items.len(),
            issues_view(issues@) == start + flat_map(items@.take(i as int), each_route_network_refs(ids.view())),
        decreases items.len() - i,
    {
        check_route_network_refs(issues, ids, &items[i]);
        proof {
            lemma_flat_map_step(items@, each_route_network_refs(ids.view()), i as int);
        }
        i = i + 1;
    }
    proof {
        lemma_flat_map_all(items@, each_route_network_refs(ids.view()));
    }
}

/// Reference issues of one record of `location_group_stops.txt`.
pub open spec fn location_group_stop_ref_issues(ids: IdSets, g: LocationGroupStop) -> Seq<IssueView> {
    let e = g.location_group_id@ + ":"@ + g.stop_id@;
    req_issues(ids.location_groups, "location_group_stops.txt"@, e, "location_group_id"@, g.location_group_id@)
        + req_issues(ids.stops, "location_group_stops.txt"@, e, "stop_id"@, g.stop_id@)
}

fn check_location_group_stop_refs(issues: &mut Vec<ValidationIssue>, ids: &Ids, g: &LocationGroupStop)
    ensures
        issues_view(final(issues)@) == issues_view(old(issues)@) + location_group_stop_ref_issues(ids.view(), *g),
{
    let ghost before = issues_view(issues@);
    let entity = joined(g.location_group_id.as_str(), ":", g.stop_id.as_str());
    let e = entity.as_str();
    let ghost ids_v = ids.view();
    let ghost e_s = g.location_group_id@ + ":"@ + g.stop_id@;
    req(issues, "location_group_stops.txt", e, "location_group_id", g.location_group_id.as_str(), &ids.location_groups);
    req(issues, "location_group_stops.txt", e, "stop_id", g.stop_id.as_str(), &ids.stops);
    assert(issues_view(issues@) =~= before + location_group_stop_ref_issues(ids.view(), *g));
}

/// The reference issues of each location group stop, given the ids of the dataset.
pub open spec fn each_location_group_stop_refs(ids: IdSets) -> spec_fn(int, LocationGroupStop) -> Seq<IssueView> {
    |i: int, x: LocationGroupStop| location_group_stop_ref_issues(ids, x)
}

fn check_location_group_stops_refs(issues: &mut Vec<ValidationIssue>, ids: &Ids, items: &Vec<LocationGroupStop>)
    ensures
        issues_view(final(issues)@) == issues_view(old(issues)@) + flat_map(items@, each_location_group_stop_refs(ids.view())),
{
    let ghost start = issues_view(issues@);
    let mut i: usize = 0;
    while i < items.len()
        invariant
            i <= items.len(),
            issues_view(issues@) == start + flat_map(items@.take(i as int), each_location_group_stop_refs(ids.view())),
        decreases items.len() - i,
    {
        check_location_group_stop_refs(issues, ids, &items[i]);
        proof {
            lemma_flat_map_step(items@, each_location_group_stop_refs(ids.view()), i as int);
        }
        i = i + 1;
    }
    proof {
        lemma_flat_map_all(items@, each_location_group_stop_refs(ids.view()));
    }
}

/// Reference issues of one record of `booking_rules.txt`.
pub open spec fn booking_rule_ref_issues(ids: IdSets, b: BookingRule) -> Seq<IssueView> {
    let e = b.booking_rule_id@;
    opt_req_issues(ids.services, "booking_rules.txt"@, e, "prior_notice_service_id"@, opt_view(b.prior_notice_service_id))
}

fn check_booking_rule_refs(issues: &mut Vec<ValidationIssue>, ids: &Ids, b: &BookingRule)
    ensures
        issues_view(final(issues)@) == issues_view(old(issues)@) + booking_rule_ref_issues(ids.view(), *b),
{
    let ghost before = issues_view(issues@);
    let e = b.booking_rule_id.as_str();
    let ghost ids_v = ids.view();
    let ghost e_s = b.booking_rule_id@;
    opt_req(issues, "booking_rules.txt", e, "prior_notice_service_id", &b.prior_notice_service_id, &ids.services);
    assert(issues_view(issues@) =~= before + booking_rule_ref_issues(ids.view(), *b));
}

/// The reference issues of each booking rule, given the ids of the dataset.
pub open spec fn each_booking_rule_refs(ids: IdSets) -> spec_fn(int, BookingRule) -> Seq<IssueView> {
    |i: int, x: BookingRule| booking_rule_ref_issues(ids, x)
}

fn check_booking_rules_refs(issues: &mut Vec<ValidationIssue>, ids: &Ids, items: &Vec<BookingRule>)
    ensures
        issues_view(final(issues)@) == issues_view(old(issues)@) + flat_map(items@, each_booking_rule_refs(ids.view())),
{
    let ghost start = issues_view(issues@);
    let mut i: usize = 0;
    while i < items.len()
        invariant
            i <= items.len(),
            issues_view(issues@) == start + flat_map(items@.take(i as int), each_booking_rule_refs(ids.view())),
        decreases items.len() - i,
    {
        check_booking_rule_refs(issues, ids, &items[i]);
        proof {
            lemma_flat_map_step(items@, each_booking_rule_refs(ids.view()), i as int);
        }
        i = i + 1;
    }
    proof {
        lemma_flat_map_all(items@, each_booking_rule_refs(ids.view()));
    }
}

/// Reference issues of one record of `attributions.txt`.
pub open spec fn attribution_ref_issues(ids: IdSets, a: Attribution) -> Seq<IssueView> {
    let e = attribution_entity(a);
    (if ids.agencies.is_empty() { Seq::empty() } else { opt_req_issues(ids.agencies, "attributions.txt"@, e, "agency_id"@, opt_view(a.agency_id)) })
        + opt_req_issues(ids.routes, "attributions.txt"@, e, "route_id"@, opt_view(a.route_id))
        + opt_req_issues(ids.trips, "attributions.txt"@, e, "trip_id"@, opt_view(a.trip_id))
}

fn check_attribution_refs(issues: &mut Vec<ValidationIssue>, ids: &Ids, a: &Attribution)
    ensures
        issues_view(final(issues)@) == issues_view(old(issues)@) + attribution_ref_issues(ids.view(), *a),
{
    let ghost before = issues_view(issues@);
    let entity: &str = match &a.attribution_id {
        Some(id) => id.as_str(),
        None => a.organization_name.as_str(),
    };
    let e = entity;
    let ghost ids_v = ids.view();
    let ghost e_s = attribution_entity(*a);
    check_attribution_agency(issues, ids, a, e);
    opt_req(issues, "attributions.txt", e, "route_id", &a.route_id, &ids.routes);
    opt_req(issues, "attributions.txt", e, "trip_id", &a.trip_id, &ids.trips);
    assert(issues_view(issues@) =~= before + attribution_ref_issues(ids.view(), *a));
}

/// The reference issues of each attribution, given the ids of the dataset.
pub open spec fn each_attribution_refs(ids: IdSets) -> spec_fn(int, Attribution) -> Seq<IssueView> {
    |i: int, x: Attribution| attribution_ref_issues(ids, x)
}

fn check_attributions_refs(issues: &mut Vec<ValidationIssue>, ids: &Ids, items: &Vec<Attribution>)
    ensures
        issues_view(final(issues)@) == issues_view(old(issues)@) + flat_map(items@, each_attribution_refs(ids.view())),
{
    let ghost start = issues_view(issues@);
    let mut i: usize = 0;
    while i < items.len()
        invariant
            i <= items.len(),
            issues_view(issues@) == start + flat_map(items@.take(i as int), each_attribution_refs(ids.view())),
        decreases items.len() - i,
    {
        check_attribution_refs(issues, ids, &items[i]);
        proof {
            lemma_flat_map_step(items@, each_attribution_refs(ids.view()), i as int);
        }
        i = i + 1;
    }
    proof {
        lemma_flat_map_all(items@, each_attribution_refs(ids.view()));
    }
}

/// The record identifier of a fare leg rule: its leg group, or else its
/// fare product.
pub open spec fn fare_leg_entity(r: FareLegRule) -> Seq<char> {
    match r.leg_group_id {
        Some(g) => g@,
        None => r.fare_product_id@,
    }
}

/// Issues of the `stop_id` of a stop time: it must name a known
/// stop/platform.
pub open spec fn stop_time_stop_issues(ids: IdSets, st: StopTime) -> Seq<IssueView> {
    match st.stop_id {
        None => Seq::empty(),
        Some(x) => if !ids.stops.contains(x@) {
            seq![unknown_issue("stop_times.txt"@, stop_time_entity(st), "stop_id"@, x@)]
        } else {
            issue_if(
                !ids.platforms.contains(x@),
                field_issue(
                    "stop_times.txt"@,
                    stop_time_entity(st),
                    "stop_id"@,
                    Rule::StopTimeStopNotPlatform,
                    "stop_id `"@ + x@ + "` is not a stop/platform (location_type 0)"@,
                ),
            )
        },
    }
}

fn check_stop_time_stop(issues: &mut Vec<ValidationIssue>, ids: &Ids, st: &StopTime, e: &str)
    requires
        e@ == stop_time_entity(*st),
    ensures
        issues_view(final(issues)@) == issues_view(old(issues)@) + stop_time_stop_issues(ids.view(), *st),
{
    match &st.stop_id {
        Some(x) => {
            if !ids.stops.contains(x.as_str()) {
                req(issues, "stop_times.txt", e, "stop_id", x.as_str(), &ids.stops);
            } else {
                let mut message = owned("stop_id `");
                append(&mut message, x.as_str());
                append(&mut message, "` is not a stop/platform (location_type 0)");
                push_field_error_if(
                    issues,
                    !ids.platforms.contains(x.as_str()),
                    "stop_times.txt",
                    e,
                    "stop_id",
                    Rule::StopTimeStopNotPlatform,
                    message.as_str(),
                );
            }
        },
        None => {
            assert(issues_view(issues@) =~= issues_view(issues@) + Seq::<IssueView>::empty());
        },
    }
}

/// Issues of the `parent_station` of a stop: it must name a known
/// location of the kind that the stop's own kind calls for.
pub open spec fn parent_station_issues(ids: IdSets, s: Stop) -> Seq<IssueView> {
    match s.parent_station {
        None => Seq::empty(),
        Some(p) => if !ids.stops.contains(p@) {
            seq![unknown_issue("stops.txt"@, s.stop_id@, "parent_station"@, p@)]
        } else {
            match s.location_type {
                LocationType::BoardingArea => issue_if(
                    !ids.platforms.contains(p@),
                    field_issue(
                        "stops.txt"@,
                        s.stop_id@,
                        "parent_station"@,
                        Rule::ParentStationNotPlatform,
                        "parent_station `"@ + p@ + "` of a boarding area is not a platform"@,
                    ),
                ),
                LocationType::Station => Seq::empty(),
                _ => issue_if(
                    !ids.stations.contains(p@),
                    field_issue(
                        "stops.txt"@,
                        s.stop_id@,
                        "parent_station"@,
                        Rule::ParentStationNotStation,
                        "parent_station `"@ + p@ + "` is not a station"@,
                    ),
                ),
            }
        },
    }
}

fn check_parent_station(issues: &mut Vec<ValidationIssue>, ids: &Ids, s: &Stop)
    ensures
        issues_view(final(issues)@) == issues_view(old(issues)@) + parent_station_issues(ids.view(), *s),
{
    match &s.parent_station {
        Some(p) => {
            let id = s.stop_id.as_str();
            if !ids.stops.contains(p.as_str()) {
                req(issues, "stops.txt", id, "parent_station", p.as_str(), &ids.stops);
            } else {
                match s.location_type {
                    LocationType::BoardingArea => {
                        let mut message = owned("parent_station `");
                        append(&mut message, p.as_str());
                        append(&mut message, "` of a boarding area is not a platform");
                        push_field_error_if(
                            issues,
                            !ids.platforms.contains(p.as_str()),
                            "stops.txt",
                            id,
                            "parent_station",
                            Rule::ParentStationNotPlatform,
                            message.as_str(),
                        );
                    },
                    LocationType::Station => {
                        assert(issues_view(issues@) =~= issues_view(issues@) + Seq::<IssueView>::empty());
                    },
                    _ => {
                        let mut message = owned("parent_station `");
                        append(&mut message, p.as_str());
                        append(&mut message, "` is not a station");
                        push_field_error_if(
                            issues,
                            !ids.stations.contains(p.as_str()),
                            "stops.txt",
                            id,
                            "parent_station",
                            Rule::ParentStationNotStation,
                            message.as_str(),
                        );
                    },
                }
            }
        },
        None => {
            assert(issues_view(issues@) =~= issues_view(issues@) + Seq::<IssueView>::empty());
        },
    }
}

/// Issues of a pathway endpoint: it must name a known location that is
/// not a station.
pub open spec fn endpoint_issues(ids: IdSets, entity: Seq<char>, field: Seq<char>, v: Seq<char>) -> Seq<IssueView> {
    if !ids.stops.contains(v) {
        seq![unknown_issue("pathways.txt"@, entity, field, v)]
    } else {
        issue_if(
            ids.stations.contains(v),
            field_issue(
                "pathways.txt"@,
                entity,
                field,
                Rule::PathwayEndpointIsStation,
                field + " `"@ + v
                    + "` is a station (location_type 1); pathway endpoints must be platforms, entrances, generic nodes or boarding areas"@,
            ),
        )
    }
}

fn check_endpoint(issues: &mut Vec<ValidationIssue>, ids: &Ids, entity: &str, field: &str, v: &str)
    ensures
        issues_view(final(issues)@) == issues_view(old(issues)@) + endpoint_issues(
            ids.view(),
            entity@,
            field@,
            v@,
        ),
{
    if !ids.stops.contains(v) {
        req(issues, "pathways.txt", entity, field, v, &ids.stops);
    } else {
        let mut message = owned(field);
        append(&mut message, " `");
        append(&mut message, v);
        append(
            &mut message,
            "` is a station (location_type 1); pathway endpoints must be platforms, entrances, generic nodes or boarding areas",
        );
        push_field_error_if(
            issues,
            ids.stations.contains(v),
            "pathways.txt",
            entity,
            field,
            Rule::PathwayEndpointIsStation,
            message.as_str(),
        );
    }
}

/// With no agency id in the dataset (a single agency without one), an
/// attribution's `agency_id` cannot be checked.
fn check_attribution_agency(issues: &mut Vec<ValidationIssue>, ids: &Ids, a: &Attribution, e: &str)
    requires
        e@ == attribution_entity(*a),
    ensures
        issues_view(final(issues)@) == issues_view(old(issues)@) + if ids.view().agencies.is_empty() {
            Seq::empty()
        } else {
            opt_req_issues(
                ids.view().agencies,
                "attributions.txt"@,
                attribution_entity(*a),
                "agency_id"@,
                opt_view(a.agency_id),
            )
        },
{
    if !ids.agencies.is_empty() {
        opt_req(issues, "attributions.txt", e, "agency_id", &a.agency_id, &ids.agencies);
    } else {
        assert(issues_view(issues@) =~= issues_view(issues@) + Seq::<IssueView>::empty());
    }
}

/// Issues of every referential-integrity rule, in the order of the
/// checks; agency references are checked only when some agency has an
/// id.
pub open spec fn ref_issues(g: GtfsReference) -> Seq<IssueView> {
    network_ref_issues(g) + movement_ref_issues(g) + fare_ref_issues(g) + link_ref_issues(g)
}

/// References of trips, stop times, stops, routes and fares to the
/// network.
pub open spec fn network_ref_issues(g: GtfsReference) -> Seq<IssueView> {
    let ids = id_sets(g);
    flat_map(g.trips@, each_trip_refs(ids)) + flat_map(g.stop_times@, each_stop_time_refs(ids))
        + flat_map(g.stops@, each_stop_refs(ids)) + agency_ref_issues(g)
}

/// References of frequencies, timeframes, transfers and pathways.
pub open spec fn movement_ref_issues(g: GtfsReference) -> Seq<IssueView> {
    let ids = id_sets(g);
    flat_map(g.frequencies@, each_frequency_refs(ids)) + flat_map(
        g.timeframes@,
        each_timeframe_refs(ids),
    ) + flat_map(g.transfers@, each_transfer_refs(ids)) + flat_map(
        g.pathways@,
        each_pathway_refs(ids),
    )
}

/// References of the link tables, booking rules and attributions.
pub open spec fn link_ref_issues(g: GtfsReference) -> Seq<IssueView> {
    let ids = id_sets(g);
    flat_map(g.stop_areas@, each_stop_area_refs(ids)) + flat_map(
        g.route_networks@,
        each_route_network_refs(ids),
    ) + flat_map(g.location_group_stops@, each_location_group_stop_refs(ids)) + flat_map(
        g.booking_rules@,
        each_booking_rule_refs(ids),
    ) + flat_map(g.attributions@, each_attribution_refs(ids))
}

/// Agency references of routes and fares, when some agency has an id.
pub open spec fn agency_ref_issues(g: GtfsReference) -> Seq<IssueView> {
    let ids = id_sets(g);
    if ids.agencies.is_empty() {
        Seq::empty()
    } else {
        flat_map(g.routes@, each_route_refs(ids)) + flat_map(
            g.fare_attributes@,
            each_fare_attribute_refs(ids),
        )
    }
}

/// References of the fare tables.
pub open spec fn fare_ref_issues(g: GtfsReference) -> Seq<IssueView> {
    let ids = id_sets(g);
    flat_map(g.fare_rules@, each_fare_rule_refs(ids)) + flat_map(
        g.fare_products@,
        each_fare_product_refs(ids),
    ) + flat_map(g.fare_leg_rules@, each_fare_leg_rule_refs(ids)) + flat_map(
        g.fare_transfer_rules@,
        each_fare_transfer_rule_refs(ids),
    ) + flat_map(g.fare_leg_join_rules@, each_fare_leg_join_rule_refs(ids))
}

fn check_agency_refs(issues: &mut Vec<ValidationIssue>, ids: &Ids, g: &GtfsReference)
    requires
        ids.view() == id_sets(*g),
    ensures
        issues_view(final(issues)@) == issues_view(old(issues)@) + agency_ref_issues(*g),
{
    let ghost start = issues_view(issues@);
    if !ids.agencies.is_empty() {
        check_routes_refs(issues, ids, &g.routes);
        check_fare_attributes_refs(issues, ids, &g.fare_attributes);
    }
    assert(issues_view(issues@) =~= start + agency_ref_issues(*g));
}

fn check_fare_refs(issues: &mut Vec<ValidationIssue>, ids: &Ids, g: &GtfsReference)
    requires
        ids.view() == id_sets(*g),
    ensures
        issues_view(final(issues)@) == issues_view(old(issues)@) + fare_ref_issues(*g),
{
    let ghost start = issues_view(issues@);
    check_fare_rules_refs(issues, ids, &g.fare_rules);
    check_fare_products_refs(issues, ids, &g.fare_products);
    check_fare_leg_rules_refs(issues, ids, &g.fare_leg_rules);
    check_fare_transfer_rules_refs(issues, ids, &g.fare_transfer_rules);
    check_fare_leg_join_rules_refs(issues, ids, &g.fare_leg_join_rules);
    assert(issues_view(issues@) =~= start + fare_ref_issues(*g));
}

fn check_network_refs(issues: &mut Vec<ValidationIssue>, ids: &Ids, g: &GtfsReference)
    requires
        ids.view() == id_sets(*g),
    ensures
        issues_view(final(issues)@) == issues_view(old(issues)@) + network_ref_issues(*g),
{
    let ghost start = issues_view(issues@);
    check_trips_refs(issues, ids, &g.trips);
    check_stop_times_refs(issues, ids, &g.stop_times);
    check_stops_refs(issues, ids, &g.stops);
    check_agency_refs(issues, ids, g);
    assert(issues_view(issues@) =~= start + network_ref_issues(*g));
}

fn check_movement_refs(issues: &mut Vec<ValidationIssue>, ids: &Ids, g: &GtfsReference)
    requires
        ids.view() == id_sets(*g),
    ensures
        issues_view(final(issues)@) == issues_view(old(issues)@) + movement_ref_issues(*g),
{
    let ghost start = issues_view(issues@);
    check_frequencies_refs(issues, ids, &g.frequencies);
    check_timeframes_refs(issues, ids, &g.timeframes);
    check_transfers_refs(issues, ids, &g.transfers);
    check_pathways_refs(issues, ids, &g.pathways);
    assert(issues_view(issues@) =~= start + movement_ref_issues(*g));
}

fn check_link_refs(issues: &mut Vec<ValidationIssue>, ids: &Ids, g: &GtfsReference)
    requires
        ids.view() == id_sets(*g),
    ensures
        issues_view(final(issues)@) == issues_view(old(issues)@) + link_ref_issues(*g),
{
    let ghost start = issues_view(issues@);
    check_stop_areas_refs(issues, ids, &g.stop_areas);
    check_route_networks_refs(issues, ids, &g.route_networks);
    check_location_group_stops_refs(issues, ids, &g.location_group_stops);
    check_booking_rules_refs(issues, ids, &g.booking_rules);
    check_attributions_refs(issues, ids, &g.attributions);
    assert(issues_view(issues@) =~= start + link_ref_issues(*g));
}

/// Runs every referential-integrity rule.
pub fn check(gtfs: &GtfsReference, issues: &mut Vec<ValidationIssue>)
    ensures
        issues_view(final(issues)@) == issues_view(old(issues)@) + ref_issues(*gtfs),
{
    let ghost start = issues_view(issues@);
    let ids = Ids::collect(gtfs);
    check_network_refs(issues, &ids, gtfs);
    check_movement_refs(issues, &ids, gtfs);
    check_fare_refs(issues, &ids, gtfs);
    check_link_refs(issues, &ids, gtfs);
    assert(issues_view(issues@) =~= start + ref_issues(*gtfs));
}

#[verifier::spinoff_prover]
proof fn lemma_each_trip_refs_fits(ids: IdSets)
    ensures
        forall|i: int, x: Trip| all_fit(#[trigger] each_trip_refs(ids)(i, x)),
{
    assert forall|i: int, x: Trip| all_fit(#[trigger] each_trip_refs(ids)(i, x)) by {}
}

#[verifier::spinoff_prover]
proof fn lemma_each_stop_time_refs_fits(ids: IdSets)
    ensures
        forall|i: int, x: StopTime| all_fit(#[trigger] each_stop_time_refs(ids)(i, x)),
{
    assert forall|i: int, x: StopTime| all_fit(#[trigger] each_stop_time_refs(ids)(i, x)) by {}
}

#[verifier::spinoff_prover]
proof fn lemma_each_stop_refs_fits(ids: IdSets)
    ensures
        forall|i: int, x: Stop| all_fit(#[trigger] each_stop_refs(ids)(i, x)),
{
    assert forall|i: int, x: Stop| all_fit(#[trigger] each_stop_refs(ids)(i, x)) by {}
}

#[verifier::spinoff_prover]
proof fn lemma_each_frequency_refs_fits(ids: IdSets)
    ensures
        forall|i: int, x: Frequency| all_fit(#[trigger] each_frequency_refs(ids)(i, x)),
{
    assert forall|i: int, x: Frequency| all_fit(#[trigger] each_frequency_refs(ids)(i, x)) by {}
}

#[verifier::spinoff_prover]
proof fn lemma_each_timeframe_refs_fits(ids: IdSets)
    ensures
        forall|i: int, x: Timeframe| all_fit(#[trigger] each_timeframe_refs(ids)(i, x)),
{
    assert forall|i: int, x: Timeframe| all_fit(#[trigger] each_timeframe_refs(ids)(i, x)) by {}
}

#[verifier::spinoff_prover]
proof fn lemma_each_transfer_refs_fits(ids: IdSets)
    ensures
        forall|i: int, x: Transfer| all_fit(#[trigger] each_transfer_refs(ids)(i, x)),
{
    assert forall|i: int, x: Transfer| all_fit(#[trigger] each_transfer_refs(ids)(i, x)) by {}
}

#[verifier::spinoff_prover]
proof fn lemma_each_pathway_refs_fits(ids: IdSets)
    ensures
        forall|i: int, x: Pathway| all_fit(#[trigger] each_pathway_refs(ids)(i, x)),
{
    assert forall|i: int, x: Pathway| all_fit(#[trigger] each_pathway_refs(ids)(i, x)) by {}
}

#[verifier::spinoff_prover]
proof fn lemma_each_fare_rule_refs_fits(ids: IdSets)
    ensures
        forall|i: int, x: FareRuleV1| all_fit(#[trigger] each_fare_rule_refs(ids)(i, x)),
{
    assert forall|i: int, x: FareRuleV1| all_fit(#[trigger] each_fare_rule_refs(ids)(i, x)) by {}
}

#[verifier::spinoff_prover]
proof fn lemma_each_fare_product_refs_fits(ids: IdSets)
    ensures
        forall|i: int, x: FareProduct| all_fit(#[trigger] each_fare_product_refs(ids)(i, x)),
{
    assert forall|i: int, x: FareProduct| all_fit(#[trigger] each_fare_product_refs(ids)(i, x)) by {}
}

#[verifier::spinoff_prover]
proof fn lemma_each_fare_leg_rule_refs_fits(ids: IdSets)
    ensures
        forall|i: int, x: FareLegRule| all_fit(#[trigger] each_fare_leg_rule_refs(ids)(i, x)),
{
    assert forall|i: int, x: FareLegRule| all_fit(#[trigger] each_fare_leg_rule_refs(ids)(i, x)) by {}
}

#[verifier::spinoff_prover]
proof fn lemma_each_fare_transfer_rule_refs_fits(ids: IdSets)
    ensures
        forall|i: int, x: FareTransferRule| all_fit(#[trigger] each_fare_transfer_rule_refs(ids)(i, x)),
{
    assert forall|i: int, x: FareTransferRule| all_fit(#[trigger] each_fare_transfer_rule_refs(ids)(i, x)) by {}
}

#[verifier::spinoff_prover]
proof fn lemma_each_fare_leg_join_rule_refs_fits(ids: IdSets)
    ensures
        forall|i: int, x: FareLegJoinRule| all_fit(#[trigger] each_fare_leg_join_rule_refs(ids)(i, x)),
{
    assert forall|i: int, x: FareLegJoinRule| all_fit(#[trigger] each_fare_leg_join_rule_refs(ids)(i, x)) by {}
}

#[verifier::spinoff_prover]
proof fn lemma_each_stop_area_refs_fits(ids: IdSets)
    ensures
        forall|i: int, x: StopArea| all_fit(#[trigger] each_stop_area_refs(ids)(i, x)),
{
    assert forall|i: int, x: StopArea| all_fit(#[trigger] each_stop_area_refs(ids)(i, x)) by {}
}

#[verifier::spinoff_prover]
proof fn lemma_each_route_network_refs_fits(ids: IdSets)
    ensures
        forall|i: int, x: RouteNetwork| all_fit(#[trigger] each_route_network_refs(ids)(i, x)),
{
    assert forall|i: int, x: RouteNetwork| all_fit(#[trigger] each_route_network_refs(ids)(i, x)) by {}
}

#[verifier::spinoff_prover]
proof fn lemma_each_location_group_stop_refs_fits(ids: IdSets)
    ensures
        forall|i: int, x: LocationGroupStop| all_fit(#[trigger] each_location_group_stop_refs(ids)(i, x)),
{
    assert forall|i: int, x: LocationGroupStop| all_fit(#[trigger] each_location_group_stop_refs(ids)(i, x)) by {}
}

#[verifier::spinoff_prover]
proof fn lemma_each_booking_rule_refs_fits(ids: IdSets)
    ensures
        forall|i: int, x: BookingRule| all_fit(#[trigger] each_booking_rule_refs(ids)(i, x)),
{
    assert forall|i: int, x: BookingRule| all_fit(#[trigger] each_booking_rule_refs(ids)(i, x)) by {}
}

#[verifier::spinoff_prover]
proof fn lemma_each_attribution_refs_fits(ids: IdSets)
    ensures
        forall|i: int, x: Attribution| all_fit(#[trigger] each_attribution_refs(ids)(i, x)),
{
    assert forall|i: int, x: Attribution| all_fit(#[trigger] each_attribution_refs(ids)(i, x)) by {}
}

#[verifier::spinoff_prover]
proof fn lemma_each_route_refs_fits(ids: IdSets)
    ensures
        forall|i: int, x: Route| all_fit(#[trigger] each_route_refs(ids)(i, x)),
{
    assert forall|i: int, x: Route| all_fit(#[trigger] each_route_refs(ids)(i, x)) by {}
}

#[verifier::spinoff_prover]
proof fn lemma_each_fare_attribute_refs_fits(ids: IdSets)
    ensures
        forall|i: int, x: FareAttributeV1| all_fit(#[trigger] each_fare_attribute_refs(ids)(i, x)),
{
    assert forall|i: int, x: FareAttributeV1| all_fit(#[trigger] each_fare_attribute_refs(ids)(i, x)) by {}
}

proof fn lemma_network_ref_issues_fit(g: GtfsReference)
    ensures
        all_fit(network_ref_issues(g)),
{
    let ids = id_sets(g);
    lemma_each_trip_refs_fits(ids);
    lemma_flat_map_fits(g.trips@, each_trip_refs(ids));
    lemma_each_stop_time_refs_fits(ids);
    lemma_flat_map_fits(g.stop_times@, each_stop_time_refs(ids));
    lemma_each_stop_refs_fits(ids);
    lemma_flat_map_fits(g.stops@, each_stop_refs(ids));
    lemma_agency_ref_issues_fit(g);
    lemma_fit_join(flat_map(g.trips@, each_trip_refs(ids)), flat_map(g.stop_times@, each_stop_time_refs(ids)));
    lemma_fit_join(flat_map(g.trips@, each_trip_refs(ids)) + flat_map(g.stop_times@, each_stop_time_refs(ids)), flat_map(g.stops@, each_stop_refs(ids)));
    lemma_fit_join(flat_map(g.trips@, each_trip_refs(ids)) + flat_map(g.stop_times@, each_stop_time_refs(ids)) + flat_map(g.stops@, each_stop_refs(ids)), agency_ref_issues(g));
}

proof fn lemma_movement_ref_issues_fit(g: GtfsReference)
    ensures
        all_fit(movement_ref_issues(g)),
{
    let ids = id_sets(g);
    lemma_each_frequency_refs_fits(ids);
    lemma_flat_map_fits(g.frequencies@, each_frequency_refs(ids));
    lemma_each_timeframe_refs_fits(ids);
    lemma_flat_map_fits(g.timeframes@, each_timeframe_refs(ids));
    lemma_each_transfer_refs_fits(ids);
    lemma_flat_map_fits(g.transfers@, each_transfer_refs(ids));
    lemma_each_pathway_refs_fits(ids);
    lemma_flat_map_fits(g.pathways@, each_pathway_refs(ids));
    lemma_fit_join(flat_map(g.frequencies@, each_frequency_refs(ids)), flat_map(g.timeframes@, each_timeframe_refs(ids)));
    lemma_fit_join(flat_map(g.frequencies@, each_frequency_refs(ids)) + flat_map(g.timeframes@, each_timeframe_refs(ids)), flat_map(g.transfers@, each_transfer_refs(ids)));
    lemma_fit_join(flat_map(g.frequencies@, each_frequency_refs(ids)) + flat_map(g.timeframes@, each_timeframe_refs(ids)) + flat_map(g.transfers@, each_transfer_refs(ids)), flat_map(g.pathways@, each_pathway_refs(ids)));
}

proof fn lemma_fare_ref_issues_fit(g: GtfsReference)
    ensures
        all_fit(fare_ref_issues(g)),
{
    let ids = id_sets(g);
    lemma_each_fare_rule_refs_fits(ids);
    lemma_flat_map_fits(g.fare_rules@, each_fare_rule_refs(ids));
    lemma_each_fare_product_refs_fits(ids);
    lemma_flat_map_fits(g.fare_products@, each_fare_product_refs(ids));
    lemma_each_fare_leg_rule_refs_fits(ids);
    lemma_flat_map_fits(g.fare_leg_rules@, each_fare_leg_rule_refs(ids));
    lemma_each_fare_transfer_rule_refs_fits(ids);
    lemma_flat_map_fits(g.fare_transfer_rules@, each_fare_transfer_rule_refs(ids));
    lemma_each_fare_leg_join_rule_refs_fits(ids);
    lemma_flat_map_fits(g.fare_leg_join_rules@, each_fare_leg_join_rule_refs(ids));
    lemma_fit_join(flat_map(g.fare_rules@, each_fare_rule_refs(ids)), flat_map(g.fare_products@, each_fare_product_refs(ids)));
    lemma_fit_join(flat_map(g.fare_rules@, each_fare_rule_refs(ids)) + flat_map(g.fare_products@, each_fare_product_refs(ids)), flat_map(g.fare_leg_rules@, each_fare_leg_rule_refs(ids)));
    lemma_fit_join(flat_map(g.fare_rules@, each_fare_rule_refs(ids)) + flat_map(g.fare_products@, each_fare_product_refs(ids)) + flat_map(g.fare_leg_rules@, each_fare_leg_rule_refs(ids)), flat_map(g.fare_transfer_rules@, each_fare_transfer_rule_refs(ids)));
    lemma_fit_join(flat_map(g.fare_rules@, each_fare_rule_refs(ids)) + flat_map(g.fare_products@, each_fare_product_refs(ids)) + flat_map(g.fare_leg_rules@, each_fare_leg_rule_refs(ids)) + flat_map(g.fare_transfer_rules@, each_fare_transfer_rule_refs(ids)), flat_map(g.fare_leg_join_rules@, each_fare_leg_join_rule_refs(ids)));
}

proof fn lemma_link_ref_issues_fit(g: GtfsReference)
    ensures
        all_fit(link_ref_issues(g)),
{
    let ids = id_sets(g);
    lemma_each_stop_area_refs_fits(ids);
    lemma_flat_map_fits(g.stop_areas@, each_stop_area_refs(ids));
    lemma_each_route_network_refs_fits(ids);
    lemma_flat_map_fits(g.route_networks@, each_route_network_refs(ids));
    lemma_each_location_group_stop_refs_fits(ids);
    lemma_flat_map_fits(g.location_group_stops@, each_location_group_stop_refs(ids));
    lemma_each_booking_rule_refs_fits(ids);
    lemma_flat_map_fits(g.booking_rules@, each_booking_rule_refs(ids));
    lemma_each_attribution_refs_fits(ids);
    lemma_flat_map_fits(g.attributions@, each_attribution_refs(ids));
    lemma_fit_join(flat_map(g.stop_areas@, each_stop_area_refs(ids)), flat_map(g.route_networks@, each_route_network_refs(ids)));
    lemma_fit_join(flat_map(g.stop_areas@, each_stop_area_refs(ids)) + flat_map(g.route_networks@, each_route_network_refs(ids)), flat_map(g.location_group_stops@, each_location_group_stop_refs(ids)));
    lemma_fit_join(flat_map(g.stop_areas@, each_stop_area_refs(ids)) + flat_map(g.route_networks@, each_route_network_refs(ids)) + flat_map(g.location_group_stops@, each_location_group_stop_refs(ids)), flat_map(g.booking_rules@, each_booking_rule_refs(ids)));
    lemma_fit_join(flat_map(g.stop_areas@, each_stop_area_refs(ids)) + flat_map(g.route_networks@, each_route_network_refs(ids)) + flat_map(g.location_group_stops@, each_location_group_stop_refs(ids)) + flat_map(g.booking_rules@, each_booking_rule_refs(ids)), flat_map(g.attributions@, each_attribution_refs(ids)));
}

proof fn lemma_agency_ref_issues_fit(g: GtfsReference)
    ensures
        all_fit(agency_ref_issues(g)),
{
    let ids = id_sets(g);
    if !ids.agencies.is_empty() {
        lemma_each_route_refs_fits(ids);
        lemma_flat_map_fits(g.routes@, each_route_refs(ids));
        lemma_each_fare_attribute_refs_fits(ids);
        lemma_flat_map_fits(g.fare_attributes@, each_fare_attribute_refs(ids));
        lemma_fit_join(flat_map(g.routes@, each_route_refs(ids)), flat_map(g.fare_attributes@, each_fare_attribute_refs(ids)));
    }
}

/// Every reference issue is an error, of a rule other than
/// [`Rule::TripWithoutStopTimes`].
pub proof fn lemma_ref_issues_fit(g: GtfsReference)
    ensures
        all_fit(ref_issues(g)),
{
    lemma_network_ref_issues_fit(g);
    lemma_movement_ref_issues_fit(g);
    lemma_fare_ref_issues_fit(g);
    lemma_link_ref_issues_fit(g);
    lemma_fit_join(network_ref_issues(g), movement_ref_issues(g));
    lemma_fit_join(network_ref_issues(g) + movement_ref_issues(g), fare_ref_issues(g));
    lemma_fit_join(network_ref_issues(g) + movement_ref_issues(g) + fare_ref_issues(g), link_ref_issues(g));
}

/// A trip whose route, service or shape does not exist is reported: for
/// each of `route_id` (no record of `routes.txt`), `service_id` (no
/// record of `calendar.txt` or `calendar_dates.txt`) and `shape_id` (set,
/// and no point of `shapes.txt`), the reference check lists an
/// unknown-reference error on that trip, in `trips.txt`, for that field,
/// quoting the missing id.
pub proof fn lemma_unknown_trip_references_are_reported(g: GtfsReference, i: int)
    requires
        0 <= i < g.trips@.len(),
    ensures
        (forall|k: int| 0 <= k < g.routes@.len() ==> (#[trigger] g.routes@[k]).route_id@ != g.trips@[i].route_id@)
            ==> exists|x: IssueView| {
                &&& #[trigger] ref_issues(g).contains(x)
                &&& x.severity == Severity::Error
                &&& x.rule == Rule::UnknownReference
                &&& x.file == "trips.txt"@
                &&& x.entity_id == Some(g.trips@[i].trip_id@)
                &&& x.field == Some("route_id"@)
                &&& x.message == "references unknown record `"@ + g.trips@[i].route_id@ + "`"@
            },
        ((forall|k: int| 0 <= k < g.calendar@.len() ==> (#[trigger] g.calendar@[k]).service_id@ != g.trips@[i].service_id@)
            && (forall|k: int|
            0 <= k < g.calendar_dates@.len() ==> (#[trigger] g.calendar_dates@[k]).service_id@ != g.trips@[i].service_id@))
            ==> exists|x: IssueView| {
                &&& #[trigger] ref_issues(g).contains(x)
                &&& x.severity == Severity::Error
                &&& x.rule == Rule::UnknownReference
                &&& x.file == "trips.txt"@
                &&& x.entity_id == Some(g.trips@[i].trip_id@)
                &&& x.field == Some("service_id"@)
                &&& x.message == "references unknown record `"@ + g.trips@[i].service_id@ + "`"@
            },
        (g.trips@[i].shape_id is Some && forall|k: int|
            0 <= k < g.shapes@.len() ==> (#[trigger] g.shapes@[k]).shape_id@ != g.trips@[i].shape_id->Some_0@)
            ==> exists|x: IssueView| {
                &&& #[trigger] ref_issues(g).contains(x)
                &&& x.severity == Severity::Error
                &&& x.rule == Rule::UnknownReference
                &&& x.file == "trips.txt"@
                &&& x.entity_id == Some(g.trips@[i].trip_id@)
                &&& x.field == Some("shape_id"@)
                &&& x.message == "references unknown record `"@ + g.trips@[i].shape_id->Some_0@ + "`"@
            },
{
    let ids = id_sets(g);
    let t = g.trips@[i];
    let e = t.trip_id@;
    let r = req_issues(ids.routes, "trips.txt"@, e, "route_id"@, t.route_id@);
    let sv = req_issues(ids.services, "trips.txt"@, e, "service_id"@, t.service_id@);
    let sh = opt_req_issues(ids.shapes, "trips.txt"@, e, "shape_id"@, opt_view(t.shape_id));
    assert(each_trip_refs(ids)(i, t) == r + sv + sh);
    if forall|k: int| 0 <= k < g.routes@.len() ==> (#[trigger] g.routes@[k]).route_id@ != t.route_id@ {
        if ids.routes.contains(t.route_id@) {
            let k = choose|k: int| 0 <= k < g.routes@.len() && routes_key()(g.routes@[k]) == Some(t.route_id@);
            assert(g.routes@[k].route_id@ == t.route_id@);
        }
        let x = unknown_issue("trips.txt"@, e, "route_id"@, t.route_id@);
        assert(r[0] == x);
        lemma_join_has(r, sv, x);
        lemma_join_has(r + sv, sh, x);
        lemma_trip_issue_is_reported(g, i, x);
    }
    if (forall|k: int| 0 <= k < g.calendar@.len() ==> (#[trigger] g.calendar@[k]).service_id@ != t.service_id@)
        && (forall|k: int| 0 <= k < g.calendar_dates@.len() ==> (#[trigger] g.calendar_dates@[k]).service_id@ != t.service_id@) {
        if ids_of(g.calendar@, services_key_calendar()).contains(t.service_id@) {
            let k = choose|k: int| 0 <= k < g.calendar@.len() && services_key_calendar()(g.calendar@[k]) == Some(t.service_id@);
            assert(g.calendar@[k].service_id@ == t.service_id@);
        }
        if ids_of(g.calendar_dates@, services_key_calendar_dates()).contains(t.service_id@) {
            let k = choose|k: int| 0 <= k < g.calendar_dates@.len() && services_key_calendar_dates()(g.calendar_dates@[k]) == Some(t.service_id@);
            assert(g.calendar_dates@[k].service_id@ == t.service_id@);
        }
        let x = unknown_issue("trips.txt"@, e, "service_id"@, t.service_id@);
        assert(sv[0] == x);
        lemma_join_has(r, sv, x);
        lemma_join_has(r + sv, sh, x);
        lemma_trip_issue_is_reported(g, i, x);
    }
    if t.shape_id is Some && forall|k: int|
        0 <= k < g.shapes@.len() ==> (#[trigger] g.shapes@[k]).shape_id@ != t.shape_id->Some_0@ {
        let v = t.shape_id->Some_0@;
        if ids.shapes.contains(v) {
            let k = choose|k: int| 0 <= k < g.shapes@.len() && shapes_key()(g.shapes@[k]) == Some(v);
            assert(g.shapes@[k].shape_id@ == v);
        }
        let x = unknown_issue("trips.txt"@, e, "shape_id"@, v);
        assert(sh[0] == x);
        lemma_join_has(r + sv, sh, x);
        lemma_trip_issue_is_reported(g, i, x);
    }
}

/// An issue of one trip is an issue of the reference check.
proof fn lemma_trip_issue_is_reported(g: GtfsReference, i: int, x: IssueView)
    requires
        0 <= i < g.trips@.len(),
        each_trip_refs(id_sets(g))(i, g.trips@[i]).contains(x),
    ensures
        ref_issues(g).contains(x),
{
    let ids = id_sets(g);
    lemma_flat_map_has(g.trips@, each_trip_refs(ids), i, x);
    let trips = flat_map(g.trips@, each_trip_refs(ids));
    lemma_join_has(trips, flat_map(g.stop_times@, each_stop_time_refs(ids)), x);
    lemma_join_has(trips + flat_map(g.stop_times@, each_stop_time_refs(ids)), flat_map(g.stops@, each_stop_refs(ids)), x);
    lemma_join_has(
        trips + flat_map(g.stop_times@, each_stop_time_refs(ids)) + flat_map(g.stops@, each_stop_refs(ids)),
        agency_ref_issues(g),
        x,
    );
    lemma_join_has(network_ref_issues(g), movement_ref_issues(g), x);
    lemma_join_has(network_ref_issues(g) + movement_ref_issues(g), fare_ref_issues(g), x);
    lemma_join_has(network_ref_issues(g) + movement_ref_issues(g) + fare_ref_issues(g), link_ref_issues(g), x);
    assert(ref_issues(g).contains(x));
}

/// A stop time whose trip or stop does not exist is reported: for
/// `trip_id` (no record of `trips.txt`) and a set `stop_id` (no record
/// of `stops.txt`), the reference check lists an unknown-reference error
/// on that stop time, in `stop_times.txt`, for that field, quoting the
/// missing id; a `stop_id` of existing stops none of which is a
/// stop/platform (`location_type` 0) is an error of its own.
pub proof fn lemma_unknown_stop_time_references_are_reported(g: GtfsReference, i: int)
    requires
        0 <= i < g.stop_times@.len(),
    ensures
        (forall|k: int| 0 <= k < g.trips@.len() ==> (#[trigger] g.trips@[k]).trip_id@ != g.stop_times@[i].trip_id@)
            ==> exists|x: IssueView| {
                &&& #[trigger] ref_issues(g).contains(x)
                &&& x.severity == Severity::Error
                &&& x.rule == Rule::UnknownReference
                &&& x.file == "stop_times.txt"@
                &&& x.entity_id == Some(stop_time_entity(g.stop_times@[i]))
                &&& x.field == Some("trip_id"@)
                &&& x.message == "references unknown record `"@ + g.stop_times@[i].trip_id@ + "`"@
            },
        (g.stop_times@[i].stop_id is Some && forall|k: int|
            0 <= k < g.stops@.len() ==> (#[trigger] g.stops@[k]).stop_id@ != g.stop_times@[i].stop_id->Some_0@)
            ==> exists|x: IssueView| {
                &&& #[trigger] ref_issues(g).contains(x)
                &&& x.severity == Severity::Error
                &&& x.rule == Rule::UnknownReference
                &&& x.file == "stop_times.txt"@
                &&& x.entity_id == Some(stop_time_entity(g.stop_times@[i]))
                &&& x.field == Some("stop_id"@)
                &&& x.message == "references unknown record `"@ + g.stop_times@[i].stop_id->Some_0@ + "`"@
            },
        (g.stop_times@[i].stop_id is Some && (exists|k: int|
            0 <= k < g.stops@.len() && (#[trigger] g.stops@[k]).stop_id@ == g.stop_times@[i].stop_id->Some_0@)
            && forall|k: int|
            0 <= k < g.stops@.len() && (#[trigger] g.stops@[k]).stop_id@ == g.stop_times@[i].stop_id->Some_0@
                ==> g.stops@[k].location_type != LocationType::StopOrPlatform)
            ==> exists|x: IssueView| {
                &&& #[trigger] ref_issues(g).contains(x)
                &&& x.severity == Severity::Error
                &&& x.rule == Rule::StopTimeStopNotPlatform
                &&& x.file == "stop_times.txt"@
                &&& x.entity_id == Some(stop_time_entity(g.stop_times@[i]))
                &&& x.field == Some("stop_id"@)
                &&& x.message == "stop_id `"@ + g.stop_times@[i].stop_id->Some_0@ + "` is not a stop/platform (location_type 0)"@
            },
{
    let ids = id_sets(g);
    let st = g.stop_times@[i];
    let e = stop_time_entity(st);
    let head = req_issues(ids.trips, "stop_times.txt"@, e, "trip_id"@, st.trip_id@);
    let stop = stop_time_stop_issues(ids, st);
    let rest = opt_req_issues(ids.location_groups, "stop_times.txt"@, e, "location_group_id"@, opt_view(st.location_group_id))
        + opt_req_issues(ids.locations, "stop_times.txt"@, e, "location_id"@, opt_view(st.location_id))
        + opt_req_issues(ids.booking_rules, "stop_times.txt"@, e, "pickup_booking_rule_id"@, opt_view(st.pickup_booking_rule_id))
        + opt_req_issues(ids.booking_rules, "stop_times.txt"@, e, "drop_off_booking_rule_id"@, opt_view(st.drop_off_booking_rule_id));
    assert(each_stop_time_refs(ids)(i, st) =~= head + stop + rest);
    if forall|k: int| 0 <= k < g.trips@.len() ==> (#[trigger] g.trips@[k]).trip_id@ != st.trip_id@ {
        if ids.trips.contains(st.trip_id@) {
            let k = choose|k: int| 0 <= k < g.trips@.len() && trips_key()(g.trips@[k]) == Some(st.trip_id@);
            assert(g.trips@[k].trip_id@ == st.trip_id@);
        }
        let x = unknown_issue("stop_times.txt"@, e, "trip_id"@, st.trip_id@);
        assert(head[0] == x);
        lemma_join_has(head, stop, x);
        lemma_join_has(head + stop, rest, x);
        lemma_stop_time_issue_is_reported(g, i, x);
    }
    if st.stop_id is Some {
        let v = st.stop_id->Some_0@;
        if forall|k: int| 0 <= k < g.stops@.len() ==> (#[trigger] g.stops@[k]).stop_id@ != v {
            if ids.stops.contains(v) {
                let k = choose|k: int| 0 <= k < g.stops@.len() && stops_key()(g.stops@[k]) == Some(v);
                assert(g.stops@[k].stop_id@ == v);
            }
            let x = unknown_issue("stop_times.txt"@, e, "stop_id"@, v);
            assert(stop[0] == x);
            lemma_join_has(head, stop, x);
            lemma_join_has(head + stop, rest, x);
            lemma_stop_time_issue_is_reported(g, i, x);
        }
        if (exists|k: int| 0 <= k < g.stops@.len() && (#[trigger] g.stops@[k]).stop_id@ == v) && forall|k: int|
            0 <= k < g.stops@.len() && (#[trigger] g.stops@[k]).stop_id@ == v ==> g.stops@[k].location_type
                != LocationType::StopOrPlatform {
            let k0 = choose|k: int| 0 <= k < g.stops@.len() && (#[trigger] g.stops@[k]).stop_id@ == v;
            assert(stops_key()(g.stops@[k0]) == Some(v));
            assert(ids.stops.contains(v));
            if ids.platforms.contains(v) {
                let k = choose|k: int| 0 <= k < g.stops@.len() && platforms_key()(g.stops@[k]) == Some(v);
                assert(g.stops@[k].stop_id@ == v);
            }
            let x = field_issue(
                "stop_times.txt"@,
                e,
                "stop_id"@,
                Rule::StopTimeStopNotPlatform,
                "stop_id `"@ + v + "` is not a stop/platform (location_type 0)"@,
            );
            assert(stop[0] == x);
            lemma_join_has(head, stop, x);
            lemma_join_has(head + stop, rest, x);
            lemma_stop_time_issue_is_reported(g, i, x);
        }
    }
}

/// An issue of one stop time is an issue of the reference check.
proof fn lemma_stop_time_issue_is_reported(g: GtfsReference, i: int, x: IssueView)
    requires
        0 <= i < g.stop_times@.len(),
        each_stop_time_refs(id_sets(g))(i, g.stop_times@[i]).contains(x),
    ensures
        ref_issues(g).contains(x),
{
    let ids = id_sets(g);
    lemma_flat_map_has(g.stop_times@, each_stop_time_refs(ids), i, x);
    let trips = flat_map(g.trips@, each_trip_refs(ids));
    lemma_join_has(trips, flat_map(g.stop_times@, each_stop_time_refs(ids)), x);
    lemma_join_has(trips + flat_map(g.stop_times@, each_stop_time_refs(ids)), flat_map(g.stops@, each_stop_refs(ids)), x);
    lemma_join_has(
        trips + flat_map(g.stop_times@, each_stop_time_refs(ids)) + flat_map(g.stops@, each_stop_refs(ids)),
        agency_ref_issues(g),
        x,
    );
    lemma_join_has(network_ref_issues(g), movement_ref_issues(g), x);
    lemma_join_has(network_ref_issues(g) + movement_ref_issues(g), fare_ref_issues(g), x);
    lemma_join_has(network_ref_issues(g) + movement_ref_issues(g) + fare_ref_issues(g), link_ref_issues(g), x);
    assert(ref_issues(g).contains(x));
}

} // verus!
