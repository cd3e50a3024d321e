//! # GTFS Schedule Reference Container
//!
//! In-memory container for a complete GTFS Schedule dataset with
//! lookup helpers. One collection per dataset file, in specification
//! order.

use vstd::prelude::*;

use crate::misc::GtfsDate;
use crate::model::{
    calendar_active_on, lemma_calendar_active_window, Agency, Area, Attribution, BookingRule, Calendar, CalendarDate,
    ExceptionType, FareAttributeV1, FareLegJoinRule, FareLegRule, FareMedia, FareProduct,
    FareRuleV1, FareTransferRule, FeedInfo, Frequency, Level, Location, LocationGroup,
    LocationGroupStop, Network, Pathway, RiderCategory, Route, RouteNetwork, ShapePoint, Stop,
    StopArea, StopTime, Timeframe, Transfer, Translation, Trip,
};
use crate::seqs::{first_index, lemma_first_index, sort_by_key, sort_refs_by_key, Keyed};
use crate::text::str_eq;

verus! {

/// An in-memory GTFS Schedule dataset.
#[derive(Debug, Clone)]
pub struct GtfsReference {
    /// Agencies (`agency.txt`)
    pub agencies: Vec<Agency>,
    /// Stops, stations and other locations (`stops.txt`)
    pub stops: Vec<Stop>,
    /// Routes (`routes.txt`)
    pub routes: Vec<Route>,
    /// Trips (`trips.txt`)
    pub trips: Vec<Trip>,
    /// Stop times (`stop_times.txt`)
    pub stop_times: Vec<StopTime>,
    /// Weekly service patterns (`calendar.txt`)
    pub calendar: Vec<Calendar>,
    /// Service exceptions (`calendar_dates.txt`)
    pub calendar_dates: Vec<CalendarDate>,
    /// Fare classes (`fare_attributes.txt`, GTFS-Fares v1)
    pub fare_attributes: Vec<FareAttributeV1>,
    /// Fare applicability rules (`fare_rules.txt`, GTFS-Fares v1)
    pub fare_rules: Vec<FareRuleV1>,
    /// Fare timeframes (`timeframes.txt`, GTFS-Fares v2)
    pub timeframes: Vec<Timeframe>,
    /// Rider categories (`rider_categories.txt`, GTFS-Fares v2)
    pub rider_categories: Vec<RiderCategory>,
    /// Fare media (`fare_media.txt`, GTFS-Fares v2)
    pub fare_media: Vec<FareMedia>,
    /// Fare products (`fare_products.txt`, GTFS-Fares v2)
    pub fare_products: Vec<FareProduct>,
    /// Fare leg rules (`fare_leg_rules.txt`, GTFS-Fares v2)
    pub fare_leg_rules: Vec<FareLegRule>,
    /// Fare leg join rules (`fare_leg_join_rules.txt`, GTFS-Fares v2)
    pub fare_leg_join_rules: Vec<FareLegJoinRule>,
    /// Fare transfer rules (`fare_transfer_rules.txt`, GTFS-Fares v2)
    pub fare_transfer_rules: Vec<FareTransferRule>,
    /// Fare areas (`areas.txt`, GTFS-Fares v2)
    pub areas: Vec<Area>,
    /// Stop-to-area assignments (`stop_areas.txt`, GTFS-Fares v2)
    pub stop_areas: Vec<StopArea>,
    /// Route networks (`networks.txt`, GTFS-Fares v2)
    pub networks: Vec<Network>,
    /// Route-to-network assignments (`route_networks.txt`, GTFS-Fares v2)
    pub route_networks: Vec<RouteNetwork>,
    /// Shape points (`shapes.txt`)
    pub shapes: Vec<ShapePoint>,
    /// Headway-based service windows (`frequencies.txt`)
    pub frequencies: Vec<Frequency>,
    /// Transfer rules (`transfers.txt`)
    pub transfers: Vec<Transfer>,
    /// Station pathways (`pathways.txt`)
    pub pathways: Vec<Pathway>,
    /// Station levels (`levels.txt`)
    pub levels: Vec<Level>,
    /// Location groups (`location_groups.txt`, GTFS-Flex)
    pub location_groups: Vec<LocationGroup>,
    /// Stop-to-location-group assignments (`location_group_stops.txt`, GTFS-Flex)
    pub location_group_stops: Vec<LocationGroupStop>,
    /// GeoJSON zones (`locations.geojson`, GTFS-Flex)
    pub locations: Vec<Location>,
    /// Booking rules (`booking_rules.txt`, GTFS-Flex)
    pub booking_rules: Vec<BookingRule>,
    /// Translations (`translations.txt`)
    pub translations: Vec<Translation>,
    /// Dataset metadata (`feed_info.txt`, single record)
    pub feed_info: Option<FeedInfo>,
    /// Attributions (`attributions.txt`)
    pub attributions: Vec<Attribution>,
}

impl Keyed for StopTime {
    open spec fn spec_key(&self) -> int {
        self.stop_sequence as int
    }

    fn key(&self) -> (r: u64) {
        self.stop_sequence as u64
    }
}

impl Keyed for ShapePoint {
    open spec fn spec_key(&self) -> int {
        self.shape_pt_sequence as int
    }

    fn key(&self) -> (r: u64) {
        self.shape_pt_sequence as u64
    }
}

/// Whether an agency has the identifier.
pub open spec fn agency_with_id(agency_id: Seq<char>) -> spec_fn(Agency) -> bool {
    |a: Agency| a.agency_id matches Some(id) && id@ == agency_id
}

/// Whether a stop has the identifier.
pub open spec fn stop_with_id(stop_id: Seq<char>) -> spec_fn(Stop) -> bool {
    |s: Stop| s.stop_id@ == stop_id
}

/// Whether a route has the identifier.
pub open spec fn route_with_id(route_id: Seq<char>) -> spec_fn(Route) -> bool {
    |r: Route| r.route_id@ == route_id
}

/// Whether a trip has the identifier.
pub open spec fn trip_with_id(trip_id: Seq<char>) -> spec_fn(Trip) -> bool {
    |t: Trip| t.trip_id@ == trip_id
}

/// Whether a stop time belongs to a trip.
pub open spec fn stop_time_of(trip_id: Seq<char>) -> spec_fn(StopTime) -> bool {
    |st: StopTime| st.trip_id@ == trip_id
}

/// Whether a frequency window belongs to a trip.
pub open spec fn frequency_of(trip_id: Seq<char>) -> spec_fn(Frequency) -> bool {
    |f: Frequency| f.trip_id@ == trip_id
}

/// Whether a trip belongs to a route.
pub open spec fn trip_of(route_id: Seq<char>) -> spec_fn(Trip) -> bool {
    |t: Trip| t.route_id@ == route_id
}

/// Whether a shape point belongs to a shape.
pub open spec fn point_of(shape_id: Seq<char>) -> spec_fn(ShapePoint) -> bool {
    |p: ShapePoint| p.shape_id@ == shape_id
}

/// Whether a calendar exception is for a service on a date.
pub open spec fn exception_for(service_id: Seq<char>, date: GtfsDate) -> spec_fn(CalendarDate) -> bool {
    |cd: CalendarDate| cd.service_id@ == service_id && cd.date == date
}

/// Whether a weekly pattern is for a service.
pub open spec fn pattern_for(service_id: Seq<char>) -> spec_fn(Calendar) -> bool {
    |c: Calendar| c.service_id@ == service_id
}

impl GtfsReference {
    /// Whether a service runs on a date: the first exception for that
    /// service and date decides (added or removed); without one, the
    /// first weekly pattern of the service decides; a service with
    /// neither does not run.
    pub open spec fn service_active(self, service_id: Seq<char>, date: GtfsDate) -> bool {
        match first_index(self.calendar_dates@, exception_for(service_id, date)) {
            Some(i) => self.calendar_dates@[i].exception_type == ExceptionType::Added,
            None => match first_index(self.calendar@, pattern_for(service_id)) {
                Some(j) => calendar_active_on(self.calendar@[j], date),
                None => false,
            },
        }
    }

    /// Whether every table is empty and `feed_info` is absent.
    pub open spec fn is_empty(self) -> bool {
        &&& self.agencies@.len() == 0
        &&& self.stops@.len() == 0
        &&& self.routes@.len() == 0
        &&& self.trips@.len() == 0
        &&& self.stop_times@.len() == 0
        &&& self.calendar@.len() == 0
        &&& self.calendar_dates@.len() == 0
        &&& self.fare_attributes@.len() == 0
        &&& self.fare_rules@.len() == 0
        &&& self.timeframes@.len() == 0
        &&& self.rider_categories@.len() == 0
        &&& self.fare_media@.len() == 0
        &&& self.fare_products@.len() == 0
        &&& self.fare_leg_rules@.len() == 0
        &&& self.fare_leg_join_rules@.len() == 0
        &&& self.fare_transfer_rules@.len() == 0
        &&& self.areas@.len() == 0
        &&& self.stop_areas@.len() == 0
        &&& self.networks@.len() == 0
        &&& self.route_networks@.len() == 0
        &&& self.shapes@.len() == 0
        &&& self.frequencies@.len() == 0
        &&& self.transfers@.len() == 0
        &&& self.pathways@.len() == 0
        &&& self.levels@.len() == 0
        &&& self.location_groups@.len() == 0
        &&& self.location_group_stops@.len() == 0
        &&& self.locations@.len() == 0
        &&& self.booking_rules@.len() == 0
        &&& self.translations@.len() == 0
        &&& self.feed_info.is_none()
        &&& self.attributions@.len() == 0
    }

    /// Creates an empty dataset.
    pub fn new() -> (r: Self)
        ensures
            r.is_empty(),
    {
        GtfsReference {
            agencies: Vec::new(),
            stops: Vec::new(),
            routes: Vec::new(),
            trips: Vec::new(),
            stop_times: Vec::new(),
            calendar: Vec::new(),
            calendar_dates: Vec::new(),
            fare_attributes: Vec::new(),
            fare_rules: Vec::new(),
            timeframes: Vec::new(),
            rider_categories: Vec::new(),
            fare_media: Vec::new(),
            fare_products: Vec::new(),
            fare_leg_rules: Vec::new(),
            fare_leg_join_rules: Vec::new(),
            fare_transfer_rules: Vec::new(),
            areas: Vec::new(),
            stop_areas: Vec::new(),
            networks: Vec::new(),
            route_networks: Vec::new(),
            shapes: Vec::new(),
            frequencies: Vec::new(),
            transfers: Vec::new(),
            pathways: Vec::new(),
            levels: Vec::new(),
            location_groups: Vec::new(),
            location_group_stops: Vec::new(),
            locations: Vec::new(),
            booking_rules: Vec::new(),
            translations: Vec::new(),
            feed_info: None,
            attributions: Vec::new(),
        }
    }

    /// Returns the first agency whose `agency_id` is `agency_id`.
    pub fn agency(&self, agency_id: &str) -> (r: Option<&Agency>)
        ensures
            match first_index(self.agencies@, agency_with_id(agency_id@)) {
                Some(i) => r == Some(&self.agencies@[i]),
                None => r is None,
            },
    {
        let mut i: usize = 0;
        while i < self.agencies.len()
            invariant
                i <= self.agencies.len(),
                forall|j: int| 0 <= j < i ==> !agency_with_id(agency_id@)(#[trigger] self.agencies@[j]),
            decreases self.agencies.len() - i,
        {
            let found = match &self.agencies[i].agency_id {
                Some(id) => str_eq(id.as_str(), agency_id),
                None => false,
            };
            if found {
                proof {
                    lemma_first_index(self.agencies@, agency_with_id(agency_id@), i as int);
                }
                return Some(&self.agencies[i]);
            }
            i = i + 1;
        }
        proof {
            lemma_first_index(self.agencies@, agency_with_id(agency_id@), i as int);
        }
        None
    }

    /// Returns the first stop whose `stop_id` is `stop_id`.
    pub fn stop(&self, stop_id: &str) -> (r: Option<&Stop>)
        ensures
            match first_index(self.stops@, stop_with_id(stop_id@)) {
                Some(i) => r == Some(&self.stops@[i]),
                None => r is None,
            },
    {
        let mut i: usize = 0;
        while i < self.stops.len()
            invariant
                i <= self.stops.len(),
                forall|j: int| 0 <= j < i ==> !stop_with_id(stop_id@)(#[trigger] self.stops@[j]),
            decreases self.stops.len() - i,
        {
            if str_eq(self.stops[i].stop_id.as_str(), stop_id) {
                proof {
                    lemma_first_index(self.stops@, stop_with_id(stop_id@), i as int);
                }
                return Some(&self.stops[i]);
            }
            i = i + 1;
        }
        proof {
            lemma_first_index(self.stops@, stop_with_id(stop_id@), i as int);
        }
        None
    }

    /// Returns the first route whose `route_id` is `route_id`.
    pub fn route(&self, route_id: &str) -> (r: Option<&Route>)
        ensures
            match first_index(self.routes@, route_with_id(route_id@)) {
                Some(i) => r == Some(&self.routes@[i]),
                None => r is None,
            },
    {
        let mut i: usize = 0;
        while i < self.routes.len()
            invariant
                i <= self.routes.len(),
                forall|j: int| 0 <= j < i ==> !route_with_id(route_id@)(#[trigger] self.routes@[j]),
            decreases self.routes.len() - i,
        {
            if str_eq(self.routes[i].route_id.as_str(), route_id) {
                proof {
                    lemma_first_index(self.routes@, route_with_id(route_id@), i as int);
                }
                return Some(&self.routes[i]);
            }
            i = i + 1;
        }
        proof {
            lemma_first_index(self.routes@, route_with_id(route_id@), i as int);
        }
        None
    }

    /// Returns the first trip whose `trip_id` is `trip_id`.
    pub fn trip(&self, trip_id: &str) -> (r: Option<&Trip>)
        ensures
            match first_index(self.trips@, trip_with_id(trip_id@)) {
                Some(i) => r == Some(&self.trips@[i]),
                None => r is None,
            },
    {
        let mut i: usize = 0;
        while i < self.trips.len()
            invariant
                i <= self.trips.len(),
                forall|j: int| 0 <= j < i ==> !trip_with_id(trip_id@)(#[trigger] self.trips@[j]),
            decreases self.trips.len() - i,
        {
            if str_eq(self.trips[i].trip_id.as_str(), trip_id) {
                proof {
                    lemma_first_index(self.trips@, trip_with_id(trip_id@), i as int);
                }
                return Some(&self.trips[i]);
            }
            i = i + 1;
        }
        proof {
            lemma_first_index(self.trips@, trip_with_id(trip_id@), i as int);
        }
        None
    }

    /// Returns the stop times of a trip ordered by `stop_sequence`;
    /// stop times with equal sequence numbers keep their dataset order.
    pub fn stop_times_of_trip(&self, trip_id: &str) -> (r: Vec<&StopTime>)
        ensures
            r@.map_values(|st: &StopTime| *st) == sort_by_key(
                self.stop_times@.filter(stop_time_of(trip_id@)),
            ),
    {
        let mut times: Vec<&StopTime> = Vec::new();
        let mut i: usize = 0;
        while i < self.stop_times.len()
            invariant
                i <= self.stop_times.len(),
                times@.map_values(|st: &StopTime| *st) == self.stop_times@.take(i as int).filter(
                    stop_time_of(trip_id@),
                ),
            decreases self.stop_times.len() - i,
        {
            let ghost before = times@.map_values(|st: &StopTime| *st);
            if str_eq(self.stop_times[i].trip_id.as_str(), trip_id) {
                times.push(&self.stop_times[i]);
            }
            proof {
                lemma_filter_step(self.stop_times@, stop_time_of(trip_id@), i as int);
                assert(times@.map_values(|st: &StopTime| *st) =~= self.stop_times@.take(i + 1).filter(
                    stop_time_of(trip_id@),
                ));
            }
            i = i + 1;
        }
        proof {
            assert(self.stop_times@.take(i as int) =~= self.stop_times@);
        }
        sort_refs_by_key(times)
    }

    /// Returns the frequency windows of a trip in dataset order.
    pub fn frequencies_of_trip(&self, trip_id: &str) -> (r: Vec<&Frequency>)
        ensures
            r@.map_values(|f: &Frequency| *f) == self.frequencies@.filter(frequency_of(trip_id@)),
    {
        let mut out: Vec<&Frequency> = Vec::new();
        let mut i: usize = 0;
        while i < self.frequencies.len()
            invariant
                i <= self.frequencies.len(),
                out@.map_values(|f: &Frequency| *f) == self.frequencies@.take(i as int).filter(
                    frequency_of(trip_id@),
                ),
            decreases self.frequencies.len() - i,
        {
            if str_eq(self.frequencies[i].trip_id.as_str(), trip_id) {
                out.push(&self.frequencies[i]);
            }
            proof {
                lemma_filter_step(self.frequencies@, frequency_of(trip_id@), i as int);
                assert(out@.map_values(|f: &Frequency| *f) =~= self.frequencies@.take(i + 1).filter(
                    frequency_of(trip_id@),
                ));
            }
            i = i + 1;
        }
        proof {
            assert(self.frequencies@.take(i as int) =~= self.frequencies@);
        }
        out
    }

    /// Returns the trips of a route in dataset order.
    pub fn trips_of_route(&self, route_id: &str) -> (r: Vec<&Trip>)
        ensures
            r@.map_values(|t: &Trip| *t) == self.trips@.filter(trip_of(route_id@)),
    {
        let mut out: Vec<&Trip> = Vec::new();
        let mut i: usize = 0;
        while i < self.trips.len()
            invariant
                i <= self.trips.len(),
                out@.map_values(|t: &Trip| *t) == self.trips@.take(i as int).filter(
                    trip_of(route_id@),
                ),
            decreases self.trips.len() - i,
        {
            if str_eq(self.trips[i].route_id.as_str(), route_id) {
                out.push(&self.trips[i]);
            }
            proof {
                lemma_filter_step(self.trips@, trip_of(route_id@), i as int);
                assert(out@.map_values(|t: &Trip| *t) =~= self.trips@.take(i + 1).filter(
                    trip_of(route_id@),
                ));
            }
            i = i + 1;
        }
        proof {
            assert(self.trips@.take(i as int) =~= self.trips@);
        }
        out
    }

    /// Returns the points of a shape ordered by `shape_pt_sequence`;
    /// points with equal sequence numbers keep their dataset order.
    pub fn shape(&self, shape_id: &str) -> (r: Vec<&ShapePoint>)
        ensures
            r@.map_values(|p: &ShapePoint| *p) == sort_by_key(self.shapes@.filter(point_of(shape_id@))),
    {
        let mut points: Vec<&ShapePoint> = Vec::new();
        let mut i: usize = 0;
        while i < self.shapes.len()
            invariant
                i <= self.shapes.len(),
                points@.map_values(|p: &ShapePoint| *p) == self.shapes@.take(i as int).filter(
                    point_of(shape_id@),
                ),
            decreases self.shapes.len() - i,
        {
            if str_eq(self.shapes[i].shape_id.as_str(), shape_id) {
                points.push(&self.shapes[i]);
            }
            proof {
                lemma_filter_step(self.shapes@, point_of(shape_id@), i as int);
                assert(points@.map_values(|p: &ShapePoint| *p) =~= self.shapes@.take(i + 1).filter(
                    point_of(shape_id@),
                ));
            }
            i = i + 1;
        }
        proof {
            assert(self.shapes@.take(i as int) =~= self.shapes@);
        }
        sort_refs_by_key(points)
    }

    /// Returns whether a service runs on a date, combining the weekly
    /// pattern from `calendar.txt` with exceptions from
    /// `calendar_dates.txt`: an exception for the service and date
    /// decides; otherwise the service's weekly pattern does.
    pub fn is_service_active(&self, service_id: &str, date: &GtfsDate) -> (r: bool)
        ensures
            r == self.service_active(service_id@, *date),
    {
        let mut i: usize = 0;
        while i < self.calendar_dates.len()
            invariant
                i <= self.calendar_dates.len(),
                forall|j: int|
                    0 <= j < i ==> !exception_for(service_id@, *date)(
                        #[trigger] self.calendar_dates@[j],
                    ),
            decreases self.calendar_dates.len() - i,
        {
            let exception = &self.calendar_dates[i];
            if str_eq(exception.service_id.as_str(), service_id) && exception.date == *date {
                proof {
                    lemma_first_index(self.calendar_dates@, exception_for(service_id@, *date), i as int);
                }
                return exception.exception_type == ExceptionType::Added;
            }
            i = i + 1;
        }
        proof {
            lemma_first_index(self.calendar_dates@, exception_for(service_id@, *date), i as int);
        }
        let mut k: usize = 0;
        while k < self.calendar.len()
            invariant
                k <= self.calendar.len(),
                first_index(self.calendar_dates@, exception_for(service_id@, *date)) is None,
                forall|j: int| 0 <= j < k ==> !pattern_for(service_id@)(#[trigger] self.calendar@[j]),
            decreases self.calendar.len() - k,
        {
            if str_eq(self.calendar[k].service_id.as_str(), service_id) {
                proof {
                    lemma_first_index(self.calendar@, pattern_for(service_id@), k as int);
                }
                return self.calendar[k].is_active_on(date);
            }
            k = k + 1;
        }
        proof {
            lemma_first_index(self.calendar@, pattern_for(service_id@), k as int);
        }
        false
    }
}

/// An exception of `calendar_dates.txt` overrides the weekly pattern:
/// when the first exception for the service and date adds the service,
/// it runs; when it removes it, it does not, whatever `calendar.txt`
/// says.
pub proof fn lemma_exception_overrides_pattern(g: GtfsReference, service_id: Seq<char>, date: GtfsDate, k: int)
    requires
        0 <= k < g.calendar_dates@.len(),
        g.calendar_dates@[k].service_id@ == service_id,
        g.calendar_dates@[k].date == date,
        forall|j: int|
            0 <= j < k ==> !((#[trigger] g.calendar_dates@[j]).service_id@ == service_id && g.calendar_dates@[j].date == date),
    ensures
        g.service_active(service_id, date) == (g.calendar_dates@[k].exception_type == ExceptionType::Added),
{
    lemma_first_index(g.calendar_dates@, exception_for(service_id, date), k);
}

/// Without an exception for the service and date, the first weekly
/// pattern of the service decides, and a service without one does not
/// run.
pub proof fn lemma_pattern_without_exception(g: GtfsReference, service_id: Seq<char>, date: GtfsDate)
    requires
        forall|j: int|
            0 <= j < g.calendar_dates@.len() ==> !((#[trigger] g.calendar_dates@[j]).service_id@ == service_id
                && g.calendar_dates@[j].date == date),
    ensures
        g.service_active(service_id, date) == match first_index(g.calendar@, pattern_for(service_id)) {
            Some(j) => calendar_active_on(g.calendar@[j], date),
            None => false,
        },
{
    lemma_first_index(g.calendar_dates@, exception_for(service_id, date), g.calendar_dates@.len() as int);
}

/// Without an exception for the service and date, a service runs only
/// inside the period of its first weekly pattern: on a date before its
/// `start_date` or after its `end_date` it does not run, whatever the
/// weekday.
pub proof fn lemma_service_runs_within_period(g: GtfsReference, service_id: Seq<char>, date: GtfsDate, j: int)
    requires
        forall|k: int|
            0 <= k < g.calendar_dates@.len() ==> !((#[trigger] g.calendar_dates@[k]).service_id@ == service_id
                && g.calendar_dates@[k].date == date),
        0 <= j < g.calendar@.len(),
        g.calendar@[j].service_id@ == service_id,
        forall|k: int| 0 <= k < j ==> (#[trigger] g.calendar@[k]).service_id@ != service_id,
    ensures
        g.service_active(service_id, date) ==> g.calendar@[j].start_date.ordinal() <= date.ordinal()
            <= g.calendar@[j].end_date.ordinal(),
{
    lemma_first_index(g.calendar_dates@, exception_for(service_id, date), g.calendar_dates@.len() as int);
    lemma_first_index(g.calendar@, pattern_for(service_id), j);
    lemma_calendar_active_window(g.calendar@[j], date);
}

/// Filtering one more element of `s` appends it exactly when it
/// satisfies the predicate.
pub proof fn lemma_filter_step<T>(s: Seq<T>, p: spec_fn(T) -> bool, i: int)
    requires
        0 <= i < s.len(),
    ensures
        s.take(i + 1).filter(p) == if p(s[i]) {
            s.take(i).filter(p).push(s[i])
        } else {
            s.take(i).filter(p)
        },
{
    reveal(Seq::filter);
    assert(s.take(i + 1).drop_last() =~= s.take(i));
    assert(s.take(i + 1).last() == s[i]);
}

} // verus!
