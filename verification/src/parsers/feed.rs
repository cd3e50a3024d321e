//! Whole-feed reading: orchestrates the table readers over a feed
//! container - an unpacked directory, a zip archive - through the
//! shared [`TableSource`] abstraction, which keeps the list of tables
//! in one place.

use vstd::prelude::*;

use crate::model::{
    Agency, Area, Attribution, BookingRule, Calendar, CalendarDate, FareAttributeV1,
    FareLegJoinRule, FareLegRule, FareMedia, FareProduct, FareRuleV1, FareTransferRule, FeedInfo,
    Frequency, Level, Location, LocationGroup, LocationGroupStop, Network, Pathway, RiderCategory,
    Route, RouteNetwork, ShapePoint, Stop, StopArea, StopTime, Timeframe, Transfer, Translation,
    Trip,
};
use crate::parsers::csv::reader::{read, text_read};
use crate::parsers::csv::record::{fails_with, CsvRecord};
use crate::parsers::csv::row::{float_readings, FloatParser};
use crate::parsers::error::{KindView, ParseError, ParseErrorKind, ParseErrorView};
use crate::reference::GtfsReference;
use crate::text::owned;

verus! {

/// A container of GTFS tables addressed by canonical file name.
///
/// Implemented for unpacked directories and zip archives, so
/// [`read_tables`] can fill a [`GtfsReference`] from either without
/// duplicating the table list.
pub trait TableSource {
    /// Whether `out` is an outcome of opening table `name`. An
    /// implementation that states nothing keeps the default, which
    /// admits every outcome.
    open spec fn opens_as(&self, name: Seq<char>, out: Result<Option<Vec<u8>>, ParseError>) -> bool {
        true
    }

    /// Whether `out` is an outcome of reading the zones of
    /// `locations.geojson`; by default every outcome is.
    open spec fn zones_as(&self, out: Result<Option<Vec<Location>>, ParseError>) -> bool {
        true
    }

    /// The bytes of one table by its canonical file name; `Ok(None)`
    /// when the container has no such file.
    fn table_bytes(&self, name: &str) -> (r: Result<Option<Vec<u8>>, ParseError>)
        ensures
            self.opens_as(name@, r),
    ;

    /// The zones of `locations.geojson`; `Ok(None)` when the container
    /// has no such file.
    fn locations(&self) -> (r: Result<Option<Vec<Location>>, ParseError>)
        ensures
            self.zones_as(r),
    ;
}

/// An I/O error of kind `NotFound` with `message`
/// (`std::io::Error::new`); nothing is claimed of it.
#[verifier::external_body]
fn not_found_error(message: &str) -> std::io::Error {
    std::io::Error::new(std::io::ErrorKind::NotFound, message)
}

/// The error of a required table that the feed lacks.
pub open spec fn missing_table_error(name: Seq<char>) -> ParseErrorView {
    ParseErrorView { file: name, line: 0, field: None, kind: KindView::Io }
}

/// The content of what opening a table gave.
pub open spec fn opened_view(opened: Result<Option<Vec<u8>>, ParseError>) -> Result<Option<Seq<u8>>, ParseErrorView> {
    match opened {
        Ok(Some(b)) => Ok(Some(b@)),
        Ok(None) => Ok(None),
        Err(e) => Err(e@),
    }
}

/// Whether `out` is what a table named `name` reads as, given what
/// opening it gave: the opening error, the missing-table error for an
/// absent required table, nothing for an absent optional one, else the
/// records of its text.
pub open spec fn table_result<T: CsvRecord>(
    name: Seq<char>,
    opened: Result<Option<Seq<u8>>, ParseErrorView>,
    required: bool,
    reads: spec_fn(Seq<char>, Option<u64>) -> bool,
    out: Result<Vec<T>, ParseError>,
) -> bool {
    match opened {
        Err(e) => fails_with(out, e),
        Ok(None) => if required {
            fails_with(out, missing_table_error(name))
        } else {
            out matches Ok(v) && v@.len() == 0
        },
        Ok(Some(bytes)) => text_read::<T>(name, bytes, reads, out),
    }
}

/// Reads one table from what opening it gave.
pub fn read_table<T: CsvRecord, F: FloatParser>(
    name: &str,
    opened: Result<Option<Vec<u8>>, ParseError>,
    required: bool,
    floats: &F,
) -> (r: Result<Vec<T>, ParseError>)
    ensures
        table_result::<T>(name@, opened_view(opened), required, float_readings(*floats), r),
{
    match opened {
        Err(e) => Err(e),
        Ok(None) => if required {
            Err(ParseError { file: owned(name), line: 0, field: None, kind: ParseErrorKind::Io(not_found_error("required table is missing from the feed")) })
        } else {
            Ok(Vec::new())
        },
        Ok(Some(bytes)) => read::<T, F>(name, bytes.as_slice(), floats),
    }
}

/// Whether `v` is what table `name` reads as for an outcome of opening
/// it that `opens` admits.
pub open spec fn table_ok<T: CsvRecord>(opens: spec_fn(Seq<char>, Result<Option<Vec<u8>>, ParseError>) -> bool, reads: spec_fn(Seq<char>, Option<u64>) -> bool, name: Seq<char>, required: bool, v: Vec<T>) -> bool {
    exists|o: Result<Option<Vec<u8>>, ParseError>|
        opens(name, o) && #[trigger] table_result::<T>(name, opened_view(o), required, reads, Ok::<Vec<T>, ParseError>(v))
}

/// Whether table `name` fails with `e` for an outcome of opening it that
/// `opens` admits.
pub open spec fn table_fails<T: CsvRecord>(opens: spec_fn(Seq<char>, Result<Option<Vec<u8>>, ParseError>) -> bool, reads: spec_fn(Seq<char>, Option<u64>) -> bool, name: Seq<char>, required: bool, e: ParseError) -> bool {
    exists|o: Result<Option<Vec<u8>>, ParseError>|
        opens(name, o) && #[trigger] table_result::<T>(name, opened_view(o), required, reads, Err::<Vec<T>, ParseError>(e))
}

/// Whether step `i` of reading a feed succeeds: the tables in reading
/// order, then the zones.
pub open spec fn step_ok(opens: spec_fn(Seq<char>, Result<Option<Vec<u8>>, ParseError>) -> bool, reads: spec_fn(Seq<char>, Option<u64>) -> bool, zones: spec_fn(Result<Option<Vec<Location>>, ParseError>) -> bool, i: int) -> bool {
    if i == 0 {
        exists|v: Vec<Agency>| #[trigger] table_ok::<Agency>(opens, reads, Agency::FILE_NAME@, true, v)
    } else if i == 1 {
        exists|v: Vec<Stop>| #[trigger] table_ok::<Stop>(opens, reads, Stop::FILE_NAME@, true, v)
    } else if i == 2 {
        exists|v: Vec<Route>| #[trigger] table_ok::<Route>(opens, reads, Route::FILE_NAME@, true, v)
    } else if i == 3 {
        exists|v: Vec<Trip>| #[trigger] table_ok::<Trip>(opens, reads, Trip::FILE_NAME@, true, v)
    } else if i == 4 {
        exists|v: Vec<StopTime>| #[trigger] table_ok::<StopTime>(opens, reads, StopTime::FILE_NAME@, true, v)
    } else if i == 5 {
        exists|v: Vec<Calendar>| #[trigger] table_ok::<Calendar>(opens, reads, Calendar::FILE_NAME@, false, v)
    } else if i == 6 {
        exists|v: Vec<CalendarDate>| #[trigger] table_ok::<CalendarDate>(opens, reads, CalendarDate::FILE_NAME@, false, v)
    } else if i == 7 {
        exists|v: Vec<FareAttributeV1>| #[trigger] table_ok::<FareAttributeV1>(opens, reads, FareAttributeV1::FILE_NAME@, false, v)
    } else if i == 8 {
        exists|v: Vec<FareRuleV1>| #[trigger] table_ok::<FareRuleV1>(opens, reads, FareRuleV1::FILE_NAME@, false, v)
    } else if i == 9 {
        exists|v: Vec<Timeframe>| #[trigger] table_ok::<Timeframe>(opens, reads, Timeframe::FILE_NAME@, false, v)
    } else if i == 10 {
        exists|v: Vec<RiderCategory>| #[trigger] table_ok::<RiderCategory>(opens, reads, RiderCategory::FILE_NAME@, false, v)
    } else if i == 11 {
        exists|v: Vec<FareMedia>| #[trigger] table_ok::<FareMedia>(opens, reads, FareMedia::FILE_NAME@, false, v)
    } else if i == 12 {
        exists|v: Vec<FareProduct>| #[trigger] table_ok::<FareProduct>(opens, reads, FareProduct::FILE_NAME@, false, v)
    } else if i == 13 {
        exists|v: Vec<FareLegRule>| #[trigger] table_ok::<FareLegRule>(opens, reads, FareLegRule::FILE_NAME@, false, v)
    } else if i == 14 {
        exists|v: Vec<FareLegJoinRule>| #[trigger] table_ok::<FareLegJoinRule>(opens, reads, FareLegJoinRule::FILE_NAME@, false, v)
    } else if i == 15 {
        exists|v: Vec<FareTransferRule>| #[trigger] table_ok::<FareTransferRule>(opens, reads, FareTransferRule::FILE_NAME@, false, v)
    } else if i == 16 {
        exists|v: Vec<Area>| #[trigger] table_ok::<Area>(opens, reads, Area::FILE_NAME@, false, v)
    } else if i == 17 {
        exists|v: Vec<StopArea>| #[trigger] table_ok::<StopArea>(opens, reads, StopArea::FILE_NAME@, false, v)
    } else if i == 18 {
        exists|v: Vec<Network>| #[trigger] table_ok::<Network>(opens, reads, Network::FILE_NAME@, false, v)
    } else if i == 19 {
        exists|v: Vec<RouteNetwork>| #[trigger] table_ok::<RouteNetwork>(opens, reads, RouteNetwork::FILE_NAME@, false, v)
    } else if i == 20 {
        exists|v: Vec<ShapePoint>| #[trigger] table_ok::<ShapePoint>(opens, reads, ShapePoint::FILE_NAME@, false, v)
    } else if i == 21 {
        exists|v: Vec<Frequency>| #[trigger] table_ok::<Frequency>(opens, reads, Frequency::FILE_NAME@, false, v)
    } else if i == 22 {
        exists|v: Vec<Transfer>| #[trigger] table_ok::<Transfer>(opens, reads, Transfer::FILE_NAME@, false, v)
    } else if i == 23 {
        exists|v: Vec<Pathway>| #[trigger] table_ok::<Pathway>(opens, reads, Pathway::FILE_NAME@, false, v)
    } else if i == 24 {
        exists|v: Vec<Level>| #[trigger] table_ok::<Level>(opens, reads, Level::FILE_NAME@, false, v)
    } else if i == 25 {
        exists|v: Vec<LocationGroup>| #[trigger] table_ok::<LocationGroup>(opens, reads, LocationGroup::FILE_NAME@, false, v)
    } else if i == 26 {
        exists|v: Vec<LocationGroupStop>| #[trigger] table_ok::<LocationGroupStop>(opens, reads, LocationGroupStop::FILE_NAME@, false, v)
    } else if i == 27 {
        exists|v: Vec<BookingRule>| #[trigger] table_ok::<BookingRule>(opens, reads, BookingRule::FILE_NAME@, false, v)
    } else if i == 28 {
        exists|v: Vec<Translation>| #[trigger] table_ok::<Translation>(opens, reads, Translation::FILE_NAME@, false, v)
    } else if i == 29 {
        exists|v: Vec<FeedInfo>| #[trigger] table_ok::<FeedInfo>(opens, reads, FeedInfo::FILE_NAME@, false, v)
    } else if i == 30 {
        exists|v: Vec<Attribution>| #[trigger] table_ok::<Attribution>(opens, reads, Attribution::FILE_NAME@, false, v)
    } else {
        exists|z: Result<Option<Vec<Location>>, ParseError>| #[trigger] zones(z) && z is Ok
    }
}

/// Whether step `i` of reading a feed fails with `e`.
pub open spec fn step_fails(opens: spec_fn(Seq<char>, Result<Option<Vec<u8>>, ParseError>) -> bool, reads: spec_fn(Seq<char>, Option<u64>) -> bool, zones: spec_fn(Result<Option<Vec<Location>>, ParseError>) -> bool, i: int, e: ParseError) -> bool {
    if i == 0 {
        table_fails::<Agency>(opens, reads, Agency::FILE_NAME@, true, e)
    } else if i == 1 {
        table_fails::<Stop>(opens, reads, Stop::FILE_NAME@, true, e)
    } else if i == 2 {
        table_fails::<Route>(opens, reads, Route::FILE_NAME@, true, e)
    } else if i == 3 {
        table_fails::<Trip>(opens, reads, Trip::FILE_NAME@, true, e)
    } else if i == 4 {
        table_fails::<StopTime>(opens, reads, StopTime::FILE_NAME@, true, e)
    } else if i == 5 {
        table_fails::<Calendar>(opens, reads, Calendar::FILE_NAME@, false, e)
    } else if i == 6 {
        table_fails::<CalendarDate>(opens, reads, CalendarDate::FILE_NAME@, false, e)
    } else if i == 7 {
        table_fails::<FareAttributeV1>(opens, reads, FareAttributeV1::FILE_NAME@, false, e)
    } else if i == 8 {
        table_fails::<FareRuleV1>(opens, reads, FareRuleV1::FILE_NAME@, false, e)
    } else if i == 9 {
        table_fails::<Timeframe>(opens, reads, Timeframe::FILE_NAME@, false, e)
    } else if i == 10 {
        table_fails::<RiderCategory>(opens, reads, RiderCategory::FILE_NAME@, false, e)
    } else if i == 11 {
        table_fails::<FareMedia>(opens, reads, FareMedia::FILE_NAME@, false, e)
    } else if i == 12 {
        table_fails::<FareProduct>(opens, reads, FareProduct::FILE_NAME@, false, e)
    } else if i == 13 {
        table_fails::<FareLegRule>(opens, reads, FareLegRule::FILE_NAME@, false, e)
    } else if i == 14 {
        table_fails::<FareLegJoinRule>(opens, reads, FareLegJoinRule::FILE_NAME@, false, e)
    } else if i == 15 {
        table_fails::<FareTransferRule>(opens, reads, FareTransferRule::FILE_NAME@, false, e)
    } else if i == 16 {
        table_fails::<Area>(opens, reads, Area::FILE_NAME@, false, e)
    } else if i == 17 {
        table_fails::<StopArea>(opens, reads, StopArea::FILE_NAME@, false, e)
    } else if i == 18 {
        table_fails::<Network>(opens, reads, Network::FILE_NAME@, false, e)
    } else if i == 19 {
        table_fails::<RouteNetwork>(opens, reads, RouteNetwork::FILE_NAME@, false, e)
    } else if i == 20 {
        table_fails::<ShapePoint>(opens, reads, ShapePoint::FILE_NAME@, false, e)
    } else if i == 21 {
        table_fails::<Frequency>(opens, reads, Frequency::FILE_NAME@, false, e)
    } else if i == 22 {
        table_fails::<Transfer>(opens, reads, Transfer::FILE_NAME@, false, e)
    } else if i == 23 {
        table_fails::<Pathway>(opens, reads, Pathway::FILE_NAME@, false, e)
    } else if i == 24 {
        table_fails::<Level>(opens, reads, Level::FILE_NAME@, false, e)
    } else if i == 25 {
        table_fails::<LocationGroup>(opens, reads, LocationGroup::FILE_NAME@, false, e)
    } else if i == 26 {
        table_fails::<LocationGroupStop>(opens, reads, LocationGroupStop::FILE_NAME@, false, e)
    } else if i == 27 {
        table_fails::<BookingRule>(opens, reads, BookingRule::FILE_NAME@, false, e)
    } else if i == 28 {
        table_fails::<Translation>(opens, reads, Translation::FILE_NAME@, false, e)
    } else if i == 29 {
        table_fails::<FeedInfo>(opens, reads, FeedInfo::FILE_NAME@, false, e)
    } else if i == 30 {
        table_fails::<Attribution>(opens, reads, Attribution::FILE_NAME@, false, e)
    } else {
        zones(Err::<Option<Vec<Location>>, ParseError>(e))
    }
}

/// The number of steps of reading a feed: every table, then the zones.
pub open spec fn feed_steps() -> int {
    32
}

/// Whether `g` is what a feed reads as when every step succeeds: each
/// table is what its file reads as for an admitted outcome of opening
/// it, `feed_info` is the first record of its table, and the zones are
/// those read, or none.
pub open spec fn tables_read(opens: spec_fn(Seq<char>, Result<Option<Vec<u8>>, ParseError>) -> bool, reads: spec_fn(Seq<char>, Option<u64>) -> bool, zones: spec_fn(Result<Option<Vec<Location>>, ParseError>) -> bool, g: GtfsReference) -> bool {
    &&& table_ok::<Agency>(opens, reads, Agency::FILE_NAME@, true, g.agencies)
    &&& table_ok::<Stop>(opens, reads, Stop::FILE_NAME@, true, g.stops)
    &&& table_ok::<Route>(opens, reads, Route::FILE_NAME@, true, g.routes)
    &&& table_ok::<Trip>(opens, reads, Trip::FILE_NAME@, true, g.trips)
    &&& table_ok::<StopTime>(opens, reads, StopTime::FILE_NAME@, true, g.stop_times)
    &&& table_ok::<Calendar>(opens, reads, Calendar::FILE_NAME@, false, g.calendar)
    &&& table_ok::<CalendarDate>(opens, reads, CalendarDate::FILE_NAME@, false, g.calendar_dates)
    &&& table_ok::<FareAttributeV1>(opens, reads, FareAttributeV1::FILE_NAME@, false, g.fare_attributes)
    &&& table_ok::<FareRuleV1>(opens, reads, FareRuleV1::FILE_NAME@, false, g.fare_rules)
    &&& table_ok::<Timeframe>(opens, reads, Timeframe::FILE_NAME@, false, g.timeframes)
    &&& table_ok::<RiderCategory>(opens, reads, RiderCategory::FILE_NAME@, false, g.rider_categories)
    &&& table_ok::<FareMedia>(opens, reads, FareMedia::FILE_NAME@, false, g.fare_media)
    &&& table_ok::<FareProduct>(opens, reads, FareProduct::FILE_NAME@, false, g.fare_products)
    &&& table_ok::<FareLegRule>(opens, reads, FareLegRule::FILE_NAME@, false, g.fare_leg_rules)
    &&& table_ok::<FareLegJoinRule>(opens, reads, FareLegJoinRule::FILE_NAME@, false, g.fare_leg_join_rules)
    &&& table_ok::<FareTransferRule>(opens, reads, FareTransferRule::FILE_NAME@, false, g.fare_transfer_rules)
    &&& table_ok::<Area>(opens, reads, Area::FILE_NAME@, false, g.areas)
    &&& table_ok::<StopArea>(opens, reads, StopArea::FILE_NAME@, false, g.stop_areas)
    &&& table_ok::<Network>(opens, reads, Network::FILE_NAME@, false, g.networks)
    &&& table_ok::<RouteNetwork>(opens, reads, RouteNetwork::FILE_NAME@, false, g.route_networks)
    &&& table_ok::<ShapePoint>(opens, reads, ShapePoint::FILE_NAME@, false, g.shapes)
    &&& table_ok::<Frequency>(opens, reads, Frequency::FILE_NAME@, false, g.frequencies)
    &&& table_ok::<Transfer>(opens, reads, Transfer::FILE_NAME@, false, g.transfers)
    &&& table_ok::<Pathway>(opens, reads, Pathway::FILE_NAME@, false, g.pathways)
    &&& table_ok::<Level>(opens, reads, Level::FILE_NAME@, false, g.levels)
    &&& table_ok::<LocationGroup>(opens, reads, LocationGroup::FILE_NAME@, false, g.location_groups)
    &&& table_ok::<LocationGroupStop>(opens, reads, LocationGroupStop::FILE_NAME@, false, g.location_group_stops)
    &&& table_ok::<BookingRule>(opens, reads, BookingRule::FILE_NAME@, false, g.booking_rules)
    &&& table_ok::<Translation>(opens, reads, Translation::FILE_NAME@, false, g.translations)
    &&& exists|v: Vec<FeedInfo>| #[trigger] table_ok::<FeedInfo>(opens, reads, FeedInfo::FILE_NAME@, false, v) && g.feed_info == (if v@.len() > 0 {
            Some(v@[0])
        } else {
            None
        })
    &&& table_ok::<Attribution>(opens, reads, Attribution::FILE_NAME@, false, g.attributions)
    &&& (zones(Ok::<Option<Vec<Location>>, ParseError>(Some(g.locations))) || (zones(Ok::<Option<Vec<Location>>, ParseError>(None)) && g.locations@.len() == 0))
}

/// Whether `out` is what reading a feed gives, for outcomes of opening
/// its tables and reading its zones that `opens` and `zones` admit: the
/// whole dataset, or the error of the first step that fails, returned
/// as it came.
pub open spec fn feed_read(opens: spec_fn(Seq<char>, Result<Option<Vec<u8>>, ParseError>) -> bool, reads: spec_fn(Seq<char>, Option<u64>) -> bool, zones: spec_fn(Result<Option<Vec<Location>>, ParseError>) -> bool, out: Result<GtfsReference, ParseError>) -> bool {
    match out {
        Ok(g) => tables_read(opens, reads, zones, g),
        Err(e) => exists|k: int|
            0 <= k < feed_steps() && (forall|i: int| 0 <= i < k ==> #[trigger] step_ok(opens, reads, zones, i)) && #[trigger] step_fails(
                opens,
                reads,
                zones,
                k,
                e,
            ),
    }
}

/// The outcomes a source admits for its tables.
pub open spec fn source_opens<S: TableSource>(source: S) -> spec_fn(Seq<char>, Result<Option<Vec<u8>>, ParseError>) -> bool {
    |n: Seq<char>, o: Result<Option<Vec<u8>>, ParseError>| source.opens_as(n, o)
}

/// The outcomes a source admits for its zones.
pub open spec fn source_zones<S: TableSource>(source: S) -> spec_fn(Result<Option<Vec<Location>>, ParseError>) -> bool {
    |z: Result<Option<Vec<Location>>, ParseError>| source.zones_as(z)
}

/// Reads one table of `source`.
fn source_table<T: CsvRecord, S: TableSource, F: FloatParser>(
    source: &S,
    name: &str,
    required: bool,
    floats: &F,
) -> (r: Result<Vec<T>, ParseError>)
    ensures
        r matches Ok(v) ==> table_ok::<T>(source_opens(*source), float_readings(*floats), name@, required, v),
        r matches Err(e) ==> table_fails::<T>(source_opens(*source), float_readings(*floats), name@, required, e),
{
    let opened = source.table_bytes(name);
    let ghost seen = opened;
    let r = read_table::<T, F>(name, opened, required, floats);
    assert(source_opens(*source)(name@, seen));
    assert(table_result::<T>(name@, opened_view(seen), required, float_readings(*floats), r));
    r
}

/// Fills a [`GtfsReference`] from any [`TableSource`].
///
/// Opens the five required tables, then every other table, in a fixed
/// order; an absent required table is an error, an absent optional one
/// stays empty. `feed_info.txt` contributes at most one record; present
/// zones are read last.
///
/// # Errors
///
/// Returns the first [`ParseError`] in reading order, as it came.
#[verifier::rlimit(60)]
#[verifier::spinoff_prover]
pub fn read_tables<S: TableSource, F: FloatParser>(source: &S, floats: &F) -> (r: Result<GtfsReference, ParseError>)
    ensures
        feed_read(source_opens(*source), float_readings(*floats), source_zones(*source), r),
{
    let ghost opens = source_opens(*source);
    let ghost zones = source_zones(*source);
    let ghost reads = float_readings(*floats);
    let mut gtfs = GtfsReference::new();
    gtfs.agencies = match source_table::<Agency, S, F>(source, Agency::FILE_NAME, true, floats) {
        Ok(v) => v,
        Err(e) => {
            proof {
                assert(step_fails(opens, reads, zones, 0, e));
                lemma_fails_at(opens, reads, zones, 0, e);
            }
            return Err(e);
        },
    };
    assert(table_ok::<Agency>(opens, reads, Agency::FILE_NAME@, true, gtfs.agencies));
    assert(step_ok(opens, reads, zones, 0));
    assert(forall|i: int| 0 <= i < 1 ==> #[trigger] step_ok(opens, reads, zones, i));
    gtfs.stops = match source_table::<Stop, S, F>(source, Stop::FILE_NAME, true, floats) {
        Ok(v) => v,
        Err(e) => {
            proof {
                assert(step_fails(opens, reads, zones, 1, e));
                lemma_fails_at(opens, reads, zones, 1, e);
            }
            return Err(e);
        },
    };
    assert(table_ok::<Stop>(opens, reads, Stop::FILE_NAME@, true, gtfs.stops));
    assert(step_ok(opens, reads, zones, 1));
    assert(forall|i: int| 0 <= i < 2 ==> #[trigger] step_ok(opens, reads, zones, i));
    gtfs.routes = match source_table::<Route, S, F>(source, Route::FILE_NAME, true, floats) {
        Ok(v) => v,
        Err(e) => {
            proof {
                assert(step_fails(opens, reads, zones, 2, e));
                lemma_fails_at(opens, reads, zones, 2, e);
            }
            return Err(e);
        },
    };
    assert(table_ok::<Route>(opens, reads, Route::FILE_NAME@, true, gtfs.routes));
    assert(step_ok(opens, reads, zones, 2));
    assert(forall|i: int| 0 <= i < 3 ==> #[trigger] step_ok(opens, reads, zones, i));
    gtfs.trips = match source_table::<Trip, S, F>(source, Trip::FILE_NAME, true, floats) {
        Ok(v) => v,
        Err(e) => {
            proof {
                assert(step_fails(opens, reads, zones, 3, e));
                lemma_fails_at(opens, reads, zones, 3, e);
            }
            return Err(e);
        },
    };
    assert(table_ok::<Trip>(opens, reads, Trip::FILE_NAME@, true, gtfs.trips));
    assert(step_ok(opens, reads, zones, 3));
    assert(forall|i: int| 0 <= i < 4 ==> #[trigger] step_ok(opens, reads, zones, i));
    gtfs.stop_times = match source_table::<StopTime, S, F>(source, StopTime::FILE_NAME, true, floats) {
        Ok(v) => v,
        Err(e) => {
            proof {
                assert(step_fails(opens, reads, zones, 4, e));
                lemma_fails_at(opens, reads, zones, 4, e);
            }
            return Err(e);
        },
    };
    assert(table_ok::<StopTime>(opens, reads, StopTime::FILE_NAME@, true, gtfs.stop_times));
    assert(step_ok(opens, reads, zones, 4));
    assert(forall|i: int| 0 <= i < 5 ==> #[trigger] step_ok(opens, reads, zones, i));
    gtfs.calendar = match source_table::<Calendar, S, F>(source, Calendar::FILE_NAME, false, floats) {
        Ok(v) => v,
        Err(e) => {
            proof {
                assert(step_fails(opens, reads, zones, 5, e));
                lemma_fails_at(opens, reads, zones, 5, e);
            }
            return Err(e);
        },
    };
    assert(table_ok::<Calendar>(opens, reads, Calendar::FILE_NAME@, false, gtfs.calendar));
    assert(step_ok(opens, reads, zones, 5));
    assert(forall|i: int| 0 <= i < 6 ==> #[trigger] step_ok(opens, reads, zones, i));
    gtfs.calendar_dates = match source_table::<CalendarDate, S, F>(source, CalendarDate::FILE_NAME, false, floats) {
        Ok(v) => v,
        Err(e) => {
            proof {
                assert(step_fails(opens, reads, zones, 6, e));
                lemma_fails_at(opens, reads, zones, 6, e);
            }
            return Err(e);
        },
    };
    assert(table_ok::<CalendarDate>(opens, reads, CalendarDate::FILE_NAME@, false, gtfs.calendar_dates));
    assert(step_ok(opens, reads, zones, 6));
    assert(forall|i: int| 0 <= i < 7 ==> #[trigger] step_ok(opens, reads, zones, i));
    gtfs.fare_attributes = match source_table::<FareAttributeV1, S, F>(source, FareAttributeV1::FILE_NAME, false, floats) {
        Ok(v) => v,
        Err(e) => {
            proof {
                assert(step_fails(opens, reads, zones, 7, e));
                lemma_fails_at(opens, reads, zones, 7, e);
            }
            return Err(e);
        },
    };
    assert(table_ok::<FareAttributeV1>(opens, reads, FareAttributeV1::FILE_NAME@, false, gtfs.fare_attributes));
    assert(step_ok(opens, reads, zones, 7));
    assert(forall|i: int| 0 <= i < 8 ==> #[trigger] step_ok(opens, reads, zones, i));
    gtfs.fare_rules = match source_table::<FareRuleV1, S, F>(source, FareRuleV1::FILE_NAME, false, floats) {
        Ok(v) => v,
        Err(e) => {
            proof {
                assert(step_fails(opens, reads, zones, 8, e));
                lemma_fails_at(opens, reads, zones, 8, e);
            }
            return Err(e);
        },
    };
    assert(table_ok::<FareRuleV1>(opens, reads, FareRuleV1::FILE_NAME@, false, gtfs.fare_rules));
    assert(step_ok(opens, reads, zones, 8));
    assert(forall|i: int| 0 <= i < 9 ==> #[trigger] step_ok(opens, reads, zones, i));
    gtfs.timeframes = match source_table::<Timeframe, S, F>(source, Timeframe::FILE_NAME, false, floats) {
        Ok(v) => v,
        Err(e) => {
            proof {
                assert(step_fails(opens, reads, zones, 9, e));
                lemma_fails_at(opens, reads, zones, 9, e);
            }
            return Err(e);
        },
    };
    assert(table_ok::<Timeframe>(opens, reads, Timeframe::FILE_NAME@, false, gtfs.timeframes));
    assert(step_ok(opens, reads, zones, 9));
    assert(forall|i: int| 0 <= i < 10 ==> #[trigger] step_ok(opens, reads, zones, i));
    gtfs.rider_categories = match source_table::<RiderCategory, S, F>(source, RiderCategory::FILE_NAME, false, floats) {
        Ok(v) => v,
        Err(e) => {
            proof {
                assert(step_fails(opens, reads, zones, 10, e));
                lemma_fails_at(opens, reads, zones, 10, e);
            }
            return Err(e);
        },
    };
    assert(table_ok::<RiderCategory>(opens, reads, RiderCategory::FILE_NAME@, false, gtfs.rider_categories));
    assert(step_ok(opens, reads, zones, 10));
    assert(forall|i: int| 0 <= i < 11 ==> #[trigger] step_ok(opens, reads, zones, i));
    gtfs.fare_media = match source_table::<FareMedia, S, F>(source, FareMedia::FILE_NAME, false, floats) {
        Ok(v) => v,
        Err(e) => {
            proof {
                assert(step_fails(opens, reads, zones, 11, e));
                lemma_fails_at(opens, reads, zones, 11, e);
            }
            return Err(e);
        },
    };
    assert(table_ok::<FareMedia>(opens, reads, FareMedia::FILE_NAME@, false, gtfs.fare_media));
    assert(step_ok(opens, reads, zones, 11));
    assert(forall|i: int| 0 <= i < 12 ==> #[trigger] step_ok(opens, reads, zones, i));
    gtfs.fare_products = match source_table::<FareProduct, S, F>(source, FareProduct::FILE_NAME, false, floats) {
        Ok(v) => v,
        Err(e) => {
            proof {
                assert(step_fails(opens, reads, zones, 12, e));
                lemma_fails_at(opens, reads, zones, 12, e);
            }
            return Err(e);
        },
    };
    assert(table_ok::<FareProduct>(opens, reads, FareProduct::FILE_NAME@, false, gtfs.fare_products));
    assert(step_ok(opens, reads, zones, 12));
    assert(forall|i: int| 0 <= i < 13 ==> #[trigger] step_ok(opens, reads, zones, i));
    gtfs.fare_leg_rules = match source_table::<FareLegRule, S, F>(source, FareLegRule::FILE_NAME, false, floats) {
        Ok(v) => v,
        Err(e) => {
            proof {
                assert(step_fails(opens, reads, zones, 13, e));
                lemma_fails_at(opens, reads, zones, 13, e);
            }
            return Err(e);
        },
    };
    assert(table_ok::<FareLegRule>(opens, reads, FareLegRule::FILE_NAME@, false, gtfs.fare_leg_rules));
    assert(step_ok(opens, reads, zones, 13));
    assert(forall|i: int| 0 <= i < 14 ==> #[trigger] step_ok(opens, reads, zones, i));
    gtfs.fare_leg_join_rules = match source_table::<FareLegJoinRule, S, F>(source, FareLegJoinRule::FILE_NAME, false, floats) {
        Ok(v) => v,
        Err(e) => {
            proof {
                assert(step_fails(opens, reads, zones, 14, e));
                lemma_fails_at(opens, reads, zones, 14, e);
            }
            return Err(e);
        },
    };
    assert(table_ok::<FareLegJoinRule>(opens, reads, FareLegJoinRule::FILE_NAME@, false, gtfs.fare_leg_join_rules));
    assert(step_ok(opens, reads, zones, 14));
    assert(forall|i: int| 0 <= i < 15 ==> #[trigger] step_ok(opens, reads, zones, i));
    gtfs.fare_transfer_rules = match source_table::<FareTransferRule, S, F>(source, FareTransferRule::FILE_NAME, false, floats) {
        Ok(v) => v,
        Err(e) => {
            proof {
                assert(step_fails(opens, reads, zones, 15, e));
                lemma_fails_at(opens, reads, zones, 15, e);
            }
            return Err(e);
        },
    };
    assert(table_ok::<FareTransferRule>(opens, reads, FareTransferRule::FILE_NAME@, false, gtfs.fare_transfer_rules));
    assert(step_ok(opens, reads, zones, 15));
    assert(forall|i: int| 0 <= i < 16 ==> #[trigger] step_ok(opens, reads, zones, i));
    gtfs.areas = match source_table::<Area, S, F>(source, Area::FILE_NAME, false, floats) {
        Ok(v) => v,
        Err(e) => {
            proof {
                assert(step_fails(opens, reads, zones, 16, e));
                lemma_fails_at(opens, reads, zones, 16, e);
            }
            return Err(e);
        },
    };
    assert(table_ok::<Area>(opens, reads, Area::FILE_NAME@, false, gtfs.areas));
    assert(step_ok(opens, reads, zones, 16));
    assert(forall|i: int| 0 <= i < 17 ==> #[trigger] step_ok(opens, reads, zones, i));
    gtfs.stop_areas = match source_table::<StopArea, S, F>(source, StopArea::FILE_NAME, false, floats) {
        Ok(v) => v,
        Err(e) => {
            proof {
                assert(step_fails(opens, reads, zones, 17, e));
                lemma_fails_at(opens, reads, zones, 17, e);
            }
            return Err(e);
        },
    };
    assert(table_ok::<StopArea>(opens, reads, StopArea::FILE_NAME@, false, gtfs.stop_areas));
    assert(step_ok(opens, reads, zones, 17));
    assert(forall|i: int| 0 <= i < 18 ==> #[trigger] step_ok(opens, reads, zones, i));
    gtfs.networks = match source_table::<Network, S, F>(source, Network::FILE_NAME, false, floats) {
        Ok(v) => v,
        Err(e) => {
            proof {
                assert(step_fails(opens, reads, zones, 18, e));
                lemma_fails_at(opens, reads, zones, 18, e);
            }
            return Err(e);
        },
    };
    assert(table_ok::<Network>(opens, reads, Network::FILE_NAME@, false, gtfs.networks));
    assert(step_ok(opens, reads, zones, 18));
    assert(forall|i: int| 0 <= i < 19 ==> #[trigger] step_ok(opens, reads, zones, i));
    gtfs.route_networks = match source_table::<RouteNetwork, S, F>(source, RouteNetwork::FILE_NAME, false, floats) {
        Ok(v) => v,
        Err(e) => {
            proof {
                assert(step_fails(opens, reads, zones, 19, e));
                lemma_fails_at(opens, reads, zones, 19, e);
            }
            return Err(e);
        },
    };
    assert(table_ok::<RouteNetwork>(opens, reads, RouteNetwork::FILE_NAME@, false, gtfs.route_networks));
    assert(step_ok(opens, reads, zones, 19));
    assert(forall|i: int| 0 <= i < 20 ==> #[trigger] step_ok(opens, reads, zones, i));
    gtfs.shapes = match source_table::<ShapePoint, S, F>(source, ShapePoint::FILE_NAME, false, floats) {
        Ok(v) => v,
        Err(e) => {
            proof {
                assert(step_fails(opens, reads, zones, 20, e));
                lemma_fails_at(opens, reads, zones, 20, e);
            }
            return Err(e);
        },
    };
    assert(table_ok::<ShapePoint>(opens, reads, ShapePoint::FILE_NAME@, false, gtfs.shapes));
    assert(step_ok(opens, reads, zones, 20));
    assert(forall|i: int| 0 <= i < 21 ==> #[trigger] step_ok(opens, reads, zones, i));
    gtfs.frequencies = match source_table::<Frequency, S, F>(source, Frequency::FILE_NAME, false, floats) {
        Ok(v) => v,
        Err(e) => {
            proof {
                assert(step_fails(opens, reads, zones, 21, e));
                lemma_fails_at(opens, reads, zones, 21, e);
            }
            return Err(e);
        },
    };
    assert(table_ok::<Frequency>(opens, reads, Frequency::FILE_NAME@, false, gtfs.frequencies));
    assert(step_ok(opens, reads, zones, 21));
    assert(forall|i: int| 0 <= i < 22 ==> #[trigger] step_ok(opens, reads, zones, i));
    gtfs.transfers = match source_table::<Transfer, S, F>(source, Transfer::FILE_NAME, false, floats) {
        Ok(v) => v,
        Err(e) => {
            proof {
                assert(step_fails(opens, reads, zones, 22, e));
                lemma_fails_at(opens, reads, zones, 22, e);
            }
            return Err(e);
        },
    };
    assert(table_ok::<Transfer>(opens, reads, Transfer::FILE_NAME@, false, gtfs.transfers));
    assert(step_ok(opens, reads, zones, 22));
    assert(forall|i: int| 0 <= i < 23 ==> #[trigger] step_ok(opens, reads, zones, i));
    gtfs.pathways = match source_table::<Pathway, S, F>(source, Pathway::FILE_NAME, false, floats) {
        Ok(v) => v,
        Err(e) => {
            proof {
                assert(step_fails(opens, reads, zones, 23, e));
                lemma_fails_at(opens, reads, zones, 23, e);
            }
            return Err(e);
        },
    };
    assert(table_ok::<Pathway>(opens, reads, Pathway::FILE_NAME@, false, gtfs.pathways));
    assert(step_ok(opens, reads, zones, 23));
    assert(forall|i: int| 0 <= i < 24 ==> #[trigger] step_ok(opens, reads, zones, i));
    gtfs.levels = match source_table::<Level, S, F>(source, Level::FILE_NAME, false, floats) {
        Ok(v) => v,
        Err(e) => {
            proof {
                assert(step_fails(opens, reads, zones, 24, e));
                lemma_fails_at(opens, reads, zones, 24, e);
            }
            return Err(e);
        },
    };
    assert(table_ok::<Level>(opens, reads, Level::FILE_NAME@, false, gtfs.levels));
    assert(step_ok(opens, reads, zones, 24));
    assert(forall|i: int| 0 <= i < 25 ==> #[trigger] step_ok(opens, reads, zones, i));
    gtfs.location_groups = match source_table::<LocationGroup, S, F>(source, LocationGroup::FILE_NAME, false, floats) {
        Ok(v) => v,
        Err(e) => {
            proof {
                assert(step_fails(opens, reads, zones, 25, e));
                lemma_fails_at(opens, reads, zones, 25, e);
            }
            return Err(e);
        },
    };
    assert(table_ok::<LocationGroup>(opens, reads, LocationGroup::FILE_NAME@, false, gtfs.location_groups));
    assert(step_ok(opens, reads, zones, 25));
    assert(forall|i: int| 0 <= i < 26 ==> #[trigger] step_ok(opens, reads, zones, i));
    gtfs.location_group_stops = match source_table::<LocationGroupStop, S, F>(source, LocationGroupStop::FILE_NAME, false, floats) {
        Ok(v) => v,
        Err(e) => {
            proof {
                assert(step_fails(opens, reads, zones, 26, e));
                lemma_fails_at(opens, reads, zones, 26, e);
            }
            return Err(e);
        },
    };
    assert(table_ok::<LocationGroupStop>(opens, reads, LocationGroupStop::FILE_NAME@, false, gtfs.location_group_stops));
    assert(step_ok(opens, reads, zones, 26));
    assert(forall|i: int| 0 <= i < 27 ==> #[trigger] step_ok(opens, reads, zones, i));
    gtfs.booking_rules = match source_table::<BookingRule, S, F>(source, BookingRule::FILE_NAME, false, floats) {
        Ok(v) => v,
        Err(e) => {
            proof {
                assert(step_fails(opens, reads, zones, 27, e));
                lemma_fails_at(opens, reads, zones, 27, e);
            }
            return Err(e);
        },
    };
    assert(table_ok::<BookingRule>(opens, reads, BookingRule::FILE_NAME@, false, gtfs.booking_rules));
    assert(step_ok(opens, reads, zones, 27));
    assert(forall|i: int| 0 <= i < 28 ==> #[trigger] step_ok(opens, reads, zones, i));
    gtfs.translations = match source_table::<Translation, S, F>(source, Translation::FILE_NAME, false, floats) {
        Ok(v) => v,
        Err(e) => {
            proof {
                assert(step_fails(opens, reads, zones, 28, e));
                lemma_fails_at(opens, reads, zones, 28, e);
            }
            return Err(e);
        },
    };
    assert(table_ok::<Translation>(opens, reads, Translation::FILE_NAME@, false, gtfs.translations));
    assert(step_ok(opens, reads, zones, 28));
    assert(forall|i: int| 0 <= i < 29 ==> #[trigger] step_ok(opens, reads, zones, i));
    let mut info = match source_table::<FeedInfo, S, F>(source, FeedInfo::FILE_NAME, false, floats) {
        Ok(v) => v,
        Err(e) => {
            proof {
                assert(step_fails(opens, reads, zones, 29, e));
                lemma_fails_at(opens, reads, zones, 29, e);
            }
            return Err(e);
        },
    };
    let ghost all_info = info;
    assert(table_ok::<FeedInfo>(opens, reads, FeedInfo::FILE_NAME@, false, all_info));
    gtfs.feed_info = if info.len() > 0 {
        Some(info.remove(0))
    } else {
        None
    };
    assert(step_ok(opens, reads, zones, 29));
    assert(forall|i: int| 0 <= i < 30 ==> #[trigger] step_ok(opens, reads, zones, i));
    gtfs.attributions = match source_table::<Attribution, S, F>(source, Attribution::FILE_NAME, false, floats) {
        Ok(v) => v,
        Err(e) => {
            proof {
                assert(step_fails(opens, reads, zones, 30, e));
                lemma_fails_at(opens, reads, zones, 30, e);
            }
            return Err(e);
        },
    };
    assert(table_ok::<Attribution>(opens, reads, Attribution::FILE_NAME@, false, gtfs.attributions));
    assert(step_ok(opens, reads, zones, 30));
    assert(forall|i: int| 0 <= i < 31 ==> #[trigger] step_ok(opens, reads, zones, i));
    let zones_out = source.locations();
    assert(zones(zones_out));
    match zones_out {
        Ok(Some(z)) => {
            gtfs.locations = z;
        },
        Ok(None) => {},
        Err(e) => {
            proof {
                assert(step_fails(opens, reads, zones, 31, e));
                lemma_fails_at(opens, reads, zones, 31, e);
            }
            return Err(e);
        },
    }
    Ok(gtfs)
}

/// A failing step after steps that all succeed is what the feed reads as.
proof fn lemma_fails_at(opens: spec_fn(Seq<char>, Result<Option<Vec<u8>>, ParseError>) -> bool, reads: spec_fn(Seq<char>, Option<u64>) -> bool, zones: spec_fn(Result<Option<Vec<Location>>, ParseError>) -> bool, k: int, e: ParseError)
    requires
        0 <= k < feed_steps(),
        forall|i: int| 0 <= i < k ==> #[trigger] step_ok(opens, reads, zones, i),
        step_fails(opens, reads, zones, k, e),
    ensures
        feed_read(opens, reads, zones, Err::<GtfsReference, ParseError>(e)),
{
}

} // verus!
