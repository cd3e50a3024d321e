//! [`CsvRecord`] implementations for the `model` entities, one per
//! GTFS table, in specification order. Each states, over the row's
//! content, which error a row yields or which record it reads as.

use vstd::prelude::*;

use crate::misc::{CurrencyAmount, GtfsDate};
use crate::model::{
    Agency, Area, Attribution, BikesAllowed, BookingRule, BookingType, Calendar, CalendarDate,
    CarsAllowed, CemvSupport, ContinuousPickupDropOff, Direction, DurationLimitType, ExactTimes,
    ExceptionType, FareAttributeV1, FareLegJoinRule, FareLegRule, FareMedia, FareMediaType,
    FareProduct, FareRuleV1, FareTransferRule, FareTransferType, FareTransfers, FeedInfo,
    Frequency, Level, LocationGroup, LocationGroupStop, LocationType, Network, Pathway,
    PathwayMode, PaymentMethod, PickupDropOffType, RiderCategory, Route, RouteNetwork, RouteType,
    ShapePoint, Stop, StopAccess, StopArea, StopTime, TableName, Timeframe, Timepoint, Transfer,
    TransferType, Translation, Trip, WheelchairAccessible, WheelchairBoarding,
};
use crate::parsers::csv::record::{fails_with, CsvRecord};
use crate::parsers::csv::row::{
    column_text, date_parts, err_view, int_text, invalid_error, opt_string, opt_string_view, row_opt_bool,
    row_opt_code, row_opt_date, row_opt_float, row_opt_num, row_opt_time, row_req, row_req_bool,
    row_req_code, row_req_currency, row_req_date, row_req_float, row_req_num, row_req_time, Integer,
    Row, RowView,
};
use crate::parsers::error::{ParseError, ParseErrorView};
use crate::text::owned;

verus! {

/// The value of an optional column, or the default.
pub open spec fn or_default<T>(o: Option<T>, d: T) -> T {
    match o {
        Some(v) => v,
        None => d,
    }
}

/// The year, month and day of an optional date.
pub open spec fn opt_date_parts(d: Option<GtfsDate>) -> Option<(int, int, int)> {
    match d {
        Some(date) => Some(date_parts(date)),
        None => None,
    }
}

/// The units and scale of an amount.
pub open spec fn amount_parts(a: CurrencyAmount) -> (int, nat) {
    (a.spec_units(), a.spec_scale())
}

/// The `table_name` column of `translations.txt`: a required value that
/// names a table of the dataset.
pub open spec fn table_name_step(r: RowView) -> Result<Seq<char>, ParseErrorView> {
    match row_req(r, "table_name"@) {
        Err(e) => Err(e),
        Ok(raw) => if exists|t: TableName| t.spec_name() == raw {
            Ok(raw)
        } else {
            Err(invalid_error(r, "table_name"@, raw, "a GTFS table name"@))
        },
    }
}

fn table_name_of(row: &Row<'_>) -> (r: Result<TableName, ParseError>)
    ensures
        match table_name_step(row@) {
            Ok(name) => r matches Ok(t) && t.spec_name() == name,
            Err(e) => fails_with(r, e),
        },
{
    let raw = match row.req("table_name") {
        Ok(v) => v,
        Err(e) => return Err(e),
    };
    match TableName::from_name(raw) {
        Some(t) => Ok(t),
        None => Err(row.invalid("table_name", raw, "a GTFS table name")),
    }
}

/// The `transfers` column of `fare_attributes.txt`: empty means
/// unlimited transfers.
pub open spec fn fare_transfers_step(r: RowView) -> Result<FareTransfers, ParseErrorView> {
    match column_text(r, "transfers"@) {
        None => Ok(FareTransfers::Unlimited),
        Some(raw) => match <i32 as Integer>::from_text_spec(raw) {
            Some(code) => match FareTransfers::spec_from_code(Some(code as int)) {
                Some(t) => Ok(t),
                None => Err(invalid_error(r, "transfers"@, raw, "code 0-2 or empty"@)),
            },
            None => Err(invalid_error(r, "transfers"@, raw, "code 0-2 or empty"@)),
        },
    }
}

fn fare_transfers_of(row: &Row<'_>) -> (r: Result<FareTransfers, ParseError>)
    ensures
        err_view(r) == fare_transfers_step(row@),
{
    match row.opt("transfers") {
        None => Ok(FareTransfers::Unlimited),
        Some(raw) => match <i32 as Integer>::from_text(raw) {
            Some(code) => match FareTransfers::from_code(Some(code)) {
                Some(t) => Ok(t),
                None => Err(row.invalid("transfers", raw, "code 0-2 or empty")),
            },
            None => Err(row.invalid("transfers", raw, "code 0-2 or empty")),
        },
    }
}

/// Whether `out` is what a row of `agency.txt` reads as: the first
/// failing column in reading order gives the error, else every field is
/// the value of its column.
pub open spec fn agency_parsed(r: RowView, out: Result<Agency, ParseError>) -> bool {
    match row_req(r, "agency_name"@) {
        Err(e) => fails_with(out, e),
        Ok(v0) => match row_req(r, "agency_url"@) {
            Err(e) => fails_with(out, e),
            Ok(v1) => match row_req(r, "agency_timezone"@) {
                Err(e) => fails_with(out, e),
                Ok(v2) => match row_opt_code::<CemvSupport>(r, "cemv_support"@, "code 0-2"@) {
                    Err(e) => fails_with(out, e),
                    Ok(v8) => match out {
                        Ok(x) => {
                            &&& x.agency_name@ == v0
                            &&& x.agency_url@ == v1
                            &&& x.agency_timezone@ == v2
                            &&& opt_string_view(x.agency_id) == column_text(r, "agency_id"@)
                            &&& opt_string_view(x.agency_lang) == column_text(r, "agency_lang"@)
                            &&& opt_string_view(x.agency_phone) == column_text(r, "agency_phone"@)
                            &&& opt_string_view(x.agency_fare_url) == column_text(r, "agency_fare_url"@)
                            &&& opt_string_view(x.agency_email) == column_text(r, "agency_email"@)
                            &&& x.cemv_support == or_default(v8, CemvSupport::NoInfo)
                        },
                        Err(_) => false,
                    },
                },
            },
        },
    }
}

impl CsvRecord for Agency {
    const FILE_NAME: &'static str = "agency.txt";

    open spec fn parsed(r: RowView, out: Result<Self, ParseError>) -> bool {
        agency_parsed(r, out)
    }

    fn from_row(row: &Row<'_>) -> (r: Result<Self, ParseError>) {
        let v0 = match row.req("agency_name") {
            Ok(v) => v,
            Err(e) => return Err(e),
        };
        let v1 = match row.req("agency_url") {
            Ok(v) => v,
            Err(e) => return Err(e),
        };
        let v2 = match row.req("agency_timezone") {
            Ok(v) => v,
            Err(e) => return Err(e),
        };
        let v3 = opt_string(row, "agency_id");
        let v4 = opt_string(row, "agency_lang");
        let v5 = opt_string(row, "agency_phone");
        let v6 = opt_string(row, "agency_fare_url");
        let v7 = opt_string(row, "agency_email");
        let v8 = match row.opt_code::<CemvSupport>("cemv_support", "code 0-2") {
            Ok(v) => v,
            Err(e) => return Err(e),
        };
        Ok(Agency {
            agency_name: owned(v0),
            agency_url: owned(v1),
            agency_timezone: owned(v2),
            agency_id: v3,
            agency_lang: v4,
            agency_phone: v5,
            agency_fare_url: v6,
            agency_email: v7,
            cemv_support: match v8 {
                Some(c) => c,
                None => CemvSupport::default(),
            },
        })
    }
}

/// Whether `out` is what a row of `stops.txt` reads as: the first
/// failing column in reading order gives the error, else every field is
/// the value of its column.
pub open spec fn stop_parsed(r: RowView, out: Result<Stop, ParseError>) -> bool {
    match row_req(r, "stop_id"@) {
        Err(e) => fails_with(out, e),
        Ok(v0) => match row_opt_float(r, "stop_lat"@, "a latitude"@) {
            Err(e) => fails_with(out, e),
            Ok(v5) => match row_opt_float(r, "stop_lon"@, "a longitude"@) {
                Err(e) => fails_with(out, e),
                Ok(v6) => match row_opt_code::<LocationType>(r, "location_type"@, "code 0-4"@) {
                    Err(e) => fails_with(out, e),
                    Ok(v9) => match row_opt_code::<StopAccess>(r, "stop_access"@, "code 0-1"@) {
                        Err(e) => fails_with(out, e),
                        Ok(v11) => match row_opt_code::<WheelchairBoarding>(r, "wheelchair_boarding"@, "code 0-2"@) {
                            Err(e) => fails_with(out, e),
                            Ok(v13) => match out {
                                Ok(x) => {
                                    &&& x.stop_id@ == v0
                                    &&& opt_string_view(x.stop_code) == column_text(r, "stop_code"@)
                                    &&& opt_string_view(x.stop_name) == column_text(r, "stop_name"@)
                                    &&& opt_string_view(x.tts_stop_name) == column_text(r, "tts_stop_name"@)
                                    &&& opt_string_view(x.stop_desc) == column_text(r, "stop_desc"@)
                                    &&& x.stop_lat == v5
                                    &&& x.stop_lon == v6
                                    &&& opt_string_view(x.zone_id) == column_text(r, "zone_id"@)
                                    &&& opt_string_view(x.stop_url) == column_text(r, "stop_url"@)
                                    &&& x.location_type == or_default(v9, LocationType::StopOrPlatform)
                                    &&& opt_string_view(x.parent_station) == column_text(r, "parent_station"@)
                                    &&& x.stop_access == v11
                                    &&& opt_string_view(x.stop_timezone) == column_text(r, "stop_timezone"@)
                                    &&& x.wheelchair_boarding == or_default(v13, WheelchairBoarding::NoInfo)
                                    &&& opt_string_view(x.level_id) == column_text(r, "level_id"@)
                                    &&& opt_string_view(x.platform_code) == column_text(r, "platform_code"@)
                                },
                                Err(_) => false,
                            },
                        },
                    },
                },
            },
        },
    }
}

impl CsvRecord for Stop {
    const FILE_NAME: &'static str = "stops.txt";

    open spec fn parsed(r: RowView, out: Result<Self, ParseError>) -> bool {
        stop_parsed(r, out)
    }

    fn from_row(row: &Row<'_>) -> (r: Result<Self, ParseError>) {
        let v0 = match row.req("stop_id") {
            Ok(v) => v,
            Err(e) => return Err(e),
        };
        let v1 = opt_string(row, "stop_code");
        let v2 = opt_string(row, "stop_name");
        let v3 = opt_string(row, "tts_stop_name");
        let v4 = opt_string(row, "stop_desc");
        let v5 = match row.opt_float("stop_lat", "a latitude") {
            Ok(v) => v,
            Err(e) => return Err(e),
        };
        let v6 = match row.opt_float("stop_lon", "a longitude") {
            Ok(v) => v,
            Err(e) => return Err(e),
        };
        let v7 = opt_string(row, "zone_id");
        let v8 = opt_string(row, "stop_url");
        let v9 = match row.opt_code::<LocationType>("location_type", "code 0-4") {
            Ok(v) => v,
            Err(e) => return Err(e),
        };
        let v10 = opt_string(row, "parent_station");
        let v11 = match row.opt_code::<StopAccess>("stop_access", "code 0-1") {
            Ok(v) => v,
            Err(e) => return Err(e),
        };
        let v12 = opt_string(row, "stop_timezone");
        let v13 = match row.opt_code::<WheelchairBoarding>("wheelchair_boarding", "code 0-2") {
            Ok(v) => v,
            Err(e) => return Err(e),
        };
        let v14 = opt_string(row, "level_id");
        let v15 = opt_string(row, "platform_code");
        Ok(Stop {
            stop_id: owned(v0),
            stop_code: v1,
            stop_name: v2,
            tts_stop_name: v3,
            stop_desc: v4,
            stop_lat: v5,
            stop_lon: v6,
            zone_id: v7,
            stop_url: v8,
            location_type: match v9 {
                Some(c) => c,
                None => LocationType::default(),
            },
            parent_station: v10,
            stop_access: v11,
            stop_timezone: v12,
            wheelchair_boarding: match v13 {
                Some(c) => c,
                None => WheelchairBoarding::default(),
            },
            level_id: v14,
            platform_code: v15,
        })
    }
}

/// Whether `out` is what a row of `routes.txt` reads as: the first
/// failing column in reading order gives the error, else every field is
/// the value of its column.
pub open spec fn route_parsed(r: RowView, out: Result<Route, ParseError>) -> bool {
    match row_req_code::<RouteType>(r, "route_type"@, "a route type code"@) {
        Err(e) => fails_with(out, e),
        Ok(v0) => match row_req(r, "route_id"@) {
            Err(e) => fails_with(out, e),
            Ok(v1) => match row_opt_num::<u32>(r, "route_sort_order"@, "a non-negative integer"@) {
                Err(e) => fails_with(out, e),
                Ok(v9) => match row_opt_code::<ContinuousPickupDropOff>(r, "continuous_pickup"@, "code 0-3"@) {
                    Err(e) => fails_with(out, e),
                    Ok(v10) => match row_opt_code::<ContinuousPickupDropOff>(r, "continuous_drop_off"@, "code 0-3"@) {
                        Err(e) => fails_with(out, e),
                        Ok(v11) => match row_opt_code::<CemvSupport>(r, "cemv_support"@, "code 0-2"@) {
                            Err(e) => fails_with(out, e),
                            Ok(v13) => match out {
                                Ok(x) => {
                                    &&& x.route_type == v0
                                    &&& x.route_id@ == v1
                                    &&& opt_string_view(x.agency_id) == column_text(r, "agency_id"@)
                                    &&& opt_string_view(x.route_short_name) == column_text(r, "route_short_name"@)
                                    &&& opt_string_view(x.route_long_name) == column_text(r, "route_long_name"@)
                                    &&& opt_string_view(x.route_desc) == column_text(r, "route_desc"@)
                                    &&& opt_string_view(x.route_url) == column_text(r, "route_url"@)
                                    &&& opt_string_view(x.route_color) == column_text(r, "route_color"@)
                                    &&& opt_string_view(x.route_text_color) == column_text(r, "route_text_color"@)
                                    &&& x.route_sort_order == v9
                                    &&& x.continuous_pickup == or_default(v10, ContinuousPickupDropOff::NotContinuous)
                                    &&& x.continuous_drop_off == or_default(v11, ContinuousPickupDropOff::NotContinuous)
                                    &&& opt_string_view(x.network_id) == column_text(r, "network_id"@)
                                    &&& x.cemv_support == or_default(v13, CemvSupport::NoInfo)
                                },
                                Err(_) => false,
                            },
                        },
                    },
                },
            },
        },
    }
}

impl CsvRecord for Route {
    const FILE_NAME: &'static str = "routes.txt";

    open spec fn parsed(r: RowView, out: Result<Self, ParseError>) -> bool {
        route_parsed(r, out)
    }

    fn from_row(row: &Row<'_>) -> (r: Result<Self, ParseError>) {
        let v0 = match row.req_code::<RouteType>("route_type", "a route type code") {
            Ok(v) => v,
            Err(e) => return Err(e),
        };
        let v1 = match row.req("route_id") {
            Ok(v) => v,
            Err(e) => return Err(e),
        };
        let v2 = opt_string(row, "agency_id");
        let v3 = opt_string(row, "route_short_name");
        let v4 = opt_string(row, "route_long_name");
        let v5 = opt_string(row, "route_desc");
        let v6 = opt_string(row, "route_url");
        let v7 = opt_string(row, "route_color");
        let v8 = opt_string(row, "route_text_color");
        let v9 = match row.opt_num::<u32>("route_sort_order", "a non-negative integer") {
            Ok(v) => v,
            Err(e) => return Err(e),
        };
        let v10 = match row.opt_code::<ContinuousPickupDropOff>("continuous_pickup", "code 0-3") {
            Ok(v) => v,
            Err(e) => return Err(e),
        };
        let v11 = match row.opt_code::<ContinuousPickupDropOff>("continuous_drop_off", "code 0-3") {
            Ok(v) => v,
            Err(e) => return Err(e),
        };
        let v12 = opt_string(row, "network_id");
        let v13 = match row.opt_code::<CemvSupport>("cemv_support", "code 0-2") {
            Ok(v) => v,
            Err(e) => return Err(e),
        };
        Ok(Route {
            route_type: v0,
            route_id: owned(v1),
            agency_id: v2,
            route_short_name: v3,
            route_long_name: v4,
            route_desc: v5,
            route_url: v6,
            route_color: v7,
            route_text_color: v8,
            route_sort_order: v9,
            continuous_pickup: match v10 {
                Some(c) => c,
                None => ContinuousPickupDropOff::default(),
            },
            continuous_drop_off: match v11 {
                Some(c) => c,
                None => ContinuousPickupDropOff::default(),
            },
            network_id: v12,
            cemv_support: match v13 {
                Some(c) => c,
                None => CemvSupport::default(),
            },
        })
    }
}

/// Whether `out` is what a row of `trips.txt` reads as: the first
/// failing column in reading order gives the error, else every field is
/// the value of its column.
pub open spec fn trip_parsed(r: RowView, out: Result<Trip, ParseError>) -> bool {
    match row_req(r, "trip_id"@) {
        Err(e) => fails_with(out, e),
        Ok(v0) => match row_req(r, "route_id"@) {
            Err(e) => fails_with(out, e),
            Ok(v1) => match row_req(r, "service_id"@) {
                Err(e) => fails_with(out, e),
                Ok(v2) => match row_opt_code::<Direction>(r, "direction_id"@, "code 0-1"@) {
                    Err(e) => fails_with(out, e),
                    Ok(v5) => match row_opt_code::<WheelchairAccessible>(r, "wheelchair_accessible"@, "code 0-2"@) {
                        Err(e) => fails_with(out, e),
                        Ok(v8) => match row_opt_code::<BikesAllowed>(r, "bikes_allowed"@, "code 0-2"@) {
                            Err(e) => fails_with(out, e),
                            Ok(v9) => match row_opt_code::<CarsAllowed>(r, "cars_allowed"@, "code 0-2"@) {
                                Err(e) => fails_with(out, e),
                                Ok(v10) => match row_opt_float(r, "safe_duration_factor"@, "a float"@) {
                                    Err(e) => fails_with(out, e),
                                    Ok(v11) => match row_opt_float(r, "safe_duration_offset"@, "a float"@) {
                                        Err(e) => fails_with(out, e),
                                        Ok(v12) => match out {
                                            Ok(x) => {
                                                &&& x.trip_id@ == v0
                                                &&& x.route_id@ == v1
                                                &&& x.service_id@ == v2
                                                &&& opt_string_view(x.trip_headsign) == column_text(r, "trip_headsign"@)
                                                &&& opt_string_view(x.trip_short_name) == column_text(r, "trip_short_name"@)
                                                &&& x.direction_id == v5
                                                &&& opt_string_view(x.block_id) == column_text(r, "block_id"@)
                                                &&& opt_string_view(x.shape_id) == column_text(r, "shape_id"@)
                                                &&& x.wheelchair_accessible == or_default(v8, WheelchairAccessible::NoInfo)
                                                &&& x.bikes_allowed == or_default(v9, BikesAllowed::NoInfo)
                                                &&& x.cars_allowed == or_default(v10, CarsAllowed::NoInfo)
                                                &&& x.safe_duration_factor == v11
                                                &&& x.safe_duration_offset == v12
                                            },
                                            Err(_) => false,
                                        },
                                    },
                                },
                            },
                        },
                    },
                },
            },
        },
    }
}

impl CsvRecord for Trip {
    const FILE_NAME: &'static str = "trips.txt";

    open spec fn parsed(r: RowView, out: Result<Self, ParseError>) -> bool {
        trip_parsed(r, out)
    }

    fn from_row(row: &Row<'_>) -> (r: Result<Self, ParseError>) {
        let v0 = match row.req("trip_id") {
            Ok(v) => v,
            Err(e) => return Err(e),
        };
        let v1 = match row.req("route_id") {
            Ok(v) => v,
            Err(e) => return Err(e),
        };
        let v2 = match row.req("service_id") {
            Ok(v) => v,
            Err(e) => return Err(e),
        };
        let v3 = opt_string(row, "trip_headsign");
        let v4 = opt_string(row, "trip_short_name");
        let v5 = match row.opt_code::<Direction>("direction_id", "code 0-1") {
            Ok(v) => v,
            Err(e) => return Err(e),
        };
        let v6 = opt_string(row, "block_id");
        let v7 = opt_string(row, "shape_id");
        let v8 = match row.opt_code::<WheelchairAccessible>("wheelchair_accessible", "code 0-2") {
            Ok(v) => v,
            Err(e) => return Err(e),
        };
        let v9 = match row.opt_code::<BikesAllowed>("bikes_allowed", "code 0-2") {
            Ok(v) => v,
            Err(e) => return Err(e),
        };
        let v10 = match row.opt_code::<CarsAllowed>("cars_allowed", "code 0-2") {
            Ok(v) => v,
            Err(e) => return Err(e),
        };
        let v11 = match row.opt_float("safe_duration_factor", "a float") {
            Ok(v) => v,
            Err(e) => return Err(e),
        };
        let v12 = match row.opt_float("safe_duration_offset", "a float") {
            Ok(v) => v,
            Err(e) => return Err(e),
        };
        Ok(Trip {
            trip_id: owned(v0),
            route_id: owned(v1),
            service_id: owned(v2),
            trip_headsign: v3,
            trip_short_name: v4,
            direction_id: v5,
            block_id: v6,
            shape_id: v7,
            wheelchair_accessible: match v8 {
                Some(c) => c,
                None => WheelchairAccessible::default(),
            },
            bikes_allowed: match v9 {
                Some(c) => c,
                None => BikesAllowed::default(),
            },
            cars_allowed: match v10 {
                Some(c) => c,
                None => CarsAllowed::default(),
            },
            safe_duration_factor: v11,
            safe_duration_offset: v12,
        })
    }
}

/// Whether `out` is what a row of `stop_times.txt` reads as: the first
/// failing column in reading order gives the error, else every field is
/// the value of its column.
pub open spec fn stop_time_parsed(r: RowView, out: Result<StopTime, ParseError>) -> bool {
    match row_req(r, "trip_id"@) {
        Err(e) => fails_with(out, e),
        Ok(v0) => match row_opt_time(r, "arrival_time"@) {
            Err(e) => fails_with(out, e),
            Ok(v1) => match row_opt_time(r, "departure_time"@) {
                Err(e) => fails_with(out, e),
                Ok(v2) => match row_req_num::<u32>(r, "stop_sequence"@, "a non-negative integer"@) {
                    Err(e) => fails_with(out, e),
                    Ok(v6) => match row_opt_time(r, "start_pickup_drop_off_window"@) {
                        Err(e) => fails_with(out, e),
                        Ok(v8) => match row_opt_time(r, "end_pickup_drop_off_window"@) {
                            Err(e) => fails_with(out, e),
                            Ok(v9) => match row_opt_code::<PickupDropOffType>(r, "pickup_type"@, "code 0-3"@) {
                                Err(e) => fails_with(out, e),
                                Ok(v10) => match row_opt_code::<PickupDropOffType>(r, "drop_off_type"@, "code 0-3"@) {
                                    Err(e) => fails_with(out, e),
                                    Ok(v11) => match row_opt_code::<ContinuousPickupDropOff>(r, "continuous_pickup"@, "code 0-3"@) {
                                        Err(e) => fails_with(out, e),
                                        Ok(v12) => match row_opt_code::<ContinuousPickupDropOff>(r, "continuous_drop_off"@, "code 0-3"@) {
                                            Err(e) => fails_with(out, e),
                                            Ok(v13) => match row_opt_float(r, "shape_dist_traveled"@, "a distance"@) {
                                                Err(e) => fails_with(out, e),
                                                Ok(v14) => match row_opt_code::<Timepoint>(r, "timepoint"@, "code 0-1"@) {
                                                    Err(e) => fails_with(out, e),
                                                    Ok(v15) => match out {
                                                        Ok(x) => {
                                                            &&& x.trip_id@ == v0
                                                            &&& x.arrival_time == v1
                                                            &&& x.departure_time == v2
                                                            &&& opt_string_view(x.stop_id) == column_text(r, "stop_id"@)
                                                            &&& opt_string_view(x.location_group_id) == column_text(r, "location_group_id"@)
                                                            &&& opt_string_view(x.location_id) == column_text(r, "location_id"@)
                                                            &&& x.stop_sequence == v6
                                                            &&& opt_string_view(x.stop_headsign) == column_text(r, "stop_headsign"@)
                                                            &&& x.start_pickup_drop_off_window == v8
                                                            &&& x.end_pickup_drop_off_window == v9
                                                            &&& x.pickup_type == or_default(v10, PickupDropOffType::Regular)
                                                            &&& x.drop_off_type == or_default(v11, PickupDropOffType::Regular)
                                                            &&& x.continuous_pickup == or_default(v12, ContinuousPickupDropOff::NotContinuous)
                                                            &&& x.continuous_drop_off == or_default(v13, ContinuousPickupDropOff::NotContinuous)
                                                            &&& x.shape_dist_traveled == v14
                                                            &&& x.timepoint == or_default(v15, Timepoint::Exact)
                                                            &&& opt_string_view(x.pickup_booking_rule_id) == column_text(r, "pickup_booking_rule_id"@)
                                                            &&& opt_string_view(x.drop_off_booking_rule_id) == column_text(r, "drop_off_booking_rule_id"@)
                                                        },
                                                        Err(_) => false,
                                                    },
                                                },
                                            },
                                        },
                                    },
                                },
                            },
                        },
                    },
                },
            },
        },
    }
}

impl CsvRecord for StopTime {
    const FILE_NAME: &'static str = "stop_times.txt";

    open spec fn parsed(r: RowView, out: Result<Self, ParseError>) -> bool {
        stop_time_parsed(r, out)
    }

    fn from_row(row: &Row<'_>) -> (r: Result<Self, ParseError>) {
        let v0 = match row.req("trip_id") {
            Ok(v) => v,
            Err(e) => return Err(e),
        };
        let v1 = match row.opt_time("arrival_time") {
            Ok(v) => v,
            Err(e) => return Err(e),
        };
        let v2 = match row.opt_time("departure_time") {
            Ok(v) => v,
            Err(e) => return Err(e),
        };
        let v3 = opt_string(row, "stop_id");
        let v4 = opt_string(row, "location_group_id");
        let v5 = opt_string(row, "location_id");
        let v6 = match row.req_num::<u32>("stop_sequence", "a non-negative integer") {
            Ok(v) => v,
            Err(e) => return Err(e),
        };
        let v7 = opt_string(row, "stop_headsign");
        let v8 = match row.opt_time("start_pickup_drop_off_window") {
            Ok(v) => v,
            Err(e) => return Err(e),
        };
        let v9 = match row.opt_time("end_pickup_drop_off_window") {
            Ok(v) => v,
            Err(e) => return Err(e),
        };
        let v10 = match row.opt_code::<PickupDropOffType>("pickup_type", "code 0-3") {
            Ok(v) => v,
            Err(e) => return Err(e),
        };
        let v11 = match row.opt_code::<PickupDropOffType>("drop_off_type", "code 0-3") {
            Ok(v) => v,
            Err(e) => return Err(e),
        };
        let v12 = match row.opt_code::<ContinuousPickupDropOff>("continuous_pickup", "code 0-3") {
            Ok(v) => v,
            Err(e) => return Err(e),
        };
        let v13 = match row.opt_code::<ContinuousPickupDropOff>("continuous_drop_off", "code 0-3") {
            Ok(v) => v,
            Err(e) => return Err(e),
        };
        let v14 = match row.opt_float("shape_dist_traveled", "a distance") {
            Ok(v) => v,
            Err(e) => return Err(e),
        };
        let v15 = match row.opt_code::<Timepoint>("timepoint", "code 0-1") {
            Ok(v) => v,
            Err(e) => return Err(e),
        };
        let v16 = opt_string(row, "pickup_booking_rule_id");
        let v17 = opt_string(row, "drop_off_booking_rule_id");
        Ok(StopTime {
            trip_id: owned(v0),
            arrival_time: v1,
            departure_time: v2,
            stop_id: v3,
            location_group_id: v4,
            location_id: v5,
            stop_sequence: v6,
            stop_headsign: v7,
            start_pickup_drop_off_window: v8,
            end_pickup_drop_off_window: v9,
            pickup_type: match v10 {
                Some(c) => c,
                None => PickupDropOffType::default(),
            },
            drop_off_type: match v11 {
                Some(c) => c,
                None => PickupDropOffType::default(),
            },
            continuous_pickup: match v12 {
                Some(c) => c,
                None => ContinuousPickupDropOff::default(),
            },
            continuous_drop_off: match v13 {
                Some(c) => c,
                None => ContinuousPickupDropOff::default(),
            },
            shape_dist_traveled: v14,
            timepoint: match v15 {
                Some(c) => c,
                None => Timepoint::default(),
            },
            pickup_booking_rule_id: v16,
            drop_off_booking_rule_id: v17,
        })
    }
}

/// Whether `out` is what a row of `calendar.txt` reads as: the first
/// failing column in reading order gives the error, else every field is
/// the value of its column.
pub open spec fn calendar_parsed(r: RowView, out: Result<Calendar, ParseError>) -> bool {
    match row_req(r, "service_id"@) {
        Err(e) => fails_with(out, e),
        Ok(v0) => match row_req_date(r, "start_date"@) {
            Err(e) => fails_with(out, e),
            Ok(v1) => match row_req_date(r, "end_date"@) {
                Err(e) => fails_with(out, e),
                Ok(v2) => match row_req_bool(r, "monday"@) {
                    Err(e) => fails_with(out, e),
                    Ok(v3) => match row_req_bool(r, "tuesday"@) {
                        Err(e) => fails_with(out, e),
                        Ok(v4) => match row_req_bool(r, "wednesday"@) {
                            Err(e) => fails_with(out, e),
                            Ok(v5) => match row_req_bool(r, "thursday"@) {
                                Err(e) => fails_with(out, e),
                                Ok(v6) => match row_req_bool(r, "friday"@) {
                                    Err(e) => fails_with(out, e),
                                    Ok(v7) => match row_req_bool(r, "saturday"@) {
                                        Err(e) => fails_with(out, e),
                                        Ok(v8) => match row_req_bool(r, "sunday"@) {
                                            Err(e) => fails_with(out, e),
                                            Ok(v9) => match out {
                                                Ok(x) => {
                                                    &&& x.service_id@ == v0
                                                    &&& date_parts(x.start_date) == v1
                                                    &&& date_parts(x.end_date) == v2
                                                    &&& x.monday == v3
                                                    &&& x.tuesday == v4
                                                    &&& x.wednesday == v5
                                                    &&& x.thursday == v6
                                                    &&& x.friday == v7
                                                    &&& x.saturday == v8
                                                    &&& x.sunday == v9
                                                },
                                                Err(_) => false,
                                            },
                                        },
                                    },
                                },
                            },
                        },
                    },
                },
            },
        },
    }
}

impl CsvRecord for Calendar {
    const FILE_NAME: &'static str = "calendar.txt";

    open spec fn parsed(r: RowView, out: Result<Self, ParseError>) -> bool {
        calendar_parsed(r, out)
    }

    fn from_row(row: &Row<'_>) -> (r: Result<Self, ParseError>) {
        let v0 = match row.req("service_id") {
            Ok(v) => v,
            Err(e) => return Err(e),
        };
        let v1 = match row.req_date("start_date") {
            Ok(v) => v,
            Err(e) => return Err(e),
        };
        let v2 = match row.req_date("end_date") {
            Ok(v) => v,
            Err(e) => return Err(e),
        };
        let v3 = match row.req_bool01("monday") {
            Ok(v) => v,
            Err(e) => return Err(e),
        };
        let v4 = match row.req_bool01("tuesday") {
            Ok(v) => v,
            Err(e) => return Err(e),
        };
        let v5 = match row.req_bool01("wednesday") {
            Ok(v) => v,
            Err(e) => return Err(e),
        };
        let v6 = match row.req_bool01("thursday") {
            Ok(v) => v,
            Err(e) => return Err(e),
        };
        let v7 = match row.req_bool01("friday") {
            Ok(v) => v,
            Err(e) => return Err(e),
        };
        let v8 = match row.req_bool01("saturday") {
            Ok(v) => v,
            Err(e) => return Err(e),
        };
        let v9 = match row.req_bool01("sunday") {
            Ok(v) => v,
            Err(e) => return Err(e),
        };
        Ok(Calendar {
            service_id: owned(v0),
            start_date: v1,
            end_date: v2,
            monday: v3,
            tuesday: v4,
            wednesday: v5,
            thursday: v6,
            friday: v7,
            saturday: v8,
            sunday: v9,
        })
    }
}

/// Whether `out` is what a row of `calendar_dates.txt` reads as: the first
/// failing column in reading order gives the error, else every field is
/// the value of its column.
pub open spec fn calendar_date_parsed(r: RowView, out: Result<CalendarDate, ParseError>) -> bool {
    match row_req(r, "service_id"@) {
        Err(e) => fails_with(out, e),
        Ok(v0) => match row_req_date(r, "date"@) {
            Err(e) => fails_with(out, e),
            Ok(v1) => match row_req_code::<ExceptionType>(r, "exception_type"@, "code 1-2"@) {
                Err(e) => fails_with(out, e),
                Ok(v2) => match out {
                    Ok(x) => {
                        &&& x.service_id@ == v0
                        &&& date_parts(x.date) == v1
                        &&& x.exception_type == v2
                    },
                    Err(_) => false,
                },
            },
        },
    }
}

impl CsvRecord for CalendarDate {
    const FILE_NAME: &'static str = "calendar_dates.txt";

    open spec fn parsed(r: RowView, out: Result<Self, ParseError>) -> bool {
        calendar_date_parsed(r, out)
    }

    fn from_row(row: &Row<'_>) -> (r: Result<Self, ParseError>) {
        let v0 = match row.req("service_id") {
            Ok(v) => v,
            Err(e) => return Err(e),
        };
        let v1 = match row.req_date("date") {
            Ok(v) => v,
            Err(e) => return Err(e),
        };
        let v2 = match row.req_code::<ExceptionType>("exception_type", "code 1-2") {
            Ok(v) => v,
            Err(e) => return Err(e),
        };
        Ok(CalendarDate {
            service_id: owned(v0),
            date: v1,
            exception_type: v2,
        })
    }
}

/// Whether `out` is what a row of `fare_attributes.txt` reads as: the first
/// failing column in reading order gives the error, else every field is
/// the value of its column.
pub open spec fn fare_attribute_v1_parsed(r: RowView, out: Result<FareAttributeV1, ParseError>) -> bool {
    match row_req(r, "fare_id"@) {
        Err(e) => fails_with(out, e),
        Ok(v0) => match row_req_currency(r, "price"@) {
            Err(e) => fails_with(out, e),
            Ok(v1) => match row_req(r, "currency_type"@) {
                Err(e) => fails_with(out, e),
                Ok(v2) => match row_req_code::<PaymentMethod>(r, "payment_method"@, "code 0-1"@) {
                    Err(e) => fails_with(out, e),
                    Ok(v3) => match fare_transfers_step(r) {
                        Err(e) => fails_with(out, e),
                        Ok(v4) => match row_opt_num::<u32>(r, "transfer_duration"@, "seconds"@) {
                            Err(e) => fails_with(out, e),
                            Ok(v6) => match out {
                                Ok(x) => {
                                    &&& x.fare_id@ == v0
                                    &&& amount_parts(x.price) == v1
                                    &&& x.currency_type@ == v2
                                    &&& x.payment_method == v3
                                    &&& x.transfers == v4
                                    &&& opt_string_view(x.agency_id) == column_text(r, "agency_id"@)
                                    &&& x.transfer_duration == v6
                                },
                                Err(_) => false,
                            },
                        },
                    },
                },
            },
        },
    }
}

impl CsvRecord for FareAttributeV1 {
    const FILE_NAME: &'static str = "fare_attributes.txt";

    open spec fn parsed(r: RowView, out: Result<Self, ParseError>) -> bool {
        fare_attribute_v1_parsed(r, out)
    }

    fn from_row(row: &Row<'_>) -> (r: Result<Self, ParseError>) {
        let v0 = match row.req("fare_id") {
            Ok(v) => v,
            Err(e) => return Err(e),
        };
        let v1 = match row.req_currency("price") {
            Ok(v) => v,
            Err(e) => return Err(e),
        };
        let v2 = match row.req("currency_type") {
            Ok(v) => v,
            Err(e) => return Err(e),
        };
        let v3 = match row.req_code::<PaymentMethod>("payment_method", "code 0-1") {
            Ok(v) => v,
            Err(e) => return Err(e),
        };
        let v4 = match fare_transfers_of(row) {
            Ok(v) => v,
            Err(e) => return Err(e),
        };
        let v5 = opt_string(row, "agency_id");
        let v6 = match row.opt_num::<u32>("transfer_duration", "seconds") {
            Ok(v) => v,
            Err(e) => return Err(e),
        };
        Ok(FareAttributeV1 {
            fare_id: owned(v0),
            price: v1,
            currency_type: owned(v2),
            payment_method: v3,
            transfers: v4,
            agency_id: v5,
            transfer_duration: v6,
        })
    }
}

/// Whether `out` is what a row of `fare_rules.txt` reads as: the first
/// failing column in reading order gives the error, else every field is
/// the value of its column.
pub open spec fn fare_rule_v1_parsed(r: RowView, out: Result<FareRuleV1, ParseError>) -> bool {
    match row_req(r, "fare_id"@) {
        Err(e) => fails_with(out, e),
        Ok(v0) => match out {
            Ok(x) => {
                &&& x.fare_id@ == v0
                &&& opt_string_view(x.route_id) == column_text(r, "route_id"@)
                &&& opt_string_view(x.origin_id) == column_text(r, "origin_id"@)
                &&& opt_string_view(x.destination_id) == column_text(r, "destination_id"@)
                &&& opt_string_view(x.contains_id) == column_text(r, "contains_id"@)
            },
            Err(_) => false,
        },
    }
}

impl CsvRecord for FareRuleV1 {
    const FILE_NAME: &'static str = "fare_rules.txt";

    open spec fn parsed(r: RowView, out: Result<Self, ParseError>) -> bool {
        fare_rule_v1_parsed(r, out)
    }

    fn from_row(row: &Row<'_>) -> (r: Result<Self, ParseError>) {
        let v0 = match row.req("fare_id") {
            Ok(v) => v,
            Err(e) => return Err(e),
        };
        let v1 = opt_string(row, "route_id");
        let v2 = opt_string(row, "origin_id");
        let v3 = opt_string(row, "destination_id");
        let v4 = opt_string(row, "contains_id");
        Ok(FareRuleV1 {
            fare_id: owned(v0),
            route_id: v1,
            origin_id: v2,
            destination_id: v3,
            contains_id: v4,
        })
    }
}

/// Whether `out` is what a row of `timeframes.txt` reads as: the first
/// failing column in reading order gives the error, else every field is
/// the value of its column.
pub open spec fn timeframe_parsed(r: RowView, out: Result<Timeframe, ParseError>) -> bool {
    match row_req(r, "timeframe_group_id"@) {
        Err(e) => fails_with(out, e),
        Ok(v0) => match row_req(r, "service_id"@) {
            Err(e) => fails_with(out, e),
            Ok(v1) => match row_opt_time(r, "start_time"@) {
                Err(e) => fails_with(out, e),
                Ok(v2) => match row_opt_time(r, "end_time"@) {
                    Err(e) => fails_with(out, e),
                    Ok(v3) => match out {
                        Ok(x) => {
                            &&& x.timeframe_group_id@ == v0
                            &&& x.service_id@ == v1
                            &&& x.start_time == v2
                            &&& x.end_time == v3
                        },
                        Err(_) => false,
                    },
                },
            },
        },
    }
}

impl CsvRecord for Timeframe {
    const FILE_NAME: &'static str = "timeframes.txt";

    open spec fn parsed(r: RowView, out: Result<Self, ParseError>) -> bool {
        timeframe_parsed(r, out)
    }

    fn from_row(row: &Row<'_>) -> (r: Result<Self, ParseError>) {
        let v0 = match row.req("timeframe_group_id") {
            Ok(v) => v,
            Err(e) => return Err(e),
        };
        let v1 = match row.req("service_id") {
            Ok(v) => v,
            Err(e) => return Err(e),
        };
        let v2 = match row.opt_time("start_time") {
            Ok(v) => v,
            Err(e) => return Err(e),
        };
        let v3 = match row.opt_time("end_time") {
            Ok(v) => v,
            Err(e) => return Err(e),
        };
        Ok(Timeframe {
            timeframe_group_id: owned(v0),
            service_id: owned(v1),
            start_time: v2,
            end_time: v3,
        })
    }
}

/// Whether `out` is what a row of `rider_categories.txt` reads as: the first
/// failing column in reading order gives the error, else every field is
/// the value of its column.
pub open spec fn rider_category_parsed(r: RowView, out: Result<RiderCategory, ParseError>) -> bool {
    match row_req(r, "rider_category_id"@) {
        Err(e) => fails_with(out, e),
        Ok(v0) => match row_req(r, "rider_category_name"@) {
            Err(e) => fails_with(out, e),
            Ok(v1) => match row_req_bool(r, "is_default_fare_category"@) {
                Err(e) => fails_with(out, e),
                Ok(v2) => match out {
                    Ok(x) => {
                        &&& x.rider_category_id@ == v0
                        &&& x.rider_category_name@ == v1
                        &&& x.is_default_fare_category == v2
                        &&& opt_string_view(x.eligibility_url) == column_text(r, "eligibility_url"@)
                    },
                    Err(_) => false,
                },
            },
        },
    }
}

impl CsvRecord for RiderCategory {
    const FILE_NAME: &'static str = "rider_categories.txt";

    open spec fn parsed(r: RowView, out: Result<Self, ParseError>) -> bool {
        rider_category_parsed(r, out)
    }

    fn from_row(row: &Row<'_>) -> (r: Result<Self, ParseError>) {
        let v0 = match row.req("rider_category_id") {
            Ok(v) => v,
            Err(e) => return Err(e),
        };
        let v1 = match row.req("rider_category_name") {
            Ok(v) => v,
            Err(e) => return Err(e),
        };
        let v2 = match row.req_bool01("is_default_fare_category") {
            Ok(v) => v,
            Err(e) => return Err(e),
        };
        let v3 = opt_string(row, "eligibility_url");
        Ok(RiderCategory {
            rider_category_id: owned(v0),
            rider_category_name: owned(v1),
            is_default_fare_category: v2,
            eligibility_url: v3,
        })
    }
}

/// Whether `out` is what a row of `fare_media.txt` reads as: the first
/// failing column in reading order gives the error, else every field is
/// the value of its column.
pub open spec fn fare_media_parsed(r: RowView, out: Result<FareMedia, ParseError>) -> bool {
    match row_req(r, "fare_media_id"@) {
        Err(e) => fails_with(out, e),
        Ok(v0) => match row_req_code::<FareMediaType>(r, "fare_media_type"@, "code 0-4"@) {
            Err(e) => fails_with(out, e),
            Ok(v1) => match out {
                Ok(x) => {
                    &&& x.fare_media_id@ == v0
                    &&& x.fare_media_type == v1
                    &&& opt_string_view(x.fare_media_name) == column_text(r, "fare_media_name"@)
                },
                Err(_) => false,
            },
        },
    }
}

impl CsvRecord for FareMedia {
    const FILE_NAME: &'static str = "fare_media.txt";

    open spec fn parsed(r: RowView, out: Result<Self, ParseError>) -> bool {
        fare_media_parsed(r, out)
    }

    fn from_row(row: &Row<'_>) -> (r: Result<Self, ParseError>) {
        let v0 = match row.req("fare_media_id") {
            Ok(v) => v,
            Err(e) => return Err(e),
        };
        let v1 = match row.req_code::<FareMediaType>("fare_media_type", "code 0-4") {
            Ok(v) => v,
            Err(e) => return Err(e),
        };
        let v2 = opt_string(row, "fare_media_name");
        Ok(FareMedia {
            fare_media_id: owned(v0),
            fare_media_type: v1,
            fare_media_name: v2,
        })
    }
}

/// Whether `out` is what a row of `fare_products.txt` reads as: the first
/// failing column in reading order gives the error, else every field is
/// the value of its column.
pub open spec fn fare_product_parsed(r: RowView, out: Result<FareProduct, ParseError>) -> bool {
    match row_req(r, "fare_product_id"@) {
        Err(e) => fails_with(out, e),
        Ok(v0) => match row_req_currency(r, "amount"@) {
            Err(e) => fails_with(out, e),
            Ok(v1) => match row_req(r, "currency"@) {
                Err(e) => fails_with(out, e),
                Ok(v2) => match out {
                    Ok(x) => {
                        &&& x.fare_product_id@ == v0
                        &&& amount_parts(x.amount) == v1
                        &&& x.currency@ == v2
                        &&& opt_string_view(x.fare_product_name) == column_text(r, "fare_product_name"@)
                        &&& opt_string_view(x.rider_category_id) == column_text(r, "rider_category_id"@)
                        &&& opt_string_view(x.fare_media_id) == column_text(r, "fare_media_id"@)
                    },
                    Err(_) => false,
                },
            },
        },
    }
}

impl CsvRecord for FareProduct {
    const FILE_NAME: &'static str = "fare_products.txt";

    open spec fn parsed(r: RowView, out: Result<Self, ParseError>) -> bool {
        fare_product_parsed(r, out)
    }

    fn from_row(row: &Row<'_>) -> (r: Result<Self, ParseError>) {
        let v0 = match row.req("fare_product_id") {
            Ok(v) => v,
            Err(e) => return Err(e),
        };
        let v1 = match row.req_currency("amount") {
            Ok(v) => v,
            Err(e) => return Err(e),
        };
        let v2 = match row.req("currency") {
            Ok(v) => v,
            Err(e) => return Err(e),
        };
        let v3 = opt_string(row, "fare_product_name");
        let v4 = opt_string(row, "rider_category_id");
        let v5 = opt_string(row, "fare_media_id");
        Ok(FareProduct {
            fare_product_id: owned(v0),
            amount: v1,
            currency: owned(v2),
            fare_product_name: v3,
            rider_category_id: v4,
            fare_media_id: v5,
        })
    }
}

/// Whether `out` is what a row of `fare_leg_rules.txt` reads as: the first
/// failing column in reading order gives the error, else every field is
/// the value of its column.
pub open spec fn fare_leg_rule_parsed(r: RowView, out: Result<FareLegRule, ParseError>) -> bool {
    match row_req(r, "fare_product_id"@) {
        Err(e) => fails_with(out, e),
        Ok(v0) => match row_opt_num::<u32>(r, "rule_priority"@, "a non-negative integer"@) {
            Err(e) => fails_with(out, e),
            Ok(v7) => match out {
                Ok(x) => {
                    &&& x.fare_product_id@ == v0
                    &&& opt_string_view(x.leg_group_id) == column_text(r, "leg_group_id"@)
                    &&& opt_string_view(x.network_id) == column_text(r, "network_id"@)
                    &&& opt_string_view(x.from_area_id) == column_text(r, "from_area_id"@)
                    &&& opt_string_view(x.to_area_id) == column_text(r, "to_area_id"@)
                    &&& opt_string_view(x.from_timeframe_group_id) == column_text(r, "from_timeframe_group_id"@)
                    &&& opt_string_view(x.to_timeframe_group_id) == column_text(r, "to_timeframe_group_id"@)
                    &&& x.rule_priority == v7
                },
                Err(_) => false,
            },
        },
    }
}

impl CsvRecord for FareLegRule {
    const FILE_NAME: &'static str = "fare_leg_rules.txt";

    open spec fn parsed(r: RowView, out: Result<Self, ParseError>) -> bool {
        fare_leg_rule_parsed(r, out)
    }

    fn from_row(row: &Row<'_>) -> (r: Result<Self, ParseError>) {
        let v0 = match row.req("fare_product_id") {
            Ok(v) => v,
            Err(e) => return Err(e),
        };
        let v1 = opt_string(row, "leg_group_id");
        let v2 = opt_string(row, "network_id");
        let v3 = opt_string(row, "from_area_id");
        let v4 = opt_string(row, "to_area_id");
        let v5 = opt_string(row, "from_timeframe_group_id");
        let v6 = opt_string(row, "to_timeframe_group_id");
        let v7 = match row.opt_num::<u32>("rule_priority", "a non-negative integer") {
            Ok(v) => v,
            Err(e) => return Err(e),
        };
        Ok(FareLegRule {
            fare_product_id: owned(v0),
            leg_group_id: v1,
            network_id: v2,
            from_area_id: v3,
            to_area_id: v4,
            from_timeframe_group_id: v5,
            to_timeframe_group_id: v6,
            rule_priority: v7,
        })
    }
}

/// Whether `out` is what a row of `fare_leg_join_rules.txt` reads as: the first
/// failing column in reading order gives the error, else every field is
/// the value of its column.
pub open spec fn fare_leg_join_rule_parsed(r: RowView, out: Result<FareLegJoinRule, ParseError>) -> bool {
    match row_req(r, "from_network_id"@) {
        Err(e) => fails_with(out, e),
        Ok(v0) => match row_req(r, "to_network_id"@) {
            Err(e) => fails_with(out, e),
            Ok(v1) => match out {
                Ok(x) => {
                    &&& x.from_network_id@ == v0
                    &&& x.to_network_id@ == v1
                    &&& opt_string_view(x.from_stop_id) == column_text(r, "from_stop_id"@)
                    &&& opt_string_view(x.to_stop_id) == column_text(r, "to_stop_id"@)
                },
                Err(_) => false,
            },
        },
    }
}

impl CsvRecord for FareLegJoinRule {
    const FILE_NAME: &'static str = "fare_leg_join_rules.txt";

    open spec fn parsed(r: RowView, out: Result<Self, ParseError>) -> bool {
        fare_leg_join_rule_parsed(r, out)
    }

    fn from_row(row: &Row<'_>) -> (r: Result<Self, ParseError>) {
        let v0 = match row.req("from_network_id") {
            Ok(v) => v,
            Err(e) => return Err(e),
        };
        let v1 = match row.req("to_network_id") {
            Ok(v) => v,
            Err(e) => return Err(e),
        };
        let v2 = opt_string(row, "from_stop_id");
        let v3 = opt_string(row, "to_stop_id");
        Ok(FareLegJoinRule {
            from_network_id: owned(v0),
            to_network_id: owned(v1),
            from_stop_id: v2,
            to_stop_id: v3,
        })
    }
}

/// Whether `out` is what a row of `fare_transfer_rules.txt` reads as: the first
/// failing column in reading order gives the error, else every field is
/// the value of its column.
pub open spec fn fare_transfer_rule_parsed(r: RowView, out: Result<FareTransferRule, ParseError>) -> bool {
    match row_req_code::<FareTransferType>(r, "fare_transfer_type"@, "code 0-2"@) {
        Err(e) => fails_with(out, e),
        Ok(v0) => match row_opt_num::<i32>(r, "transfer_count"@, "-1 or a positive integer"@) {
            Err(e) => fails_with(out, e),
            Ok(v3) => match row_opt_num::<u32>(r, "duration_limit"@, "seconds"@) {
                Err(e) => fails_with(out, e),
                Ok(v4) => match row_opt_code::<DurationLimitType>(r, "duration_limit_type"@, "code 0-3"@) {
                    Err(e) => fails_with(out, e),
                    Ok(v5) => match out {
                        Ok(x) => {
                            &&& x.fare_transfer_type == v0
                            &&& opt_string_view(x.from_leg_group_id) == column_text(r, "from_leg_group_id"@)
                            &&& opt_string_view(x.to_leg_group_id) == column_text(r, "to_leg_group_id"@)
                            &&& x.transfer_count == v3
                            &&& x.duration_limit == v4
                            &&& x.duration_limit_type == v5
                            &&& opt_string_view(x.fare_product_id) == column_text(r, "fare_product_id"@)
                        },
                        Err(_) => false,
                    },
                },
            },
        },
    }
}

impl CsvRecord for FareTransferRule {
    const FILE_NAME: &'static str = "fare_transfer_rules.txt";

    open spec fn parsed(r: RowView, out: Result<Self, ParseError>) -> bool {
        fare_transfer_rule_parsed(r, out)
    }

    fn from_row(row: &Row<'_>) -> (r: Result<Self, ParseError>) {
        let v0 = match row.req_code::<FareTransferType>("fare_transfer_type", "code 0-2") {
            Ok(v) => v,
            Err(e) => return Err(e),
        };
        let v1 = opt_string(row, "from_leg_group_id");
        let v2 = opt_string(row, "to_leg_group_id");
        let v3 = match row.opt_num::<i32>("transfer_count", "-1 or a positive integer") {
            Ok(v) => v,
            Err(e) => return Err(e),
        };
        let v4 = match row.opt_num::<u32>("duration_limit", "seconds") {
            Ok(v) => v,
            Err(e) => return Err(e),
        };
        let v5 = match row.opt_code::<DurationLimitType>("duration_limit_type", "code 0-3") {
            Ok(v) => v,
            Err(e) => return Err(e),
        };
        let v6 = opt_string(row, "fare_product_id");
        Ok(FareTransferRule {
            fare_transfer_type: v0,
            from_leg_group_id: v1,
            to_leg_group_id: v2,
            transfer_count: v3,
            duration_limit: v4,
            duration_limit_type: v5,
            fare_product_id: v6,
        })
    }
}

/// Whether `out` is what a row of `areas.txt` reads as: the first
/// failing column in reading order gives the error, else every field is
/// the value of its column.
pub open spec fn area_parsed(r: RowView, out: Result<Area, ParseError>) -> bool {
    match row_req(r, "area_id"@) {
        Err(e) => fails_with(out, e),
        Ok(v0) => match out {
            Ok(x) => {
                &&& x.area_id@ == v0
                &&& opt_string_view(x.area_name) == column_text(r, "area_name"@)
            },
            Err(_) => false,
        },
    }
}

impl CsvRecord for Area {
    const FILE_NAME: &'static str = "areas.txt";

    open spec fn parsed(r: RowView, out: Result<Self, ParseError>) -> bool {
        area_parsed(r, out)
    }

    fn from_row(row: &Row<'_>) -> (r: Result<Self, ParseError>) {
        let v0 = match row.req("area_id") {
            Ok(v) => v,
            Err(e) => return Err(e),
        };
        let v1 = opt_string(row, "area_name");
        Ok(Area {
            area_id: owned(v0),
            area_name: v1,
        })
    }
}

/// Whether `out` is what a row of `stop_areas.txt` reads as: the first
/// failing column in reading order gives the error, else every field is
/// the value of its column.
pub open spec fn stop_area_parsed(r: RowView, out: Result<StopArea, ParseError>) -> bool {
    match row_req(r, "area_id"@) {
        Err(e) => fails_with(out, e),
        Ok(v0) => match row_req(r, "stop_id"@) {
            Err(e) => fails_with(out, e),
            Ok(v1) => match out {
                Ok(x) => {
                    &&& x.area_id@ == v0
                    &&& x.stop_id@ == v1
                },
                Err(_) => false,
            },
        },
    }
}

impl CsvRecord for StopArea {
    const FILE_NAME: &'static str = "stop_areas.txt";

    open spec fn parsed(r: RowView, out: Result<Self, ParseError>) -> bool {
        stop_area_parsed(r, out)
    }

    fn from_row(row: &Row<'_>) -> (r: Result<Self, ParseError>) {
        let v0 = match row.req("area_id") {
            Ok(v) => v,
            Err(e) => return Err(e),
        };
        let v1 = match row.req("stop_id") {
            Ok(v) => v,
            Err(e) => return Err(e),
        };
        Ok(StopArea {
            area_id: owned(v0),
            stop_id: owned(v1),
        })
    }
}

/// Whether `out` is what a row of `networks.txt` reads as: the first
/// failing column in reading order gives the error, else every field is
/// the value of its column.
pub open spec fn network_parsed(r: RowView, out: Result<Network, ParseError>) -> bool {
    match row_req(r, "network_id"@) {
        Err(e) => fails_with(out, e),
        Ok(v0) => match out {
            Ok(x) => {
                &&& x.network_id@ == v0
                &&& opt_string_view(x.network_name) == column_text(r, "network_name"@)
            },
            Err(_) => false,
        },
    }
}

impl CsvRecord for Network {
    const FILE_NAME: &'static str = "networks.txt";

    open spec fn parsed(r: RowView, out: Result<Self, ParseError>) -> bool {
        network_parsed(r, out)
    }

    fn from_row(row: &Row<'_>) -> (r: Result<Self, ParseError>) {
        let v0 = match row.req("network_id") {
            Ok(v) => v,
            Err(e) => return Err(e),
        };
        let v1 = opt_string(row, "network_name");
        Ok(Network {
            network_id: owned(v0),
            network_name: v1,
        })
    }
}

/// Whether `out` is what a row of `route_networks.txt` reads as: the first
/// failing column in reading order gives the error, else every field is
/// the value of its column.
pub open spec fn route_network_parsed(r: RowView, out: Result<RouteNetwork, ParseError>) -> bool {
    match row_req(r, "network_id"@) {
        Err(e) => fails_with(out, e),
        Ok(v0) => match row_req(r, "route_id"@) {
            Err(e) => fails_with(out, e),
            Ok(v1) => match out {
                Ok(x) => {
                    &&& x.network_id@ == v0
                    &&& x.route_id@ == v1
                },
                Err(_) => false,
            },
        },
    }
}

impl CsvRecord for RouteNetwork {
    const FILE_NAME: &'static str = "route_networks.txt";

    open spec fn parsed(r: RowView, out: Result<Self, ParseError>) -> bool {
        route_network_parsed(r, out)
    }

    fn from_row(row: &Row<'_>) -> (r: Result<Self, ParseError>) {
        let v0 = match row.req("network_id") {
            Ok(v) => v,
            Err(e) => return Err(e),
        };
        let v1 = match row.req("route_id") {
            Ok(v) => v,
            Err(e) => return Err(e),
        };
        Ok(RouteNetwork {
            network_id: owned(v0),
            route_id: owned(v1),
        })
    }
}

/// Whether `out` is what a row of `shapes.txt` reads as: the first
/// failing column in reading order gives the error, else every field is
/// the value of its column.
pub open spec fn shape_point_parsed(r: RowView, out: Result<ShapePoint, ParseError>) -> bool {
    match row_req(r, "shape_id"@) {
        Err(e) => fails_with(out, e),
        Ok(v0) => match row_req_float(r, "shape_pt_lat"@, "a latitude"@) {
            Err(e) => fails_with(out, e),
            Ok(v1) => match row_req_float(r, "shape_pt_lon"@, "a longitude"@) {
                Err(e) => fails_with(out, e),
                Ok(v2) => match row_req_num::<u32>(r, "shape_pt_sequence"@, "a non-negative integer"@) {
                    Err(e) => fails_with(out, e),
                    Ok(v3) => match row_opt_float(r, "shape_dist_traveled"@, "a distance"@) {
                        Err(e) => fails_with(out, e),
                        Ok(v4) => match out {
                            Ok(x) => {
                                &&& x.shape_id@ == v0
                                &&& x.shape_pt_lat == v1
                                &&& x.shape_pt_lon == v2
                                &&& x.shape_pt_sequence == v3
                                &&& x.shape_dist_traveled == v4
                            },
                            Err(_) => false,
                        },
                    },
                },
            },
        },
    }
}

impl CsvRecord for ShapePoint {
    const FILE_NAME: &'static str = "shapes.txt";

    open spec fn parsed(r: RowView, out: Result<Self, ParseError>) -> bool {
        shape_point_parsed(r, out)
    }

    fn from_row(row: &Row<'_>) -> (r: Result<Self, ParseError>) {
        let v0 = match row.req("shape_id") {
            Ok(v) => v,
            Err(e) => return Err(e),
        };
        let v1 = match row.req_float("shape_pt_lat", "a latitude") {
            Ok(v) => v,
            Err(e) => return Err(e),
        };
        let v2 = match row.req_float("shape_pt_lon", "a longitude") {
            Ok(v) => v,
            Err(e) => return Err(e),
        };
        let v3 = match row.req_num::<u32>("shape_pt_sequence", "a non-negative integer") {
            Ok(v) => v,
            Err(e) => return Err(e),
        };
        let v4 = match row.opt_float("shape_dist_traveled", "a distance") {
            Ok(v) => v,
            Err(e) => return Err(e),
        };
        Ok(ShapePoint {
            shape_id: owned(v0),
            shape_pt_lat: v1,
            shape_pt_lon: v2,
            shape_pt_sequence: v3,
            shape_dist_traveled: v4,
        })
    }
}

/// Whether `out` is what a row of `frequencies.txt` reads as: the first
/// failing column in reading order gives the error, else every field is
/// the value of its column.
pub open spec fn frequency_parsed(r: RowView, out: Result<Frequency, ParseError>) -> bool {
    match row_req(r, "trip_id"@) {
        Err(e) => fails_with(out, e),
        Ok(v0) => match row_req_time(r, "start_time"@) {
            Err(e) => fails_with(out, e),
            Ok(v1) => match row_req_time(r, "end_time"@) {
                Err(e) => fails_with(out, e),
                Ok(v2) => match row_req_num::<u32>(r, "headway_secs"@, "seconds"@) {
                    Err(e) => fails_with(out, e),
                    Ok(v3) => match row_opt_code::<ExactTimes>(r, "exact_times"@, "code 0-1"@) {
                        Err(e) => fails_with(out, e),
                        Ok(v4) => match out {
                            Ok(x) => {
                                &&& x.trip_id@ == v0
                                &&& x.start_time == v1
                                &&& x.end_time == v2
                                &&& x.headway_secs == v3
                                &&& x.exact_times == or_default(v4, ExactTimes::FrequencyBased)
                            },
                            Err(_) => false,
                        },
                    },
                },
            },
        },
    }
}

impl CsvRecord for Frequency {
    const FILE_NAME: &'static str = "frequencies.txt";

    open spec fn parsed(r: RowView, out: Result<Self, ParseError>) -> bool {
        frequency_parsed(r, out)
    }

    fn from_row(row: &Row<'_>) -> (r: Result<Self, ParseError>) {
        let v0 = match row.req("trip_id") {
            Ok(v) => v,
            Err(e) => return Err(e),
        };
        let v1 = match row.req_time("start_time") {
            Ok(v) => v,
            Err(e) => return Err(e),
        };
        let v2 = match row.req_time("end_time") {
            Ok(v) => v,
            Err(e) => return Err(e),
        };
        let v3 = match row.req_num::<u32>("headway_secs", "seconds") {
            Ok(v) => v,
            Err(e) => return Err(e),
        };
        let v4 = match row.opt_code::<ExactTimes>("exact_times", "code 0-1") {
            Ok(v) => v,
            Err(e) => return Err(e),
        };
        Ok(Frequency {
            trip_id: owned(v0),
            start_time: v1,
            end_time: v2,
            headway_secs: v3,
            exact_times: match v4 {
                Some(c) => c,
                None => ExactTimes::default(),
            },
        })
    }
}

/// Whether `out` is what a row of `transfers.txt` reads as: the first
/// failing column in reading order gives the error, else every field is
/// the value of its column.
pub open spec fn transfer_parsed(r: RowView, out: Result<Transfer, ParseError>) -> bool {
    match row_opt_code::<TransferType>(r, "transfer_type"@, "code 0-5"@) {
        Err(e) => fails_with(out, e),
        Ok(v0) => match row_opt_num::<u32>(r, "min_transfer_time"@, "seconds"@) {
            Err(e) => fails_with(out, e),
            Ok(v7) => match out {
                Ok(x) => {
                    &&& x.transfer_type == or_default(v0, TransferType::Recommended)
                    &&& opt_string_view(x.from_stop_id) == column_text(r, "from_stop_id"@)
                    &&& opt_string_view(x.to_stop_id) == column_text(r, "to_stop_id"@)
                    &&& opt_string_view(x.from_route_id) == column_text(r, "from_route_id"@)
                    &&& opt_string_view(x.to_route_id) == column_text(r, "to_route_id"@)
                    &&& opt_string_view(x.from_trip_id) == column_text(r, "from_trip_id"@)
                    &&& opt_string_view(x.to_trip_id) == column_text(r, "to_trip_id"@)
                    &&& x.min_transfer_time == v7
                },
                Err(_) => false,
            },
        },
    }
}

impl CsvRecord for Transfer {
    const FILE_NAME: &'static str = "transfers.txt";

    open spec fn parsed(r: RowView, out: Result<Self, ParseError>) -> bool {
        transfer_parsed(r, out)
    }

    fn from_row(row: &Row<'_>) -> (r: Result<Self, ParseError>) {
        let v0 = match row.opt_code::<TransferType>("transfer_type", "code 0-5") {
            Ok(v) => v,
            Err(e) => return Err(e),
        };
        let v1 = opt_string(row, "from_stop_id");
        let v2 = opt_string(row, "to_stop_id");
        let v3 = opt_string(row, "from_route_id");
        let v4 = opt_string(row, "to_route_id");
        let v5 = opt_string(row, "from_trip_id");
        let v6 = opt_string(row, "to_trip_id");
        let v7 = match row.opt_num::<u32>("min_transfer_time", "seconds") {
            Ok(v) => v,
            Err(e) => return Err(e),
        };
        Ok(Transfer {
            transfer_type: match v0 {
                Some(c) => c,
                None => TransferType::default(),
            },
            from_stop_id: v1,
            to_stop_id: v2,
            from_route_id: v3,
            to_route_id: v4,
            from_trip_id: v5,
            to_trip_id: v6,
            min_transfer_time: v7,
        })
    }
}

/// Whether `out` is what a row of `pathways.txt` reads as: the first
/// failing column in reading order gives the error, else every field is
/// the value of its column.
pub open spec fn pathway_parsed(r: RowView, out: Result<Pathway, ParseError>) -> bool {
    match row_req(r, "pathway_id"@) {
        Err(e) => fails_with(out, e),
        Ok(v0) => match row_req(r, "from_stop_id"@) {
            Err(e) => fails_with(out, e),
            Ok(v1) => match row_req(r, "to_stop_id"@) {
                Err(e) => fails_with(out, e),
                Ok(v2) => match row_req_code::<PathwayMode>(r, "pathway_mode"@, "code 1-7"@) {
                    Err(e) => fails_with(out, e),
                    Ok(v3) => match row_req_bool(r, "is_bidirectional"@) {
                        Err(e) => fails_with(out, e),
                        Ok(v4) => match row_opt_float(r, "length"@, "meters"@) {
                            Err(e) => fails_with(out, e),
                            Ok(v5) => match row_opt_num::<u32>(r, "traversal_time"@, "seconds"@) {
                                Err(e) => fails_with(out, e),
                                Ok(v6) => match row_opt_num::<i32>(r, "stair_count"@, "an integer"@) {
                                    Err(e) => fails_with(out, e),
                                    Ok(v7) => match row_opt_float(r, "max_slope"@, "a slope ratio"@) {
                                        Err(e) => fails_with(out, e),
                                        Ok(v8) => match row_opt_float(r, "min_width"@, "meters"@) {
                                            Err(e) => fails_with(out, e),
                                            Ok(v9) => match out {
                                                Ok(x) => {
                                                    &&& x.pathway_id@ == v0
                                                    &&& x.from_stop_id@ == v1
                                                    &&& x.to_stop_id@ == v2
                                                    &&& x.pathway_mode == v3
                                                    &&& x.is_bidirectional == v4
                                                    &&& x.length == v5
                                                    &&& x.traversal_time == v6
                                                    &&& x.stair_count == v7
                                                    &&& x.max_slope == v8
                                                    &&& x.min_width == v9
                                                    &&& opt_string_view(x.signposted_as) == column_text(r, "signposted_as"@)
                                                    &&& opt_string_view(x.reversed_signposted_as) == column_text(r, "reversed_signposted_as"@)
                                                },
                                                Err(_) => false,
                                            },
                                        },
                                    },
                                },
                            },
                        },
                    },
                },
            },
        },
    }
}

impl CsvRecord for Pathway {
    const FILE_NAME: &'static str = "pathways.txt";

    open spec fn parsed(r: RowView, out: Result<Self, ParseError>) -> bool {
        pathway_parsed(r, out)
    }

    fn from_row(row: &Row<'_>) -> (r: Result<Self, ParseError>) {
        let v0 = match row.req("pathway_id") {
            Ok(v) => v,
            Err(e) => return Err(e),
        };
        let v1 = match row.req("from_stop_id") {
            Ok(v) => v,
            Err(e) => return Err(e),
        };
        let v2 = match row.req("to_stop_id") {
            Ok(v) => v,
            Err(e) => return Err(e),
        };
        let v3 = match row.req_code::<PathwayMode>("pathway_mode", "code 1-7") {
            Ok(v) => v,
            Err(e) => return Err(e),
        };
        let v4 = match row.req_bool01("is_bidirectional") {
            Ok(v) => v,
            Err(e) => return Err(e),
        };
        let v5 = match row.opt_float("length", "meters") {
            Ok(v) => v,
            Err(e) => return Err(e),
        };
        let v6 = match row.opt_num::<u32>("traversal_time", "seconds") {
            Ok(v) => v,
            Err(e) => return Err(e),
        };
        let v7 = match row.opt_num::<i32>("stair_count", "an integer") {
            Ok(v) => v,
            Err(e) => return Err(e),
        };
        let v8 = match row.opt_float("max_slope", "a slope ratio") {
            Ok(v) => v,
            Err(e) => return Err(e),
        };
        let v9 = match row.opt_float("min_width", "meters") {
            Ok(v) => v,
            Err(e) => return Err(e),
        };
        let v10 = opt_string(row, "signposted_as");
        let v11 = opt_string(row, "reversed_signposted_as");
        Ok(Pathway {
            pathway_id: owned(v0),
            from_stop_id: owned(v1),
            to_stop_id: owned(v2),
            pathway_mode: v3,
            is_bidirectional: v4,
            length: v5,
            traversal_time: v6,
            stair_count: v7,
            max_slope: v8,
            min_width: v9,
            signposted_as: v10,
            reversed_signposted_as: v11,
        })
    }
}

/// Whether `out` is what a row of `levels.txt` reads as: the first
/// failing column in reading order gives the error, else every field is
/// the value of its column.
pub open spec fn level_parsed(r: RowView, out: Result<Level, ParseError>) -> bool {
    match row_req(r, "level_id"@) {
        Err(e) => fails_with(out, e),
        Ok(v0) => match row_req_float(r, "level_index"@, "a level index"@) {
            Err(e) => fails_with(out, e),
            Ok(v1) => match out {
                Ok(x) => {
                    &&& x.level_id@ == v0
                    &&& x.level_index == v1
                    &&& opt_string_view(x.level_name) == column_text(r, "level_name"@)
                },
                Err(_) => false,
            },
        },
    }
}

impl CsvRecord for Level {
    const FILE_NAME: &'static str = "levels.txt";

    open spec fn parsed(r: RowView, out: Result<Self, ParseError>) -> bool {
        level_parsed(r, out)
    }

    fn from_row(row: &Row<'_>) -> (r: Result<Self, ParseError>) {
        let v0 = match row.req("level_id") {
            Ok(v) => v,
            Err(e) => return Err(e),
        };
        let v1 = match row.req_float("level_index", "a level index") {
            Ok(v) => v,
            Err(e) => return Err(e),
        };
        let v2 = opt_string(row, "level_name");
        Ok(Level {
            level_id: owned(v0),
            level_index: v1,
            level_name: v2,
        })
    }
}

/// Whether `out` is what a row of `location_groups.txt` reads as: the first
/// failing column in reading order gives the error, else every field is
/// the value of its column.
pub open spec fn location_group_parsed(r: RowView, out: Result<LocationGroup, ParseError>) -> bool {
    match row_req(r, "location_group_id"@) {
        Err(e) => fails_with(out, e),
        Ok(v0) => match out {
            Ok(x) => {
                &&& x.location_group_id@ == v0
                &&& opt_string_view(x.location_group_name) == column_text(r, "location_group_name"@)
            },
            Err(_) => false,
        },
    }
}

impl CsvRecord for LocationGroup {
    const FILE_NAME: &'static str = "location_groups.txt";

    open spec fn parsed(r: RowView, out: Result<Self, ParseError>) -> bool {
        location_group_parsed(r, out)
    }

    fn from_row(row: &Row<'_>) -> (r: Result<Self, ParseError>) {
        let v0 = match row.req("location_group_id") {
            Ok(v) => v,
            Err(e) => return Err(e),
        };
        let v1 = opt_string(row, "location_group_name");
        Ok(LocationGroup {
            location_group_id: owned(v0),
            location_group_name: v1,
        })
    }
}

/// Whether `out` is what a row of `location_group_stops.txt` reads as: the first
/// failing column in reading order gives the error, else every field is
/// the value of its column.
pub open spec fn location_group_stop_parsed(r: RowView, out: Result<LocationGroupStop, ParseError>) -> bool {
    match row_req(r, "location_group_id"@) {
        Err(e) => fails_with(out, e),
        Ok(v0) => match row_req(r, "stop_id"@) {
            Err(e) => fails_with(out, e),
            Ok(v1) => match out {
                Ok(x) => {
                    &&& x.location_group_id@ == v0
                    &&& x.stop_id@ == v1
                },
                Err(_) => false,
            },
        },
    }
}

impl CsvRecord for LocationGroupStop {
    const FILE_NAME: &'static str = "location_group_stops.txt";

    open spec fn parsed(r: RowView, out: Result<Self, ParseError>) -> bool {
        location_group_stop_parsed(r, out)
    }

    fn from_row(row: &Row<'_>) -> (r: Result<Self, ParseError>) {
        let v0 = match row.req("location_group_id") {
            Ok(v) => v,
            Err(e) => return Err(e),
        };
        let v1 = match row.req("stop_id") {
            Ok(v) => v,
            Err(e) => return Err(e),
        };
        Ok(LocationGroupStop {
            location_group_id: owned(v0),
            stop_id: owned(v1),
        })
    }
}

/// Whether `out` is what a row of `booking_rules.txt` reads as: the first
/// failing column in reading order gives the error, else every field is
/// the value of its column.
pub open spec fn booking_rule_parsed(r: RowView, out: Result<BookingRule, ParseError>) -> bool {
    match row_req(r, "booking_rule_id"@) {
        Err(e) => fails_with(out, e),
        Ok(v0) => match row_req_code::<BookingType>(r, "booking_type"@, "code 0-2"@) {
            Err(e) => fails_with(out, e),
            Ok(v1) => match row_opt_num::<u32>(r, "prior_notice_duration_min"@, "minutes"@) {
                Err(e) => fails_with(out, e),
                Ok(v2) => match row_opt_num::<u32>(r, "prior_notice_duration_max"@, "minutes"@) {
                    Err(e) => fails_with(out, e),
                    Ok(v3) => match row_opt_num::<u32>(r, "prior_notice_last_day"@, "days"@) {
                        Err(e) => fails_with(out, e),
                        Ok(v4) => match row_opt_time(r, "prior_notice_last_time"@) {
                            Err(e) => fails_with(out, e),
                            Ok(v5) => match row_opt_num::<u32>(r, "prior_notice_start_day"@, "days"@) {
                                Err(e) => fails_with(out, e),
                                Ok(v6) => match row_opt_time(r, "prior_notice_start_time"@) {
                                    Err(e) => fails_with(out, e),
                                    Ok(v7) => match out {
                                        Ok(x) => {
                                            &&& x.booking_rule_id@ == v0
                                            &&& x.booking_type == v1
                                            &&& x.prior_notice_duration_min == v2
                                            &&& x.prior_notice_duration_max == v3
                                            &&& x.prior_notice_last_day == v4
                                            &&& x.prior_notice_last_time == v5
                                            &&& x.prior_notice_start_day == v6
                                            &&& x.prior_notice_start_time == v7
                                            &&& opt_string_view(x.prior_notice_service_id) == column_text(r, "prior_notice_service_id"@)
                                            &&& opt_string_view(x.message) == column_text(r, "message"@)
                                            &&& opt_string_view(x.pickup_message) == column_text(r, "pickup_message"@)
                                            &&& opt_string_view(x.drop_off_message) == column_text(r, "drop_off_message"@)
                                            &&& opt_string_view(x.phone_number) == column_text(r, "phone_number"@)
                                            &&& opt_string_view(x.info_url) == column_text(r, "info_url"@)
                                            &&& opt_string_view(x.booking_url) == column_text(r, "booking_url"@)
                                        },
                                        Err(_) => false,
                                    },
                                },
                            },
                        },
                    },
                },
            },
        },
    }
}

impl CsvRecord for BookingRule {
    const FILE_NAME: &'static str = "booking_rules.txt";

    open spec fn parsed(r: RowView, out: Result<Self, ParseError>) -> bool {
        booking_rule_parsed(r, out)
    }

    fn from_row(row: &Row<'_>) -> (r: Result<Self, ParseError>) {
        let v0 = match row.req("booking_rule_id") {
            Ok(v) => v,
            Err(e) => return Err(e),
        };
        let v1 = match row.req_code::<BookingType>("booking_type", "code 0-2") {
            Ok(v) => v,
            Err(e) => return Err(e),
        };
        let v2 = match row.opt_num::<u32>("prior_notice_duration_min", "minutes") {
            Ok(v) => v,
            Err(e) => return Err(e),
        };
        let v3 = match row.opt_num::<u32>("prior_notice_duration_max", "minutes") {
            Ok(v) => v,
            Err(e) => return Err(e),
        };
        let v4 = match row.opt_num::<u32>("prior_notice_last_day", "days") {
            Ok(v) => v,
            Err(e) => return Err(e),
        };
        let v5 = match row.opt_time("prior_notice_last_time") {
            Ok(v) => v,
            Err(e) => return Err(e),
        };
        let v6 = match row.opt_num::<u32>("prior_notice_start_day", "days") {
            Ok(v) => v,
            Err(e) => return Err(e),
        };
        let v7 = match row.opt_time("prior_notice_start_time") {
            Ok(v) => v,
            Err(e) => return Err(e),
        };
        let v8 = opt_string(row, "prior_notice_service_id");
        let v9 = opt_string(row, "message");
        let v10 = opt_string(row, "pickup_message");
        let v11 = opt_string(row, "drop_off_message");
        let v12 = opt_string(row, "phone_number");
        let v13 = opt_string(row, "info_url");
        let v14 = opt_string(row, "booking_url");
        Ok(BookingRule {
            booking_rule_id: owned(v0),
            booking_type: v1,
            prior_notice_duration_min: v2,
            prior_notice_duration_max: v3,
            prior_notice_last_day: v4,
            prior_notice_last_time: v5,
            prior_notice_start_day: v6,
            prior_notice_start_time: v7,
            prior_notice_service_id: v8,
            message: v9,
            pickup_message: v10,
            drop_off_message: v11,
            phone_number: v12,
            info_url: v13,
            booking_url: v14,
        })
    }
}

/// Whether `out` is what a row of `translations.txt` reads as: the first
/// failing column in reading order gives the error, else every field is
/// the value of its column.
pub open spec fn translation_parsed(r: RowView, out: Result<Translation, ParseError>) -> bool {
    match table_name_step(r) {
        Err(e) => fails_with(out, e),
        Ok(v0) => match row_req(r, "field_name"@) {
            Err(e) => fails_with(out, e),
            Ok(v1) => match row_req(r, "language"@) {
                Err(e) => fails_with(out, e),
                Ok(v2) => match row_req(r, "translation"@) {
                    Err(e) => fails_with(out, e),
                    Ok(v3) => match out {
                        Ok(x) => {
                            &&& x.table_name.spec_name() == v0
                            &&& x.field_name@ == v1
                            &&& x.language@ == v2
                            &&& x.translation@ == v3
                            &&& opt_string_view(x.record_id) == column_text(r, "record_id"@)
                            &&& opt_string_view(x.record_sub_id) == column_text(r, "record_sub_id"@)
                            &&& opt_string_view(x.field_value) == column_text(r, "field_value"@)
                        },
                        Err(_) => false,
                    },
                },
            },
        },
    }
}

impl CsvRecord for Translation {
    const FILE_NAME: &'static str = "translations.txt";

    open spec fn parsed(r: RowView, out: Result<Self, ParseError>) -> bool {
        translation_parsed(r, out)
    }

    fn from_row(row: &Row<'_>) -> (r: Result<Self, ParseError>) {
        let v0 = match table_name_of(row) {
            Ok(v) => v,
            Err(e) => return Err(e),
        };
        let v1 = match row.req("field_name") {
            Ok(v) => v,
            Err(e) => return Err(e),
        };
        let v2 = match row.req("language") {
            Ok(v) => v,
            Err(e) => return Err(e),
        };
        let v3 = match row.req("translation") {
            Ok(v) => v,
            Err(e) => return Err(e),
        };
        let v4 = opt_string(row, "record_id");
        let v5 = opt_string(row, "record_sub_id");
        let v6 = opt_string(row, "field_value");
        Ok(Translation {
            table_name: v0,
            field_name: owned(v1),
            language: owned(v2),
            translation: owned(v3),
            record_id: v4,
            record_sub_id: v5,
            field_value: v6,
        })
    }
}

/// Whether `out` is what a row of `feed_info.txt` reads as: the first
/// failing column in reading order gives the error, else every field is
/// the value of its column.
pub open spec fn feed_info_parsed(r: RowView, out: Result<FeedInfo, ParseError>) -> bool {
    match row_req(r, "feed_publisher_name"@) {
        Err(e) => fails_with(out, e),
        Ok(v0) => match row_req(r, "feed_publisher_url"@) {
            Err(e) => fails_with(out, e),
            Ok(v1) => match row_req(r, "feed_lang"@) {
                Err(e) => fails_with(out, e),
                Ok(v2) => match row_opt_date(r, "feed_start_date"@) {
                    Err(e) => fails_with(out, e),
                    Ok(v4) => match row_opt_date(r, "feed_end_date"@) {
                        Err(e) => fails_with(out, e),
                        Ok(v5) => match out {
                            Ok(x) => {
                                &&& x.feed_publisher_name@ == v0
                                &&& x.feed_publisher_url@ == v1
                                &&& x.feed_lang@ == v2
                                &&& opt_string_view(x.default_lang) == column_text(r, "default_lang"@)
                                &&& opt_date_parts(x.feed_start_date) == v4
                                &&& opt_date_parts(x.feed_end_date) == v5
                                &&& opt_string_view(x.feed_version) == column_text(r, "feed_version"@)
                                &&& opt_string_view(x.feed_contact_email) == column_text(r, "feed_contact_email"@)
                                &&& opt_string_view(x.feed_contact_url) == column_text(r, "feed_contact_url"@)
                            },
                            Err(_) => false,
                        },
                    },
                },
            },
        },
    }
}

impl CsvRecord for FeedInfo {
    const FILE_NAME: &'static str = "feed_info.txt";

    open spec fn parsed(r: RowView, out: Result<Self, ParseError>) -> bool {
        feed_info_parsed(r, out)
    }

    fn from_row(row: &Row<'_>) -> (r: Result<Self, ParseError>) {
        let v0 = match row.req("feed_publisher_name") {
            Ok(v) => v,
            Err(e) => return Err(e),
        };
        let v1 = match row.req("feed_publisher_url") {
            Ok(v) => v,
            Err(e) => return Err(e),
        };
        let v2 = match row.req("feed_lang") {
            Ok(v) => v,
            Err(e) => return Err(e),
        };
        let v3 = opt_string(row, "default_lang");
        let v4 = match row.opt_date("feed_start_date") {
            Ok(v) => v,
            Err(e) => return Err(e),
        };
        let v5 = match row.opt_date("feed_end_date") {
            Ok(v) => v,
            Err(e) => return Err(e),
        };
        let v6 = opt_string(row, "feed_version");
        let v7 = opt_string(row, "feed_contact_email");
        let v8 = opt_string(row, "feed_contact_url");
        Ok(FeedInfo {
            feed_publisher_name: owned(v0),
            feed_publisher_url: owned(v1),
            feed_lang: owned(v2),
            default_lang: v3,
            feed_start_date: v4,
            feed_end_date: v5,
            feed_version: v6,
            feed_contact_email: v7,
            feed_contact_url: v8,
        })
    }
}

/// Whether `out` is what a row of `attributions.txt` reads as: the first
/// failing column in reading order gives the error, else every field is
/// the value of its column.
pub open spec fn attribution_parsed(r: RowView, out: Result<Attribution, ParseError>) -> bool {
    match row_req(r, "organization_name"@) {
        Err(e) => fails_with(out, e),
        Ok(v0) => match row_opt_bool(r, "is_producer"@) {
            Err(e) => fails_with(out, e),
            Ok(v5) => match row_opt_bool(r, "is_operator"@) {
                Err(e) => fails_with(out, e),
                Ok(v6) => match row_opt_bool(r, "is_authority"@) {
                    Err(e) => fails_with(out, e),
                    Ok(v7) => match out {
                        Ok(x) => {
                            &&& x.organization_name@ == v0
                            &&& opt_string_view(x.attribution_id) == column_text(r, "attribution_id"@)
                            &&& opt_string_view(x.agency_id) == column_text(r, "agency_id"@)
                            &&& opt_string_view(x.route_id) == column_text(r, "route_id"@)
                            &&& opt_string_view(x.trip_id) == column_text(r, "trip_id"@)
                            &&& x.is_producer == (v5 == Some(true))
                            &&& x.is_operator == (v6 == Some(true))
                            &&& x.is_authority == (v7 == Some(true))
                            &&& opt_string_view(x.attribution_url) == column_text(r, "attribution_url"@)
                            &&& opt_string_view(x.attribution_email) == column_text(r, "attribution_email"@)
                            &&& opt_string_view(x.attribution_phone) == column_text(r, "attribution_phone"@)
                        },
                        Err(_) => false,
                    },
                },
            },
        },
    }
}

impl CsvRecord for Attribution {
    const FILE_NAME: &'static str = "attributions.txt";

    open spec fn parsed(r: RowView, out: Result<Self, ParseError>) -> bool {
        attribution_parsed(r, out)
    }

    fn from_row(row: &Row<'_>) -> (r: Result<Self, ParseError>) {
        let v0 = match row.req("organization_name") {
            Ok(v) => v,
            Err(e) => return Err(e),
        };
        let v1 = opt_string(row, "attribution_id");
        let v2 = opt_string(row, "agency_id");
        let v3 = opt_string(row, "route_id");
        let v4 = opt_string(row, "trip_id");
        let v5 = match row.opt_bool01("is_producer") {
            Ok(v) => v,
            Err(e) => return Err(e),
        };
        let v6 = match row.opt_bool01("is_operator") {
            Ok(v) => v,
            Err(e) => return Err(e),
        };
        let v7 = match row.opt_bool01("is_authority") {
            Ok(v) => v,
            Err(e) => return Err(e),
        };
        let v8 = opt_string(row, "attribution_url");
        let v9 = opt_string(row, "attribution_email");
        let v10 = opt_string(row, "attribution_phone");
        Ok(Attribution {
            organization_name: owned(v0),
            attribution_id: v1,
            agency_id: v2,
            route_id: v3,
            trip_id: v4,
            is_producer: match v5 {
                Some(b) => b,
                None => false,
            },
            is_operator: match v6 {
                Some(b) => b,
                None => false,
            },
            is_authority: match v7 {
                Some(b) => b,
                None => false,
            },
            attribution_url: v8,
            attribution_email: v9,
            attribution_phone: v10,
        })
    }
}

/// Each coded field of a stop time is read from its own column: an
/// empty or absent column gives the field's default (regular pickup and
/// drop-off, no continuous stopping, exact times), and otherwise the
/// field's wire code is the integer that the column holds.
pub proof fn lemma_stop_time_coded_columns(r: RowView, st: StopTime)
    requires
        <StopTime as CsvRecord>::parsed(r, Ok(st)),
    ensures
        column_text(r, "pickup_type"@) is None ==> st.pickup_type == PickupDropOffType::Regular,
        column_text(r, "pickup_type"@) matches Some(t) ==> int_text(t, true) == Some(st.pickup_type.spec_code()),
        column_text(r, "drop_off_type"@) is None ==> st.drop_off_type == PickupDropOffType::Regular,
        column_text(r, "drop_off_type"@) matches Some(t) ==> int_text(t, true) == Some(st.drop_off_type.spec_code()),
        column_text(r, "continuous_pickup"@) is None ==> st.continuous_pickup == ContinuousPickupDropOff::NotContinuous,
        column_text(r, "continuous_pickup"@) matches Some(t) ==> int_text(t, true) == Some(st.continuous_pickup.spec_code()),
        column_text(r, "continuous_drop_off"@) is None ==> st.continuous_drop_off == ContinuousPickupDropOff::NotContinuous,
        column_text(r, "continuous_drop_off"@) matches Some(t) ==> int_text(t, true) == Some(st.continuous_drop_off.spec_code()),
        column_text(r, "timepoint"@) is None ==> st.timepoint == Timepoint::Exact,
        column_text(r, "timepoint"@) matches Some(t) ==> int_text(t, true) == Some(st.timepoint.spec_code()),
{
}

} // verus!
