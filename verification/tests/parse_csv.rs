use gtfs_rs::model::{
    Agency, Area, Attribution, BookingRule, BookingType, FareAttributeV1, FareLegRule, FareMedia,
    FareMediaType, FareProduct, FareTransferRule, FareTransferType, FareTransfers, FeedInfo,
    Level, LocationGroup, LocationGroupStop, LocationType, Network, Pathway, PathwayMode,
    PickupDropOffType, RiderCategory, Route, RouteNetwork, RouteType, ShapePoint, Stop, StopArea,
    StopTime, TableName, Timeframe, Transfer, TransferType, Translation,
};
use gtfs_rs::parsers::csv::reader::CsvLine;
use gtfs_rs::parsers::csv::{read, read_records, FloatParser};
use gtfs_rs::parsers::{ParseError, ParseErrorKind};
use gtfs_rs::{CurrencyAmount, GtfsDate};

/// Reads floating-point fields with the standard library.
struct StdFloats;

impl FloatParser for StdFloats {
    fn float_bits(&self, text: &str) -> Option<u64> {
        text.parse::<f64>().ok().map(f64::to_bits)
    }
}

fn read_all<T: gtfs_rs::parsers::csv::CsvRecord>(file: &str, data: &str) -> Result<Vec<T>, ParseError> {
    read(file, data.as_bytes(), &StdFloats)
}

#[test]
fn test_areas_and_stop_areas() {
    let areas: Vec<Area> = read_all("areas.txt", "area_id,area_name\nzone_a,Zone A\n").unwrap();
    assert_eq!(areas[0].area_name.as_deref(), Some("Zone A"));

    let stop_areas: Vec<StopArea> =
        read_all("stop_areas.txt", "area_id,stop_id\nzone_a,S1\n").unwrap();
    assert_eq!(stop_areas[0].stop_id, "S1");
}

#[test]
fn test_attributions() {
    let data = "\
organization_name,is_producer,is_operator
Demo Org,1,0
";
    let attributions: Vec<Attribution> = read_all("attributions.txt", data).unwrap();
    assert!(attributions[0].is_producer);
    assert!(!attributions[0].is_operator);
    assert!(!attributions[0].is_authority);
}

#[test]
fn test_booking_rules() {
    let data = "\
booking_rule_id,booking_type,prior_notice_duration_min,prior_notice_last_time
br1,1,60,17:00:00
";
    let rules: Vec<BookingRule> = read_all("booking_rules.txt", data).unwrap();
    assert_eq!(rules[0].booking_type, BookingType::SameDay);
    assert_eq!(rules[0].prior_notice_duration_min, Some(60));
    assert_eq!(rules[0].prior_notice_last_time, Some(17 * 3600));
}

#[test]
fn test_empty_transfers_means_unlimited() {
    let data = "\
fare_id,price,currency_type,payment_method,transfers
base,57.00,RUB,1,
";
    let fares: Vec<FareAttributeV1> = read_all("fare_attributes.txt", data).unwrap();
    assert_eq!(fares[0].transfers, FareTransfers::Unlimited);
}

#[test]
fn test_timeframes() {
    let data = "\
timeframe_group_id,start_time,end_time,service_id
peak,07:00:00,10:00:00,weekday
";
    let timeframes: Vec<Timeframe> = read_all("timeframes.txt", data).unwrap();
    assert_eq!(timeframes[0].start_time, Some(7 * 3600));
    assert_eq!(timeframes[0].end_time, Some(10 * 3600));
}

#[test]
fn test_rider_categories() {
    let data = "\
rider_category_id,rider_category_name,is_default_fare_category
adult,Adult,1
child,Child,0
";
    let categories: Vec<RiderCategory> = read_all("rider_categories.txt", data).unwrap();
    assert!(categories[0].is_default_fare_category);
    assert!(!categories[1].is_default_fare_category);
}

#[test]
fn test_fare_media_and_products() {
    let media: Vec<FareMedia> =
        read_all("fare_media.txt", "fare_media_id,fare_media_type\ncard,2\n").unwrap();
    assert_eq!(media[0].fare_media_type, FareMediaType::TransitCard);

    let products: Vec<FareProduct> = read_all(
        "fare_products.txt",
        "fare_product_id,amount,currency\nsingle,57.00,RUB\n",
    )
    .unwrap();
    assert_eq!(products[0].amount, CurrencyAmount::parse("57.00").unwrap());
}

#[test]
fn test_fare_leg_and_transfer_rules() {
    let legs: Vec<FareLegRule> = read_all(
        "fare_leg_rules.txt",
        "leg_group_id,network_id,fare_product_id\nmetro_leg,metro,single\n",
    )
    .unwrap();
    assert_eq!(legs[0].leg_group_id.as_deref(), Some("metro_leg"));

    let transfers: Vec<FareTransferRule> = read_all(
        "fare_transfer_rules.txt",
        "from_leg_group_id,to_leg_group_id,fare_transfer_type,duration_limit,\
duration_limit_type\nmetro_leg,metro_leg,0,5400,1\n",
    )
    .unwrap();
    assert_eq!(
        transfers[0].fare_transfer_type,
        FareTransferType::FromLegPlusTransfer
    );
    assert_eq!(transfers[0].duration_limit, Some(5400));
}

#[test]
fn test_feed_info() {
    let data = "\
feed_publisher_name,feed_publisher_url,feed_lang,feed_start_date,feed_version
Demo,https://demo.example,ru,20260101,2026-07
";
    let infos: Vec<FeedInfo> = read_all("feed_info.txt", data).unwrap();
    assert_eq!(infos[0].feed_lang, "ru");
    assert_eq!(infos[0].feed_start_date, Some(GtfsDate::new(2026, 1, 1).unwrap()));
    assert_eq!(infos[0].feed_version.as_deref(), Some("2026-07"));
}

#[test]
fn test_levels() {
    let data = "level_id,level_index,level_name\nL-1,-1.0,Concourse\n";
    let levels: Vec<Level> = read_all("levels.txt", data).unwrap();
    assert_eq!(f64::from_bits(levels[0].level_index), -1.0);
    assert_eq!(levels[0].level_name.as_deref(), Some("Concourse"));
}

#[test]
fn test_location_groups_and_stops() {
    let groups: Vec<LocationGroup> = read_all(
        "location_groups.txt",
        "location_group_id,location_group_name\nlg1,Downtown\n",
    )
    .unwrap();
    assert_eq!(groups[0].location_group_name.as_deref(), Some("Downtown"));

    let group_stops: Vec<LocationGroupStop> = read_all(
        "location_group_stops.txt",
        "location_group_id,stop_id\nlg1,S1\n",
    )
    .unwrap();
    assert_eq!(group_stops[0].stop_id, "S1");
}

#[test]
fn test_networks_and_route_networks() {
    let networks: Vec<Network> =
        read_all("networks.txt", "network_id,network_name\nmetro,Metro\n").unwrap();
    assert_eq!(networks[0].network_name.as_deref(), Some("Metro"));

    let route_networks: Vec<RouteNetwork> =
        read_all("route_networks.txt", "network_id,route_id\nmetro,L1\n").unwrap();
    assert_eq!(route_networks[0].route_id, "L1");
}

#[test]
fn test_pathways() {
    let data = "\
pathway_id,from_stop_id,to_stop_id,pathway_mode,is_bidirectional,stair_count
pw1,entrance_1,platform_2,2,0,-15
";
    let pathways: Vec<Pathway> = read_all("pathways.txt", data).unwrap();
    assert_eq!(pathways[0].pathway_mode, PathwayMode::Stairs);
    assert!(!pathways[0].is_bidirectional);
    // negative stair count: going down in the from-to direction
    assert_eq!(pathways[0].stair_count, Some(-15));
}

#[test]
fn test_quoted_fields_and_column_order() {
    // columns reordered, value with a comma inside quotes,
    // unknown column ignored
    let data = "\
agency_url,agency_name,unknown_column,agency_timezone
https://x.example,\"Transit, Inc.\",whatever,Europe/Moscow
";
    let agencies: Vec<Agency> = read_all("agency.txt", data).unwrap();
    assert_eq!(agencies[0].agency_name, "Transit, Inc.");
}

#[test]
fn test_utf8_bom_is_stripped() {
    let data = "\u{feff}agency_name,agency_url,agency_timezone\n\
                Demo,https://x.example,Europe/Moscow\n";
    let agencies: Vec<Agency> = read_all("agency.txt", data).unwrap();
    assert_eq!(agencies[0].agency_name, "Demo");
}

#[test]
fn test_missing_required_column() {
    let data = "agency_url,agency_timezone\nhttps://x.example,UTC\n";
    let Err(err) = read_all::<Agency>("agency.txt", data) else {
        panic!("expected a missing-column error");
    };
    assert_eq!(err.file, "agency.txt");
    assert_eq!(err.line, 2);
    assert_eq!(err.field.as_deref(), Some("agency_name"));
    assert!(matches!(err.kind, ParseErrorKind::MissingColumn));
}

#[test]
fn test_invalid_enum_code_carries_context() {
    let data = "\
agency_name,agency_url,agency_timezone,cemv_support
Demo,https://x.example,UTC,7
";
    let Err(err) = read_all::<Agency>("agency.txt", data) else {
        panic!("expected an invalid-code error");
    };
    assert_eq!(err.line, 2);
    assert_eq!(err.field.as_deref(), Some("cemv_support"));
    let ParseErrorKind::Invalid { value, .. } = &err.kind else {
        panic!("expected Invalid, got {:?}", err.kind);
    };
    assert_eq!(value, "7");
}

#[test]
fn test_short_row_reads_as_empty() {
    // second row lacks trailing optional columns entirely
    let data = "\
agency_name,agency_url,agency_timezone,agency_lang
Demo,https://x.example,UTC
";
    let agencies: Vec<Agency> = read_all("agency.txt", data).unwrap();
    assert!(agencies[0].agency_lang.is_none());
}

#[test]
fn test_extended_route_type() {
    let data = "route_id,route_type\nIC,102\n";
    let routes: Vec<Route> = read_all("routes.txt", data).unwrap();
    assert_eq!(routes[0].route_type, RouteType::Extended(102));
}

#[test]
fn test_shape_points() {
    let data = "\
shape_id,shape_pt_lat,shape_pt_lon,shape_pt_sequence,shape_dist_traveled
sh1,55.751,37.617,1,0.0
sh1,55.752,37.620,2,
";
    let shapes: Vec<ShapePoint> = read_all("shapes.txt", data).unwrap();
    assert_eq!(shapes.len(), 2);
    assert_eq!(shapes[0].shape_dist_traveled.map(f64::from_bits), Some(0.0));
    assert!(shapes[1].shape_dist_traveled.is_none());
}

#[test]
fn test_flex_window_row() {
    let data = "\
trip_id,stop_sequence,location_group_id,start_pickup_drop_off_window,\
end_pickup_drop_off_window,pickup_type
flex1,1,zone_a,08:00:00,18:00:00,2
";
    let stop_times: Vec<StopTime> = read_all("stop_times.txt", data).unwrap();
    let flex = &stop_times[0];
    assert!(flex.stop_id.is_none());
    assert_eq!(flex.location_group_id.as_deref(), Some("zone_a"));
    assert_eq!(flex.start_pickup_drop_off_window, Some(8 * 3600));
    assert_eq!(flex.end_pickup_drop_off_window, Some(18 * 3600));
    assert_eq!(flex.pickup_type, PickupDropOffType::PhoneAgency);
}

#[test]
fn test_station_hierarchy() {
    let data = "\
stop_id,stop_name,location_type,parent_station
S1,Central,1,
S1_p2,Central,0,S1
";
    let stops: Vec<Stop> = read_all("stops.txt", data).unwrap();
    assert_eq!(stops[0].location_type, LocationType::Station);
    assert_eq!(stops[1].parent_station.as_deref(), Some("S1"));
}

#[test]
fn test_transfers() {
    let data = "\
from_stop_id,to_stop_id,transfer_type,min_transfer_time
A,B,2,180
C,D,,
";
    let transfers: Vec<Transfer> = read_all("transfers.txt", data).unwrap();
    assert_eq!(transfers[0].transfer_type, TransferType::MinimumTime);
    assert_eq!(transfers[0].min_transfer_time, Some(180));
    // empty type falls back to the spec default
    assert_eq!(transfers[1].transfer_type, TransferType::Recommended);
}

#[test]
fn test_translations() {
    let data = "\
table_name,field_name,language,translation,record_id
stops,stop_name,ru,Центральная,S1
";
    let translations: Vec<Translation> = read_all("translations.txt", data).unwrap();
    assert_eq!(translations[0].table_name, TableName::Stops);
    assert_eq!(translations[0].translation, "Центральная");
    assert_eq!(translations[0].record_id.as_deref(), Some("S1"));
}

#[test]
fn test_unknown_table_name_is_rejected() {
    let data = "\
table_name,field_name,language,translation
fare_rules,fare_id,en,whatever
";
    let result: Result<Vec<Translation>, ParseError> = read_all("translations.txt", data);
    let Err(err) = result else {
        panic!("expected an invalid table_name error");
    };
    assert_eq!(err.field.as_deref(), Some("table_name"));
    assert!(matches!(err.kind, ParseErrorKind::Invalid { .. }));
}

#[test]
fn stop_coordinates_read_as_their_bits() {
    let data = "stop_id,stop_lat,stop_lon\nA,36.425288,-117.133162\n";
    let stops: Vec<Stop> = read_all("stops.txt", data).unwrap();
    assert_eq!(stops[0].stop_lat.map(f64::from_bits), Some(36.425288));
    assert_eq!(stops[0].stop_lon.map(f64::from_bits), Some(-117.133162));
}

#[test]
fn invalid_values_name_the_expectation() {
    let data = "stop_id,stop_lat\nA,north\n";
    let Err(err) = read_all::<Stop>("stops.txt", data) else {
        panic!("expected an invalid latitude");
    };
    assert_eq!(
        err.to_string(),
        "stops.txt, line 2, field `stop_lat`: invalid value 'north' (expected a latitude)"
    );
}

#[test]
fn empty_required_value_is_an_error() {
    let data = "route_id,route_type\n,3\n";
    let Err(err) = read_all::<Route>("routes.txt", data) else {
        panic!("expected an empty value error");
    };
    assert!(matches!(err.kind, ParseErrorKind::EmptyValue));
    assert_eq!(err.field.as_deref(), Some("route_id"));
}

#[test]
fn bad_time_is_a_model_error() {
    let data = "timeframe_group_id,start_time,service_id\npeak,7h,weekday\n";
    let Err(err) = read_all::<Timeframe>("timeframes.txt", data) else {
        panic!("expected a time error");
    };
    assert!(matches!(err.kind, ParseErrorKind::Model(_)));
    assert_eq!(err.line, 2);
}

#[test]
fn integers_accept_a_plus_sign_only_where_signed() {
    let data = "route_id,route_type,route_sort_order\nL1,+3,+7\n";
    let routes: Vec<Route> = read_all("routes.txt", data).unwrap();
    assert_eq!(routes[0].route_type, RouteType::Bus);
    assert_eq!(routes[0].route_sort_order, Some(7));
    let negative = "route_id,route_type,route_sort_order\nL1,3,-7\n";
    assert!(read_all::<Route>("routes.txt", negative).is_err());
}

#[test]
fn malformed_text_is_a_csv_error_at_its_line() {
    let data: &[u8] = b"stop_id,stop_name\nA,Alpha\nB,\xff\n";
    let Err(err) = read::<Stop, StdFloats>("stops.txt", data, &StdFloats) else {
        panic!("expected a CSV error");
    };
    assert!(matches!(err.kind, ParseErrorKind::Csv(_)));
    assert_eq!(err.file, "stops.txt");
    assert_eq!(err.line, 3);
    assert!(err.to_string().starts_with("stops.txt, line 3: "));

    let Err(err) = read::<Stop, StdFloats>("stops.txt", b"stop_\xff\nA\n", &StdFloats) else {
        panic!("expected a header error");
    };
    assert!(matches!(err.kind, ParseErrorKind::Csv(_)));
    assert_eq!(err.line, 1);
}

#[test]
fn model_errors_print_their_message() {
    let data = "timeframe_group_id,start_time,service_id\npeak,7h,weekday\n";
    let err = read_all::<Timeframe>("timeframes.txt", data).unwrap_err();
    assert_eq!(
        err.to_string(),
        "timeframes.txt, line 2, field `start_time`: invalid GTFS time value: '7h' (expected HH:MM:SS)"
    );
}

#[test]
fn records_read_with_the_numbers_given_for_their_fields() {
    let header = vec!["stop_id".to_string(), " stop_lat ".to_string(), "stop_lon".to_string()];
    let records = vec![
        CsvLine { line: Some(2), fields: vec!["A".to_string(), "55.5".to_string(), "37.5".to_string()] },
        CsvLine { line: Some(3), fields: vec!["B".to_string()] },
    ];
    let floats = vec![vec![None, Some(55.5f64.to_bits()), Some(37.5f64.to_bits())], vec![None]];
    let stops: Vec<Stop> = read_records("stops.txt", &header, &records, &floats).unwrap();
    assert_eq!(stops.len(), 2);
    assert_eq!(stops[0].stop_id, "A");
    assert_eq!(stops[0].stop_lat, Some(55.5f64.to_bits()));
    assert_eq!(stops[0].stop_lon, Some(37.5f64.to_bits()));
    // a short row reads its missing columns as empty
    assert_eq!(stops[1].stop_lat, None);

    // a number the float reader rejected is an invalid value
    let floats = vec![vec![None, None, Some(37.5f64.to_bits())], vec![None]];
    let err = read_records::<Stop>("stops.txt", &header, &records, &floats).unwrap_err();
    assert_eq!(err.line, 2);
    assert_eq!(err.field.as_deref(), Some("stop_lat"));
    assert!(matches!(err.kind, ParseErrorKind::Invalid { .. }));
}

#[test]
fn duplicate_header_column_is_rejected() {
    let data = "stop_id,stop_name, stop_name\nA,x,y\n";
    let Err(err) = read_all::<Stop>("stops.txt", data) else {
        panic!("expected a duplicate column error");
    };
    assert!(matches!(err.kind, ParseErrorKind::DuplicateColumn));
    assert_eq!(err.file, "stops.txt");
    assert_eq!(err.line, 1);
    assert_eq!(err.field.as_deref(), Some("stop_name"));
    assert_eq!(err.to_string(), "stops.txt, line 1, field `stop_name`: duplicate column in header");
}
