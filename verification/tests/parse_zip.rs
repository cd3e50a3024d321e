use std::io::{Cursor, Write};

use zip::write::SimpleFileOptions;
use zip::CompressionMethod;

use gtfs_rs::parsers::csv::FloatParser;
use gtfs_rs::parsers::geojson::{Json, JsonReader};
use gtfs_rs::parsers::zip::{detect_prefix, entry_index, read_zip_bytes};
use gtfs_rs::parsers::{ParseError, ParseErrorKind};
use gtfs_rs::GtfsReference;

/// Reads floating-point fields with the standard library.
struct StdFloats;

impl FloatParser for StdFloats {
    fn float_bits(&self, text: &str) -> Option<u64> {
        text.parse::<f64>().ok().map(f64::to_bits)
    }
}

/// Reads every JSON text as an empty zone collection: the archives of
/// these tests hold no zones.
struct NoZones;

impl JsonReader for NoZones {
    fn read_json(&self, _file_label: &str, _text: &str) -> Result<Json, ParseError> {
        Ok(Json::Object(vec![
            ("type".to_string(), Json::Text("FeatureCollection".to_string())),
            ("features".to_string(), Json::Array(Vec::new())),
        ]))
    }
}

/// Packs the given name/content pairs into an in-memory zip archive
/// (stored, no compression); names ending in `/` become directories.
fn zip_entries(entries: &[(&str, &str)]) -> Vec<u8> {
    let mut cursor = Cursor::new(Vec::new());
    {
        let mut writer = zip::ZipWriter::new(&mut cursor);
        let options = SimpleFileOptions::default().compression_method(CompressionMethod::Stored);
        for (name, content) in entries {
            if name.ends_with('/') {
                writer.add_directory(*name, options).unwrap();
            } else {
                writer.start_file(*name, options).unwrap();
                writer.write_all(content.as_bytes()).unwrap();
            }
        }
        writer.finish().unwrap();
    }
    cursor.into_inner()
}

fn read(label: &str, bytes: &[u8]) -> Result<GtfsReference, ParseError> {
    read_zip_bytes(label, bytes, &StdFloats, &NoZones)
}

const AGENCY: &str = "agency_name,agency_url,agency_timezone\nDemo,https://demo.example,UTC\n";
const STOPS: &str = "stop_id\nA\n";
const ROUTES: &str = "route_id,route_type\nL1,3\n";
const TRIPS: &str = "route_id,service_id,trip_id\nL1,daily,t0\n";
const STOP_TIMES: &str = "trip_id,stop_sequence,stop_id\nt0,1,A\n";

#[test]
fn test_missing_required_table_in_archive() {
    // an archive with agency.txt only is not a valid feed
    let bytes = zip_entries(&[(
        "agency.txt",
        "agency_name,agency_url,agency_timezone\nDemo,https://x.example,UTC\n",
    )]);

    let Err(err) = read("broken.zip", &bytes) else {
        panic!("expected a missing-required-table error");
    };
    assert_eq!(err.file, "stops.txt");
    assert!(matches!(err.kind, ParseErrorKind::Io(_)));
}

#[test]
fn test_garbage_bytes_report_zip_error() {
    let Err(err) = read("garbage.zip", b"not a zip archive at all") else {
        panic!("expected a zip format error");
    };
    assert_eq!(err.file, "garbage.zip");
    assert!(matches!(err.kind, ParseErrorKind::Zip(_)));
}

#[test]
fn test_read_zip_bytes_feed_in_subfolder() {
    let bytes = zip_entries(&[
        ("gtfs/", ""),
        ("gtfs/agency.txt", AGENCY),
        ("gtfs/stops.txt", STOPS),
        ("gtfs/routes.txt", ROUTES),
        ("gtfs/trips.txt", TRIPS),
        ("gtfs/stop_times.txt", STOP_TIMES),
        ("__MACOSX/gtfs/._agency.txt", "finder junk"),
    ]);

    let gtfs = read("subfolder.zip", &bytes).unwrap();
    assert_eq!(gtfs.agencies.len(), 1);
    assert_eq!(gtfs.agencies[0].agency_name, "Demo");
    assert_eq!(gtfs.stops.len(), 1);
    assert_eq!(gtfs.routes.len(), 1);
    assert_eq!(gtfs.trips.len(), 1);
    assert_eq!(gtfs.stop_times.len(), 1);
}

#[test]
fn test_uppercase_entry_names_are_tolerated() {
    let bytes = zip_entries(&[
        ("AGENCY.TXT", AGENCY),
        ("Stops.txt", STOPS),
        ("routes.txt", ROUTES),
        ("trips.txt", TRIPS),
        ("stop_times.txt", STOP_TIMES),
    ]);

    let gtfs = read("uppercase.zip", &bytes).unwrap();
    assert_eq!(gtfs.agencies.len(), 1);
    assert_eq!(gtfs.agencies[0].agency_name, "Demo");
    assert_eq!(gtfs.stops.len(), 1);
}

#[test]
fn test_mixed_root_and_folder_entries_use_root() {
    let bytes = zip_entries(&[
        (
            "agency.txt",
            "agency_name,agency_url,agency_timezone\nRoot,https://root.example,UTC\n",
        ),
        ("stops.txt", STOPS),
        ("routes.txt", ROUTES),
        ("trips.txt", TRIPS),
        ("stop_times.txt", STOP_TIMES),
        (
            "nested/agency.txt",
            "agency_name,agency_url,agency_timezone\nNested,https://n.example,UTC\n",
        ),
    ]);

    let gtfs = read("mixed.zip", &bytes).unwrap();
    assert_eq!(gtfs.agencies.len(), 1);
    assert_eq!(gtfs.agencies[0].agency_name, "Root");
}

#[test]
fn test_optional_tables_are_read_when_present() {
    let bytes = zip_entries(&[
        ("agency.txt", AGENCY),
        ("stops.txt", STOPS),
        ("routes.txt", ROUTES),
        ("trips.txt", TRIPS),
        ("stop_times.txt", STOP_TIMES),
        ("calendar_dates.txt", "service_id,date,exception_type\ndaily,20260101,2\n"),
        (
            "feed_info.txt",
            "feed_publisher_name,feed_publisher_url,feed_lang\nDemo,https://demo.example,en\n",
        ),
    ]);

    let gtfs = read("optional.zip", &bytes).unwrap();
    assert_eq!(gtfs.calendar_dates.len(), 1);
    assert!(gtfs.calendar.is_empty());
    assert_eq!(gtfs.feed_info.as_ref().map(|f| f.feed_lang.as_str()), Some("en"));
}

#[test]
fn test_malformed_table_in_archive_names_the_table() {
    let bytes = zip_entries(&[
        ("agency.txt", AGENCY),
        ("stops.txt", STOPS),
        ("routes.txt", "route_id,route_type\nL1,99\n"),
        ("trips.txt", TRIPS),
        ("stop_times.txt", STOP_TIMES),
    ]);

    let Err(err) = read("bad_route.zip", &bytes) else {
        panic!("expected a route_type error");
    };
    assert_eq!(err.file, "routes.txt");
    assert_eq!(err.line, 2);
    assert_eq!(err.field.as_deref(), Some("route_type"));
}

fn names(list: &[&str]) -> Vec<String> {
    list.iter().map(|s| s.to_string()).collect()
}

#[test]
fn test_detect_prefix() {
    assert_eq!(detect_prefix(&names(&["agency.txt", "stops.txt"])), None);
    assert_eq!(
        detect_prefix(&names(&["gtfs/", "gtfs/agency.txt", "gtfs/stops.txt"])),
        Some("gtfs/".to_string())
    );
    // macOS metadata does not count as a second folder
    assert_eq!(
        detect_prefix(&names(&["gtfs/agency.txt", "__MACOSX/gtfs/._agency.txt"])),
        Some("gtfs/".to_string())
    );
    // two folders: no shared prefix
    assert_eq!(detect_prefix(&names(&["a/agency.txt", "b/stops.txt"])), None);
    // a root-level file next to a folder: no shared prefix
    assert_eq!(detect_prefix(&names(&["agency.txt", "nested/agency.txt"])), None);
    assert_eq!(detect_prefix(&names(&[])), None);
}

#[test]
fn test_entry_index() {
    let list = names(&["AGENCY.TXT", "gtfs/stops.txt", "stops.txt", "Routes.txt"]);
    assert_eq!(entry_index(&list, &None, "agency.txt"), Some(0));
    assert_eq!(entry_index(&list, &None, "stops.txt"), Some(2));
    assert_eq!(entry_index(&list, &None, "routes.txt"), Some(3));
    assert_eq!(entry_index(&list, &None, "trips.txt"), None);
    let foldered = names(&["gtfs/", "gtfs/Stops.txt", "gtfs/stops.txt"]);
    let prefix = Some("gtfs/".to_string());
    // an exact name wins over a case-insensitive one
    assert_eq!(entry_index(&foldered, &prefix, "stops.txt"), Some(2));
    assert_eq!(entry_index(&foldered, &prefix, "agency.txt"), None);
}

/// Reads the text of `locations.geojson` as one zone whose id is the
/// text and whose name is the file label, so a test can see what the
/// archive reader passed on.
struct EchoZones;

fn text(s: &str) -> Json {
    Json::Text(s.to_string())
}

impl JsonReader for EchoZones {
    fn read_json(&self, file_label: &str, data: &str) -> Result<Json, ParseError> {
        let feature = Json::Object(vec![
            ("type".to_string(), text("Feature")),
            ("id".to_string(), text(data)),
            ("properties".to_string(), Json::Object(vec![("stop_name".to_string(), text(file_label))])),
            (
                "geometry".to_string(),
                Json::Object(vec![
                    ("type".to_string(), text("Polygon")),
                    ("coordinates".to_string(), Json::Array(Vec::new())),
                ]),
            ),
        ]);
        Ok(Json::Object(vec![
            ("type".to_string(), text("FeatureCollection")),
            ("features".to_string(), Json::Array(vec![feature])),
        ]))
    }
}

#[test]
fn test_locations_entry_is_handed_over_as_text() {
    let text = "{ \"type\": \"FeatureCollection\", \"features\": [] } \u{e9}";
    let bytes = zip_entries(&[
        ("gtfs/agency.txt", AGENCY),
        ("gtfs/stops.txt", STOPS),
        ("gtfs/routes.txt", ROUTES),
        ("gtfs/trips.txt", TRIPS),
        ("gtfs/stop_times.txt", STOP_TIMES),
        ("gtfs/Locations.GeoJSON", text),
    ]);
    let gtfs = read_zip_bytes("flex.zip", &bytes, &StdFloats, &EchoZones).unwrap();
    assert_eq!(gtfs.locations.len(), 1);
    assert_eq!(gtfs.locations[0].location_id, text);
    assert_eq!(gtfs.locations[0].stop_name.as_deref(), Some("locations.geojson"));

    // without the file, no zones are read
    let bytes = zip_entries(&[
        ("agency.txt", AGENCY),
        ("stops.txt", STOPS),
        ("routes.txt", ROUTES),
        ("trips.txt", TRIPS),
        ("stop_times.txt", STOP_TIMES),
    ]);
    let gtfs = read_zip_bytes("plain.zip", &bytes, &StdFloats, &EchoZones).unwrap();
    assert!(gtfs.locations.is_empty());
}

#[test]
fn test_error_messages_name_the_place() {
    let bytes = zip_entries(&[("agency.txt", AGENCY)]);
    let err = read("broken.zip", &bytes).unwrap_err();
    assert_eq!(err.to_string(), "stops.txt: required table is missing from the feed");

    let err = read("garbage.zip", b"not a zip archive at all").unwrap_err();
    assert!(err.to_string().starts_with("garbage.zip: invalid zip archive: "));

    let bytes = zip_entries(&[
        ("agency.txt", AGENCY),
        ("stops.txt", STOPS),
        ("routes.txt", "route_id,route_type\nL1,99\n"),
        ("trips.txt", TRIPS),
        ("stop_times.txt", STOP_TIMES),
    ]);
    let err = read("bad_route.zip", &bytes).unwrap_err();
    assert!(err.to_string().starts_with("routes.txt, line 2, field `route_type`: invalid value '99'"));
}
