use serde_json::Value;

use gtfs_rs::model::{Location, LocationGeometry};
use gtfs_rs::parsers::geojson::{read_locations_json, read_locations_str, Json, JsonReader};
use gtfs_rs::parsers::{ParseError, ParseErrorKind};

/// The document model of a parsed JSON text.
fn json_of(value: &Value) -> Json {
    match value {
        Value::Null => Json::Null,
        Value::Bool(b) => Json::Bool(*b),
        Value::Number(n) => Json::Number(n.to_string(), n.as_f64().unwrap_or(f64::NAN).to_bits()),
        Value::String(s) => Json::Text(s.clone()),
        Value::Array(items) => Json::Array(items.iter().map(json_of).collect()),
        Value::Object(members) => {
            Json::Object(members.iter().map(|(k, v)| (k.clone(), json_of(v))).collect())
        }
    }
}

/// Reads JSON text with `serde_json`; a syntax error carries its line.
struct SerdeJson;

impl JsonReader for SerdeJson {
    fn read_json(&self, file_label: &str, text: &str) -> Result<Json, ParseError> {
        match serde_json::from_str::<Value>(text) {
            Ok(root) => Ok(json_of(&root)),
            Err(e) => {
                let line = e.line() as u64;
                Err(ParseError::new(file_label, line, None, ParseErrorKind::Json(e)))
            }
        }
    }
}

fn read_text(label: &str, data: &str) -> Result<Vec<Location>, ParseError> {
    let value: Value = serde_json::from_str(data).expect("test documents are valid JSON");
    let zones = read_locations_json(label, &json_of(&value));
    // reading the text gives the same
    let again = read_locations_str(label, data, &SerdeJson);
    assert_eq!(zones.is_ok(), again.is_ok());
    zones
}

fn invalid_value(err: &ParseError) -> (String, String) {
    match &err.kind {
        ParseErrorKind::Invalid { value, expected } => (value.clone(), expected.clone()),
        _ => panic!("expected an invalid-value error"),
    }
}

const ZONES: &str = r#"{
    "type": "FeatureCollection",
    "features": [
        {
            "type": "Feature",
            "id": "zone_a",
            "properties": { "stop_name": "Demo flex zone A", "stop_desc": "north" },
            "geometry": {
                "type": "Polygon",
                "coordinates": [[[-116.80, 36.85], [-116.70, 36.85], [-116.70, 36.95], [-116.80, 36.85]]]
            }
        },
        {
            "type": "Feature",
            "id": 7,
            "geometry": {
                "type": "MultiPolygon",
                "coordinates": [
                    [[[0.0, 0.0], [1.0, 0.0], [1.0, 1.0], [0.0, 0.0]]],
                    [[[2.0, 2.0], [3.0, 2.0], [3.0, 3.0], [2.0, 2.0]]]
                ]
            }
        }
    ]
}"#;

#[test]
fn test_reads_polygon_and_multipolygon_zones() {
    let zones = read_text("locations.geojson", ZONES).unwrap();
    assert_eq!(zones.len(), 2);
    assert_eq!(zones[0].location_id, "zone_a");
    assert_eq!(zones[0].stop_name.as_deref(), Some("Demo flex zone A"));
    assert_eq!(zones[0].stop_desc.as_deref(), Some("north"));
    let LocationGeometry::Polygon(rings) = &zones[0].geometry else {
        panic!("expected a Polygon for zone_a");
    };
    // GeoJSON positions are (lon, lat)
    assert_eq!(rings[0][0], [(-116.80f64).to_bits(), 36.85f64.to_bits()]);
    assert_eq!(rings[0].len(), 4);
    // a numeric id is kept as its text
    assert_eq!(zones[1].location_id, "7");
    assert_eq!(zones[1].stop_name, None);
    let LocationGeometry::MultiPolygon(polygons) = &zones[1].geometry else {
        panic!("expected a MultiPolygon");
    };
    assert_eq!(polygons.len(), 2);
    assert_eq!(polygons[1][0][2], [3.0f64.to_bits(), 3.0f64.to_bits()]);
}

#[test]
fn test_rejects_non_feature_collection() {
    let data = r#"{ "type": "Feature", "id": "x" }"#;
    let Err(err) = read_text("locations.geojson", data) else {
        panic!("expected a root-type error");
    };
    assert_eq!(err.field.as_deref(), Some("type"));
    assert!(matches!(err.kind, ParseErrorKind::Invalid { .. }));
    assert_eq!(invalid_value(&err).0, "Feature");
}

#[test]
fn test_rejects_missing_id() {
    let data = r#"{
        "type": "FeatureCollection",
        "features": [{
            "type": "Feature",
            "geometry": { "type": "Polygon", "coordinates": [[[0.0, 0.0]]] }
        }]
    }"#;
    let Err(err) = read_text("locations.geojson", data) else {
        panic!("expected a missing-id error");
    };
    assert_eq!(err.field.as_deref(), Some("features[0].id"));
}

#[test]
fn test_rejects_unsupported_geometry() {
    let data = r#"{
        "type": "FeatureCollection",
        "features": [{
            "type": "Feature",
            "id": "pt",
            "geometry": { "type": "Point", "coordinates": [0.0, 0.0] }
        }]
    }"#;
    let Err(err) = read_text("locations.geojson", data) else {
        panic!("expected a geometry-type error");
    };
    assert_eq!(err.field.as_deref(), Some("features[0].geometry"));
    assert_eq!(invalid_value(&err).0, "Point");
}

#[test]
fn test_rejects_malformed_positions_and_missing_features() {
    let data = r#"{
        "type": "FeatureCollection",
        "features": [
            { "type": "Feature", "id": "ok", "geometry": { "type": "Polygon", "coordinates": [[[0.0, 0.0]]] } },
            { "type": "Feature", "id": "bad", "geometry": { "type": "Polygon", "coordinates": [[[0.0]]] } }
        ]
    }"#;
    let err = read_text("locations.geojson", data).unwrap_err();
    assert_eq!(err.file, "locations.geojson");
    assert_eq!(err.line, 0);
    assert_eq!(err.field.as_deref(), Some("features[1].geometry"));
    assert_eq!(invalid_value(&err).0, "<malformed coordinates>");

    let err = read_text("zones.json", r#"{ "type": "FeatureCollection" }"#).unwrap_err();
    assert_eq!(err.file, "zones.json");
    assert_eq!(err.field.as_deref(), Some("features"));

    let err = read_text("locations.geojson", r#"{ "type": "FeatureCollection", "features": [1] }"#)
        .unwrap_err();
    assert_eq!(err.field.as_deref(), Some("features[0].type"));
    assert_eq!(invalid_value(&err).0, "<missing>");

    let data = r#"{ "type": "FeatureCollection", "features": [{ "type": "Feature", "id": "g" }] }"#;
    let err = read_text("locations.geojson", data).unwrap_err();
    assert_eq!(err.field.as_deref(), Some("features[0].geometry"));
    assert_eq!(invalid_value(&err).0, "<missing>");
}

#[test]
fn test_empty_feature_collection_has_no_zones() {
    let zones = read_text("locations.geojson", r#"{ "type": "FeatureCollection", "features": [] }"#)
        .unwrap();
    assert!(zones.is_empty());
}

#[test]
fn test_malformed_json_reports_line() {
    let data = "{\n  \"type\": \"FeatureCollection\",\n  broken\n}";
    let Err(err) = read_locations_str("locations.geojson", data, &SerdeJson) else {
        panic!("expected a JSON syntax error");
    };
    assert_eq!(err.line, 3);
    assert!(matches!(err.kind, ParseErrorKind::Json(_)));
}
