//! `locations.geojson`: the GTFS-Flex zones where riders can request
//! pickup or drop off by on-demand services. The file is a strict
//! subset of GeoJSON (RFC 7946): a `FeatureCollection` of `Feature`s
//! with required `id`s and `Polygon`/`MultiPolygon` geometries.
//!
//! The JSON text is read into a [`Json`] document by the caller; this
//! module checks the GeoJSON structure and builds the zones.

use vstd::prelude::*;

use crate::model::{Location, LocationGeometry};
use crate::parsers::csv::row::opt_string_view;
use crate::parsers::error::{KindView, ParseError, ParseErrorKind, ParseErrorView};
use crate::text::{append, decimal, owned, str_eq, u64_to_decimal};

verus! {

/// A JSON value. A number keeps its text and the bits of its nearest
/// IEEE 754 binary64 value; an object keeps its members in order.
pub enum Json {
    Null,
    Bool(bool),
    Number(String, u64),
    Text(String),
    Array(Vec<Json>),
    Object(Vec<(String, Json)>),
}

/// The first member of `members` named `key`.
pub open spec fn member(members: Seq<(String, Json)>, key: Seq<char>) -> Option<Json>
    decreases members.len(),
{
    if members.len() == 0 {
        None
    } else if members[0].0@ == key {
        Some(members[0].1)
    } else {
        member(members.drop_first(), key)
    }
}

/// The member `key` of an object; `None` for other values.
pub open spec fn get(v: Json, key: Seq<char>) -> Option<Json> {
    match v {
        Json::Object(members) => member(members@, key),
        _ => None,
    }
}

/// The text of a string value.
pub open spec fn text_of(v: Option<Json>) -> Option<Seq<char>> {
    match v {
        Some(Json::Text(s)) => Some(s@),
        _ => None,
    }
}

/// The error of a structural violation.
pub open spec fn invalid_at(file: Seq<char>, field: Seq<char>, value: Seq<char>, expected: Seq<char>) -> ParseErrorView {
    ParseErrorView { file, line: 0, field: Some(field), kind: KindView::Invalid { value, expected } }
}

/// A `[lon, lat]` position: an array of at least two numbers, extra
/// members (altitude) ignored.
pub open spec fn position_of(v: Json) -> Option<Seq<u64>> {
    match v {
        Json::Array(members) => if members@.len() >= 2 {
            match (members@[0], members@[1]) {
                (Json::Number(_, a), Json::Number(_, b)) => Some(seq![a, b]),
                _ => None,
            }
        } else {
            None
        },
        _ => None,
    }
}

/// Whether every position of a ring reads.
pub open spec fn ring_of(v: Json) -> Option<Seq<Seq<u64>>> {
    match v {
        Json::Array(positions) => if forall|i: int| 0 <= i < positions@.len() ==> #[trigger] position_of(positions@[i]) is Some {
            Some(Seq::new(positions@.len(), |i: int| position_of(positions@[i])->Some_0))
        } else {
            None
        },
        _ => None,
    }
}

/// Polygon coordinates: a list of rings of positions.
pub open spec fn polygon_of(v: Json) -> Option<Seq<Seq<Seq<u64>>>> {
    match v {
        Json::Array(rings) => if forall|i: int| 0 <= i < rings@.len() ==> #[trigger] ring_of(rings@[i]) is Some {
            Some(Seq::new(rings@.len(), |i: int| ring_of(rings@[i])->Some_0))
        } else {
            None
        },
        _ => None,
    }
}

/// The positions of rings.
pub open spec fn rings_view(rings: Vec<Vec<[u64; 2]>>) -> Seq<Seq<Seq<u64>>> {
    rings@.map_values(|r: Vec<[u64; 2]>| r@.map_values(|p: [u64; 2]| p@))
}

/// A geometry as whether it holds several polygons and the rings of
/// each polygon.
pub open spec fn geometry_view(g: LocationGeometry) -> (bool, Seq<Seq<Seq<Seq<u64>>>>) {
    match g {
        LocationGeometry::Polygon(rings) => (false, seq![rings_view(rings)]),
        LocationGeometry::MultiPolygon(polygons) => (true, polygons@.map_values(|p: Vec<Vec<[u64; 2]>>| rings_view(p))),
    }
}

/// What a geometry object at `path` reads as: its kind and polygons, or
/// the structural error.
pub open spec fn geometry_result(file: Seq<char>, path: Seq<char>, g: Json) -> Result<(bool, Seq<Seq<Seq<Seq<u64>>>>), ParseErrorView> {
    let kind = text_of(get(g, "type"@));
    let coordinates = get(g, "coordinates"@);
    if kind == Some("Polygon"@) && coordinates is Some {
        match polygon_of(coordinates->Some_0) {
            Some(rings) => Ok((false, seq![rings])),
            None => Err(invalid_at(file, path, "<malformed coordinates>"@, "rings of [lon, lat] positions"@)),
        }
    } else if kind == Some("MultiPolygon"@) && coordinates is Some {
        match coordinates->Some_0 {
            Json::Array(polygons) => if forall|i: int| 0 <= i < polygons@.len() ==> #[trigger] polygon_of(polygons@[i]) is Some {
                Ok((true, Seq::new(polygons@.len(), |i: int| polygon_of(polygons@[i])->Some_0)))
            } else {
                Err(invalid_at(file, path, "<malformed coordinates>"@, "rings of [lon, lat] positions"@))
            },
            _ => Err(invalid_at(file, path, "<malformed coordinates>"@, "an array of polygons"@)),
        }
    } else {
        Err(invalid_at(
            file,
            path,
            match kind {
                Some(k) => k,
                None => "<missing>"@,
            },
            "\"Polygon\" or \"MultiPolygon\""@,
        ))
    }
}

/// The path of member `suffix` of feature `index`.
pub open spec fn feature_path(index: int, suffix: Seq<char>) -> Seq<char> {
    "features["@ + decimal(index as nat) + "]"@ + suffix
}

/// The id of a feature: a string, or the text of a number.
pub open spec fn feature_id(f: Json) -> Option<Seq<char>> {
    match get(f, "id"@) {
        Some(Json::Text(s)) => Some(s@),
        Some(Json::Number(t, _)) => Some(t@),
        _ => None,
    }
}

/// A string property of a feature.
pub open spec fn property(f: Json, key: Seq<char>) -> Option<Seq<char>> {
    match get(f, "properties"@) {
        Some(Json::Object(members)) => text_of(member(members@, key)),
        _ => None,
    }
}

/// Whether `out` is what feature `index` reads as.
pub open spec fn feature_read(file: Seq<char>, index: int, f: Json, out: Result<Location, ParseError>) -> bool {
    let kind = text_of(get(f, "type"@));
    if kind != Some("Feature"@) {
        out matches Err(e) && e@ == invalid_at(
            file,
            feature_path(index, ".type"@),
            match kind {
                Some(k) => k,
                None => "<missing>"@,
            },
            "\"Feature\""@,
        )
    } else if feature_id(f) is None {
        out matches Err(e) && e@ == invalid_at(file, feature_path(index, ".id"@), "<missing>"@, "a unique location id"@)
    } else {
        match get(f, "geometry"@) {
            None => out matches Err(e) && e@ == invalid_at(
                file,
                feature_path(index, ".geometry"@),
                "<missing>"@,
                "a Polygon or MultiPolygon geometry"@,
            ),
            Some(g) => match geometry_result(file, feature_path(index, ".geometry"@), g) {
                Err(e) => out matches Err(pe) && pe@ == e,
                Ok(geometry) => out matches Ok(location) && {
                    &&& location.location_id@ == feature_id(f)->Some_0
                    &&& geometry_view(location.geometry) == geometry
                    &&& opt_string_view(location.stop_name) == property(f, "stop_name"@)
                    &&& opt_string_view(location.stop_desc) == property(f, "stop_desc"@)
                },
            },
        }
    }
}

fn invalid(file: &str, field: &str, value: &str, expected: &str) -> (r: ParseError)
    ensures
        r@ == invalid_at(file@, field@, value@, expected@),
{
    ParseError::new(
        file,
        0,
        Some(field),
        ParseErrorKind::Invalid { value: owned(value), expected: owned(expected) },
    )
}

/// The member `key` of an object.
fn get_member<'a>(v: &'a Json, key: &str) -> (r: Option<&'a Json>)
    ensures
        match r {
            Some(m) => get(*v, key@) == Some(*m),
            None => get(*v, key@) is None,
        },
{
    match v {
        Json::Object(members) => {
            let mut i: usize = 0;
            assert(members@.skip(0) =~= members@);
            while i < members.len()
                invariant
                    i <= members@.len(),
                    *v == Json::Object(*members),
                    member(members@, key@) == member(members@.skip(i as int), key@),
                decreases members@.len() - i,
            {
                proof {
                    assert(members@.skip(i as int).drop_first() =~= members@.skip(i + 1));
                    assert(members@.skip(i as int)[0] == members@[i as int]);
                }
                if str_eq(members[i].0.as_str(), key) {
                    assert(member(members@.skip(i as int), key@) == Some(members@[i as int].1));
                    return Some(&members[i].1);
                }
                i = i + 1;
            }
            None
        },
        _ => None,
    }
}

/// The text of a string value.
fn as_text<'a>(v: Option<&'a Json>) -> (r: Option<&'a str>)
    ensures
        match v {
            Some(j) => match *j {
                Json::Text(s) => r matches Some(t) && t@ == s@,
                _ => r is None,
            },
            None => r is None,
        },
{
    match v {
        Some(Json::Text(s)) => Some(s.as_str()),
        _ => None,
    }
}

/// Whether `t` is the text of `literal`.
fn is_text(t: Option<&str>, literal: &str) -> (r: bool)
    ensures
        r == (match t {
            Some(s) => s@ == literal@,
            None => false,
        }),
{
    match t {
        Some(s) => str_eq(s, literal),
        None => false,
    }
}

fn position(v: &Json) -> (r: Option<[u64; 2]>)
    ensures
        match position_of(*v) {
            Some(p) => r matches Some(a) && a@ == p,
            None => r is None,
        },
{
    match v {
        Json::Array(members) => {
            if members.len() < 2 {
                return None;
            }
            match (&members[0], &members[1]) {
                (Json::Number(_, a), Json::Number(_, b)) => {
                    let p = [*a, *b];
                    assert(p@ =~= seq![*a, *b]);
                    Some(p)
                },
                _ => None,
            }
        },
        _ => None,
    }
}

fn ring(v: &Json) -> (r: Option<Vec<[u64; 2]>>)
    ensures
        match ring_of(*v) {
            Some(points) => r matches Some(out) && out@.map_values(|p: [u64; 2]| p@) == points,
            None => r is None,
        },
{
    match v {
        Json::Array(positions) => {
            let mut out: Vec<[u64; 2]> = Vec::new();
            let mut i: usize = 0;
            while i < positions.len()
                invariant
                    i <= positions@.len(),
                    *v == Json::Array(*positions),
                    out@.len() == i,
                    forall|j: int| 0 <= j < i ==> #[trigger] position_of(positions@[j]) == Some(out@[j]@),
                decreases positions@.len() - i,
            {
                match position(&positions[i]) {
                    Some(p) => out.push(p),
                    None => {
                        assert(position_of(positions@[i as int]) is None);
                        return None;
                    },
                }
                i = i + 1;
            }
            proof {
                assert(out@.map_values(|p: [u64; 2]| p@) =~= Seq::new(
                    positions@.len(),
                    |j: int| position_of(positions@[j])->Some_0,
                ));
            }
            Some(out)
        },
        _ => None,
    }
}

fn polygon(v: &Json) -> (r: Option<Vec<Vec<[u64; 2]>>>)
    ensures
        match polygon_of(*v) {
            Some(rings) => r matches Some(out) && rings_view(out) == rings,
            None => r is None,
        },
{
    match v {
        Json::Array(rings) => {
            let mut out: Vec<Vec<[u64; 2]>> = Vec::new();
            let mut i: usize = 0;
            while i < rings.len()
                invariant
                    i <= rings@.len(),
                    *v == Json::Array(*rings),
                    out@.len() == i,
                    forall|j: int|
                        0 <= j < i ==> #[trigger] ring_of(rings@[j]) == Some(out@[j]@.map_values(|p: [u64; 2]| p@)),
                decreases rings@.len() - i,
            {
                match ring(&rings[i]) {
                    Some(points) => out.push(points),
                    None => {
                        assert(ring_of(rings@[i as int]) is None);
                        return None;
                    },
                }
                i = i + 1;
            }
            proof {
                assert(rings_view(out) =~= Seq::new(rings@.len(), |j: int| ring_of(rings@[j])->Some_0));
            }
            Some(out)
        },
        _ => None,
    }
}

/// Reads a `Polygon` or `MultiPolygon` geometry object at `path`.
fn geometry(file: &str, path: &str, g: &Json) -> (r: Result<LocationGeometry, ParseError>)
    ensures
        match geometry_result(file@, path@, *g) {
            Ok(v) => r matches Ok(out) && geometry_view(out) == v,
            Err(e) => r matches Err(pe) && pe@ == e,
        },
{
    let kind = as_text(get_member(g, "type"));
    let coordinates = get_member(g, "coordinates");
    if is_text(kind, "Polygon") && coordinates.is_some() {
        let c = match coordinates {
            Some(c) => c,
            None => return Err(invalid(file, path, "<missing>", "\"Polygon\" or \"MultiPolygon\"")),
        };
        match polygon(c) {
            Some(rings) => {
                let out = LocationGeometry::Polygon(rings);
                assert(geometry_view(out).1 =~= seq![rings_view(rings)]);
                Ok(out)
            },
            None => Err(invalid(file, path, "<malformed coordinates>", "rings of [lon, lat] positions")),
        }
    } else if is_text(kind, "MultiPolygon") && coordinates.is_some() {
        let c = match coordinates {
            Some(c) => c,
            None => return Err(invalid(file, path, "<missing>", "\"Polygon\" or \"MultiPolygon\"")),
        };
        match c {
            Json::Array(polygons) => {
                let mut out: Vec<Vec<Vec<[u64; 2]>>> = Vec::new();
                let mut i: usize = 0;
                while i < polygons.len()
                    invariant
                        i <= polygons@.len(),
                        out@.len() == i,
                        *c == Json::Array(*polygons),
                        get(*g, "coordinates"@) == Some(*c),
                        text_of(get(*g, "type"@)) == Some("MultiPolygon"@),
                        "MultiPolygon"@ != "Polygon"@,
                        forall|j: int| 0 <= j < i ==> #[trigger] polygon_of(polygons@[j]) == Some(rings_view(out@[j])),
                    decreases polygons@.len() - i,
                {
                    match polygon(&polygons[i]) {
                        Some(rings) => out.push(rings),
                        None => {
                            assert(polygon_of(polygons@[i as int]) is None);
                            return Err(invalid(file, path, "<malformed coordinates>", "rings of [lon, lat] positions"));
                        },
                    }
                    i = i + 1;
                }
                let result = LocationGeometry::MultiPolygon(out);
                assert(geometry_view(result).1 =~= Seq::new(polygons@.len(), |j: int| polygon_of(polygons@[j])->Some_0));
                Ok(result)
            },
            _ => Err(invalid(file, path, "<malformed coordinates>", "an array of polygons")),
        }
    } else {
        let value = match kind {
            Some(k) => k,
            None => "<missing>",
        };
        Err(invalid(file, path, value, "\"Polygon\" or \"MultiPolygon\""))
    }
}

/// The path of member `suffix` of feature `index`.
fn path_of(index: usize, suffix: &str) -> (r: String)
    ensures
        r@ == feature_path(index as int, suffix@),
{
    let mut out = owned("features[");
    append(&mut out, u64_to_decimal(index as u64).as_str());
    append(&mut out, "]");
    append(&mut out, suffix);
    out
}

/// Reads one GeoJSON `Feature` into a [`Location`].
fn feature(file: &str, index: usize, f: &Json) -> (r: Result<Location, ParseError>)
    ensures
        feature_read(file@, index as int, *f, r),
{
    let kind = as_text(get_member(f, "type"));
    if !is_text(kind, "Feature") {
        let value = match kind {
            Some(k) => k,
            None => "<missing>",
        };
        return Err(invalid(file, path_of(index, ".type").as_str(), value, "\"Feature\""));
    }
    // the specification requires an id; numeric ids of real feeds are
    // tolerated
    let id: &str = match get_member(f, "id") {
        Some(Json::Text(s)) => s.as_str(),
        Some(Json::Number(t, _)) => t.as_str(),
        _ => {
            return Err(invalid(file, path_of(index, ".id").as_str(), "<missing>", "a unique location id"));
        },
    };
    let geometry_path = path_of(index, ".geometry");
    let zone = match get_member(f, "geometry") {
        Some(g) => match geometry(file, geometry_path.as_str(), g) {
            Ok(zone) => zone,
            Err(e) => return Err(e),
        },
        None => {
            return Err(invalid(file, geometry_path.as_str(), "<missing>", "a Polygon or MultiPolygon geometry"));
        },
    };
    let mut stop_name: Option<String> = None;
    let mut stop_desc: Option<String> = None;
    match get_member(f, "properties") {
        Some(properties) => match properties {
            Json::Object(_) => {
                stop_name = match as_text(get_member(properties, "stop_name")) {
                    Some(t) => Some(owned(t)),
                    None => None,
                };
                stop_desc = match as_text(get_member(properties, "stop_desc")) {
                    Some(t) => Some(owned(t)),
                    None => None,
                };
            },
            _ => {},
        },
        None => {},
    }
    Ok(Location { location_id: owned(id), stop_name, stop_desc, geometry: zone })
}

/// Whether feature `index` reads as a zone.
pub open spec fn feature_reads(file: Seq<char>, index: int, f: Json) -> bool {
    exists|z: Location| #[trigger] feature_read(file, index, f, Ok::<Location, ParseError>(z))
}

/// The features of a document, where its `features` member is an array.
pub open spec fn features_of(doc: Json) -> Option<Seq<Json>> {
    match get(doc, "features"@) {
        Some(Json::Array(features)) => Some(features@),
        _ => None,
    }
}

/// Whether feature `k` is the first of `features` that does not read,
/// failing with `e`.
pub open spec fn fails_at(file: Seq<char>, features: Seq<Json>, k: int, e: ParseError) -> bool {
    &&& 0 <= k < features.len()
    &&& forall|i: int| 0 <= i < k ==> #[trigger] feature_reads(file, i, features[i])
    &&& feature_read(file, k, features[k], Err::<Location, ParseError>(e))
}

/// Whether `out` is what a GeoJSON document reads as: the zones of its
/// features in order, or the first structural error.
pub open spec fn document_read(file: Seq<char>, doc: Json, out: Result<Vec<Location>, ParseError>) -> bool {
    let kind = text_of(get(doc, "type"@));
    if kind != Some("FeatureCollection"@) {
        out matches Err(e) && e@ == invalid_at(
            file,
            "type"@,
            match kind {
                Some(k) => k,
                None => "<missing>"@,
            },
            "\"FeatureCollection\""@,
        )
    } else {
        match features_of(doc) {
            Some(features) => match out {
                Ok(zones) => zones@.len() == features.len() && forall|i: int|
                    0 <= i < features.len() ==> #[trigger] feature_read(
                        file,
                        i,
                        features[i],
                        Ok::<Location, ParseError>(zones@[i]),
                    ),
                Err(e) => exists|k: int| #[trigger] fails_at(file, features, k, e),
            },
            _ => out matches Err(e) && e@ == invalid_at(
                file,
                "features"@,
                "<missing or not an array>"@,
                "an array of Features"@,
            ),
        }
    }
}

/// A document fails with the error of its first feature that does not read.
proof fn lemma_document_fails(file: Seq<char>, doc: Json, features: Seq<Json>, k: int, e: ParseError)
    requires
        text_of(get(doc, "type"@)) == Some("FeatureCollection"@),
        features_of(doc) == Some(features),
        fails_at(file, features, k, e),
    ensures
        document_read(file, doc, Err::<Vec<Location>, ParseError>(e)),
{
    assert(match features_of(doc) {
        Some(f) => fails_at(file, f, k, e),
        None => false,
    });

}

/// Reads the GTFS-Flex zones of a GeoJSON document.
///
/// Enforces the GTFS subset of GeoJSON: the root must be a
/// `FeatureCollection`, every feature must have an `id`, and each
/// geometry must be a `Polygon` or a `MultiPolygon` with `[lon, lat]`
/// positions. The optional `stop_name`/`stop_desc` properties are
/// carried over; unknown properties are ignored.
///
/// # Errors
///
/// Returns a [`ParseError`] with [`ParseErrorKind::Invalid`] for
/// structural violations; the `field` names the JSON path.
pub fn read_locations_json(file_label: &str, doc: &Json) -> (r: Result<Vec<Location>, ParseError>)
    ensures
        document_read(file_label@, *doc, r),
{
    let kind = as_text(get_member(doc, "type"));
    if !is_text(kind, "FeatureCollection") {
        let value = match kind {
            Some(k) => k,
            None => "<missing>",
        };
        return Err(invalid(file_label, "type", value, "\"FeatureCollection\""));
    }
    match get_member(doc, "features") {
        Some(Json::Array(features)) => {
            let mut zones: Vec<Location> = Vec::new();
            let mut i: usize = 0;
            while i < features.len()
                invariant
                    i <= features@.len(),
                    zones@.len() == i,
                    features_of(*doc) == Some(features@),
                    text_of(get(*doc, "type"@)) == Some("FeatureCollection"@),
                    forall|j: int|
                        0 <= j < i ==> #[trigger] feature_read(
                            file_label@,
                            j,
                            features@[j],
                            Ok::<Location, ParseError>(zones@[j]),
                        ),
                decreases features@.len() - i,
            {
                match feature(file_label, i, &features[i]) {
                    Ok(zone) => zones.push(zone),
                    Err(e) => {
                        proof {
                            assert forall|j: int| 0 <= j < i implies #[trigger] feature_reads(
                                file_label@,
                                j,
                                features@[j],
                            ) by {
                                assert(feature_read(file_label@, j, features@[j], Ok::<Location, ParseError>(zones@[j])));
                            }
                            assert(feature_read(file_label@, i as int, features@[i as int], Err::<Location, ParseError>(e)));
                            assert(fails_at(file_label@, features@, i as int, e));
                            lemma_document_fails(file_label@, *doc, features@, i as int, e);
                        }
                        return Err(e);
                    },
                }
                i = i + 1;
            }
            Ok(zones)
        },
        _ => Err(invalid(file_label, "features", "<missing or not an array>", "an array of Features")),
    }
}


/// Reads JSON text into a [`Json`] document.
///
/// The crate leaves JSON syntax to the implementation handed to it; the
/// GeoJSON structure of the document is read by [`read_locations_json`].
pub trait JsonReader {
    /// Whether `out` is an outcome of reading `text` that this reader
    /// admits. An implementation that states nothing keeps the default,
    /// which admits every outcome.
    open spec fn parses_as(&self, text: Seq<char>, out: Result<Json, ParseError>) -> bool {
        true
    }

    /// The document `text` holds, or the error that `text` is not JSON,
    /// labelled with `file_label`.
    fn read_json(&self, file_label: &str, text: &str) -> (r: Result<Json, ParseError>)
        ensures
            self.parses_as(text@, r),
    ;
}

/// The outcomes a JSON reader admits.
pub open spec fn json_readings<J: JsonReader>(json: J) -> spec_fn(Seq<char>, Result<Json, ParseError>) -> bool {
    |text: Seq<char>, out: Result<Json, ParseError>| json.parses_as(text, out)
}

/// Whether `out` is what the GeoJSON text `text` reads as, for an
/// outcome of reading its JSON that `parses` admits: the reader's error,
/// or what the document reads as.
pub open spec fn text_zones(file: Seq<char>, text: Seq<char>, parses: spec_fn(Seq<char>, Result<Json, ParseError>) -> bool, out: Result<Vec<Location>, ParseError>) -> bool {
    exists|p: Result<Json, ParseError>|
        #[trigger] parses(text, p) && match p {
            Err(e) => out == Err::<Vec<Location>, ParseError>(e),
            Ok(doc) => document_read(file, doc, out),
        }
}

/// Reads the GTFS-Flex zones of GeoJSON text: `json` reads the JSON,
/// [`read_locations_json`] its GeoJSON structure.
///
/// # Errors
///
/// Returns the error of `json` for text that is not JSON, and the
/// structural errors of [`read_locations_json`] otherwise.
pub fn read_locations_str<J: JsonReader>(file_label: &str, data: &str, json: &J) -> (r: Result<Vec<Location>, ParseError>)
    ensures
        text_zones(file_label@, data@, json_readings(*json), r),
{
    let parsed = json.read_json(file_label, data);
    let ghost seen = parsed;
    assert(json_readings(*json)(data@, seen));
    match parsed {
        Ok(doc) => read_locations_json(file_label, &doc),
        Err(e) => Err(e),
    }
}

} // verus!
