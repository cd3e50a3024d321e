# gtfs_rs

An in-memory model of the GTFS Schedule specification with CSV, zip and
GeoJSON readers and a structural validator, written in Verus: the
behaviour of the library is stated in `requires`/`ensures` contracts and
proved.

## Layout

- `src/` - the verified library.
  - `model.rs` - one type per GTFS table and one enum per coded field,
    with wire-code conversions and their round-trip laws.
  - `misc.rs` - dates (`YYYYMMDD`, weekdays), service-day times
    (`HH:MM:SS`) and exact currency amounts, with their text formats
    and round-trip laws.
  - `reference.rs` - `GtfsReference`, a whole dataset, with lookups
    across tables and the service calendar.
  - `validate/` - the rules of the specification: intra-record rules,
    references, dataset-wide rules, and the report. `all_issues` states
    what validation reports for any dataset.
  - `parsers/` - CSV tables, feed containers, zip archives and the
    GTFS-Flex subset of GeoJSON.
  - `seqs.rs`, `text.rs` - sequence and text definitions the contracts
    share.
- `app/` - the file-system and JSON front end: reading tables, feed
  directories and archives from paths, parsing JSON text, and reading
  floating-point numbers, which the library takes from its callers.
- `tests/` - tests on concrete values.

## Trust

The outside crates `csv`, `zip` and `serde_json` are reached through a
few wrappers marked `#[verifier::external_body]`; each carries a doc
comment that says what its contract claims of the crate.
