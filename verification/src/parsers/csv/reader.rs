//! Reading one CSV table: the `csv` crate splits the text into header
//! and records, and each record is handed to
//! [`CsvRecord::from_row`](crate::parsers::csv::CsvRecord::from_row).

use vstd::prelude::*;
use vstd::hash_map::StringHashMap;

use crate::parsers::csv::record::CsvRecord;
use crate::parsers::csv::row::{float_readings, FloatParser, Row, RowView};
use crate::parsers::error::{KindView, ParseError, ParseErrorKind, ParseErrorView};
use crate::text::{owned, trim, trimmed};

verus! {

/// One record of a CSV text: its line, when known, and its fields.
pub struct CsvLine {
    pub line: Option<u64>,
    pub fields: Vec<String>,
}

/// The error that stopped reading a CSV text, with its line when known.
pub struct CsvFailure {
    pub line: Option<u64>,
    pub error: ::csv::Error,
}

/// The content of a record: its line and its fields.
pub open spec fn line_view(l: CsvLine) -> (Option<u64>, Seq<Seq<char>>) {
    (l.line, l.fields@.map_values(|s: String| s@))
}

/// The line of a failure, when there is one.
pub open spec fn failure_line(f: Option<CsvFailure>) -> Option<Option<u64>> {
    match f {
        Some(f) => Some(f.line),
        None => None,
    }
}

/// The fields of a CSV header as the `csv` crate reads them (trimmed,
/// a leading byte-order mark dropped), `None` when the header cannot
/// be read.
pub uninterp spec fn csv_header_of(data: Seq<u8>) -> Option<Seq<Seq<char>>>;

/// The records after the header of a CSV text as the `csv` crate reads
/// them (fields trimmed, rows of any length), up to the first
/// malformed one, and the line of that failure if there is one.
pub uninterp spec fn csv_records_of(data: Seq<u8>) -> (Seq<(Option<u64>, Seq<Seq<char>>)>, Option<Option<u64>>);

/// Reads the header of a CSV text with `csv::ReaderBuilder` (all
/// fields trimmed, flexible row lengths) and `Reader::headers`.
/// Claimed: the header it returns is `csv_header_of(data)`, and an error
/// comes exactly when that name is `None`; which header the crate reads
/// is left to it.
#[verifier::external_body]
fn csv_header(data: &[u8]) -> (r: Result<Vec<String>, ::csv::Error>)
    ensures
        match r {
            Ok(h) => csv_header_of(data@) == Some(h@.map_values(|s: String| s@)),
            Err(_) => csv_header_of(data@) is None,
        },
{
    let mut reader = ::csv::ReaderBuilder::new().trim(::csv::Trim::All).flexible(true).from_reader(data);
    match reader.headers() {
        Ok(h) => Ok(h.iter().map(String::from).collect()),
        Err(e) => Err(e),
    }
}

/// Reads the records of a CSV text with `csv::ReaderBuilder` (all
/// fields trimmed, flexible row lengths) and `Reader::records`, up to
/// the first error, keeping each record's line (`Position::line`).
/// Claimed: the records and the line of the failure are
/// `csv_records_of(data)`; how the crate splits records and fields is
/// left to it.
#[verifier::external_body]
fn csv_records(data: &[u8]) -> (r: (Vec<CsvLine>, Option<CsvFailure>))
    ensures
        csv_records_of(data@) == (r.0@.map_values(|l: CsvLine| line_view(l)), failure_line(r.1)),
{
    let mut reader = ::csv::ReaderBuilder::new().trim(::csv::Trim::All).flexible(true).from_reader(data);
    let mut lines = Vec::new();
    for result in reader.records() {
        match result {
            Ok(r) => lines.push(CsvLine { line: r.position().map(|p| p.line()), fields: r.iter().map(String::from).collect() }),
            Err(e) => return (lines, Some(CsvFailure { line: e.position().map(|p| p.line()), error: e })),
        }
    }
    (lines, None)
}

/// The texts of strings.
pub open spec fn strings_view(v: Seq<String>) -> Seq<Seq<char>> {
    v.map_values(|s: String| s@)
}

/// The contents of records.
pub open spec fn lines_view(v: Seq<CsvLine>) -> Seq<(Option<u64>, Seq<Seq<char>>)> {
    v.map_values(|l: CsvLine| line_view(l))
}

/// The numbers of the fields of each record.
pub open spec fn cells_view(v: Seq<Vec<Option<u64>>>) -> Seq<Seq<Option<u64>>> {
    v.map_values(|f: Vec<Option<u64>>| f@)
}

/// The column of each header name: the names trimmed, the last of
/// equal names winning.
pub open spec fn header_columns(h: Seq<Seq<char>>) -> Map<Seq<char>, usize>
    decreases h.len(),
{
    if h.len() == 0 {
        Map::empty()
    } else {
        header_columns(h.drop_last()).insert(trimmed(h.last()), (h.len() - 1) as usize)
    }
}

/// The first header name, trimmed, that an earlier header name already
/// has, if any.
pub open spec fn duplicate_column(h: Seq<Seq<char>>) -> Option<Seq<char>>
    decreases h.len(),
{
    if h.len() == 0 {
        None
    } else {
        match duplicate_column(h.drop_last()) {
            Some(n) => Some(n),
            None => if header_columns(h.drop_last()).contains_key(trimmed(h.last())) {
                Some(trimmed(h.last()))
            } else {
                None
            },
        }
    }
}

/// The error of a header that names column `name` twice.
pub open spec fn duplicate_error(file: Seq<char>, name: Seq<char>) -> ParseErrorView {
    ParseErrorView { file, line: 1, field: Some(name), kind: KindView::DuplicateColumn }
}

/// The row that record `l` of `file` is handed over as.
pub open spec fn record_row(file: Seq<char>, columns: Map<Seq<char>, usize>, l: (Option<u64>, Seq<Seq<char>>), floats: Seq<Option<u64>>) -> RowView {
    RowView {
        file,
        line: match l.0 {
            Some(n) => n,
            None => 0,
        },
        columns,
        fields: l.1,
        floats,
    }
}

/// The error of a malformed CSV text at `line`.
pub open spec fn csv_error(file: Seq<char>, line: u64) -> ParseErrorView {
    ParseErrorView { file, line, field: None, kind: KindView::Csv }
}

/// Whether a record reads as some record of `T`.
pub open spec fn row_reads<T: CsvRecord>(row: RowView) -> bool {
    exists|x: T| #[trigger] T::parsed(row, Ok::<T, ParseError>(x))
}

/// Whether records `0..k` of a table read as records.
pub open spec fn rows_ok<T: CsvRecord>(
    file: Seq<char>,
    columns: Map<Seq<char>, usize>,
    rows: Seq<(Option<u64>, Seq<Seq<char>>)>,
    floats: Seq<Seq<Option<u64>>>,
    k: int,
) -> bool {
    forall|i: int| 0 <= i < k ==> #[trigger] row_reads::<T>(record_row(file, columns, rows[i], floats[i]))
}

/// Whether `out` is what the records of a table read as: every record
/// in order, or the error of the first record that fails, or - when
/// all records read - the failure that stopped the CSV reader.
pub open spec fn table_read<T: CsvRecord>(
    file: Seq<char>,
    columns: Map<Seq<char>, usize>,
    rows: Seq<(Option<u64>, Seq<Seq<char>>)>,
    floats: Seq<Seq<Option<u64>>>,
    failure: Option<Option<u64>>,
    out: Result<Vec<T>, ParseError>,
) -> bool {
    match out {
        Ok(v) => {
            &&& failure is None
            &&& v@.len() == rows.len()
            &&& forall|i: int|
                0 <= i < rows.len() ==> #[trigger] T::parsed(record_row(file, columns, rows[i], floats[i]), Ok::<T, ParseError>(v@[i]))
        },
        Err(e) => {
            ||| exists|k: int|
                0 <= k < rows.len() && rows_ok::<T>(file, columns, rows, floats, k) && #[trigger] T::parsed(
                    record_row(file, columns, rows[k], floats[k]),
                    Err::<T, ParseError>(e),
                )
            ||| rows_ok::<T>(file, columns, rows, floats, rows.len() as int) && (failure matches Some(
                line,
            ) && e@ == csv_error(
                file,
                match line {
                    Some(n) => n,
                    None => 0,
                },
            ))
        },
    }
}

/// Whether `out` is what reading the CSV text `data` gives: the error
/// of an unreadable header at line 1, the error of a repeated column,
/// or else what the records read as, each field's number being a
/// reading of its trimmed text that `reads` admits.
pub open spec fn text_read<T: CsvRecord>(file: Seq<char>, data: Seq<u8>, reads: spec_fn(Seq<char>, Option<u64>) -> bool, out: Result<Vec<T>, ParseError>) -> bool {
    match csv_header_of(data) {
        None => out matches Err(e) && e@ == csv_error(file, 1),
        Some(h) => match duplicate_column(h) {
            Some(name) => out matches Err(e) && e@ == duplicate_error(file, name),
            None => records_read::<T>(file, h, csv_records_of(data), reads, out),
        },
    }
}

/// Whether `fl` holds, for every field of every record, a reading of
/// the field's trimmed text that `reads` admits.
pub open spec fn cells_read(rows: Seq<(Option<u64>, Seq<Seq<char>>)>, fl: Seq<Seq<Option<u64>>>, reads: spec_fn(Seq<char>, Option<u64>) -> bool) -> bool {
    &&& fl.len() == rows.len()
    &&& forall|i: int| 0 <= i < rows.len() ==> (#[trigger] fl[i]).len() == rows[i].1.len()
    &&& forall|i: int, j: int|
        0 <= i < rows.len() && 0 <= j < rows[i].1.len() ==> reads(trimmed(rows[i].1[j]), #[trigger] fl[i][j])
}

/// Whether `out` is what the records after header `h` read as, the
/// numbers of their fields being readings that `reads` admits.
pub open spec fn records_read<T: CsvRecord>(
    file: Seq<char>,
    h: Seq<Seq<char>>,
    records: (Seq<(Option<u64>, Seq<Seq<char>>)>, Option<Option<u64>>),
    reads: spec_fn(Seq<char>, Option<u64>) -> bool,
    out: Result<Vec<T>, ParseError>,
) -> bool {
    exists|fl: Seq<Seq<Option<u64>>>|
        cells_read(records.0, fl, reads) && #[trigger] table_read::<T>(file, header_columns(h), records.0, fl, records.1, out)
}

proof fn lemma_text_read<T: CsvRecord>(
    file: Seq<char>,
    data: Seq<u8>,
    out: Result<Vec<T>, ParseError>,
    h: Seq<Seq<char>>,
    fl: Seq<Seq<Option<u64>>>,
    reads: spec_fn(Seq<char>, Option<u64>) -> bool,
)
    requires
        csv_header_of(data) == Some(h),
        duplicate_column(h) is None,
        cells_read(csv_records_of(data).0, fl, reads),
        table_read::<T>(file, header_columns(h), csv_records_of(data).0, fl, csv_records_of(data).1, out),
    ensures
        text_read::<T>(file, data, reads, out),
{
    assert(records_read::<T>(file, h, csv_records_of(data), reads, out));
}

/// The first header name, trimmed, that an earlier header name already
/// has.
fn duplicate_of(header: &Vec<String>) -> (r: Option<String>)
    ensures
        match r {
            Some(n) => duplicate_column(strings_view(header@)) == Some(n@),
            None => duplicate_column(strings_view(header@)) is None,
        },
{
    let ghost h = strings_view(header@);
    let mut columns: StringHashMap<usize> = StringHashMap::new();
    let mut i: usize = 0;
    while i < header.len()
        invariant
            h == strings_view(header@),
            i <= header.len(),
            columns@ == header_columns(h.take(i as int)),
            duplicate_column(h.take(i as int)) is None,
        decreases header.len() - i,
    {
        proof {
            assert(h.take(i + 1).drop_last() =~= h.take(i as int));
            assert(h.take(i + 1).last() == h[i as int]);
        }
        let name = trim(header[i].as_str());
        if columns.contains_key(name) {
            let out = owned(name);
            proof {
                lemma_duplicate_prefix(h, i + 1);
            }
            return Some(out);
        }
        columns.insert(owned(name), i);
        i = i + 1;
    }
    proof {
        assert(h.take(header.len() as int) =~= h);
    }
    None
}

/// A duplicate in a prefix of a header is the header's first one.
proof fn lemma_duplicate_prefix(h: Seq<Seq<char>>, k: int)
    requires
        0 <= k <= h.len(),
        duplicate_column(h.take(k)) is Some,
    ensures
        duplicate_column(h) == duplicate_column(h.take(k)),
    decreases h.len() - k,
{
    if k < h.len() {
        assert(h.take(k + 1).drop_last() =~= h.take(k));
        lemma_duplicate_prefix(h, k + 1);
    } else {
        assert(h.take(k) =~= h);
    }
}

/// Builds the column of each header name.
fn columns_of(header: &Vec<String>) -> (r: StringHashMap<usize>)
    ensures
        r@ == header_columns(strings_view(header@)),
{
    let ghost h = strings_view(header@);
    let mut columns = StringHashMap::new();
    let mut i: usize = 0;
    while i < header.len()
        invariant
            h == strings_view(header@),
            i <= header.len(),
            columns@ == header_columns(h.take(i as int)),
        decreases header.len() - i,
    {
        proof {
            assert(h.take(i + 1).drop_last() =~= h.take(i as int));
        }
        columns.insert(owned(trim(header[i].as_str())), i);
        i = i + 1;
    }
    proof {
        assert(h.take(header.len() as int) =~= h);
    }
    columns
}

/// Hands every record to `T::from_row`, with the number each field
/// reads as given by `floats`.
pub fn read_records<T: CsvRecord>(
    file_label: &str,
    header: &Vec<String>,
    records: &Vec<CsvLine>,
    floats: &Vec<Vec<Option<u64>>>,
) -> (r: Result<Vec<T>, ParseError>)
    requires
        floats@.len() == records@.len(),
    ensures
        match r {
            Ok(v) => {
                &&& v@.len() == records@.len()
                &&& forall|i: int|
                    0 <= i < records@.len() ==> #[trigger] T::parsed(
                        record_row(
                            file_label@,
                            header_columns(strings_view(header@)),
                            line_view(records@[i]),
                            floats@[i]@,
                        ),
                        Ok::<T, ParseError>(v@[i]),
                    )
            },
            Err(e) => exists|k: int|
                0 <= k < records@.len() && rows_ok::<T>(
                    file_label@,
                    header_columns(strings_view(header@)),
                    lines_view(records@),
                    cells_view(floats@),
                    k,
                ) && #[trigger] T::parsed(
                    record_row(
                        file_label@,
                        header_columns(strings_view(header@)),
                        line_view(records@[k]),
                        floats@[k]@,
                    ),
                    Err::<T, ParseError>(e),
                ),
        },
{
    let ghost columns_v = header_columns(strings_view(header@));
    let ghost rows = lines_view(records@);
    let ghost fl = cells_view(floats@);
    let columns = columns_of(header);
    let mut out: Vec<T> = Vec::new();
    let mut i: usize = 0;
    while i < records.len()
        invariant
            i <= records@.len(),
            floats@.len() == records@.len(),
            columns@ == columns_v,
            columns_v == header_columns(strings_view(header@)),
            rows == lines_view(records@),
            fl == cells_view(floats@),
            out@.len() == i,
            forall|j: int|
                0 <= j < i ==> #[trigger] T::parsed(
                    record_row(file_label@, columns_v, line_view(records@[j]), floats@[j]@),
                    Ok::<T, ParseError>(out@[j]),
                ),
        decreases records@.len() - i,
    {
        let record = &records[i];
        let line: u64 = match record.line {
            Some(n) => n,
            None => 0,
        };
        let row = Row::new(file_label, line, &columns, &record.fields, &floats[i]);
        assert(row@ == record_row(file_label@, columns_v, line_view(records@[i as int]), floats@[i as int]@));
        match T::from_row(&row) {
            Ok(x) => {
                out.push(x);
            },
            Err(e) => {
                proof {
                    assert forall|j: int| 0 <= j < i implies #[trigger] row_reads::<T>(
                        record_row(file_label@, columns_v, rows[j], fl[j]),
                    ) by {
                        assert(rows[j] == line_view(records@[j]));
                        assert(fl[j] == floats@[j]@);
                        assert(T::parsed(
                            record_row(file_label@, columns_v, line_view(records@[j]), floats@[j]@),
                            Ok::<T, ParseError>(out@[j]),
                        ));
                    }
                    assert(rows_ok::<T>(file_label@, columns_v, rows, fl, i as int));
                }
                return Err(e);
            },
        }
        i = i + 1;
    }
    Ok(out)
}

/// Reads all records of one GTFS table from the bytes of a CSV text.
///
/// Which table is being read is decided by the entity type `T` alone;
/// `file_label` only labels error messages. `floats` reads the fields
/// that hold floating-point numbers.
///
/// # Errors
///
/// Returns a [`ParseError`] on malformed CSV or on the first row
/// rejected by [`CsvRecord::from_row`].
pub fn read<T: CsvRecord, F: FloatParser>(file_label: &str, data: &[u8], floats: &F) -> (r: Result<Vec<T>, ParseError>)
    ensures
        text_read::<T>(file_label@, data@, float_readings(*floats), r),
{
    let header = match csv_header(data) {
        Ok(h) => h,
        Err(e) => {
            let err = ParseError { file: owned(file_label), line: 1, field: None, kind: ParseErrorKind::Csv(e) };
            assert(text_read::<T>(file_label@, data@, float_readings(*floats), Err::<Vec<T>, ParseError>(err)));
            return Err(err);
        },
    };
    match duplicate_of(&header) {
        Some(name) => {
            return Err(ParseError { file: owned(file_label), line: 1, field: Some(name), kind: ParseErrorKind::DuplicateColumn });
        },
        None => {},
    }
    let (records, failure) = csv_records(data);
    let ghost reads = float_readings(*floats);
    let mut cells: Vec<Vec<Option<u64>>> = Vec::new();
    let mut i: usize = 0;
    while i < records.len()
        invariant
            i <= records@.len(),
            cells@.len() == i,
            reads == float_readings(*floats),
            forall|k: int| 0 <= k < i ==> (#[trigger] cells@[k])@.len() == records@[k].fields@.len(),
            forall|k: int, j: int|
                0 <= k < i && 0 <= j < records@[k].fields@.len() ==> reads(
                    trimmed(records@[k].fields@[j]@),
                    #[trigger] cells@[k]@[j],
                ),
        decreases records@.len() - i,
    {
        let fields = &records[i].fields;
        let mut row_cells: Vec<Option<u64>> = Vec::new();
        let mut j: usize = 0;
        while j < fields.len()
            invariant
                j <= fields@.len(),
                row_cells@.len() == j,
                reads == float_readings(*floats),
                forall|m: int| 0 <= m < j ==> reads(trimmed(fields@[m]@), #[trigger] row_cells@[m]),
            decreases fields@.len() - j,
        {
            row_cells.push(floats.float_bits(trim(fields[j].as_str())));
            j = j + 1;
        }
        cells.push(row_cells);
        i = i + 1;
    }
    let ghost fl = cells_view(cells@);
    let ghost rows = lines_view(records@);
    proof {
        assert forall|k: int| 0 <= k < rows.len() implies (#[trigger] fl[k]).len() == rows[k].1.len() by {
            assert(fl[k] == cells@[k]@);
            assert(rows[k] == line_view(records@[k]));
        }
        assert forall|k: int, j: int| 0 <= k < rows.len() && 0 <= j < rows[k].1.len() implies reads(
            trimmed(rows[k].1[j]),
            #[trigger] fl[k][j],
        ) by {
            assert(fl[k] == cells@[k]@);
            assert(rows[k] == line_view(records@[k]));
            assert(rows[k].1[j] == records@[k].fields@[j]@);
        }
        assert(cells_read(rows, fl, reads));
    }
    let ghost columns_v = header_columns(strings_view(header@));
    let ghost failure_v = failure_line(failure);
    assert(csv_records_of(data@) == (rows, failure_v));
    assert(csv_header_of(data@) == Some(strings_view(header@)));
    let result = read_records::<T>(file_label, &header, &records, &cells);
    match result {
        Ok(v) => match failure {
            None => {
                proof {
                    assert forall|i: int| 0 <= i < rows.len() implies #[trigger] T::parsed(
                        record_row(file_label@, columns_v, rows[i], fl[i]),
                        Ok::<T, ParseError>(v@[i]),
                    ) by {
                        assert(rows[i] == line_view(records@[i]));
                        assert(fl[i] == cells@[i]@);
                    }
                    assert(table_read::<T>(file_label@, columns_v, rows, fl, failure_v, Ok::<Vec<T>, ParseError>(v)));
                    assert(fl.len() == rows.len());
                    assert(fl.len() == csv_records_of(data@).0.len() && table_read::<T>(
                        file_label@,
                        header_columns(strings_view(header@)),
                        csv_records_of(data@).0,
                        fl,
                        csv_records_of(data@).1,
                        Ok::<Vec<T>, ParseError>(v),
                    ));
                    lemma_text_read::<T>(file_label@, data@, Ok::<Vec<T>, ParseError>(v), strings_view(header@), fl, float_readings(*floats));
                }
                Ok(v)
            },
            Some(f) => {
                let line: u64 = match f.line {
                    Some(n) => n,
                    None => 0,
                };
                let e = ParseError { file: owned(file_label), line, field: None, kind: ParseErrorKind::Csv(f.error) };
                proof {
                    assert forall|i: int| 0 <= i < rows.len() implies #[trigger] row_reads::<T>(
                        record_row(file_label@, columns_v, rows[i], fl[i]),
                    ) by {
                        assert(rows[i] == line_view(records@[i]));
                        assert(fl[i] == cells@[i]@);
                        assert(T::parsed(
                            record_row(file_label@, columns_v, rows[i], fl[i]),
                            Ok::<T, ParseError>(v@[i]),
                        ));
                    }
                    assert(table_read::<T>(file_label@, columns_v, rows, fl, failure_v, Err::<Vec<T>, ParseError>(e)));
                    assert(fl.len() == rows.len());
                    assert(fl.len() == csv_records_of(data@).0.len() && table_read::<T>(
                        file_label@,
                        header_columns(strings_view(header@)),
                        csv_records_of(data@).0,
                        fl,
                        csv_records_of(data@).1,
                        Err::<Vec<T>, ParseError>(e),
                    ));
                    lemma_text_read::<T>(file_label@, data@, Err::<Vec<T>, ParseError>(e), strings_view(header@), fl, float_readings(*floats));
                }
                Err(e)
            },
        },
        Err(e) => {
            proof {
                let k = choose|k: int|
                    0 <= k < records@.len() && rows_ok::<T>(file_label@, columns_v, rows, fl, k) && #[trigger] T::parsed(
                        record_row(file_label@, columns_v, line_view(records@[k]), cells@[k]@),
                        Err::<T, ParseError>(e),
                    );
                assert(rows[k] == line_view(records@[k]));
                assert(fl[k] == cells@[k]@);
                assert(table_read::<T>(file_label@, columns_v, rows, fl, failure_v, Err::<Vec<T>, ParseError>(e)));
                assert(fl.len() == rows.len());
                assert(fl.len() == csv_records_of(data@).0.len() && table_read::<T>(
                    file_label@,
                    header_columns(strings_view(header@)),
                    csv_records_of(data@).0,
                    fl,
                    csv_records_of(data@).1,
                    Err::<Vec<T>, ParseError>(e),
                ));
                lemma_text_read::<T>(file_label@, data@, Err::<Vec<T>, ParseError>(e), strings_view(header@), fl, float_readings(*floats));
            }
            Err(e)
        },
    }
}

} // verus!
