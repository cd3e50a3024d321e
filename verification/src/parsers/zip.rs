//! Zipped GTFS feeds - the form feeds are actually distributed in most
//! of the time. The tables must sit at the archive root, as the
//! specification requires; an archive that keeps every entry inside one
//! shared top-level folder is accepted as well, and entry names are
//! matched ASCII-case-insensitively. Each entry is decompressed up to a
//! 4 GiB cap to guard against zip bombs.

use std::io::Read;

use vstd::prelude::*;

use crate::model::Location;
use crate::parsers::geojson::{json_readings, read_locations_str, text_zones, Json, JsonReader};
use crate::parsers::csv::row::{float_readings, FloatParser};
use crate::parsers::error::{KindView, ParseError, ParseErrorKind, ParseErrorView};
use crate::parsers::feed::{feed_read, feed_steps, read_tables, step_fails, source_opens, source_zones, TableSource};
use crate::reference::GtfsReference;
use crate::seqs::{first_index, lemma_first_index};
use crate::text::{append, chars_of, decimal, owned, str_eq, u64_to_decimal};

verus! {

/// Upper bound on the decompressed size of a single archive entry,
/// guarding against zip bombs. Generous because large real-world
/// `stop_times.txt` files exist.
pub const MAX_DECOMPRESSED_BYTES: u64 = 4294967296;

/// The entry names of a zip archive in index order, `None` when the
/// bytes are not an archive.
pub uninterp spec fn zip_names_of(archive: Seq<u8>) -> Option<Seq<Seq<char>>>;

/// The first `cap` decompressed bytes of entry `index` of an
/// archive, `None` when the entry cannot be read.
pub uninterp spec fn zip_entry_of(archive: Seq<u8>, index: usize, cap: u64) -> Option<Seq<u8>>;

/// The text that UTF-8 bytes encode, `None` when they are not UTF-8.
pub uninterp spec fn utf8_text_of(bytes: Seq<u8>) -> Option<Seq<char>>;

/// Opens an archive with `zip::ZipArchive::new` and lists its entry
/// names with `ZipArchive::file_names`, which walks the entries in
/// index order. Claimed: the list is `zip_names_of(archive)`, and an
/// error comes exactly when that name is `None`; how the crate reads
/// the central directory is left to it.
#[verifier::external_body]
fn zip_names(archive: &[u8]) -> (r: Result<Vec<String>, zip::result::ZipError>)
    ensures
        match r {
            Ok(names) => zip_names_of(archive@) == Some(names@.map_values(|s: String| s@)),
            Err(_) => zip_names_of(archive@) is None,
        },
{
    let archive = zip::ZipArchive::new(std::io::Cursor::new(archive))?;
    Ok(archive.file_names().map(String::from).collect())
}

/// Why an entry could not be read.
enum EntryError {
    Zip(zip::result::ZipError),
    Io(std::io::Error),
}

/// Opens an archive with `zip::ZipArchive::new`, takes entry `index`
/// with `ZipArchive::by_index` and reads at most `cap` decompressed
/// bytes of it (`Read::take`, `Read::read_to_end`). Claimed: the bytes
/// are `zip_entry_of(archive, index, cap)` and at most `cap` long, and
/// an error comes exactly when that name is `None`; decompression is
/// left to the crate.
#[verifier::external_body]
fn zip_entry(archive: &[u8], index: usize, cap: u64) -> (r: Result<Vec<u8>, EntryError>)
    ensures
        match r {
            Ok(b) => zip_entry_of(archive@, index, cap) == Some(b@) && b@.len() <= cap,
            Err(_) => zip_entry_of(archive@, index, cap) is None,
        },
{
    let mut archive = zip::ZipArchive::new(std::io::Cursor::new(archive)).map_err(EntryError::Zip)?;
    let entry = archive.by_index(index).map_err(EntryError::Zip)?;
    let mut bytes = Vec::new();
    entry.take(cap).read_to_end(&mut bytes).map_err(EntryError::Io)?;
    Ok(bytes)
}

/// Decodes UTF-8 bytes with `String::from_utf8`. Claimed: the text is
/// `utf8_text_of(bytes)`, and `None` comes exactly when that name is
/// `None`.
#[verifier::external_body]
fn utf8_text(bytes: Vec<u8>) -> (r: Option<String>)
    ensures
        match r {
            Some(s) => utf8_text_of(bytes@) == Some(s@),
            None => utf8_text_of(bytes@) is None,
        },
{
    String::from_utf8(bytes).ok()
}

/// An I/O error of kind `InvalidData` with `message`
/// (`std::io::Error::new`); nothing is claimed of it.
#[verifier::external_body]
fn invalid_data_error(message: String) -> std::io::Error {
    std::io::Error::new(std::io::ErrorKind::InvalidData, message)
}

/// Whether `name` is a data entry: neither a directory nor macOS
/// Finder metadata.
pub open spec fn is_data_entry(name: Seq<char>) -> bool {
    !(name.len() > 0 && name.last() == '/') && !(name.len() >= 9 && name.take(9) == "__MACOSX/"@)
}

/// Whether `i` is the position of the first `/` of `name`.
pub open spec fn slash_at(name: Seq<char>, i: int) -> bool {
    0 <= i < name.len() && name[i] == '/' && forall|j: int| 0 <= j < i ==> name[j] != '/'
}

/// The folder that an entry sits in: the text before its first `/`,
/// `None` for an entry at the root.
pub open spec fn top_folder(name: Seq<char>) -> Option<Seq<char>> {
    if exists|i: int| slash_at(name, i) {
        Some(name.take(choose|i: int| slash_at(name, i)))
    } else {
        None
    }
}

/// Whether every data entry sits in the folder of entry `i`.
pub open spec fn all_in_folder_of(names: Seq<Seq<char>>, i: int) -> bool {
    forall|j: int|
        0 <= j < names.len() && is_data_entry(#[trigger] names[j]) ==> top_folder(names[j]) is Some
            && top_folder(names[j]) == top_folder(names[i])
}

/// The one top-level folder shared by every data entry, with a
/// trailing `/`: `None` when there are no data entries, when one sits
/// at the root or when they disagree on their folder.
pub open spec fn shared_prefix(names: Seq<Seq<char>>) -> Option<Seq<char>> {
    if exists|i: int| 0 <= i < names.len() && is_data_entry(names[i]) && #[trigger] all_in_folder_of(names, i) {
        let i = choose|i: int| 0 <= i < names.len() && is_data_entry(names[i]) && #[trigger] all_in_folder_of(names, i);
        Some(top_folder(names[i])->Some_0 + "/"@)
    } else {
        None
    }
}

proof fn lemma_slash_unique(name: Seq<char>, i: int, j: int)
    requires
        slash_at(name, i),
        slash_at(name, j),
    ensures
        i == j,
{
    if i < j {
        assert(name[i] != '/');
    } else if j < i {
        assert(name[j] != '/');
    }
}

/// The folder of an entry: the text before its first `/`.
fn folder_of(name: &str) -> (r: Option<String>)
    ensures
        match top_folder(name@) {
            Some(f) => r matches Some(s) && s@ == f,
            None => r is None,
        },
{
    let chars = chars_of(name);
    let mut i: usize = 0;
    while i < chars.len()
        invariant
            i <= chars.len(),
            chars@ == name@,
            forall|j: int| 0 <= j < i ==> chars@[j] != '/',
        decreases chars.len() - i,
    {
        if chars[i] == '/' {
            proof {
                assert(slash_at(name@, i as int));
                let k = choose|k: int| slash_at(name@, k);
                lemma_slash_unique(name@, i as int, k);
            }
            let mut folder: Vec<char> = Vec::new();
            let mut j: usize = 0;
            while j < i
                invariant
                    j <= i < chars.len(),
                    folder@ == chars@.take(j as int),
                decreases i - j,
            {
                folder.push(chars[j]);
                proof {
                    assert(chars@.take(j + 1) =~= chars@.take(j as int).push(chars@[j as int]));
                }
                j = j + 1;
            }
            return Some(crate::text::string_from_chars(folder.as_slice()));
        }
        i = i + 1;
    }
    proof {
        assert(!exists|k: int| slash_at(name@, k));
    }
    None
}

/// Whether `name` is a data entry.
fn data_entry(name: &str) -> (r: bool)
    ensures
        r == is_data_entry(name@),
{
    let chars = chars_of(name);
    let n = chars.len();
    let directory = n > 0 && chars[n - 1] == '/';
    let junk_prefix = "__MACOSX/";
    proof {
        reveal_strlit("__MACOSX/");
    }
    let junk_chars = chars_of(junk_prefix);
    let mut junk = n >= 9;
    let mut k: usize = 0;
    while k < 9 && junk
        invariant
            k <= 9,
            junk_chars@ == "__MACOSX/"@,
            junk_chars@.len() == 9,
            chars@ == name@,
            n == chars@.len(),
            junk ==> n >= 9 && forall|m: int| 0 <= m < k ==> chars@[m] == junk_chars@[m],
            !junk ==> !(n >= 9 && chars@.take(9) == "__MACOSX/"@),
        decreases 9 - k,
    {
        if chars[k] != junk_chars[k] {
            proof {
                if n >= 9 && chars@.take(9) == "__MACOSX/"@ {
                    assert(chars@.take(9)[k as int] == chars@[k as int]);
                }
            }
            junk = false;
        }
        k = k + 1;
    }
    proof {
        if junk {
            assert(chars@.take(9) =~= "__MACOSX/"@);
        }
    }
    !directory && !junk
}

/// Detects one top-level folder shared by every data entry of the
/// archive, as produced by e.g. the macOS Finder "Compress" command.
/// Directory entries and `__MACOSX/` metadata are ignored; the result
/// keeps the trailing `/`.
pub fn detect_prefix(names: &Vec<String>) -> (r: Option<String>)
    ensures
        opt_text(r) == shared_prefix(names@.map_values(|s: String| s@)),
{
    let ghost ns = names@.map_values(|s: String| s@);
    let mut seen: Option<String> = None;
    let ghost mut first: int = 0;
    let mut i: usize = 0;
    while i < names.len()
        invariant
            ns == names@.map_values(|s: String| s@),
            i <= names.len(),
            seen is None ==> forall|j: int| 0 <= j < i ==> !is_data_entry(#[trigger] ns[j]),
            seen matches Some(f) ==> {
                &&& 0 <= first < i
                &&& is_data_entry(ns[first])
                &&& top_folder(ns[first]) == Some(f@)
                &&& forall|j: int|
                    0 <= j < i && is_data_entry(#[trigger] ns[j]) ==> top_folder(ns[j]) == Some(f@)
            },
        decreases names.len() - i,
    {
        let name = names[i].as_str();
        assert(ns[i as int] == name@);
        if data_entry(name) {
            match folder_of(name) {
                None => {
                    proof {
                        assert forall|k: int|
                            0 <= k < ns.len() && is_data_entry(ns[k]) implies !#[trigger] all_in_folder_of(ns, k) by {
                            assert(is_data_entry(ns[i as int]));
                        }
                    }
                    return None;
                },
                Some(folder) => {
                    match &seen {
                        Some(f) => {
                            if !str_eq(f.as_str(), folder.as_str()) {
                                proof {
                                    assert forall|k: int|
                                        0 <= k < ns.len() && is_data_entry(ns[k]) implies !#[trigger] all_in_folder_of(ns, k) by {
                                        if all_in_folder_of(ns, k) {
                                            assert(is_data_entry(ns[first]));
                                            assert(is_data_entry(ns[i as int]));
                                        }
                                    }
                                }
                                return None;
                            }
                        },
                        None => {
                            proof {
                                first = i as int;
                            }
                            seen = Some(folder);
                        },
                    }
                },
            }
        }
        i = i + 1;
    }
    match seen {
        None => {
            proof {
                assert(!exists|k: int| 0 <= k < ns.len() && is_data_entry(ns[k]) && #[trigger] all_in_folder_of(ns, k));
            }
            None
        },
        Some(f) => {
            proof {
                assert(all_in_folder_of(ns, first));
                let k = choose|k: int| 0 <= k < ns.len() && is_data_entry(ns[k]) && #[trigger] all_in_folder_of(ns, k);
                assert(is_data_entry(ns[first]));
            }
            let mut out = f;
            append(&mut out, "/");
            Some(out)
        },
    }
}

/// The text of an optional string.
pub open spec fn opt_text(s: Option<String>) -> Option<Seq<char>> {
    match s {
        Some(v) => Some(v@),
        None => None,
    }
}

/// The code of a character with ASCII capitals lowered.
pub open spec fn lowered(c: char) -> u32 {
    if 'A' <= c <= 'Z' {
        (c as u32 + 32) as u32
    } else {
        c as u32
    }
}

/// Whether two texts are equal up to ASCII case.
pub open spec fn same_ignoring_case(a: Seq<char>, b: Seq<char>) -> bool {
    a.len() == b.len() && forall|k: int| 0 <= k < a.len() ==> lowered(#[trigger] a[k]) == lowered(b[k])
}

/// The name `n` exactly.
pub open spec fn named(n: Seq<char>) -> spec_fn(Seq<char>) -> bool {
    |x: Seq<char>| x == n
}

/// The name `n`, or `prefixed` where there is a folder, up to ASCII
/// case.
pub open spec fn named_ignoring_case(n: Seq<char>, prefixed: Option<Seq<char>>) -> spec_fn(Seq<char>) -> bool {
    |x: Seq<char>| same_ignoring_case(x, n) || (prefixed matches Some(p) && same_ignoring_case(x, p))
}

/// The archive index of table `name`: the plain name first, then behind
/// the shared folder, then - tolerating spec-violating but unambiguous
/// archives - the first entry equal to either up to ASCII case.
pub open spec fn entry_for(names: Seq<Seq<char>>, prefix: Option<Seq<char>>, name: Seq<char>) -> Option<int> {
    let prefixed = match prefix {
        Some(p) => Some(p + name),
        None => None,
    };
    match first_index(names, named(name)) {
        Some(i) => Some(i),
        None => match prefixed {
            Some(pn) if first_index(names, named(pn)) is Some => first_index(names, named(pn)),
            _ => match first_index(names, named_ignoring_case(name, prefixed)) {
                Some(i) => first_index(names, named(names[i])),
                None => None,
            },
        },
    }
}

/// Whether two texts are equal up to ASCII case.
fn eq_ignoring_case(a: &str, b: &str) -> (r: bool)
    ensures
        r == same_ignoring_case(a@, b@),
{
    let x = chars_of(a);
    let y = chars_of(b);
    if x.len() != y.len() {
        return false;
    }
    let mut k: usize = 0;
    while k < x.len()
        invariant
            x@ == a@,
            y@ == b@,
            x.len() == y.len(),
            k <= x.len(),
            forall|m: int| 0 <= m < k ==> lowered(#[trigger] x@[m]) == lowered(y@[m]),
        decreases x.len() - k,
    {
        let c = x[k];
        let d = y[k];
        let lc: u32 = if 'A' <= c && c <= 'Z' { c as u32 + 32 } else { c as u32 };
        let ld: u32 = if 'A' <= d && d <= 'Z' { d as u32 + 32 } else { d as u32 };
        if lc != ld {
            return false;
        }
        k = k + 1;
    }
    true
}

/// The index of the first entry named exactly `n`.
fn index_of(names: &Vec<String>, n: &str) -> (r: Option<usize>)
    ensures
        match first_index(names@.map_values(|s: String| s@), named(n@)) {
            Some(i) => r == Some(i as usize),
            None => r is None,
        },
{
    let ghost ns = names@.map_values(|s: String| s@);
    let mut i: usize = 0;
    while i < names.len()
        invariant
            ns == names@.map_values(|s: String| s@),
            i <= names.len(),
            forall|j: int| 0 <= j < i ==> !named(n@)(#[trigger] ns[j]),
        decreases names.len() - i,
    {
        if str_eq(names[i].as_str(), n) {
            proof {
                lemma_first_index(ns, named(n@), i as int);
            }
            return Some(i);
        }
        i = i + 1;
    }
    proof {
        lemma_first_index(ns, named(n@), ns.len() as int);
    }
    None
}

/// Resolves a table name to its archive index.
pub fn entry_index(names: &Vec<String>, prefix: &Option<String>, name: &str) -> (r: Option<usize>)
    ensures
        match entry_for(names@.map_values(|s: String| s@), opt_text(*prefix), name@) {
            Some(i) => r == Some(i as usize),
            None => r is None,
        },
{
    let ghost ns = names@.map_values(|s: String| s@);
    match index_of(names, name) {
        Some(i) => return Some(i),
        None => {},
    }
    let prefixed: Option<String> = match prefix {
        Some(p) => {
            let mut pn = owned(p.as_str());
            append(&mut pn, name);
            Some(pn)
        },
        None => None,
    };
    match &prefixed {
        Some(pn) => match index_of(names, pn.as_str()) {
            Some(i) => return Some(i),
            None => {},
        },
        None => {},
    }
    let ghost pred = named_ignoring_case(name@, opt_text(prefixed));
    let mut i: usize = 0;
    while i < names.len()
        invariant
            ns == names@.map_values(|s: String| s@),
            pred == named_ignoring_case(name@, opt_text(prefixed)),
            first_index(ns, named(name@)) is None,
            opt_text(prefixed) == match opt_text(*prefix) {
                Some(p) => Some(p + name@),
                None => None::<Seq<char>>,
            },
            match opt_text(prefixed) {
                Some(pn) => first_index(ns, named(pn)) is None,
                None => true,
            },
            i <= names.len(),
            forall|j: int| 0 <= j < i ==> !pred(#[trigger] ns[j]),
        decreases names.len() - i,
    {
        let candidate = names[i].as_str();
        let hit = eq_ignoring_case(candidate, name) || match &prefixed {
            Some(pn) => eq_ignoring_case(candidate, pn.as_str()),
            None => false,
        };
        if hit {
            proof {
                lemma_first_index(ns, pred, i as int);
                assert(ns[i as int] == candidate@);
                assert(first_index(ns, pred) == Some(i as int));
                assert(first_index(ns, named(name@)) is None);
                assert(opt_text(prefixed) == match opt_text(*prefix) {
                    Some(p) => Some(p + name@),
                    None => None::<Seq<char>>,
                });
                assert(entry_for(ns, opt_text(*prefix), name@) == first_index(ns, named(ns[i as int])));
            }
            return index_of(names, candidate);
        }
        i = i + 1;
    }
    proof {
        lemma_first_index(ns, pred, ns.len() as int);
    }
    None
}

/// The error of an archive that cannot be read.
pub open spec fn archive_error(label: Seq<char>) -> ParseErrorView {
    ParseErrorView { file: label, line: 0, field: None, kind: KindView::Zip }
}

/// A zip archive in memory as a [`TableSource`].
struct ZipSource<'a, L: JsonReader> {
    label: String,
    archive: &'a [u8],
    names: Vec<String>,
    prefix: Option<String>,
    locations: &'a L,
}

/// Whether `out` is what reading entry `name` of `archive` gives: the
/// absent entry, the archive error, the over-size error or the bytes.
pub open spec fn entry_read(
    label: Seq<char>,
    archive: Seq<u8>,
    names: Seq<Seq<char>>,
    prefix: Option<Seq<char>>,
    name: Seq<char>,
    out: Result<Option<Vec<u8>>, ParseError>,
) -> bool {
    match entry_for(names, prefix, name) {
        None => out == Ok::<Option<Vec<u8>>, ParseError>(None),
        Some(i) => match zip_entry_of(archive, i as usize, (MAX_DECOMPRESSED_BYTES + 1) as u64) {
            None => out matches Err(e) && (e@ == archive_error(label) || e@ == ParseErrorView {
                file: name,
                line: 0,
                field: None,
                kind: KindView::Io,
            }),
            Some(bytes) => if bytes.len() > MAX_DECOMPRESSED_BYTES {
                out matches Err(e) && e@ == (ParseErrorView { file: name, line: 0, field: None, kind: KindView::Io })
            } else {
                out matches Ok(Some(b)) && b@ == bytes
            },
        },
    }
}

/// Whether `out` is what reading the zones of `locations.geojson` of
/// `archive` gives: nothing for an absent entry; the archive, over-size
/// or not-UTF-8 error of its entry; otherwise what its text reads as
/// ([`text_zones`]) for an outcome of reading its JSON that `parses`
/// admits.
pub open spec fn zones_read(
    label: Seq<char>,
    archive: Seq<u8>,
    names: Seq<Seq<char>>,
    prefix: Option<Seq<char>>,
    parses: spec_fn(Seq<char>, Result<Json, ParseError>) -> bool,
    out: Result<Option<Vec<Location>>, ParseError>,
) -> bool {
    let name = "locations.geojson"@;
    let io_error = ParseErrorView { file: name, line: 0, field: None, kind: KindView::Io };
    match entry_for(names, prefix, name) {
        None => out is Ok && out->Ok_0 is None,
        Some(i) => match zip_entry_of(archive, i as usize, (MAX_DECOMPRESSED_BYTES + 1) as u64) {
            None => out matches Err(e) && (e@ == archive_error(label) || e@ == io_error),
            Some(bytes) => if bytes.len() > MAX_DECOMPRESSED_BYTES {
                out matches Err(e) && e@ == io_error
            } else {
                match utf8_text_of(bytes) {
                    None => out matches Err(e) && e@ == io_error,
                    Some(text) => match out {
                        Ok(Some(zones)) => text_zones(name, text, parses, Ok::<Vec<Location>, ParseError>(zones)),
                        Ok(None) => false,
                        Err(e) => text_zones(name, text, parses, Err::<Vec<Location>, ParseError>(e)),
                    },
                }
            },
        },
    }
}

impl<'a, L: JsonReader> ZipSource<'a, L> {
    /// The entry of table `name`, decompressed up to the cap.
    fn entry(&self, name: &str) -> (r: Result<Option<Vec<u8>>, ParseError>)
        ensures
            entry_read(self.label@, self.archive@, self.names@.map_values(|s: String| s@), opt_text(self.prefix), name@, r),
    {
        let index = match entry_index(&self.names, &self.prefix, name) {
            Some(i) => i,
            None => return Ok(None),
        };
        match zip_entry(self.archive, index, MAX_DECOMPRESSED_BYTES + 1) {
            Ok(bytes) => {
                if bytes.len() as u64 > MAX_DECOMPRESSED_BYTES {
                    let mut message = owned("decompressed data exceeds ");
                    append(&mut message, u64_to_decimal(MAX_DECOMPRESSED_BYTES).as_str());
                    append(&mut message, " bytes limit (possible zip bomb)");
                    Err(ParseError {
                        file: owned(name),
                        line: 0,
                        field: None,
                        kind: ParseErrorKind::Io(invalid_data_error(message)),
                    })
                } else {
                    Ok(Some(bytes))
                }
            },
            Err(EntryError::Zip(e)) => Err(ParseError {
                file: owned(self.label.as_str()),
                line: 0,
                field: None,
                kind: ParseErrorKind::Zip(e),
            }),
            Err(EntryError::Io(e)) => Err(ParseError { file: owned(name), line: 0, field: None, kind: ParseErrorKind::Io(e) }),
        }
    }
}

impl<'a, L: JsonReader> TableSource for ZipSource<'a, L> {
    /// The entry of the table, as [`entry_read`] states it.
    closed spec fn opens_as(&self, name: Seq<char>, out: Result<Option<Vec<u8>>, ParseError>) -> bool {
        entry_read(self.label@, self.archive@, self.names@.map_values(|s: String| s@), opt_text(self.prefix), name, out)
    }

    /// The zones of the archive, as [`zones_read`] states them.
    closed spec fn zones_as(&self, out: Result<Option<Vec<Location>>, ParseError>) -> bool {
        zones_read(self.label@, self.archive@, self.names@.map_values(|s: String| s@), opt_text(self.prefix), json_readings(*self.locations), out)
    }

    fn table_bytes(&self, name: &str) -> (r: Result<Option<Vec<u8>>, ParseError>) {
        self.entry(name)
    }

    fn locations(&self) -> (r: Result<Option<Vec<Location>>, ParseError>) {
        let bytes = match self.entry("locations.geojson") {
            Ok(Some(b)) => b,
            Ok(None) => return Ok(None),
            Err(e) => return Err(e),
        };
        let text = match utf8_text(bytes) {
            Some(t) => t,
            None => {
                return Err(ParseError {
                    file: owned("locations.geojson"),
                    line: 0,
                    field: None,
                    kind: ParseErrorKind::Io(invalid_data_error(owned("stream did not contain valid UTF-8"))),
                });
            },
        };
        match read_locations_str("locations.geojson", text.as_str(), self.locations) {
            Ok(zones) => Ok(Some(zones)),
            Err(e) => Err(e),
        }
    }
}

/// The outcomes of opening the tables of an archive with entry names
/// `names`: each table's entry under the shared folder prefix, as
/// [`entry_read`] states it.
pub open spec fn zip_opens(label: Seq<char>, archive: Seq<u8>, names: Seq<Seq<char>>) -> spec_fn(Seq<char>, Result<Option<Vec<u8>>, ParseError>) -> bool {
    |n: Seq<char>, o: Result<Option<Vec<u8>>, ParseError>| entry_read(label, archive, names, shared_prefix(names), n, o)
}

/// The outcomes of reading the zones of an archive with entry names
/// `names`, as [`zones_read`] states them.
pub open spec fn zip_zones(label: Seq<char>, archive: Seq<u8>, names: Seq<Seq<char>>, parses: spec_fn(Seq<char>, Result<Json, ParseError>) -> bool) -> spec_fn(Result<Option<Vec<Location>>, ParseError>) -> bool {
    |z: Result<Option<Vec<Location>>, ParseError>| zones_read(label, archive, names, shared_prefix(names), parses, z)
}

/// Whether no step of reading an archive with entry names `names` can
/// fail: the required tables have entries, every present table entry
/// can be read, fits the cap and reads as records for every reading of
/// its numbers that `reads` admits, and the zones, where there is a zone
/// file, read for every outcome of its JSON that `parses` admits.
pub open spec fn zip_feed_clean(
    label: Seq<char>,
    archive: Seq<u8>,
    names: Seq<Seq<char>>,
    reads: spec_fn(Seq<char>, Option<u64>) -> bool,
    parses: spec_fn(Seq<char>, Result<Json, ParseError>) -> bool,
) -> bool {
    forall|k: int, e: ParseError|
        0 <= k < feed_steps() ==> !#[trigger] step_fails(zip_opens(label, archive, names), reads, zip_zones(label, archive, names, parses), k, e)
}

/// Reads a zipped GTFS feed from bytes already in memory - e.g. an
/// archive just downloaded over HTTP, without touching the disk.
///
/// # Errors
///
/// Returns a [`ParseError`] if the archive is malformed
/// ([`ParseErrorKind::Zip`]), a required table is missing, or any
/// present table is rejected.
pub fn read_zip_bytes<F: FloatParser, L: JsonReader>(
    archive_label: &str,
    bytes: &[u8],
    floats: &F,
    locations: &L,
) -> (r: Result<GtfsReference, ParseError>)
    ensures
        zip_names_of(bytes@) is None ==> (r matches Err(e) && e@ == archive_error(archive_label@)),
        zip_names_of(bytes@) matches Some(names) ==> feed_read(
            zip_opens(archive_label@, bytes@, names),
            float_readings(*floats),
            zip_zones(archive_label@, bytes@, names, json_readings(*locations)),
            r,
        ),
        zip_names_of(bytes@) matches Some(names) && zip_feed_clean(archive_label@, bytes@, names, float_readings(*floats), json_readings(*locations)) ==> r is Ok,
{
    let names = match zip_names(bytes) {
        Ok(names) => names,
        Err(e) => {
            return Err(ParseError { file: owned(archive_label), line: 0, field: None, kind: ParseErrorKind::Zip(e) });
        },
    };
    let prefix = detect_prefix(&names);
    let source = ZipSource { label: owned(archive_label), archive: bytes, names, prefix, locations };
    proof {
        let ns = source.names@.map_values(|s: String| s@);
        assert(source_opens(source) =~= zip_opens(archive_label@, bytes@, ns));
        assert(source_zones(source) =~= zip_zones(archive_label@, bytes@, ns, json_readings(*locations)));
    }
    read_tables(&source, floats)
}

} // verus!
