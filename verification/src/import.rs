//! Importing CSV or JSON files: a preview with a suggested column mapping,
//! and the INSERT statements for a chosen mapping.
use crate::text::{
    chars_eq_ignore_ascii_case, chars_of, eq_ignore_ascii_case, join, lemma_map_push,
    lemma_take_next, names_distinct, push_chars, push_quoted, push_str, quoted_literal, string_of,
    views,
};
use crate::types::ColumnMeta;
use vstd::prelude::*;

verus! {

/// Source field -> table column.
#[derive(Clone, Debug)]
pub struct ImportMapping {
    /// Pairs of (source field, table column), in the order the INSERT lists
    /// them; each source field once, as in a map.
    pub column_map: Vec<(String, String)>,
}

/// The first rows of a file and a suggested mapping.
#[derive(Clone, Debug)]
pub struct ImportPreview {
    pub headers: Vec<String>,
    pub sample_rows: Vec<Vec<String>>,
    pub suggested_mapping: Vec<(String, String)>,
}

#[derive(Clone, Debug)]
pub struct ImportRequest {
    pub file_path: String,
    pub schema: Option<String>,
    pub table: String,
    pub mapping: ImportMapping,
    pub format: ImportFileFormat,
}

#[derive(Clone, Copy, Debug, PartialEq, Eq, Structural)]
pub enum ImportFileFormat {
    Csv,
    Json,
}

#[derive(Clone, Debug)]
pub struct ImportResult {
    pub rows_imported: usize,
    pub insert_statements: Vec<String>,
}

/// How many rows a preview shows.
pub const SAMPLE_ROWS: usize = 5;

// ---------------------------------------------------------------------------
// Reading the files (csv, serde_json)
// ---------------------------------------------------------------------------

/// A CSV file as the `csv` reader (headers on) sees it: the header row or its
/// error, the records read before the first failing one, and that failure.
pub struct CsvTable {
    pub headers: Result<Vec<String>, String>,
    pub records: Vec<Vec<String>>,
    pub error: Option<String>,
}

pub open spec fn rows_view(rows: Seq<Vec<String>>) -> Seq<Seq<Seq<char>>> {
    rows.map_values(|r: Vec<String>| views(r@))
}

pub type CsvView = (Result<Seq<Seq<char>>, Seq<char>>, Seq<Seq<Seq<char>>>, Option<Seq<char>>);

pub open spec fn csv_table_view(t: CsvTable) -> CsvView {
    (
        match t.headers {
            Ok(h) => Ok(views(h@)),
            Err(e) => Err(e@),
        },
        rows_view(t.records@),
        match t.error {
            Some(e) => Some(e@),
            None => None,
        },
    )
}

/// What the `csv` crate reads from `bytes` with a default `Reader`.
pub uninterp spec fn csv_read_of(bytes: Seq<u8>) -> CsvView;

/// `csv::Reader::from_reader` (default settings: headers on, comma, `"`
/// quotes) over the bytes: `headers`, then `records` up to and including the
/// first error, each field and error as text. Claimed: the result is
/// `csv_read_of` of the bytes.
#[verifier::external_body]
fn read_csv(bytes: &[u8]) -> (t: CsvTable)
    ensures
        csv_table_view(t) == csv_read_of(bytes@),
{
    let mut rdr = csv::Reader::from_reader(bytes);
    let headers = rdr.headers().map(|h| h.iter().map(|s| s.to_string()).collect()).map_err(
        |e| e.to_string(),
    );
    let (mut records, mut error) = (Vec::new(), None);
    for rec in rdr.records() {
        match rec {
            Ok(r) => records.push(r.iter().map(|s| s.to_string()).collect()),
            Err(e) => {
                error = Some(e.to_string());
                break ;
            },
        }
    }
    CsvTable { headers, records, error }
}

/// A JSON array as read: for each element, its members (name and JSON text
/// of the value, in the order `serde_json::Map` keeps them) when it is an
/// object.
pub type JsonRowsView = Result<Seq<Option<Seq<(Seq<char>, Seq<char>)>>>, Seq<char>>;

pub open spec fn pairs_view(p: Seq<(String, String)>) -> Seq<(Seq<char>, Seq<char>)> {
    p.map_values(|e: (String, String)| (e.0@, e.1@))
}

pub open spec fn values_view(v: Seq<Option<Vec<(String, String)>>>) -> Seq<
    Option<Seq<(Seq<char>, Seq<char>)>>,
> {
    v.map_values(
        |o: Option<Vec<(String, String)>>|
            match o {
                Some(p) => Some(pairs_view(p@)),
                None => None,
            },
    )
}

pub open spec fn json_rows_view(r: Result<Vec<Option<Vec<(String, String)>>>, String>) -> JsonRowsView {
    match r {
        Ok(v) => Ok(values_view(v@)),
        Err(e) => Err(e@),
    }
}

/// What `serde_json` reads from `text` as an array of values.
pub uninterp spec fn json_rows_of(text: Seq<char>) -> JsonRowsView;

/// `serde_json::from_str::<Vec<serde_json::Value>>`, each object element
/// given as its members with each value's JSON text (`Value::to_string`).
/// Claimed: the result is `json_rows_of` of the text.
#[verifier::external_body]
fn read_json_rows(text: &str) -> (r: Result<Vec<Option<Vec<(String, String)>>>, String>)
    ensures
        json_rows_view(r) == json_rows_of(text@),
{
    serde_json::from_str::<Vec<serde_json::Value>>(text).map(
        |values|
            values.iter().map(
                |v| v.as_object().map(|o| o.iter().map(|(k, x)| (k.clone(), x.to_string())).collect()),
            ).collect(),
    ).map_err(|e| e.to_string())
}

/// The text of the error `std::io::Read::read_to_string` gives for bytes
/// that are not UTF-8.
pub uninterp spec fn utf8_error_of(bytes: Seq<u8>) -> Seq<char>;

/// The text the bytes encode when they are UTF-8, or the read error.
pub open spec fn utf8_text_of(bytes: Seq<u8>) -> Result<Seq<char>, Seq<char>> {
    if vstd::utf8::valid_utf8(bytes) {
        Ok(vstd::utf8::decode_utf8(bytes))
    } else {
        Err(utf8_error_of(bytes))
    }
}

/// `std::io::Read::read_to_string` over the bytes (as reading a file to a
/// string does). Claimed: valid UTF-8 reads as the text it encodes; anything
/// else is the read error.
#[verifier::external_body]
fn utf8_text(bytes: &[u8]) -> (r: Result<String, String>)
    ensures
        match r {
            Ok(t) => vstd::utf8::valid_utf8(bytes@) && t@ == vstd::utf8::decode_utf8(bytes@),
            Err(e) => !vstd::utf8::valid_utf8(bytes@) && e@ == utf8_error_of(bytes@),
        },
{
    let mut source: &[u8] = bytes;
    let mut text = String::new();
    std::io::Read::read_to_string(&mut source, &mut text).map(|_| text).map_err(|e| e.to_string())
}

/// What a JSON file's bytes give: read as text, then as an array of values.
pub open spec fn json_file_rows_of(content: Seq<u8>) -> JsonRowsView {
    match utf8_text_of(content) {
        Err(e) => Err(e),
        Ok(t) => json_rows_of(t),
    }
}

/// Reads a JSON file's bytes as text, then as an array of values.
fn read_json_file(content: &[u8]) -> (r: Result<Vec<Option<Vec<(String, String)>>>, String>)
    ensures
        json_rows_view(r) == json_file_rows_of(content@),
{
    match utf8_text(content) {
        Err(e) => Err(e),
        Ok(t) => read_json_rows(t.as_str()),
    }
}

// ---------------------------------------------------------------------------
// JSON rows
// ---------------------------------------------------------------------------

/// The value of member `name` (the first with that name), if any.
pub open spec fn member_value(members: Seq<(Seq<char>, Seq<char>)>, name: Seq<char>) -> Option<
    Seq<char>,
>
    decreases members.len(),
{
    if members.len() == 0 {
        None
    } else if members[0].0 == name {
        Some(members[0].1)
    } else {
        member_value(members.drop_first(), name)
    }
}

/// The row of an object: the value text of each header, empty when missing.
pub open spec fn object_row(members: Seq<(Seq<char>, Seq<char>)>, headers: Seq<Seq<char>>) -> Seq<
    Seq<char>,
> {
    headers.map_values(
        |h: Seq<char>|
            match member_value(members, h) {
                Some(v) => v,
                None => Seq::<char>::empty(),
            },
    )
}

/// The headers of a JSON file: the member names of its first element when
/// that is an object.
pub open spec fn json_headers(values: Seq<Option<Seq<(Seq<char>, Seq<char>)>>>) -> Seq<Seq<char>> {
    if values.len() > 0 && values[0] is Some {
        values[0]->0.map_values(|m: (Seq<char>, Seq<char>)| m.0)
    } else {
        seq![]
    }
}

/// The rows of the objects among `values`, in order.
pub open spec fn json_object_rows(
    values: Seq<Option<Seq<(Seq<char>, Seq<char>)>>>,
    headers: Seq<Seq<char>>,
) -> Seq<Seq<Seq<char>>>
    decreases values.len(),
{
    if values.len() == 0 {
        seq![]
    } else {
        let rest = json_object_rows(values.drop_last(), headers);
        match values.last() {
            Some(m) => rest.push(object_row(m, headers)),
            None => rest,
        }
    }
}

fn member_lookup(members: &Vec<(String, String)>, name: &String) -> (r: Option<String>)
    ensures
        match r {
            Some(v) => member_value(pairs_view(members@), name@) == Some(v@),
            None => member_value(pairs_view(members@), name@) is None,
        },
{
    let ghost all = pairs_view(members@);
    let mut i: usize = 0;
    assert(all.skip(0) == all);
    while i < members.len()
        invariant
            i <= members@.len(),
            all == pairs_view(members@),
            member_value(all, name@) == member_value(all.skip(i as int), name@),
        decreases members@.len() - i,
    {
        assert(all.skip(i as int)[0] == all[i as int]);
        if members[i].0 == *name {
            return Some(members[i].1.clone());
        }
        assert(all.skip(i as int).drop_first() == all.skip(i + 1));
        i = i + 1;
    }
    None
}

fn object_row_exec(members: &Vec<(String, String)>, headers: &Vec<String>) -> (r: Vec<String>)
    ensures
        views(r@) == object_row(pairs_view(members@), views(headers@)),
{
    let mut r: Vec<String> = Vec::new();
    let mut i: usize = 0;
    while i < headers.len()
        invariant
            i <= headers@.len(),
            views(r@) == object_row(pairs_view(members@), views(headers@)).take(i as int),
        decreases headers@.len() - i,
    {
        let v = match member_lookup(members, &headers[i]) {
            Some(v) => v,
            None => String::new(),
        };
        assert(views(headers@)[i as int] == headers@[i as int]@);
        let ghost want = object_row(pairs_view(members@), views(headers@));
        assert(want[i as int] == v@);
        proof {
            lemma_map_push(r@, v, |s: String| s@);
            lemma_take_next(want, i as int);
        }
        r.push(v);
        i = i + 1;
    }
    assert(object_row(pairs_view(members@), views(headers@)).take(headers@.len() as int)
        =~= object_row(pairs_view(members@), views(headers@)));
    r
}

fn json_headers_exec(values: &Vec<Option<Vec<(String, String)>>>) -> (h: Vec<String>)
    ensures
        views(h@) == json_headers(values_view(values@)),
{
    let mut h: Vec<String> = Vec::new();
    if values.len() > 0 {
        match &values[0] {
            Some(members) => {
                let mut i: usize = 0;
                while i < members.len()
                    invariant
                        i <= members@.len(),
                        views(h@) == pairs_view(members@).map_values(
                            |m: (Seq<char>, Seq<char>)| m.0,
                        ).take(i as int),
                    decreases members@.len() - i,
                {
                    assert(pairs_view(members@)[i as int].0 == members@[i as int].0@);
                    let name = members[i].0.clone();
                    proof {
                        lemma_map_push(h@, name, |s: String| s@);
                        lemma_take_next(
                            pairs_view(members@).map_values(|m: (Seq<char>, Seq<char>)| m.0),
                            i as int,
                        );
                    }
                    h.push(name);
                    i = i + 1;
                }
                assert(pairs_view(members@).map_values(|m: (Seq<char>, Seq<char>)| m.0).take(
                    members@.len() as int,
                ) =~= pairs_view(members@).map_values(|m: (Seq<char>, Seq<char>)| m.0));
            },
            None => {
                assert(views(h@) =~= seq![]);
            },
        }
    } else {
        assert(views(h@) =~= seq![]);
    }
    h
}

/// The rows of the objects among the first `limit` values.
fn json_rows_exec(
    values: &Vec<Option<Vec<(String, String)>>>,
    headers: &Vec<String>,
    limit: usize,
) -> (r: Vec<Vec<String>>)
    requires
        limit <= values@.len(),
    ensures
        rows_view(r@) == json_object_rows(
            values_view(values@).take(limit as int),
            views(headers@),
        ),
{
    let ghost vals = values_view(values@);
    let mut r: Vec<Vec<String>> = Vec::new();
    let mut i: usize = 0;
    while i < limit
        invariant
            i <= limit <= values@.len(),
            vals == values_view(values@),
            rows_view(r@) == json_object_rows(vals.take(i as int), views(headers@)),
        decreases limit - i,
    {
        assert(vals.take(i + 1).drop_last() == vals.take(i as int));
        match &values[i] {
            Some(members) => {
                let row = object_row_exec(members, headers);
                r.push(row);
                assert(rows_view(r@) =~= rows_view(r@).drop_last().push(views(row@)));
            },
            None => {},
        }
        i = i + 1;
    }
    r
}

// ---------------------------------------------------------------------------
// The suggested mapping
// ---------------------------------------------------------------------------

/// The first table column whose name equals `h` ignoring ASCII case.
pub open spec fn matching_column(cols: Seq<ColumnMeta>, h: Seq<char>) -> Option<Seq<char>>
    decreases cols.len(),
{
    if cols.len() == 0 {
        None
    } else if eq_ignore_ascii_case(cols[0].name@, h) {
        Some(cols[0].name@)
    } else {
        matching_column(cols.drop_first(), h)
    }
}

pub open spec fn has_key(pairs: Seq<(Seq<char>, Seq<char>)>, k: Seq<char>) -> bool {
    exists|i: int| 0 <= i < pairs.len() && pairs[i].0 == k
}

/// The suggested mapping: each header (first occurrence) with a matching
/// column, paired with that column's name.
pub open spec fn suggested(headers: Seq<Seq<char>>, cols: Seq<ColumnMeta>) -> Seq<
    (Seq<char>, Seq<char>),
>
    decreases headers.len(),
{
    if headers.len() == 0 {
        seq![]
    } else {
        let rest = suggested(headers.drop_last(), cols);
        let h = headers.last();
        if has_key(rest, h) {
            rest
        } else {
            match matching_column(cols, h) {
                Some(c) => rest.push((h, c)),
                None => rest,
            }
        }
    }
}

proof fn lemma_suggested_distinct(headers: Seq<Seq<char>>, cols: Seq<ColumnMeta>)
    ensures
        forall|i: int, j: int|
            0 <= i < j < suggested(headers, cols).len() ==> suggested(headers, cols)[i].0
                != suggested(headers, cols)[j].0,
    decreases headers.len(),
{
    if headers.len() > 0 {
        lemma_suggested_distinct(headers.drop_last(), cols);
        let rest = suggested(headers.drop_last(), cols);
        let all = suggested(headers, cols);
        assert forall|i: int, j: int| 0 <= i < j < all.len() implies all[i].0 != all[j].0 by {
            if j >= rest.len() {
                assert(all[i] == rest[i]);
                if all[i].0 == all[j].0 {
                    assert(has_key(rest, headers.last()));
                }
            } else {
                assert(all[i] == rest[i] && all[j] == rest[j]);
            }
        }
    }
}

fn find_matching_column(cols: &Vec<ColumnMeta>, h: &String) -> (r: Option<String>)
    ensures
        match r {
            Some(c) => matching_column(cols@, h@) == Some(c@),
            None => matching_column(cols@, h@) is None,
        },
{
    let hc = chars_of(h.as_str());
    let mut i: usize = 0;
    assert(cols@.skip(0) == cols@);
    while i < cols.len()
        invariant
            i <= cols@.len(),
            hc@ == h@,
            matching_column(cols@, h@) == matching_column(cols@.skip(i as int), h@),
        decreases cols@.len() - i,
    {
        assert(cols@.skip(i as int)[0] == cols@[i as int]);
        let nc = chars_of(cols[i].name.as_str());
        if chars_eq_ignore_ascii_case(&nc, &hc) {
            return Some(cols[i].name.clone());
        }
        assert(cols@.skip(i as int).drop_first() == cols@.skip(i + 1));
        i = i + 1;
    }
    None
}

fn pairs_has_key(pairs: &Vec<(String, String)>, k: &String) -> (b: bool)
    ensures
        b == has_key(pairs_view(pairs@), k@),
{
    let mut i: usize = 0;
    while i < pairs.len()
        invariant
            i <= pairs@.len(),
            forall|j: int| 0 <= j < i ==> pairs_view(pairs@)[j].0 != k@,
        decreases pairs@.len() - i,
    {
        if pairs[i].0 == *k {
            assert(pairs_view(pairs@)[i as int].0 == k@);
            return true;
        }
        i = i + 1;
    }
    false
}

/// Suggests a mapping: each header that names a table column (ignoring ASCII
/// case) maps to it.
pub fn suggest_mapping(headers: &Vec<String>, cols: &Vec<ColumnMeta>) -> (m: Vec<(String, String)>)
    ensures
        pairs_view(m@) == suggested(views(headers@), cols@),
        names_distinct(m@),
{
    proof {
        lemma_suggested_distinct(views(headers@), cols@);
    }
    let ghost hs = views(headers@);
    let mut m: Vec<(String, String)> = Vec::new();
    let mut i: usize = 0;
    while i < headers.len()
        invariant
            i <= headers@.len(),
            hs == views(headers@),
            pairs_view(m@) == suggested(hs.take(i as int), cols@),
        decreases headers@.len() - i,
    {
        assert(hs.take(i + 1).drop_last() == hs.take(i as int));
        assert(hs.take(i + 1).last() == headers@[i as int]@);
        let h = &headers[i];
        if !pairs_has_key(&m, h) {
            match find_matching_column(cols, h) {
                Some(c) => {
                    m.push((h.clone(), c));
                    assert(pairs_view(m@) =~= pairs_view(m@).drop_last().push((h@, c@)));
                },
                None => {},
            }
        }
        i = i + 1;
    }
    assert(hs.take(headers@.len() as int) == hs);
    proof {
        assert forall|i: int, j: int| 0 <= i < j < m@.len() implies m@[i].0@ != m@[j].0@ by {
            assert(pairs_view(m@)[i].0 == m@[i].0@);
            assert(pairs_view(m@)[j].0 == m@[j].0@);
        }
    }
    m
}

// ---------------------------------------------------------------------------
// Preview
// ---------------------------------------------------------------------------

pub type PreviewView = Result<
    (Seq<Seq<char>>, Seq<Seq<Seq<char>>>, Seq<(Seq<char>, Seq<char>)>),
    Seq<char>,
>;

pub open spec fn min_nat(a: nat, b: nat) -> nat {
    if a < b {
        a
    } else {
        b
    }
}

/// The preview of a file: its headers, the rows of its first five records
/// (for JSON: of the objects among its first five elements) and the suggested
/// mapping; or the read error. A CSV record error among the first five is an
/// error of the preview.
pub open spec fn preview_of(
    format: ImportFileFormat,
    content: Seq<u8>,
    cols: Seq<ColumnMeta>,
) -> PreviewView {
    match format {
        ImportFileFormat::Csv => {
            let (hr, records, err) = csv_read_of(content);
            match hr {
                Err(e) => Err(e),
                Ok(h) => if err is Some && records.len() < SAMPLE_ROWS {
                    Err(err->0)
                } else {
                    Ok(
                        (
                            h,
                            records.take(min_nat(records.len(), SAMPLE_ROWS as nat) as int),
                            suggested(h, cols),
                        ),
                    )
                },
            }
        },
        ImportFileFormat::Json => match json_file_rows_of(content) {
            Err(e) => Err(e),
            Ok(values) => {
                let h = json_headers(values);
                Ok(
                    (
                        h,
                        json_object_rows(
                            values.take(min_nat(values.len(), SAMPLE_ROWS as nat) as int),
                            h,
                        ),
                        suggested(h, cols),
                    ),
                )
            },
        },
    }
}

pub open spec fn preview_view(p: ImportPreview) -> (
    Seq<Seq<char>>,
    Seq<Seq<Seq<char>>>,
    Seq<(Seq<char>, Seq<char>)>,
) {
    (views(p.headers@), rows_view(p.sample_rows@), pairs_view(p.suggested_mapping@))
}

fn copy_rows(rows: &Vec<Vec<String>>, n: usize) -> (r: Vec<Vec<String>>)
    requires
        n <= rows@.len(),
    ensures
        rows_view(r@) == rows_view(rows@).take(n as int),
{
    let mut r: Vec<Vec<String>> = Vec::new();
    let mut i: usize = 0;
    while i < n
        invariant
            i <= n <= rows@.len(),
            rows_view(r@) == rows_view(rows@).take(i as int),
        decreases n - i,
    {
        let row = copy_strings(&rows[i]);
        assert(rows_view(rows@)[i as int] == views(row@));
        proof {
            lemma_map_push(r@, row, |r: Vec<String>| views(r@));
            lemma_take_next(rows_view(rows@), i as int);
        }
        r.push(row);
        i = i + 1;
    }
    r
}

/// A copy of a vector of strings.
pub fn copy_strings(v: &Vec<String>) -> (r: Vec<String>)
    ensures
        r@ == v@,
{
    let mut r: Vec<String> = Vec::new();
    let mut i: usize = 0;
    while i < v.len()
        invariant
            i <= v@.len(),
            r@ == v@.take(i as int),
        decreases v@.len() - i,
    {
        r.push(v[i].clone());
        i = i + 1;
        assert(r@ =~= v@.take(i as int));
    }
    assert(v@.take(v@.len() as int) =~= v@);
    r
}

/// Previews a CSV or JSON file (its bytes) against the target table's
/// columns.
pub fn preview_import(content: &[u8], format: ImportFileFormat, table_columns: &Vec<ColumnMeta>) -> (r:
    Result<ImportPreview, String>)
    ensures
        match r {
            Ok(p) => preview_of(format, content@, table_columns@) == Ok::<
                (Seq<Seq<char>>, Seq<Seq<Seq<char>>>, Seq<(Seq<char>, Seq<char>)>),
                Seq<char>,
            >(preview_view(p)),
            Err(e) => preview_of(format, content@, table_columns@) == Err::<
                (Seq<Seq<char>>, Seq<Seq<Seq<char>>>, Seq<(Seq<char>, Seq<char>)>),
                Seq<char>,
            >(e@),
        },
{
    match format {
        ImportFileFormat::Csv => {
            let t = read_csv(content);
            match t.headers {
                Err(e) => Err(e),
                Ok(headers) => {
                    let n = t.records.len();
                    match t.error {
                        Some(e) => {
                            if n < SAMPLE_ROWS {
                                return Err(e);
                            }
                        },
                        None => {},
                    }
                    let k = if n < SAMPLE_ROWS {
                        n
                    } else {
                        SAMPLE_ROWS
                    };
                    let sample_rows = copy_rows(&t.records, k);
                    let suggested_mapping = suggest_mapping(&headers, table_columns);
                    Ok(ImportPreview { headers, sample_rows, suggested_mapping })
                },
            }
        },
        ImportFileFormat::Json => {
            match read_json_file(content) {
                Err(e) => Err(e),
                Ok(values) => {
                    let headers = json_headers_exec(&values);
                    let n = values.len();
                    let k = if n < SAMPLE_ROWS {
                        n
                    } else {
                        SAMPLE_ROWS
                    };
                    let sample_rows = json_rows_exec(&values, &headers, k);
                    let suggested_mapping = suggest_mapping(&headers, table_columns);
                    Ok(ImportPreview { headers, sample_rows, suggested_mapping })
                },
            }
        },
    }
}


// ---------------------------------------------------------------------------
// INSERT statements
// ---------------------------------------------------------------------------

/// The first position at or after `i` holding `src`.
pub open spec fn header_index_from(headers: Seq<Seq<char>>, src: Seq<char>, i: int) -> Option<int>
    decreases headers.len() - i,
{
    if i < 0 || i >= headers.len() {
        None
    } else if headers[i] == src {
        Some(i)
    } else {
        header_index_from(headers, src, i + 1)
    }
}

/// The position of the first header equal to `src`.
pub open spec fn header_index(headers: Seq<Seq<char>>, src: Seq<char>) -> Option<int> {
    header_index_from(headers, src, 0)
}

/// The (column, raw value) pairs a row gives: for each mapping entry, in
/// order, whose source field is a header and whose row has that field.
pub open spec fn row_pairs(
    mapping: Seq<(Seq<char>, Seq<char>)>,
    headers: Seq<Seq<char>>,
    row: Seq<Seq<char>>,
) -> Seq<(Seq<char>, Seq<char>)>
    decreases mapping.len(),
{
    if mapping.len() == 0 {
        seq![]
    } else {
        let rest = row_pairs(mapping.drop_last(), headers, row);
        match header_index(headers, mapping.last().0) {
            Some(k) => if k < row.len() {
                rest.push((mapping.last().1, row[k]))
            } else {
                rest
            },
            None => rest,
        }
    }
}

/// `INSERT INTO <table> (<columns>) VALUES (<quoted values>);`
pub open spec fn insert_statement(table: Seq<char>, pairs: Seq<(Seq<char>, Seq<char>)>) -> Seq<char> {
    "INSERT INTO "@ + table + " ("@ + join(pairs.map_values(|p: (Seq<char>, Seq<char>)| p.0), ", "@)
        + ") VALUES ("@ + join(
        pairs.map_values(|p: (Seq<char>, Seq<char>)| quoted_literal(p.1)),
        ", "@,
    ) + ");"@
}

/// One statement per row that gives at least one pair, in row order.
pub open spec fn import_statements(
    table: Seq<char>,
    mapping: Seq<(Seq<char>, Seq<char>)>,
    headers: Seq<Seq<char>>,
    rows: Seq<Seq<Seq<char>>>,
) -> Seq<Seq<char>>
    decreases rows.len(),
{
    if rows.len() == 0 {
        seq![]
    } else {
        let rest = import_statements(table, mapping, headers, rows.drop_last());
        let pairs = row_pairs(mapping, headers, rows.last());
        if pairs.len() == 0 {
            rest
        } else {
            rest.push(insert_statement(table, pairs))
        }
    }
}

/// An import runs at most one statement per row, and none when nothing is
/// mapped.
pub proof fn law_import_at_most_one_per_row(
    table: Seq<char>,
    mapping: Seq<(Seq<char>, Seq<char>)>,
    headers: Seq<Seq<char>>,
    rows: Seq<Seq<Seq<char>>>,
)
    ensures
        import_statements(table, mapping, headers, rows).len() <= rows.len(),
        mapping.len() == 0 ==> import_statements(table, mapping, headers, rows).len() == 0,
    decreases rows.len(),
{
    if rows.len() > 0 {
        law_import_at_most_one_per_row(table, mapping, headers, rows.drop_last());
        if mapping.len() == 0 {
            assert(row_pairs(mapping, headers, rows.last()).len() == 0);
        }
    }
}

/// The import target: `"schema"."table"`, or `"table"`.
pub open spec fn import_table_of(schema: Option<Seq<char>>, table: Seq<char>) -> Seq<char> {
    match schema {
        Some(s) => "\""@ + s + "\".\""@ + table + "\""@,
        None => "\""@ + table + "\""@,
    }
}

/// The headers and all rows of a file, or the first read error.
pub open spec fn import_rows_of(format: ImportFileFormat, content: Seq<u8>) -> Result<
    (Seq<Seq<char>>, Seq<Seq<Seq<char>>>),
    Seq<char>,
> {
    match format {
        ImportFileFormat::Csv => {
            let (hr, records, err) = csv_read_of(content);
            match hr {
                Err(e) => Err(e),
                Ok(h) => match err {
                    Some(e) => Err(e),
                    None => Ok((h, records)),
                },
            }
        },
        ImportFileFormat::Json => match json_file_rows_of(content) {
            Err(e) => Err(e),
            Ok(values) => {
                let h = json_headers(values);
                Ok((h, json_object_rows(values, h)))
            },
        },
    }
}

pub open spec fn opt_view(o: Option<String>) -> Option<Seq<char>> {
    match o {
        Some(s) => Some(s@),
        None => None,
    }
}

/// The statements an import request gives for the file's content, or the
/// read error.
pub open spec fn import_result_of(req: ImportRequest, content: Seq<u8>) -> Result<
    Seq<Seq<char>>,
    Seq<char>,
> {
    match import_rows_of(req.format, content) {
        Err(e) => Err(e),
        Ok((h, rows)) => Ok(
            import_statements(
                import_table_of(opt_view(req.schema), req.table@),
                pairs_view(req.mapping.column_map@),
                h,
                rows,
            ),
        ),
    }
}

fn header_position(headers: &Vec<String>, src: &String) -> (r: Option<usize>)
    ensures
        match r {
            Some(k) => header_index(views(headers@), src@) == Some(k as int),
            None => header_index(views(headers@), src@) is None,
        },
{
    let ghost hs = views(headers@);
    let mut i: usize = 0;
    while i < headers.len()
        invariant
            i <= headers@.len(),
            hs == views(headers@),
            header_index(hs, src@) == header_index_from(hs, src@, i as int),
        decreases headers@.len() - i,
    {
        assert(hs[i as int] == headers@[i as int]@);
        if headers[i] == *src {
            return Some(i);
        }
        i = i + 1;
    }
    None
}

fn row_pairs_exec(mapping: &Vec<(String, String)>, headers: &Vec<String>, row: &Vec<String>) -> (r:
    Vec<(String, String)>)
    ensures
        pairs_view(r@) == row_pairs(pairs_view(mapping@), views(headers@), views(row@)),
{
    let ghost m = pairs_view(mapping@);
    let mut r: Vec<(String, String)> = Vec::new();
    let mut j: usize = 0;
    while j < mapping.len()
        invariant
            j <= mapping@.len(),
            m == pairs_view(mapping@),
            pairs_view(r@) == row_pairs(m.take(j as int), views(headers@), views(row@)),
        decreases mapping@.len() - j,
    {
        assert(m.take(j + 1).drop_last() == m.take(j as int));
        assert(m.take(j + 1).last() == (mapping@[j as int].0@, mapping@[j as int].1@));
        match header_position(headers, &mapping[j].0) {
            Some(k) => {
                if k < row.len() {
                    let e = (mapping[j].1.clone(), row[k].clone());
                    proof {
                        lemma_map_push(r@, e, |e: (String, String)| (e.0@, e.1@));
                    }
                    r.push(e);
                }
            },
            None => {},
        }
        j = j + 1;
    }
    assert(m.take(mapping@.len() as int) == m);
    r
}

/// Appends the first components joined by `, `.
fn push_join_columns(out: &mut Vec<char>, pairs: &Vec<(String, String)>)
    ensures
        final(out)@ == old(out)@ + join(
            pairs_view(pairs@).map_values(|p: (Seq<char>, Seq<char>)| p.0),
            ", "@,
        ),
{
    let ghost start = out@;
    let ghost terms = pairs_view(pairs@).map_values(|p: (Seq<char>, Seq<char>)| p.0);
    let mut i: usize = 0;
    while i < pairs.len()
        invariant
            i <= pairs@.len(),
            terms == pairs_view(pairs@).map_values(|p: (Seq<char>, Seq<char>)| p.0),
            out@ == start + join(terms.take(i as int), ", "@),
        decreases pairs@.len() - i,
    {
        assert(terms.take(i + 1).drop_last() == terms.take(i as int));
        assert(terms.take(i + 1).last() == pairs@[i as int].0@);
        if i > 0 {
            push_str(out, ", ");
        }
        push_str(out, pairs[i].0.as_str());
        i = i + 1;
    }
    assert(terms.take(pairs@.len() as int) == terms);
}

/// Appends the quoted second components joined by `, `.
fn push_join_values(out: &mut Vec<char>, pairs: &Vec<(String, String)>)
    ensures
        final(out)@ == old(out)@ + join(
            pairs_view(pairs@).map_values(|p: (Seq<char>, Seq<char>)| quoted_literal(p.1)),
            ", "@,
        ),
{
    let ghost start = out@;
    let ghost terms = pairs_view(pairs@).map_values(
        |p: (Seq<char>, Seq<char>)| quoted_literal(p.1),
    );
    let mut i: usize = 0;
    while i < pairs.len()
        invariant
            i <= pairs@.len(),
            terms == pairs_view(pairs@).map_values(
                |p: (Seq<char>, Seq<char>)| quoted_literal(p.1),
            ),
            out@ == start + join(terms.take(i as int), ", "@),
        decreases pairs@.len() - i,
    {
        assert(terms.take(i + 1).drop_last() == terms.take(i as int));
        assert(terms.take(i + 1).last() == quoted_literal(pairs@[i as int].1@));
        if i > 0 {
            push_str(out, ", ");
        }
        push_quoted(out, pairs[i].1.as_str());
        i = i + 1;
    }
    assert(terms.take(pairs@.len() as int) == terms);
}

fn insert_statement_exec(table: &Vec<char>, pairs: &Vec<(String, String)>) -> (s: String)
    ensures
        s@ == insert_statement(table@, pairs_view(pairs@)),
{
    let mut out: Vec<char> = Vec::new();
    push_str(&mut out, "INSERT INTO ");
    push_chars(&mut out, table);
    push_str(&mut out, " (");
    push_join_columns(&mut out, pairs);
    push_str(&mut out, ") VALUES (");
    push_join_values(&mut out, pairs);
    push_str(&mut out, ");");
    string_of(&out)
}

/// The import target `"schema"."table"` (or `"table"`).
pub fn qualified_table(schema: &Option<String>, table: &str) -> (s: String)
    ensures
        s@ == import_table_of(opt_view(*schema), table@),
{
    let mut out: Vec<char> = Vec::new();
    match schema {
        Some(sch) => {
            push_str(&mut out, "\"");
            push_str(&mut out, sch.as_str());
            push_str(&mut out, "\".\"");
            push_str(&mut out, table);
            push_str(&mut out, "\"");
        },
        None => {
            push_str(&mut out, "\"");
            push_str(&mut out, table);
            push_str(&mut out, "\"");
        },
    }
    string_of(&out)
}

fn statements_exec(
    table: &Vec<char>,
    mapping: &Vec<(String, String)>,
    headers: &Vec<String>,
    rows: &Vec<Vec<String>>,
) -> (r: Vec<String>)
    ensures
        views(r@) == import_statements(
            table@,
            pairs_view(mapping@),
            views(headers@),
            rows_view(rows@),
        ),
{
    let ghost rv = rows_view(rows@);
    let mut r: Vec<String> = Vec::new();
    let mut i: usize = 0;
    while i < rows.len()
        invariant
            i <= rows@.len(),
            rv == rows_view(rows@),
            views(r@) == import_statements(
                table@,
                pairs_view(mapping@),
                views(headers@),
                rv.take(i as int),
            ),
        decreases rows@.len() - i,
    {
        assert(rv.take(i + 1).drop_last() == rv.take(i as int));
        assert(rv.take(i + 1).last() == views(rows@[i as int]@));
        let pairs = row_pairs_exec(mapping, headers, &rows[i]);
        if pairs.len() > 0 {
            let st = insert_statement_exec(table, &pairs);
            proof {
                lemma_map_push(r@, st, |s: String| s@);
            }
            r.push(st);
        }
        i = i + 1;
    }
    assert(rv.take(rows@.len() as int) == rv);
    r
}

fn all_json_rows(values: &Vec<Option<Vec<(String, String)>>>, headers: &Vec<String>) -> (r: Vec<
    Vec<String>,
>)
    ensures
        rows_view(r@) == json_object_rows(values_view(values@), views(headers@)),
{
    let r = json_rows_exec(values, headers, values.len());
    assert(values_view(values@).take(values@.len() as int) == values_view(values@));
    r
}

/// The INSERT statements for an import: the file's content is read as its
/// format says, and each row that gives at least one mapped field becomes a
/// statement. The statements are returned for the caller to run.
pub fn build_import_sql(req: &ImportRequest, content: &[u8]) -> (r: Result<ImportResult, String>)
    requires
        names_distinct(req.mapping.column_map@),
    ensures
        match r {
            Ok(res) => import_result_of(*req, content@) == Ok::<Seq<Seq<char>>, Seq<char>>(
                views(res.insert_statements@),
            ) && res.rows_imported == res.insert_statements@.len(),
            Err(e) => import_result_of(*req, content@) == Err::<Seq<Seq<char>>, Seq<char>>(e@),
        },
{
    let (headers, rows) = match req.format {
        ImportFileFormat::Csv => {
            let t = read_csv(content);
            match t.headers {
                Err(e) => {
                    return Err(e);
                },
                Ok(h) => match t.error {
                    Some(e) => {
                        return Err(e);
                    },
                    None => (h, t.records),
                },
            }
        },
        ImportFileFormat::Json => match read_json_file(content) {
            Err(e) => {
                return Err(e);
            },
            Ok(values) => {
                let h = json_headers_exec(&values);
                let rows = all_json_rows(&values, &h);
                (h, rows)
            },
        },
    };
    let table = qualified_table(&req.schema, req.table.as_str());
    let table_chars = chars_of(table.as_str());
    let statements = statements_exec(&table_chars, &req.mapping.column_map, &headers, &rows);
    Ok(ImportResult { rows_imported: statements.len(), insert_statements: statements })
}

// ---------------------------------------------------------------------------
// What an import covers
// ---------------------------------------------------------------------------

/// Record `r` has a value for some mapped field: a mapping entry whose source
/// field is a header (its first occurrence at position `k`) that the record
/// reaches.
pub open spec fn gives_mapped_field(
    mapping: Seq<(Seq<char>, Seq<char>)>,
    headers: Seq<Seq<char>>,
    r: Seq<Seq<char>>,
) -> bool {
    exists|j: int, k: int|
        #![trigger mapping[j], headers[k]]
        0 <= j < mapping.len() && 0 <= k < headers.len() && headers[k] == mapping[j].0 && (forall|
            q: int,
        |
            0 <= q < k ==> headers[q] != mapping[j].0) && k < r.len()
}

/// How many records have a value for some mapped field.
pub open spec fn mapped_record_count(
    mapping: Seq<(Seq<char>, Seq<char>)>,
    headers: Seq<Seq<char>>,
    rows: Seq<Seq<Seq<char>>>,
) -> nat
    decreases rows.len(),
{
    if rows.len() == 0 {
        0
    } else {
        mapped_record_count(mapping, headers, rows.drop_last()) + if gives_mapped_field(
            mapping,
            headers,
            rows.last(),
        ) {
            1nat
        } else {
            0nat
        }
    }
}

proof fn lemma_header_index_from(headers: Seq<Seq<char>>, src: Seq<char>, i: int)
    requires
        0 <= i,
    ensures
        match header_index_from(headers, src, i) {
            Some(k) => i <= k < headers.len() && headers[k] == src && forall|q: int|
                i <= q < k ==> headers[q] != src,
            None => forall|q: int| i <= q < headers.len() ==> headers[q] != src,
        },
    decreases headers.len() - i,
{
    if i < headers.len() && headers[i] != src {
        lemma_header_index_from(headers, src, i + 1);
    }
}

/// The first occurrence of `src` among the headers is at `k` exactly when
/// the header lookup says so.
proof fn lemma_first_occurrence(headers: Seq<Seq<char>>, src: Seq<char>, k: int)
    ensures
        (0 <= k < headers.len() && headers[k] == src && forall|q: int|
            0 <= q < k ==> headers[q] != src) <==> header_index(headers, src) == Some(k),
{
    lemma_header_index_from(headers, src, 0);
}

proof fn lemma_row_pairs_nonempty(
    mapping: Seq<(Seq<char>, Seq<char>)>,
    headers: Seq<Seq<char>>,
    r: Seq<Seq<char>>,
)
    ensures
        row_pairs(mapping, headers, r).len() > 0 <==> gives_mapped_field(mapping, headers, r),
    decreases mapping.len(),
{
    if mapping.len() > 0 {
        let init = mapping.drop_last();
        let last = mapping.last();
        lemma_row_pairs_nonempty(init, headers, r);
        lemma_header_index_from(headers, last.0, 0);
        if gives_mapped_field(init, headers, r) {
            let (j, k) = choose|j: int, k: int|
                #![trigger init[j], headers[k]]
                0 <= j < init.len() && 0 <= k < headers.len() && headers[k] == init[j].0 && (forall|
                    q: int,
                |
                    0 <= q < k ==> headers[q] != init[j].0) && k < r.len();
            assert(mapping[j] == init[j]);
            assert(gives_mapped_field(mapping, headers, r));
        }
        match header_index(headers, last.0) {
            Some(k) => {
                if k < r.len() {
                    let j = mapping.len() - 1;
                    assert(mapping[j] == last);
                    assert(headers[k] == mapping[j].0);
                    assert(gives_mapped_field(mapping, headers, r));
                }
            },
            None => {},
        }
        if gives_mapped_field(mapping, headers, r) {
            let (j, k) = choose|j: int, k: int|
                #![trigger mapping[j], headers[k]]
                0 <= j < mapping.len() && 0 <= k < headers.len() && headers[k] == mapping[j].0 && (
                forall|q: int| 0 <= q < k ==> headers[q] != mapping[j].0) && k < r.len();
            if j < init.len() {
                assert(init[j] == mapping[j]);
                assert(gives_mapped_field(init, headers, r));
            } else {
                assert(mapping[j] == last);
                lemma_first_occurrence(headers, last.0, k);
            }
        }
    }
}

proof fn lemma_statement_count(
    table: Seq<char>,
    mapping: Seq<(Seq<char>, Seq<char>)>,
    headers: Seq<Seq<char>>,
    rows: Seq<Seq<Seq<char>>>,
)
    ensures
        import_statements(table, mapping, headers, rows).len() == mapped_record_count(
            mapping,
            headers,
            rows,
        ),
    decreases rows.len(),
{
    if rows.len() > 0 {
        lemma_statement_count(table, mapping, headers, rows.drop_last());
        lemma_row_pairs_nonempty(mapping, headers, rows.last());
    }
}

proof fn lemma_all_mapped_count(
    mapping: Seq<(Seq<char>, Seq<char>)>,
    headers: Seq<Seq<char>>,
    rows: Seq<Seq<Seq<char>>>,
)
    requires
        forall|i: int| 0 <= i < rows.len() ==> gives_mapped_field(mapping, headers, #[trigger] rows[i]),
    ensures
        mapped_record_count(mapping, headers, rows) == rows.len(),
    decreases rows.len(),
{
    if rows.len() > 0 {
        let init = rows.drop_last();
        assert forall|i: int| 0 <= i < init.len() implies gives_mapped_field(
            mapping,
            headers,
            #[trigger] init[i],
        ) by {
            assert(init[i] == rows[i]);
        }
        lemma_all_mapped_count(mapping, headers, init);
        assert(rows.last() == rows[rows.len() - 1]);
    }
}

/// An import of a CSV file that reads without error runs one statement for
/// every record that has a value for some mapped field, all records
/// counted (not only the preview's first rows); so when every record has
/// one, there is exactly one statement per record.
pub proof fn law_import_covers_every_record(req: ImportRequest, content: Seq<u8>)
    requires
        req.format == ImportFileFormat::Csv,
        csv_read_of(content).0 is Ok,
        csv_read_of(content).2 is None,
    ensures
        import_result_of(req, content) is Ok,
        import_result_of(req, content)->Ok_0.len() == mapped_record_count(
            pairs_view(req.mapping.column_map@),
            csv_read_of(content).0->Ok_0,
            csv_read_of(content).1,
        ),
        (forall|i: int|
            0 <= i < csv_read_of(content).1.len() ==> gives_mapped_field(
                pairs_view(req.mapping.column_map@),
                csv_read_of(content).0->Ok_0,
                #[trigger] csv_read_of(content).1[i],
            )) ==> import_result_of(req, content)->Ok_0.len() == csv_read_of(content).1.len(),
{
    let (hr, records, err) = csv_read_of(content);
    let h = hr->Ok_0;
    let mapping = pairs_view(req.mapping.column_map@);
    let table = import_table_of(opt_view(req.schema), req.table@);
    lemma_statement_count(table, mapping, h, records);
    if forall|i: int| 0 <= i < records.len() ==> gives_mapped_field(mapping, h, #[trigger] records[i]) {
        lemma_all_mapped_count(mapping, h, records);
    }
}

} // verus!
