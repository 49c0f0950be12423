//! Exporting a page of rows: cell text, CSV bytes and INSERT scripts.
use crate::dml::{literal_of, push_literal};
use crate::text::{int_text, join, lemma_map_push, push_chars, push_str, string_of, text_of, views};
use crate::types::{CellValue, ColumnMeta, RowPage};
use vstd::prelude::*;

verus! {

/// The export formats.
#[derive(Clone, Copy, Debug, PartialEq, Eq, Structural)]
pub enum ExportFormat {
    Csv,
    Json,
    Jsonl,
    Sql,
    Xlsx,
}

#[derive(Clone, Debug)]
pub struct ExportRequest {
    pub format: ExportFormat,
    pub file_path: String,
    pub table_name: Option<String>,
}

#[derive(Clone, Debug)]
pub struct ExportResult {
    pub rows_written: usize,
    pub file_path: String,
}

/// The text of a cell in CSV exports: empty for NULL, `true`/`false`, the
/// number's text, the text itself, or the JSON text.
pub open spec fn export_text_of(v: CellValue) -> Seq<char> {
    match v {
        CellValue::Null => Seq::<char>::empty(),
        CellValue::Bool(b) => if b {
            "true"@
        } else {
            "false"@
        },
        CellValue::Int64(n) => int_text(n as int),
        CellValue::Float64(t) => t@,
        CellValue::String(s) => s@,
        CellValue::DateTime(s) => s@,
        CellValue::Bytes(s) => s@,
        CellValue::Json(t) => t@,
    }
}

/// The text of a cell in CSV exports.
pub fn cell_to_export_string(v: &CellValue) -> (s: String)
    ensures
        s@ == export_text_of(*v),
{
    match v {
        CellValue::Null => String::new(),
        CellValue::Bool(b) => if *b {
            text_of("true")
        } else {
            text_of("false")
        },
        CellValue::Int64(n) => {
            let mut out: Vec<char> = Vec::new();
            crate::text::push_i64(&mut out, *n);
            string_of(&out)
        },
        CellValue::Float64(t) => t.clone(),
        CellValue::String(s) => s.clone(),
        CellValue::DateTime(s) => s.clone(),
        CellValue::Bytes(s) => s.clone(),
        CellValue::Json(t) => t.clone(),
    }
}

/// The SQL literal of a cell in INSERT exports.
pub fn sql_value(v: &CellValue) -> (s: String)
    ensures
        s@ == literal_of(*v),
{
    crate::dml::sql_literal(v)
}

pub open spec fn column_names(cols: Seq<ColumnMeta>) -> Seq<Seq<char>> {
    cols.map_values(|c: ColumnMeta| c.name@)
}

/// The export texts of a row's cells.
pub open spec fn row_texts(row: Seq<CellValue>) -> Seq<Seq<char>> {
    row.map_values(|v: CellValue| export_text_of(v))
}

/// The header names of a page.
pub fn header_names(cols: &Vec<ColumnMeta>) -> (r: Vec<String>)
    ensures
        views(r@) == column_names(cols@),
{
    let mut r: Vec<String> = Vec::new();
    let mut i: usize = 0;
    while i < cols.len()
        invariant
            i <= cols@.len(),
            views(r@) == column_names(cols@).take(i as int),
        decreases cols@.len() - i,
    {
        let name = cols[i].name.clone();
        proof {
            lemma_map_push(r@, name, |s: String| s@);
            assert(column_names(cols@).take(i + 1) =~= column_names(cols@).take(i as int).push(
                name@,
            ));
        }
        r.push(name);
        i = i + 1;
    }
    assert(column_names(cols@).take(cols@.len() as int) == column_names(cols@));
    r
}

/// The export texts of a row.
pub fn row_export_strings(row: &Vec<CellValue>) -> (r: Vec<String>)
    ensures
        views(r@) == row_texts(row@),
{
    let mut r: Vec<String> = Vec::new();
    let mut i: usize = 0;
    while i < row.len()
        invariant
            i <= row@.len(),
            views(r@) == row_texts(row@).take(i as int),
        decreases row@.len() - i,
    {
        let t = cell_to_export_string(&row[i]);
        proof {
            lemma_map_push(r@, t, |s: String| s@);
            assert(row_texts(row@).take(i + 1) =~= row_texts(row@).take(i as int).push(t@));
        }
        r.push(t);
        i = i + 1;
    }
    assert(row_texts(row@).take(row@.len() as int) == row_texts(row@));
    r
}

/// What the `csv` writer produces for these records, or its error.
pub uninterp spec fn csv_written(records: Seq<Seq<Seq<char>>>) -> Result<Seq<u8>, Seq<char>>;

pub open spec fn records_view(records: Seq<Vec<String>>) -> Seq<Seq<Seq<char>>> {
    records.map_values(|r: Vec<String>| views(r@))
}

/// `csv::Writer::from_writer` over a byte buffer (default settings): each
/// record written with `write_record`, then `flush` and `into_inner`; the
/// first error as text. Claimed: the result is `csv_written` of the records.
#[verifier::external_body]
fn write_csv(records: &Vec<Vec<String>>) -> (r: Result<Vec<u8>, String>)
    ensures
        match r {
            Ok(b) => csv_written(records_view(records@)) == Ok::<Seq<u8>, Seq<char>>(b@),
            Err(e) => csv_written(records_view(records@)) == Err::<Seq<u8>, Seq<char>>(e@),
        },
{
    let mut wtr = csv::Writer::from_writer(Vec::new());
    for rec in records {
        wtr.write_record(rec).map_err(|e| e.to_string())?;
    }
    wtr.flush().map_err(|e| e.to_string())?;
    wtr.into_inner().map_err(|e| e.to_string())
}

/// The records of a CSV export: the column names, then each row's cell texts.
pub open spec fn csv_records_of(page: RowPage) -> Seq<Seq<Seq<char>>> {
    seq![column_names(page.columns@)] + page.rows@.map_values(|r: Vec<CellValue>| row_texts(r@))
}

/// The bytes of a CSV export of the page, or the writer's error.
pub fn csv_export(page: &RowPage) -> (r: Result<Vec<u8>, String>)
    ensures
        match r {
            Ok(b) => csv_written(csv_records_of(*page)) == Ok::<Seq<u8>, Seq<char>>(b@),
            Err(e) => csv_written(csv_records_of(*page)) == Err::<Seq<u8>, Seq<char>>(e@),
        },
{
    let mut records: Vec<Vec<String>> = Vec::new();
    let header = header_names(&page.columns);
    proof {
        lemma_map_push(records@, header, |r: Vec<String>| views(r@));
    }
    records.push(header);
    let ghost rows_t = page.rows@.map_values(|r: Vec<CellValue>| row_texts(r@));
    let mut i: usize = 0;
    while i < page.rows.len()
        invariant
            i <= page.rows@.len(),
            rows_t == page.rows@.map_values(|r: Vec<CellValue>| row_texts(r@)),
            records_view(records@) == seq![column_names(page.columns@)] + rows_t.take(i as int),
        decreases page.rows@.len() - i,
    {
        let texts = row_export_strings(&page.rows[i]);
        proof {
            lemma_map_push(records@, texts, |r: Vec<String>| views(r@));
            assert(rows_t.take(i + 1) =~= rows_t.take(i as int).push(views(texts@)));
            assert(seq![column_names(page.columns@)] + rows_t.take(i + 1) =~= (seq![
                column_names(page.columns@),
            ] + rows_t.take(i as int)).push(views(texts@)));
        }
        records.push(texts);
        i = i + 1;
    }
    assert(rows_t.take(page.rows@.len() as int) == rows_t);
    write_csv(&records)
}

/// The table name INSERT exports use.
pub open spec fn export_table() -> Seq<char> {
    "exported_data"@
}

/// The literals of a row's cells.
pub open spec fn row_literals(row: Seq<CellValue>) -> Seq<Seq<char>> {
    row.map_values(|v: CellValue| literal_of(v))
}

/// `INSERT INTO exported_data (<columns>) VALUES (<literals>);`
pub open spec fn insert_line(cols: Seq<ColumnMeta>, row: Seq<CellValue>) -> Seq<char> {
    "INSERT INTO "@ + export_table() + " ("@ + join(column_names(cols), ", "@) + ") VALUES ("@
        + join(row_literals(row), ", "@) + ");"@
}

/// An INSERT script: one line per row, joined by new lines.
pub open spec fn sql_script_of(page: RowPage) -> Seq<char> {
    join(
        page.rows@.map_values(|r: Vec<CellValue>| insert_line(page.columns@, r@)),
        "\n"@,
    )
}

fn push_row_literals(out: &mut Vec<char>, row: &Vec<CellValue>)
    ensures
        final(out)@ == old(out)@ + join(row_literals(row@), ", "@),
{
    let ghost start = out@;
    let ghost terms = row_literals(row@);
    let mut i: usize = 0;
    while i < row.len()
        invariant
            i <= row@.len(),
            terms == row_literals(row@),
            out@ == start + join(terms.take(i as int), ", "@),
        decreases row@.len() - i,
    {
        assert(terms.take(i + 1).drop_last() == terms.take(i as int));
        assert(terms.take(i + 1).last() == literal_of(row@[i as int]));
        if i > 0 {
            push_str(out, ", ");
        }
        push_literal(out, &row[i]);
        i = i + 1;
    }
    assert(terms.take(row@.len() as int) == terms);
}

/// The INSERT script of a page.
pub fn sql_inserts_text(page: &RowPage) -> (s: String)
    ensures
        s@ == sql_script_of(*page),
{
    let names = header_names(&page.columns);
    let mut col_list: Vec<char> = Vec::new();
    crate::text::push_join(&mut col_list, &names, ", ");
    let ghost lines = page.rows@.map_values(|r: Vec<CellValue>| insert_line(page.columns@, r@));
    let mut out: Vec<char> = Vec::new();
    let mut i: usize = 0;
    while i < page.rows.len()
        invariant
            i <= page.rows@.len(),
            col_list@ == join(column_names(page.columns@), ", "@),
            lines == page.rows@.map_values(|r: Vec<CellValue>| insert_line(page.columns@, r@)),
            out@ == join(lines.take(i as int), "\n"@),
        decreases page.rows@.len() - i,
    {
        assert(lines.take(i + 1).drop_last() == lines.take(i as int));
        assert(lines.take(i + 1).last() == insert_line(page.columns@, page.rows@[i as int]@));
        if i > 0 {
            push_str(&mut out, "\n");
        }
        let ghost before = out@;
        push_str(&mut out, "INSERT INTO ");
        push_str(&mut out, "exported_data");
        push_str(&mut out, " (");
        push_chars(&mut out, &col_list);
        push_str(&mut out, ") VALUES (");
        push_row_literals(&mut out, &page.rows[i]);
        push_str(&mut out, ");");
        i = i + 1;
    }
    assert(lines.take(page.rows@.len() as int) == lines);
    string_of(&out)
}

/// A row as the members of its JSON object: each column paired with the
/// cell at its position, NULL where the row is short.
pub open spec fn row_object_of(cols: Seq<ColumnMeta>, row: Seq<CellValue>) -> Seq<
    (Seq<char>, CellValue),
> {
    Seq::new(
        cols.len(),
        |i: int|
            (
                cols[i].name@,
                if i < row.len() {
                    row[i]
                } else {
                    CellValue::Null
                },
            ),
    )
}

/// A copy of a cell.
pub fn copy_cell(v: &CellValue) -> (c: CellValue)
    ensures
        c == *v,
{
    match v {
        CellValue::Null => CellValue::Null,
        CellValue::Bool(b) => CellValue::Bool(*b),
        CellValue::Int64(n) => CellValue::Int64(*n),
        CellValue::Float64(t) => CellValue::Float64(t.clone()),
        CellValue::String(s) => CellValue::String(s.clone()),
        CellValue::Bytes(s) => CellValue::Bytes(s.clone()),
        CellValue::Json(t) => CellValue::Json(t.clone()),
        CellValue::DateTime(s) => CellValue::DateTime(s.clone()),
    }
}

/// The members of a row's JSON object, in column order (a later column of the
/// same name replaces an earlier one when the object is built).
pub fn row_to_object(cols: &Vec<ColumnMeta>, row: &Vec<CellValue>) -> (r: Vec<(String, CellValue)>)
    ensures
        r@.map_values(|e: (String, CellValue)| (e.0@, e.1)) == row_object_of(cols@, row@),
{
    let ghost want = row_object_of(cols@, row@);
    let mut r: Vec<(String, CellValue)> = Vec::new();
    let mut i: usize = 0;
    while i < cols.len()
        invariant
            i <= cols@.len(),
            want == row_object_of(cols@, row@),
            r@.map_values(|e: (String, CellValue)| (e.0@, e.1)) == want.take(i as int),
        decreases cols@.len() - i,
    {
        let v = if i < row.len() {
            copy_cell(&row[i])
        } else {
            CellValue::Null
        };
        let e = (cols[i].name.clone(), v);
        proof {
            lemma_map_push(r@, e, |e: (String, CellValue)| (e.0@, e.1));
            assert(want.take(i + 1) =~= want.take(i as int).push((e.0@, e.1)));
        }
        r.push(e);
        i = i + 1;
    }
    assert(want.take(cols@.len() as int) == want);
    r
}

/// How a cell is written to a spreadsheet.
#[derive(Clone, Debug)]
pub enum XlsxCell {
    Blank,
    Boolean(bool),
    /// An integer, written as a number.
    Integer(i64),
    /// A double, given by its text, written as a number.
    Number(String),
    Text(String),
}

/// NULL is a blank cell, booleans and numbers keep their type, and text,
/// times, bytes and JSON are written as text.
pub open spec fn xlsx_cell_of(v: CellValue) -> XlsxCell {
    match v {
        CellValue::Null => XlsxCell::Blank,
        CellValue::Bool(b) => XlsxCell::Boolean(b),
        CellValue::Int64(n) => XlsxCell::Integer(n),
        CellValue::Float64(t) => XlsxCell::Number(t),
        CellValue::String(s) => XlsxCell::Text(s),
        CellValue::DateTime(s) => XlsxCell::Text(s),
        CellValue::Bytes(s) => XlsxCell::Text(s),
        CellValue::Json(t) => XlsxCell::Text(t),
    }
}

/// How a cell is written to a spreadsheet.
pub fn xlsx_cell(v: &CellValue) -> (c: XlsxCell)
    ensures
        c == xlsx_cell_of(*v),
{
    match v {
        CellValue::Null => XlsxCell::Blank,
        CellValue::Bool(b) => XlsxCell::Boolean(*b),
        CellValue::Int64(n) => XlsxCell::Integer(*n),
        CellValue::Float64(t) => XlsxCell::Number(t.clone()),
        CellValue::String(s) => XlsxCell::Text(s.clone()),
        CellValue::DateTime(s) => XlsxCell::Text(s.clone()),
        CellValue::Bytes(s) => XlsxCell::Text(s.clone()),
        CellValue::Json(t) => XlsxCell::Text(t.clone()),
    }
}

/// The spreadsheet position of a data cell: the header takes row 0, so data
/// row `i` is sheet row `i + 1` (both indexes cut to the sheet's integer
/// widths).
pub fn xlsx_position(row_index: usize, col_index: usize) -> (p: (u32, u16))
    requires
        row_index < usize::MAX,
    ensures
        p.0 == (row_index + 1) as u32,
        p.1 == col_index as u16,
{
    let r: usize = row_index + 1;
    (#[verifier::truncate] (r as u32), #[verifier::truncate] (col_index as u16))
}

/// What an export reports: the rows written and the file.
pub fn export_result(page: &RowPage, file_path: &str) -> (r: ExportResult)
    ensures
        r.rows_written == page.rows@.len(),
        r.file_path@ == file_path@,
{
    ExportResult { rows_written: page.rows.len(), file_path: text_of(file_path) }
}

/// A boolean cell exports as its value's text, `true` or `false`, so cells
/// with different booleans export to different texts; and its SQL literal is
/// the same word upper-cased.
pub proof fn law_boolean_export_text(b: bool, c: bool)
    ensures
        export_text_of(CellValue::Bool(b)) == (if b {
            "true"@
        } else {
            "false"@
        }),
        b != c ==> export_text_of(CellValue::Bool(b)) != export_text_of(CellValue::Bool(c)),
        literal_of(CellValue::Bool(b)) == (if b {
            "TRUE"@
        } else {
            "FALSE"@
        }),
{
    reveal_strlit("true");
    reveal_strlit("false");
    if b != c {
        assert(export_text_of(CellValue::Bool(b)).len() != export_text_of(CellValue::Bool(c)).len());
    }
}

/// Each exported cell text is the cell's own: a CSV export holds the column
/// names first and then, for every row, each cell's export text in place.
pub proof fn law_csv_records_hold_cells(page: RowPage, i: int, j: int)
    requires
        0 <= i < page.rows@.len(),
        0 <= j < page.rows@[i]@.len(),
    ensures
        csv_records_of(page).len() == page.rows@.len() + 1,
        csv_records_of(page)[i + 1][j] == export_text_of(page.rows@[i]@[j]),
{
    assert(csv_records_of(page)[i + 1] == row_texts(page.rows@[i]@));
}

} // verus!
