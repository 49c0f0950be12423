//! What the drivers make of what a database sends back: cell values from the
//! decodings a column allows, result sets, pages, query plans and the table
//! metadata of MySQL and SQLite.
use crate::drivers::{
    catalog_columns, column_of, column_view, pragma_column, pragma_columns, pragma_key, PragmaRow,
};
use crate::drivers::affected_message;
use crate::text::{nat_text, push_str, string_of, text_of, views};
use crate::types::{
    CellValue, ColumnMeta, DatabaseMeta, ExecuteResult, ExplainPlan, ExplainRow, RowPage,
    SchemaMeta, SchemaNode, TableMeta,
};
use vstd::prelude::*;

verus! {

// ---------------------------------------------------------------------------
// Cells
// ---------------------------------------------------------------------------

/// What decoding one column of a result row as each type gave: `None` when
/// the column does not decode as that type, `Some(None)` for SQL NULL,
/// `Some(Some(v))` for a value. A double is held as its `Display` text and a
/// JSON value as its compact text.
#[derive(Clone, Debug)]
pub struct CellProbes {
    pub as_i32: Option<Option<i32>>,
    pub as_bool: Option<Option<bool>>,
    pub as_i64: Option<Option<i64>>,
    pub as_f64: Option<Option<String>>,
    pub as_json: Option<Option<String>>,
    pub as_text: Option<Option<String>>,
}

/// The cell of a PostgreSQL or MySQL column: the first of boolean, integer,
/// double and JSON that decodes to a value, else the text, else NULL.
pub open spec fn typed_cell_of(p: CellProbes) -> CellValue {
    match p.as_bool {
        Some(Some(b)) => CellValue::Bool(b),
        _ => match p.as_i64 {
            Some(Some(n)) => CellValue::Int64(n),
            _ => match p.as_f64 {
                Some(Some(t)) => CellValue::Float64(t),
                _ => match p.as_json {
                    Some(Some(j)) => CellValue::Json(j),
                    _ => match p.as_text {
                        Some(Some(s)) => CellValue::String(s),
                        _ => CellValue::Null,
                    },
                },
            },
        },
    }
}

/// The cell of a SQLite column: integer, else double, else text, else NULL.
pub open spec fn sqlite_cell_of(p: CellProbes) -> CellValue {
    match p.as_i64 {
        Some(Some(n)) => CellValue::Int64(n),
        _ => match p.as_f64 {
            Some(Some(t)) => CellValue::Float64(t),
            _ => match p.as_text {
                Some(Some(s)) => CellValue::String(s),
                _ => CellValue::Null,
            },
        },
    }
}

pub open spec fn decodes_to_value<T>(p: Option<Option<T>>) -> bool {
    p matches Some(Some(_))
}

/// The cell of a MySQL column.
pub fn mysql_cell(p: CellProbes) -> (c: CellValue)
    ensures
        c == typed_cell_of(p),
{
    if let Some(Some(b)) = p.as_bool {
        return CellValue::Bool(b);
    }
    if let Some(Some(n)) = p.as_i64 {
        return CellValue::Int64(n);
    }
    if let Some(Some(t)) = p.as_f64 {
        return CellValue::Float64(t);
    }
    if let Some(Some(j)) = p.as_json {
        return CellValue::Json(j);
    }
    match p.as_text {
        Some(Some(s)) => CellValue::String(s),
        _ => CellValue::Null,
    }
}

/// The cell of a PostgreSQL column. A column that decodes to no value as any
/// type and as NULL text is NULL at once; otherwise the MySQL order applies,
/// so the result is always `typed_cell_of`.
pub fn pg_cell(p: CellProbes) -> (c: CellValue)
    ensures
        c == typed_cell_of(p),
{
    let no_value = !decodes_i32(&p.as_i32) && !decodes_text(&p.as_text) && !decodes_bool(
        &p.as_bool,
    ) && !decodes_i64(&p.as_i64) && !decodes_text(&p.as_f64) && !decodes_text(&p.as_json);
    if no_value {
        if let Some(None) = p.as_text {
            return CellValue::Null;
        }
    }
    mysql_cell(p)
}

fn decodes_i32(p: &Option<Option<i32>>) -> (b: bool)
    ensures
        b == decodes_to_value(*p),
{
    match p {
        Some(Some(_)) => true,
        _ => false,
    }
}

fn decodes_i64(p: &Option<Option<i64>>) -> (b: bool)
    ensures
        b == decodes_to_value(*p),
{
    match p {
        Some(Some(_)) => true,
        _ => false,
    }
}

fn decodes_bool(p: &Option<Option<bool>>) -> (b: bool)
    ensures
        b == decodes_to_value(*p),
{
    match p {
        Some(Some(_)) => true,
        _ => false,
    }
}

fn decodes_text(p: &Option<Option<String>>) -> (b: bool)
    ensures
        b == decodes_to_value(*p),
{
    match p {
        Some(Some(_)) => true,
        _ => false,
    }
}

/// The cell of a SQLite column.
pub fn sqlite_cell(p: CellProbes) -> (c: CellValue)
    ensures
        c == sqlite_cell_of(p),
{
    if let Some(Some(n)) = p.as_i64 {
        return CellValue::Int64(n);
    }
    if let Some(Some(t)) = p.as_f64 {
        return CellValue::Float64(t);
    }
    match p.as_text {
        Some(Some(s)) => CellValue::String(s),
        _ => CellValue::Null,
    }
}

// ---------------------------------------------------------------------------
// Result sets
// ---------------------------------------------------------------------------

/// The columns of a result set, from each column's name and type name: all
/// nullable, none part of a key.
pub fn result_columns(cols: Vec<(String, String)>) -> (r: Vec<ColumnMeta>)
    ensures
        r@.len() == cols@.len(),
        forall|i: int|
            0 <= i < r@.len() ==> column_view(#[trigger] r@[i]) == (
                cols@[i].0@,
                cols@[i].1@,
                true,
                false,
            ),
{
    let mut r: Vec<ColumnMeta> = Vec::new();
    let mut i: usize = 0;
    while i < cols.len()
        invariant
            i <= cols@.len(),
            r@.len() == i,
            forall|j: int|
                0 <= j < i ==> column_view(#[trigger] r@[j]) == (
                    cols@[j].0@,
                    cols@[j].1@,
                    true,
                    false,
                ),
        decreases cols@.len() - i,
    {
        let c = &cols[i];
        r.push(
            ColumnMeta {
                name: c.0.clone(),
                data_type: c.1.clone(),
                nullable: true,
                is_primary_key: false,
            },
        );
        i = i + 1;
    }
    r
}

/// The result of a statement that changed data or schema: no columns or
/// rows, the count of affected rows and the message `影响 <n> 行`.
pub fn change_result(rows_affected: u64, elapsed_ms: u64) -> (r: ExecuteResult)
    ensures
        r.columns@.len() == 0,
        r.rows@.len() == 0,
        r.rows_affected == rows_affected,
        r.execution_time_ms == elapsed_ms,
        r.message matches Some(m) && m@ == "影响 "@ + nat_text(rows_affected as nat) + " 行"@,
{
    ExecuteResult {
        columns: Vec::new(),
        rows: Vec::new(),
        rows_affected,
        execution_time_ms: elapsed_ms,
        message: Some(affected_message(rows_affected)),
    }
}

/// The result of a query: its columns and rows, the row count as the count
/// of affected rows, and no message.
pub fn rows_result(columns: Vec<ColumnMeta>, rows: Vec<Vec<CellValue>>, elapsed_ms: u64) -> (r:
    ExecuteResult)
    ensures
        r.columns@ == columns@,
        r.rows@ == rows@,
        r.rows_affected == rows@.len(),
        r.execution_time_ms == elapsed_ms,
        r.message is None,
{
    let n = rows.len() as u64;
    ExecuteResult { columns, rows, rows_affected: n, execution_time_ms: elapsed_ms, message: None }
}

/// A page of rows as asked for: the offset and limit of the request, and no
/// total.
pub fn page_of(columns: Vec<ColumnMeta>, rows: Vec<Vec<CellValue>>, offset: u64, limit: u64) -> (r:
    RowPage)
    ensures
        r.columns@ == columns@,
        r.rows@ == rows@,
        r.total_rows is None,
        r.offset == offset,
        r.limit == limit,
{
    RowPage { columns, rows, total_rows: None, offset, limit }
}

// ---------------------------------------------------------------------------
// Query plans
// ---------------------------------------------------------------------------

/// A plan row of one field: `label` and the text.
pub open spec fn single_field_row(label: Seq<char>, text: Seq<char>, r: ExplainRow) -> bool {
    &&& r.fields@.len() == 1
    &&& r.fields@[0].0@ == label
    &&& r.fields@[0].1 matches CellValue::String(s) && s@ == text
}

/// The plan of PostgreSQL (one `QUERY PLAN` text per row) or SQLite (one
/// `detail` text per row): each row one field under `label`.
pub fn single_field_plan(label: &str, texts: Vec<String>) -> (p: ExplainPlan)
    ensures
        p.raw is None,
        p.rows@.len() == texts@.len(),
        forall|i: int| 0 <= i < p.rows@.len() ==> single_field_row(label@, texts@[i]@, #[trigger] p.rows@[i]),
{
    let mut rows: Vec<ExplainRow> = Vec::new();
    let mut i: usize = 0;
    while i < texts.len()
        invariant
            i <= texts@.len(),
            rows@.len() == i,
            forall|j: int| 0 <= j < i ==> single_field_row(label@, texts@[j]@, #[trigger] rows@[j]),
        decreases texts@.len() - i,
    {
        let mut fields: Vec<(String, CellValue)> = Vec::new();
        fields.push((text_of(label), CellValue::String(texts[i].clone())));
        rows.push(ExplainRow { fields });
        i = i + 1;
    }
    ExplainPlan { rows, raw: None }
}

/// A plan row made of named texts, in column order.
pub open spec fn named_fields_row(cols: Seq<(String, String)>, r: ExplainRow) -> bool {
    &&& r.fields@.len() == cols.len()
    &&& forall|k: int|
        0 <= k < cols.len() ==> (#[trigger] r.fields@[k]).0@ == cols[k].0@ && (r.fields@[k].1 matches CellValue::String(
            s,
        ) && s@ == cols[k].1@)
}

fn named_fields(cols: &Vec<(String, String)>) -> (r: ExplainRow)
    ensures
        named_fields_row(cols@, r),
{
    let mut fields: Vec<(String, CellValue)> = Vec::new();
    let mut k: usize = 0;
    while k < cols.len()
        invariant
            k <= cols@.len(),
            fields@.len() == k,
            forall|q: int|
                0 <= q < k ==> (#[trigger] fields@[q]).0@ == cols@[q].0@ && (fields@[q].1 matches CellValue::String(
                    s,
                ) && s@ == cols@[q].1@),
        decreases cols@.len() - k,
    {
        fields.push((cols[k].0.clone(), CellValue::String(cols[k].1.clone())));
        k = k + 1;
    }
    ExplainRow { fields }
}

/// The plan of MySQL: each row its columns' names and texts.
pub fn named_fields_plan(rows: &Vec<Vec<(String, String)>>) -> (p: ExplainPlan)
    ensures
        p.raw is None,
        p.rows@.len() == rows@.len(),
        forall|i: int| 0 <= i < p.rows@.len() ==> named_fields_row(rows@[i]@, #[trigger] p.rows@[i]),
{
    let mut out: Vec<ExplainRow> = Vec::new();
    let mut i: usize = 0;
    while i < rows.len()
        invariant
            i <= rows@.len(),
            out@.len() == i,
            forall|j: int| 0 <= j < i ==> named_fields_row(rows@[j]@, #[trigger] out@[j]),
        decreases rows@.len() - i,
    {
        out.push(named_fields(&rows[i]));
        i = i + 1;
    }
    ExplainPlan { rows: out, raw: None }
}

// ---------------------------------------------------------------------------
// Table metadata
// ---------------------------------------------------------------------------

/// A table of a MySQL database: under the database's name, its columns from
/// the catalog rows (nullable when `YES`), no key.
pub fn mysql_table(database: &str, table: String, rows: &Vec<(String, String, String)>) -> (t:
    TableMeta)
    ensures
        t.schema@ == database@,
        t.name == table,
        t.columns@.len() == rows@.len(),
        forall|i: int|
            0 <= i < t.columns@.len() ==> column_view(#[trigger] t.columns@[i]) == column_of(
                rows@[i],
                Seq::empty(),
            ),
        t.primary_key@.len() == 0,
        t.row_count is None,
{
    let none: Vec<String> = Vec::new();
    let columns = catalog_columns(rows, &none);
    assert(views(none@) =~= Seq::<Seq<char>>::empty());
    TableMeta {
        schema: text_of(database),
        name: table,
        columns,
        primary_key: Vec::new(),
        row_count: None,
    }
}

/// A table of a PostgreSQL schema: its columns from the catalog rows, key
/// columns marked, and the key.
pub fn pg_table(schema: String, table: String, rows: &Vec<(String, String, String)>, pk: Vec<
    String,
>) -> (t: TableMeta)
    ensures
        t.schema == schema,
        t.name == table,
        t.columns@.len() == rows@.len(),
        forall|i: int|
            0 <= i < t.columns@.len() ==> column_view(#[trigger] t.columns@[i]) == column_of(
                rows@[i],
                views(pk@),
            ),
        t.primary_key@ == pk@,
        t.row_count is None,
{
    let columns = catalog_columns(rows, &pk);
    TableMeta { schema, name: table, columns, primary_key: pk, row_count: None }
}

/// A table of a SQLite file: in schema `main`, columns and key from its
/// `table_info` rows.
pub fn sqlite_table(table: String, rows: &Vec<PragmaRow>) -> (t: TableMeta)
    ensures
        t.schema@ == "main"@,
        t.name == table,
        t.columns@.len() == rows@.len(),
        forall|i: int|
            0 <= i < t.columns@.len() ==> column_view(#[trigger] t.columns@[i]) == pragma_column(
                rows@[i],
            ),
        views(t.primary_key@) == pragma_key(rows@),
        t.row_count is None,
{
    let (columns, key) = pragma_columns(rows);
    TableMeta { schema: text_of("main"), name: table, columns, primary_key: key, row_count: None }
}

/// `PRAGMA table_info("<table>")`, the name not escaped.
pub fn table_info_sql(table: &str) -> (s: String)
    ensures
        s@ == "PRAGMA table_info(\""@ + table@ + "\")"@,
{
    let mut out: Vec<char> = Vec::new();
    push_str(&mut out, "PRAGMA table_info(\"");
    push_str(&mut out, table);
    push_str(&mut out, "\")");
    string_of(&out)
}

/// A database tree with one schema node holding `tables` and no views.
pub open spec fn single_schema_meta(
    m: SchemaMeta,
    database: Seq<char>,
    schema: Seq<char>,
    tables: Seq<TableMeta>,
) -> bool {
    &&& m.databases@.len() == 1
    &&& m.databases@[0].name@ == database
    &&& m.databases@[0].schemas@.len() == 1
    &&& m.databases@[0].schemas@[0].name@ == schema
    &&& m.databases@[0].schemas@[0].tables@ == tables
    &&& m.databases@[0].schemas@[0].views@.len() == 0
}

fn single_schema(database: &str, schema: &str, tables: Vec<TableMeta>) -> (m: SchemaMeta)
    ensures
        single_schema_meta(m, database@, schema@, tables@),
{
    let mut schemas: Vec<SchemaNode> = Vec::new();
    schemas.push(SchemaNode { name: text_of(schema), tables, views: Vec::new() });
    let mut databases: Vec<DatabaseMeta> = Vec::new();
    databases.push(DatabaseMeta { name: text_of(database), schemas });
    SchemaMeta { databases }
}

/// The tree of a MySQL database: one database and one schema, both named
/// after it.
pub fn mysql_schema_meta(database: &str, tables: Vec<TableMeta>) -> (m: SchemaMeta)
    ensures
        single_schema_meta(m, database@, database@, tables@),
{
    single_schema(database, database, tables)
}

/// The tree of a SQLite file: the file's path as the database, one schema
/// `main`.
pub fn sqlite_schema_meta(path: &str, tables: Vec<TableMeta>) -> (m: SchemaMeta)
    ensures
        single_schema_meta(m, path@, "main"@, tables@),
{
    single_schema(path, "main", tables)
}

} // verus!
