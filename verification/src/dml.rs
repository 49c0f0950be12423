//! UPDATE statements for inline cell edits, located by primary key.
use crate::text::{
    int_text, join, names_distinct, push_i64, push_quoted, push_str, quoted_literal, string_of,
    text_of,
};
use crate::types::{CellValue, Dialect};
use vstd::prelude::*;

verus! {

/// A cell edit.
#[derive(Clone, Debug)]
pub struct CellChangeRequest {
    pub schema: Option<String>,
    pub table: String,
    /// The primary-key columns of the row with their values, in the order the
    /// WHERE clause lists them; each column once, as in a map.
    pub primary_key: Vec<(String, CellValue)>,
    pub column: String,
    pub old_value: CellValue,
    pub new_value: CellValue,
}

/// A statement shown to the user before it runs.
#[derive(Clone, Debug)]
pub struct DmlPreview {
    pub sql: String,
    pub operation: String,
}

/// The SQL literal of a cell: `NULL`, `TRUE`/`FALSE`, the number's text, or
/// the text between single quotes with its quotes doubled.
pub open spec fn literal_of(v: CellValue) -> Seq<char> {
    match v {
        CellValue::Null => "NULL"@,
        CellValue::Bool(b) => if b {
            "TRUE"@
        } else {
            "FALSE"@
        },
        CellValue::Int64(n) => int_text(n as int),
        CellValue::Float64(t) => t@,
        CellValue::String(s) => quoted_literal(s@),
        CellValue::DateTime(s) => quoted_literal(s@),
        CellValue::Bytes(s) => quoted_literal(s@),
        CellValue::Json(t) => quoted_literal(t@),
    }
}

/// An identifier quoted for the dialect: backticks for MySQL, double
/// quotes otherwise. The name is not escaped.
pub open spec fn quoted_ident_of(d: Dialect, name: Seq<char>) -> Seq<char> {
    match d {
        Dialect::Mysql => "`"@ + name + "`"@,
        _ => "\""@ + name + "\""@,
    }
}

/// The table reference: PostgreSQL qualifies it with the schema (`public`
/// when none is given); MySQL and SQLite name the table alone.
pub open spec fn qualified_table_of(d: Dialect, schema: Option<Seq<char>>, table: Seq<char>) -> Seq<
    char,
> {
    match d {
        Dialect::Postgres => {
            let sch = match schema {
                Some(s) => s,
                None => "public"@,
            };
            "\""@ + sch + "\".\""@ + table + "\""@
        },
        Dialect::Mysql => "`"@ + table + "`"@,
        Dialect::Sqlite => "\""@ + table + "\""@,
    }
}

/// `col = literal`.
pub open spec fn assignment_of(d: Dialect, col: Seq<char>, v: CellValue) -> Seq<char> {
    quoted_ident_of(d, col) + " = "@ + literal_of(v)
}

/// The terms of the key condition, one per key column.
pub open spec fn pk_terms(d: Dialect, pk: Seq<(String, CellValue)>) -> Seq<Seq<char>> {
    pk.map_values(|e: (String, CellValue)| assignment_of(d, e.0@, e.1))
}

/// The key condition: the terms joined by ` AND `.
pub open spec fn pk_where_of(d: Dialect, pk: Seq<(String, CellValue)>) -> Seq<char> {
    join(pk_terms(d, pk), " AND "@)
}

pub open spec fn opt_text(o: Option<String>) -> Option<Seq<char>> {
    match o {
        Some(s) => Some(s@),
        None => None,
    }
}

/// `UPDATE <table> SET <col> = <new> WHERE <key condition>;`
pub open spec fn update_sql_of(d: Dialect, c: CellChangeRequest) -> Seq<char> {
    "UPDATE "@ + qualified_table_of(d, opt_text(c.schema), c.table@) + " SET "@ + assignment_of(
        d,
        c.column@,
        c.new_value,
    ) + " WHERE "@ + pk_where_of(d, c.primary_key@) + ";"@
}

pub open spec fn no_key_message() -> Seq<char> {
    "该表没有主键，无法安全内联编辑"@
}

pub open spec fn unchanged_message() -> Seq<char> {
    "值未变化"@
}

/// What an edit gives: the refusal message, or the statement.
pub open spec fn update_result_of(d: Dialect, c: CellChangeRequest) -> Result<Seq<char>, Seq<char>> {
    if c.primary_key@.len() == 0 {
        Err(no_key_message())
    } else if c.new_value is Null && c.old_value is Null {
        Err(unchanged_message())
    } else {
        Ok(update_sql_of(d, c))
    }
}

/// Appends the SQL literal of `v`.
pub fn push_literal(out: &mut Vec<char>, v: &CellValue)
    ensures
        final(out)@ == old(out)@ + literal_of(*v),
{
    match v {
        CellValue::Null => push_str(out, "NULL"),
        CellValue::Bool(b) => {
            if *b {
                push_str(out, "TRUE")
            } else {
                push_str(out, "FALSE")
            }
        },
        CellValue::Int64(n) => push_i64(out, *n),
        CellValue::Float64(t) => push_str(out, t.as_str()),
        CellValue::String(s) => push_quoted(out, s.as_str()),
        CellValue::DateTime(s) => push_quoted(out, s.as_str()),
        CellValue::Bytes(s) => push_quoted(out, s.as_str()),
        CellValue::Json(t) => push_quoted(out, t.as_str()),
    }
}

/// The SQL literal of a cell.
pub fn sql_literal(v: &CellValue) -> (s: String)
    ensures
        s@ == literal_of(*v),
{
    let mut out: Vec<char> = Vec::new();
    push_literal(&mut out, v);
    string_of(&out)
}

/// Appends an identifier quoted for the dialect.
pub fn push_quoted_ident(out: &mut Vec<char>, d: Dialect, name: &str)
    ensures
        final(out)@ == old(out)@ + quoted_ident_of(d, name@),
{
    match d {
        Dialect::Mysql => {
            push_str(out, "`");
            push_str(out, name);
            push_str(out, "`");
        },
        _ => {
            push_str(out, "\"");
            push_str(out, name);
            push_str(out, "\"");
        },
    }
}

/// An identifier quoted for the dialect.
pub fn quote_ident(d: Dialect, name: &str) -> (s: String)
    ensures
        s@ == quoted_ident_of(d, name@),
{
    let mut out: Vec<char> = Vec::new();
    push_quoted_ident(&mut out, d, name);
    string_of(&out)
}

/// The table reference for the dialect.
pub fn qualified_table(d: Dialect, schema: &Option<String>, table: &str) -> (s: String)
    ensures
        s@ == qualified_table_of(d, opt_text(*schema), table@),
{
    let mut out: Vec<char> = Vec::new();
    match d {
        Dialect::Postgres => {
            push_str(&mut out, "\"");
            match schema {
                Some(sch) => push_str(&mut out, sch.as_str()),
                None => push_str(&mut out, "public"),
            }
            push_str(&mut out, "\".\"");
            push_str(&mut out, table);
            push_str(&mut out, "\"");
        },
        Dialect::Mysql => {
            push_str(&mut out, "`");
            push_str(&mut out, table);
            push_str(&mut out, "`");
        },
        Dialect::Sqlite => {
            push_str(&mut out, "\"");
            push_str(&mut out, table);
            push_str(&mut out, "\"");
        },
    }
    string_of(&out)
}

/// Appends `col = literal`.
fn push_assignment(out: &mut Vec<char>, d: Dialect, col: &str, v: &CellValue)
    ensures
        final(out)@ == old(out)@ + assignment_of(d, col@, *v),
{
    push_quoted_ident(out, d, col);
    push_str(out, " = ");
    push_literal(out, v);
}

/// Appends the key condition.
fn push_pk_where(out: &mut Vec<char>, d: Dialect, pk: &Vec<(String, CellValue)>)
    ensures
        final(out)@ == old(out)@ + pk_where_of(d, pk@),
{
    let ghost start = out@;
    let ghost terms = pk_terms(d, pk@);
    let mut i: usize = 0;
    while i < pk.len()
        invariant
            i <= pk@.len(),
            terms == pk_terms(d, pk@),
            out@ == start + join(terms.take(i as int), " AND "@),
        decreases pk@.len() - i,
    {
        assert(terms.take(i + 1).drop_last() == terms.take(i as int));
        if i > 0 {
            push_str(out, " AND ");
        }
        let entry = &pk[i];
        push_assignment(out, d, entry.0.as_str(), &entry.1);
        i = i + 1;
    }
    assert(terms.take(pk@.len() as int) == terms);
}

/// The key condition of a row.
pub fn pk_where(d: Dialect, pk: &Vec<(String, CellValue)>) -> (s: String)
    ensures
        s@ == pk_where_of(d, pk@),
{
    let mut out: Vec<char> = Vec::new();
    push_pk_where(&mut out, d, pk);
    string_of(&out)
}

/// The UPDATE statement for a cell edit. Refused when the row has no key
/// columns, and when both the old and the new value are NULL. The key columns
/// are named once each, as in a map.
pub fn generate_update(d: Dialect, change: &CellChangeRequest) -> (r: Result<DmlPreview, String>)
    requires
        names_distinct(change.primary_key@),
    ensures
        match r {
            Ok(p) => update_result_of(d, *change) == Ok::<Seq<char>, Seq<char>>(p.sql@)
                && p.operation@ == "UPDATE"@,
            Err(m) => update_result_of(d, *change) == Err::<Seq<char>, Seq<char>>(m@),
        },
{
    if change.primary_key.len() == 0 {
        return Err(text_of("该表没有主键，无法安全内联编辑"));
    }
    let both_null = match (&change.new_value, &change.old_value) {
        (CellValue::Null, CellValue::Null) => true,
        _ => false,
    };
    if both_null {
        return Err(text_of("值未变化"));
    }
    let mut out: Vec<char> = Vec::new();
    push_str(&mut out, "UPDATE ");
    let table_ref = qualified_table(d, &change.schema, change.table.as_str());
    push_str(&mut out, table_ref.as_str());
    push_str(&mut out, " SET ");
    push_assignment(&mut out, d, change.column.as_str(), &change.new_value);
    push_str(&mut out, " WHERE ");
    push_pk_where(&mut out, d, &change.primary_key);
    push_str(&mut out, ";");
    Ok(DmlPreview { sql: string_of(&out), operation: text_of("UPDATE") })
}

/// An edit of a row with key columns is refused as unchanged only when both
/// the old and the new value are NULL: a cell that held a value can be set
/// to anything, NULL included, and any cell can be set to a value. The
/// statement then sets the column to the new value's literal and ends with
/// the key condition.
pub proof fn law_edit_refused_only_without_key_or_change(d: Dialect, c: CellChangeRequest)
    requires
        c.primary_key@.len() > 0,
    ensures
        !(c.old_value is Null && c.new_value is Null) ==> update_result_of(d, c) is Ok,
        update_result_of(d, c) is Err <==> (c.old_value is Null && c.new_value is Null),
        update_result_of(d, c) matches Ok(sql) ==> exists|a: Seq<char>|
            sql == a + " SET "@ + quoted_ident_of(d, c.column@) + " = "@ + literal_of(c.new_value)
                + " WHERE "@ + pk_where_of(d, c.primary_key@) + ";"@,
        update_result_of(d, c) matches Err(m) ==> m == "值未变化"@,
{
    if update_result_of(d, c) is Ok {
        let a = "UPDATE "@ + qualified_table_of(d, opt_text(c.schema), c.table@);
        assert(update_result_of(d, c)->Ok_0 == a + " SET "@ + quoted_ident_of(d, c.column@) + " = "@
            + literal_of(c.new_value) + " WHERE "@ + pk_where_of(d, c.primary_key@) + ";"@);
    }
}

/// Without key columns every edit is refused, with the no-key message.
pub proof fn law_edit_without_key_refused(d: Dialect, c: CellChangeRequest)
    requires
        c.primary_key@.len() == 0,
    ensures
        update_result_of(d, c) == Err::<Seq<char>, Seq<char>>("该表没有主键，无法安全内联编辑"@),
{
}

} // verus!
