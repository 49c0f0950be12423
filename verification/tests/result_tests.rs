use simplsource::results::{
    change_result, mysql_cell, mysql_schema_meta, mysql_table, named_fields_plan, page_of, pg_cell, pg_table, result_columns,
    rows_result, single_field_plan, sqlite_cell, sqlite_schema_meta, sqlite_table, table_info_sql, CellProbes,
};
use simplsource::types::CellValue;

fn none() -> CellProbes {
    CellProbes { as_i32: None, as_bool: None, as_i64: None, as_f64: None, as_json: None, as_text: None }
}

#[test]
fn cells_follow_decoding_order() {
    let p = CellProbes { as_bool: Some(Some(true)), as_i64: Some(Some(1)), ..none() };
    assert!(matches!(mysql_cell(p.clone()), CellValue::Bool(true)));
    assert!(matches!(pg_cell(p), CellValue::Bool(true)));
    let p = CellProbes { as_i64: Some(Some(7)), as_f64: Some(Some("7".into())), as_text: Some(Some("7".into())), ..none() };
    assert!(matches!(mysql_cell(p.clone()), CellValue::Int64(7)));
    assert!(matches!(sqlite_cell(p), CellValue::Int64(7)));
    let p = CellProbes { as_f64: Some(Some("1.5".into())), ..none() };
    assert!(matches!(pg_cell(p), CellValue::Float64(t) if t == "1.5"));
    let p = CellProbes { as_json: Some(Some("{}".into())), as_text: Some(Some("{}".into())), ..none() };
    assert!(matches!(pg_cell(p.clone()), CellValue::Json(t) if t == "{}"));
    assert!(matches!(sqlite_cell(p), CellValue::String(t) if t == "{}"));
    let p = CellProbes { as_text: Some(Some("x".into())), ..none() };
    assert!(matches!(mysql_cell(p), CellValue::String(t) if t == "x"));
}

#[test]
fn nulls_and_undecodable_cells() {
    let p = CellProbes { as_i32: Some(None), as_bool: Some(None), as_i64: Some(None), as_text: Some(None), ..none() };
    assert!(matches!(pg_cell(p.clone()), CellValue::Null));
    assert!(matches!(mysql_cell(p.clone()), CellValue::Null));
    assert!(matches!(sqlite_cell(p), CellValue::Null));
    assert!(matches!(pg_cell(none()), CellValue::Null));
    let p = CellProbes { as_i32: Some(Some(4)), as_text: Some(None), ..none() };
    assert!(matches!(pg_cell(p), CellValue::Null));
}

#[test]
fn result_sets_and_pages() {
    let cols = result_columns(vec![("id".into(), "INT8".into())]);
    assert_eq!(cols[0].name, "id");
    assert_eq!(cols[0].data_type, "INT8");
    assert!(cols[0].nullable && !cols[0].is_primary_key);
    let r = change_result(4, 12);
    assert_eq!(r.rows_affected, 4);
    assert_eq!(r.execution_time_ms, 12);
    assert_eq!(r.message.as_deref(), Some("影响 4 行"));
    assert!(r.columns.is_empty() && r.rows.is_empty());
    let q = rows_result(cols.clone(), vec![vec![CellValue::Int64(1)], vec![CellValue::Null]], 3);
    assert_eq!(q.rows_affected, 2);
    assert!(q.message.is_none());
    let p = page_of(cols, vec![], 10, 20);
    assert_eq!((p.offset, p.limit), (10, 20));
    assert!(p.total_rows.is_none());
}

#[test]
fn plans() {
    let p = single_field_plan("QUERY PLAN", vec!["Seq Scan on t".into()]);
    assert_eq!(p.rows.len(), 1);
    assert_eq!(p.rows[0].fields[0].0, "QUERY PLAN");
    assert!(matches!(&p.rows[0].fields[0].1, CellValue::String(s) if s == "Seq Scan on t"));
    assert!(p.raw.is_none());
    let m = named_fields_plan(&vec![vec![("id".into(), "1".into()), ("type".into(), "ALL".into())]]);
    assert_eq!(m.rows[0].fields.len(), 2);
    assert_eq!(m.rows[0].fields[1].0, "type");
    assert!(matches!(&m.rows[0].fields[1].1, CellValue::String(s) if s == "ALL"));
}

#[test]
fn table_metadata() {
    let rows = vec![("id".to_string(), "int".to_string(), "NO".to_string())];
    let t = mysql_table("shop", "orders".into(), &rows);
    assert_eq!(t.schema, "shop");
    assert!(!t.columns[0].is_primary_key && t.primary_key.is_empty());
    let t = pg_table("public".into(), "users".into(), &rows, vec!["id".into()]);
    assert!(t.columns[0].is_primary_key);
    assert_eq!(t.primary_key, vec!["id".to_string()]);
    let t = sqlite_table("notes".into(), &vec![(0, "id".to_string(), "INTEGER".to_string(), 0, None, 1)]);
    assert_eq!(t.schema, "main");
    assert_eq!(t.primary_key, vec!["id".to_string()]);
    assert_eq!(table_info_sql("notes"), "PRAGMA table_info(\"notes\")");
    let m = mysql_schema_meta("shop", vec![]);
    assert_eq!(m.databases[0].name, "shop");
    assert_eq!(m.databases[0].schemas[0].name, "shop");
    let s = sqlite_schema_meta("/tmp/x.db", vec![t]);
    assert_eq!(s.databases[0].name, "/tmp/x.db");
    assert_eq!(s.databases[0].schemas[0].name, "main");
    assert_eq!(s.databases[0].schemas[0].tables.len(), 1);
}
