use simplsource::dml::{generate_update, pk_where, qualified_table, quote_ident, sql_literal, CellChangeRequest};
use simplsource::text::first_names_distinct;
use simplsource::types::{CellValue, Dialect};

fn change(schema: Option<&str>, pk: Vec<(String, CellValue)>, old: CellValue, new: CellValue) -> CellChangeRequest {
    CellChangeRequest {
        schema: schema.map(|s| s.to_string()),
        table: "users".to_string(),
        primary_key: pk,
        column: "name".to_string(),
        old_value: old,
        new_value: new,
    }
}

#[test]
fn generate_update_sql() {
    let pk = vec![("id".to_string(), CellValue::Int64(1))];
    let preview = generate_update(
        Dialect::Postgres,
        &change(Some("public"), pk, CellValue::String("a".into()), CellValue::String("b".into())),
    )
    .unwrap();
    assert!(preview.sql.contains("UPDATE"));
    assert!(preview.sql.contains("WHERE"));
}

#[test]
fn update_statement_is_exact() {
    let pk = vec![("id".to_string(), CellValue::Int64(1))];
    let preview = generate_update(
        Dialect::Postgres,
        &change(Some("public"), pk, CellValue::String("a".into()), CellValue::String("b".into())),
    )
    .unwrap();
    assert_eq!(preview.sql, "UPDATE \"public\".\"users\" SET \"name\" = 'b' WHERE \"id\" = 1;");
    assert_eq!(preview.operation, "UPDATE");
}

#[test]
fn update_mysql_and_sqlite_quoting() {
    let pk = vec![("id".to_string(), CellValue::Int64(-7)), ("k".to_string(), CellValue::String("x".into()))];
    let m = generate_update(Dialect::Mysql, &change(None, pk.clone(), CellValue::Null, CellValue::Bool(true))).unwrap();
    assert_eq!(m.sql, "UPDATE `users` SET `name` = TRUE WHERE `id` = -7 AND `k` = 'x';");
    let s = generate_update(Dialect::Sqlite, &change(None, pk, CellValue::Null, CellValue::Bool(false))).unwrap();
    assert_eq!(s.sql, "UPDATE \"users\" SET \"name\" = FALSE WHERE \"id\" = -7 AND \"k\" = 'x';");
}

#[test]
fn update_without_key_is_refused() {
    let r = generate_update(Dialect::Postgres, &change(None, vec![], CellValue::Null, CellValue::Int64(1)));
    assert_eq!(r.unwrap_err(), "该表没有主键，无法安全内联编辑");
}

#[test]
fn update_null_to_null_is_refused() {
    let pk = vec![("id".to_string(), CellValue::Int64(1))];
    let r = generate_update(Dialect::Postgres, &change(None, pk, CellValue::Null, CellValue::Null));
    assert_eq!(r.unwrap_err(), "值未变化");
}

#[test]
fn literals() {
    assert_eq!(sql_literal(&CellValue::Null), "NULL");
    assert_eq!(sql_literal(&CellValue::Bool(true)), "TRUE");
    assert_eq!(sql_literal(&CellValue::Int64(-42)), "-42");
    assert_eq!(sql_literal(&CellValue::Float64("1.5".into())), "1.5");
    assert_eq!(sql_literal(&CellValue::String("O'Brien".into())), "'O''Brien'");
    assert_eq!(sql_literal(&CellValue::Json("{\"a\":\"it's\"}".into())), "'{\"a\":\"it''s\"}'");
    assert_eq!(sql_literal(&CellValue::DateTime("2024-01-01".into())), "'2024-01-01'");
}

#[test]
fn identifiers_and_tables() {
    assert_eq!(quote_ident(Dialect::Mysql, "a"), "`a`");
    assert_eq!(quote_ident(Dialect::Postgres, "a"), "\"a\"");
    assert_eq!(qualified_table(Dialect::Postgres, &None, "t"), "\"public\".\"t\"");
    assert_eq!(qualified_table(Dialect::Postgres, &Some("s".into()), "t"), "\"s\".\"t\"");
    assert_eq!(qualified_table(Dialect::Mysql, &Some("s".into()), "t"), "`t`");
    assert_eq!(qualified_table(Dialect::Sqlite, &Some("s".into()), "t"), "\"t\"");
    assert_eq!(pk_where(Dialect::Postgres, &vec![]), "");
}

#[test]
fn key_columns_named_once() {
    let pk = vec![("id".to_string(), CellValue::Int64(1)), ("k".to_string(), CellValue::Null)];
    assert!(first_names_distinct(&pk));
    let twice = vec![("id".to_string(), CellValue::Int64(1)), ("id".to_string(), CellValue::Int64(2))];
    assert!(!first_names_distinct(&twice));
}
