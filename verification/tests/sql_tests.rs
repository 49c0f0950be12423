use simplsource::engine::{parse_error_response, statements_to_run};
use simplsource::sql_utils::{split_statements, SqlDialectKind};
use simplsource::types::Dialect;

#[test]
fn split_multiple_statements() {
    let parts = split_statements("SELECT 1; SELECT 2;", SqlDialectKind::Postgres).unwrap();
    assert_eq!(parts.len(), 2);
}

#[test]
fn split_keeps_order_and_text() {
    let parts = split_statements("SELECT 1; SELECT 2", SqlDialectKind::Sqlite).unwrap();
    assert_eq!(parts, vec!["SELECT 1".to_string(), "SELECT 2".to_string()]);
}

#[test]
fn split_reports_parse_errors() {
    assert!(split_statements("SELEC 1", SqlDialectKind::Mysql).is_err());
}

#[test]
fn dialect_kind_follows_dialect() {
    assert_eq!(SqlDialectKind::from(Dialect::Mysql), SqlDialectKind::Mysql);
    assert_eq!(SqlDialectKind::from(Dialect::Sqlite), SqlDialectKind::Sqlite);
}

#[test]
fn scripts_run_as_their_statements() {
    let v = statements_to_run(Dialect::Postgres, "SELECT 1; SELECT 2;").unwrap();
    assert_eq!(v.len(), 2);
    let empty = statements_to_run(Dialect::Postgres, "").unwrap();
    assert!(empty.is_empty());
}

#[test]
fn unparsable_script_answer() {
    let e = statements_to_run(Dialect::Postgres, "SELEC 1").unwrap_err();
    assert_eq!(e.code, "parse_error");
    let detail = e.detail.clone().unwrap();
    assert_eq!(e.user_message, format!("SQL 解析失败：{detail}"));
    let r = parse_error_response("bad".to_string());
    assert_eq!(r.code, "parse_error");
    assert_eq!(r.user_message, "SQL 解析失败：bad");
    assert_eq!(r.detail, Some("bad".to_string()));
}
