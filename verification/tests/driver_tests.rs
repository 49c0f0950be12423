use simplsource::drivers::{
    affected_message, catalog_columns, check_kind, classify_statement, connection_failed, explain_sql, group_by_schema,
    page_sql, pragma_columns, query_failed, schema_meta_of, server_url, sqlite_path, sqlite_url,
};
use simplsource::error::DriverError;
use simplsource::types::{DatabaseKind, Dialect, TableMeta, TablePageRequest};

#[test]
fn server_urls_encode_credentials() {
    let u = server_url(DatabaseKind::Postgres, "u@x", &Some("p w".into()), "h", 5432, "d/b");
    assert_eq!(u, "postgres://u%40x:p%20w@h:5432/d%2Fb");
    let m = server_url(DatabaseKind::Mysql, "root", &None, "127.0.0.1", 3306, "app");
    assert_eq!(m, "mysql://root:@127.0.0.1:3306/app");
    let e = server_url(DatabaseKind::Postgres, "é", &Some("a-b_c.d~e+f".into()), "h", 1, "x");
    assert_eq!(e, "postgres://%C3%A9:a-b_c.d~e%2Bf@h:1/x");
}

#[test]
fn sqlite_file_falls_back_to_host() {
    assert_eq!(sqlite_url("/tmp/a.db", "ignored"), "sqlite:///tmp/a.db");
    assert_eq!(sqlite_url("", "/tmp/b.db"), "sqlite:///tmp/b.db");
    assert_eq!(sqlite_path("", "h"), "h");
    assert_eq!(sqlite_path("d", "h"), "d");
}

#[test]
fn kind_checks() {
    assert!(check_kind(DatabaseKind::Mysql, DatabaseKind::Mysql).is_ok());
    match check_kind(DatabaseKind::Mysql, DatabaseKind::Postgres) {
        Err(DriverError::InvalidConfig { user_message }) => assert_eq!(user_message, "连接类型不是 PostgreSQL"),
        _ => panic!("invalid config expected"),
    }
    match check_kind(DatabaseKind::Postgres, DatabaseKind::Sqlite) {
        Err(DriverError::InvalidConfig { user_message }) => assert_eq!(user_message, "连接类型不是 SQLite"),
        _ => panic!("invalid config expected"),
    }
}

#[test]
fn failure_errors() {
    match connection_failed(DatabaseKind::Sqlite, "no file") {
        DriverError::ConnectionFailed { message, user_message } => {
            assert_eq!(message, "no file");
            assert_eq!(user_message, "无法打开 SQLite 文件：no file");
        }
        _ => panic!(),
    }
    match connection_failed(DatabaseKind::Mysql, "refused") {
        DriverError::ConnectionFailed { user_message, .. } => assert_eq!(user_message, "无法连接 MySQL：refused"),
        _ => panic!(),
    }
    match query_failed("syntax") {
        DriverError::QueryFailed { message, user_message } => {
            assert_eq!(message, "syntax");
            assert_eq!(user_message, "查询执行失败：syntax");
        }
        _ => panic!(),
    }
}

#[test]
fn statement_classification() {
    assert_eq!(classify_statement("  insert into t values (1) "), ("insert into t values (1)".to_string(), true));
    assert_eq!(classify_statement("\tDrop table t"), ("Drop table t".to_string(), true));
    assert_eq!(classify_statement("select 1"), ("select 1".to_string(), false));
    assert_eq!(classify_statement("WITH x AS (SELECT 1) DELETE FROM t").1, false);
    assert_eq!(classify_statement("").1, false);
    assert_eq!(affected_message(3), "影响 3 行");
}

#[test]
fn plan_queries() {
    assert_eq!(explain_sql(Dialect::Sqlite, "SELECT 1"), "EXPLAIN QUERY PLAN SELECT 1");
    assert_eq!(explain_sql(Dialect::Postgres, "SELECT 1"), "EXPLAIN SELECT 1");
    assert_eq!(explain_sql(Dialect::Mysql, "SELECT 1"), "EXPLAIN SELECT 1");
}

fn req(schema: Option<&str>, order: Option<&str>, desc: bool) -> TablePageRequest {
    TablePageRequest {
        schema: schema.map(|s| s.to_string()),
        table: "t".into(),
        offset: 100,
        limit: 50,
        order_by: order.map(|s| s.to_string()),
        order_desc: desc,
        filter: None,
    }
}

#[test]
fn page_queries() {
    assert_eq!(
        page_sql(Dialect::Postgres, &req(None, None, false)),
        "SELECT * FROM \"public\".\"t\" ORDER BY (SELECT NULL) ASC LIMIT 50 OFFSET 100"
    );
    assert_eq!(
        page_sql(Dialect::Postgres, &req(Some("s"), Some("c"), true)),
        "SELECT * FROM \"s\".\"t\" ORDER BY \"c\" DESC LIMIT 50 OFFSET 100"
    );
    assert_eq!(page_sql(Dialect::Mysql, &req(None, None, true)), "SELECT * FROM `t` ORDER BY `1` DESC LIMIT 50 OFFSET 100");
    assert_eq!(page_sql(Dialect::Sqlite, &req(Some("s"), Some("c"), true)), "SELECT * FROM \"t\" LIMIT 50 OFFSET 100");
}

fn table(schema: &str, name: &str) -> TableMeta {
    TableMeta { schema: schema.into(), name: name.into(), columns: vec![], primary_key: vec![], row_count: None }
}

#[test]
fn tables_grouped_by_schema_in_name_order() {
    let g = group_by_schema(vec![table("public", "b"), table("audit", "x"), table("public", "a"), table("Zeta", "z")]);
    assert_eq!(g.iter().map(|n| n.name.as_str()).collect::<Vec<_>>(), vec!["Zeta", "audit", "public"]);
    assert_eq!(g[2].tables.iter().map(|t| t.name.as_str()).collect::<Vec<_>>(), vec!["b", "a"]);
    assert!(g.iter().all(|n| n.views.is_empty()));
    assert!(group_by_schema(vec![]).is_empty());
    let m = schema_meta_of("db", vec![table("public", "t")]);
    assert_eq!(m.databases.len(), 1);
    assert_eq!(m.databases[0].name, "db");
    assert_eq!(m.databases[0].schemas[0].name, "public");
}

#[test]
fn catalog_and_pragma_columns() {
    let rows = vec![
        ("id".to_string(), "integer".to_string(), "NO".to_string()),
        ("name".to_string(), "text".to_string(), "YES".to_string()),
    ];
    let cols = catalog_columns(&rows, &vec!["id".to_string()]);
    assert!(cols[0].is_primary_key && !cols[0].nullable);
    assert!(!cols[1].is_primary_key && cols[1].nullable);
    assert_eq!(cols[1].data_type, "text");

    let prag = vec![
        (0, "id".to_string(), "INTEGER".to_string(), 1, None, 1),
        (1, "note".to_string(), "TEXT".to_string(), 0, Some("''".to_string()), 0),
        (2, "k2".to_string(), "TEXT".to_string(), 1, None, 2),
    ];
    let (cols, key) = pragma_columns(&prag);
    assert_eq!(cols.len(), 3);
    assert!(cols[0].is_primary_key && !cols[0].nullable);
    assert!(cols[1].nullable);
    assert!(!cols[2].is_primary_key);
    assert_eq!(key, vec!["id".to_string()]);
}
