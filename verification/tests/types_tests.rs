use simplsource::connection::{attempt_secrets, connection_records, not_connected_response, not_found_response, prepare_save, SaveConnectionRequest};
use simplsource::error::{DriverError, DriverErrorResponse};
use simplsource::types::{ConnectionConfig, DatabaseKind, Dialect, SshConfig, SslMode};

#[test]
fn new_connection_defaults() {
    let c = ConnectionConfig::new("x", DatabaseKind::Mysql);
    assert_eq!(c.name, "x");
    assert_eq!(c.host, "127.0.0.1");
    assert_eq!(c.port, 3306);
    assert_eq!(c.database, "");
    assert_eq!(c.username, "");
    assert_eq!(c.ssl_mode, SslMode::Prefer);
    assert!(!c.ssh.enabled);
    assert_eq!(c.ssh.port, 22);
    assert!(!c.read_only);
    assert_eq!(c.created_at, c.updated_at);
    assert!(c.created_at.contains('T'));
    let d = ConnectionConfig::new("x", DatabaseKind::Mysql);
    assert_ne!(c.id, d.id);
}

#[test]
fn fixed_identity() {
    let c = ConnectionConfig::with_identity("s", DatabaseKind::Sqlite, 9, "2024-01-01T00:00:00Z");
    assert_eq!(c.id, 9);
    assert_eq!(c.port, 0);
    assert_eq!(c.created_at, "2024-01-01T00:00:00Z");
    assert_eq!(c.updated_at, "2024-01-01T00:00:00Z");
}

#[test]
fn kinds() {
    assert_eq!(DatabaseKind::Postgres.display_name(), "PostgreSQL");
    assert_eq!(DatabaseKind::Mysql.display_name(), "MySQL");
    assert_eq!(DatabaseKind::Sqlite.display_name(), "SQLite");
    assert_eq!(DatabaseKind::Postgres.default_port(), 5432);
    assert_eq!(DatabaseKind::Sqlite.default_port(), 0);
    assert_eq!(Dialect::from(DatabaseKind::Mysql), Dialect::Mysql);
    assert_eq!(Dialect::from(DatabaseKind::Sqlite), Dialect::Sqlite);
    assert_eq!(SslMode::default(), SslMode::Prefer);
    let s = SshConfig::default();
    assert!(!s.enabled && s.port == 22 && s.host.is_empty() && s.private_key_path.is_none());
}

#[test]
fn driver_errors() {
    let e = DriverError::QueryFailed { message: "m".into(), user_message: "u".into() };
    assert_eq!(e.user_message(), "u");
    assert_eq!(e.describe(), "query failed: m");
    let r = DriverErrorResponse::from_error(&e);
    assert_eq!(r.code, "query_failed");
    assert_eq!(r.user_message, "u");
    assert_eq!(r.detail, Some("m".to_string()));
    let c = DriverError::InvalidConfig { user_message: "bad".into() };
    let r = DriverErrorResponse::from_error(&c);
    assert_eq!(r.code, "invalid_config");
    assert_eq!(r.detail, None);
    assert_eq!(c.describe(), "invalid configuration: bad");
    let i = DriverError::Internal { message: "boom".into(), user_message: "oops".into() };
    assert_eq!(DriverErrorResponse::from_error(&i).code, "internal");
    assert_eq!(i.describe(), "internal error: boom");
    let u = DriverError::Unsupported { user_message: "no".into() };
    assert_eq!(DriverErrorResponse::from_error(&u).code, "unsupported");
    let cf = DriverError::ConnectionFailed { message: "m".into(), user_message: "u".into() };
    assert_eq!(DriverErrorResponse::from_error(&cf).code, "connection_failed");
    assert_eq!(cf.describe(), "connection failed: m");
}

#[test]
fn connection_bookkeeping() {
    let a = ConnectionConfig::with_identity("a", DatabaseKind::Postgres, 1, "t0");
    let b = ConnectionConfig::with_identity("b", DatabaseKind::Mysql, 2, "t0");
    let recs = connection_records(&vec![a.clone(), b.clone()], &vec![2]);
    assert_eq!(recs.len(), 2);
    assert!(!recs[0].connected);
    assert!(recs[1].connected);
    assert_eq!(recs[1].config.name, "b");

    let (cfg, pw) = prepare_save(SaveConnectionRequest { config: a.clone(), password: Some(String::new()) }, "t1");
    assert_eq!(cfg.updated_at, "t1");
    assert_eq!(cfg.created_at, "t0");
    assert_eq!(pw, None);
    let (_, pw) = prepare_save(SaveConnectionRequest { config: a, password: Some("p".into()) }, "t1");
    assert_eq!(pw, Some("p".to_string()));

    let s = attempt_secrets(None, Some("stored".into()));
    assert_eq!(s.password, Some("stored".to_string()));
    let s = attempt_secrets(Some("typed".into()), Some("stored".into()));
    assert_eq!(s.password, Some("typed".to_string()));
    assert_eq!(s.ssh_password, None);

    let nf = not_found_response();
    assert_eq!((nf.code.as_str(), nf.user_message.as_str()), ("not_found", "连接不存在"));
    let nc = not_connected_response();
    assert_eq!((nc.code.as_str(), nc.user_message.as_str()), ("not_connected", "请先连接数据库"));
}
