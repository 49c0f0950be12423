//! The data that crosses between the drivers, the core and the user
//! interface: connection settings, schema metadata, cells and result pages.
//!
//! Identifiers are held as `u128` (the 128 bits of a UUID) and timestamps as
//! their RFC 3339 text; a cell's float is held as the text `f64` prints for
//! it and a JSON cell as its compact JSON text.
use crate::text::text_of;
use vstd::prelude::*;

verus! {

/// The supported database kinds.
#[derive(Clone, Copy, Debug, PartialEq, Eq, Structural)]
pub enum DatabaseKind {
    Postgres,
    Mysql,
    Sqlite,
}

pub open spec fn display_name_of(kind: DatabaseKind) -> Seq<char> {
    match kind {
        DatabaseKind::Postgres => "PostgreSQL"@,
        DatabaseKind::Mysql => "MySQL"@,
        DatabaseKind::Sqlite => "SQLite"@,
    }
}

pub open spec fn default_port_of(kind: DatabaseKind) -> u16 {
    match kind {
        DatabaseKind::Postgres => 5432,
        DatabaseKind::Mysql => 3306,
        DatabaseKind::Sqlite => 0,
    }
}

impl DatabaseKind {
    /// The product name shown to the user.
    pub fn display_name(&self) -> (s: &'static str)
        ensures
            s@ == display_name_of(*self),
    {
        match self {
            DatabaseKind::Postgres => "PostgreSQL",
            DatabaseKind::Mysql => "MySQL",
            DatabaseKind::Sqlite => "SQLite",
        }
    }

    /// The server's usual TCP port (0 for SQLite, which has none).
    pub fn default_port(&self) -> (p: u16)
        ensures
            p == default_port_of(*self),
    {
        match self {
            DatabaseKind::Postgres => 5432,
            DatabaseKind::Mysql => 3306,
            DatabaseKind::Sqlite => 0,
        }
    }
}

/// The SQL dialect of a connection.
#[derive(Clone, Copy, Debug, PartialEq, Eq, Structural)]
pub enum Dialect {
    Postgres,
    Mysql,
    Sqlite,
}

pub open spec fn dialect_of_kind(kind: DatabaseKind) -> Dialect {
    match kind {
        DatabaseKind::Postgres => Dialect::Postgres,
        DatabaseKind::Mysql => Dialect::Mysql,
        DatabaseKind::Sqlite => Dialect::Sqlite,
    }
}

impl From<DatabaseKind> for Dialect {
    fn from(kind: DatabaseKind) -> (d: Dialect) {
        match kind {
            DatabaseKind::Postgres => Dialect::Postgres,
            DatabaseKind::Mysql => Dialect::Mysql,
            DatabaseKind::Sqlite => Dialect::Sqlite,
        }
    }
}

impl vstd::std_specs::convert::FromSpecImpl<DatabaseKind> for Dialect {
    open spec fn obeys_from_spec() -> bool {
        true
    }

    open spec fn from_spec(kind: DatabaseKind) -> Dialect {
        dialect_of_kind(kind)
    }
}

/// SSL mode of a connection.
#[derive(Clone, Copy, Debug, PartialEq, Eq, Structural)]
pub enum SslMode {
    Prefer,
    Require,
    Disable,
    VerifyCa,
}

impl Default for SslMode {
    fn default() -> (m: SslMode)
        ensures
            m == SslMode::Prefer,
    {
        SslMode::Prefer
    }
}

/// SSH tunnel settings (the SSH password is kept with the credentials).
#[derive(Clone, Debug)]
pub struct SshConfig {
    pub enabled: bool,
    pub host: String,
    pub port: u16,
    pub username: String,
    /// Path of the private key file.
    pub private_key_path: Option<String>,
}

impl Default for SshConfig {
    fn default() -> (c: SshConfig)
        ensures
            !c.enabled,
            c.host@ == Seq::<char>::empty(),
            c.port == 22,
            c.username@ == Seq::<char>::empty(),
            c.private_key_path is None,
    {
        SshConfig {
            enabled: false,
            host: String::new(),
            port: 22,
            username: String::new(),
            private_key_path: None,
        }
    }
}

/// A saved connection. Passwords are not part of it.
#[derive(Clone, Debug)]
pub struct ConnectionConfig {
    pub id: u128,
    pub name: String,
    pub kind: DatabaseKind,
    pub host: String,
    pub port: u16,
    /// The SQLite file path, or the database name.
    pub database: String,
    pub username: String,
    pub ssl_mode: SslMode,
    pub ssh: SshConfig,
    pub read_only: bool,
    pub environment: Option<String>,
    pub color: Option<String>,
    /// RFC 3339 time of creation.
    pub created_at: String,
    /// RFC 3339 time of the last save.
    pub updated_at: String,
}

/// A fresh connection: local host, the kind's default port, empty database
/// and user name, default SSL and SSH settings, writable, no tags.
pub open spec fn is_fresh_config(
    c: ConnectionConfig,
    name: Seq<char>,
    kind: DatabaseKind,
    id: u128,
    now: Seq<char>,
) -> bool {
    &&& c.id == id
    &&& c.name@ == name
    &&& c.kind == kind
    &&& c.host@ == "127.0.0.1"@
    &&& c.port == default_port_of(kind)
    &&& c.database@ == Seq::<char>::empty()
    &&& c.username@ == Seq::<char>::empty()
    &&& c.ssl_mode == SslMode::Prefer
    &&& !c.ssh.enabled
    &&& c.ssh.host@ == Seq::<char>::empty()
    &&& c.ssh.port == 22
    &&& c.ssh.username@ == Seq::<char>::empty()
    &&& c.ssh.private_key_path is None
    &&& !c.read_only
    &&& c.environment is None
    &&& c.color is None
    &&& c.created_at@ == now
    &&& c.updated_at@ == now
}

/// `uuid::Uuid::new_v4`: a random identifier (nothing is claimed of its bits).
#[verifier::external_body]
fn new_random_id() -> (id: u128) {
    uuid::Uuid::new_v4().as_u128()
}

/// `chrono::Utc::now`, written as RFC 3339 text (nothing is claimed of it).
#[verifier::external_body]
fn now_text() -> (t: String) {
    chrono::Utc::now().to_rfc3339()
}

impl ConnectionConfig {
    /// A new connection with a random id, created now.
    pub fn new(name: &str, kind: DatabaseKind) -> (c: ConnectionConfig)
        ensures
            c.created_at@ == c.updated_at@,
            is_fresh_config(c, name@, kind, c.id, c.created_at@),
    {
        let id = new_random_id();
        let now = now_text();
        Self::with_identity(name, kind, id, &now)
    }

    /// A new connection with the given id and creation time.
    pub fn with_identity(name: &str, kind: DatabaseKind, id: u128, now: &str) -> (c:
        ConnectionConfig)
        ensures
            is_fresh_config(c, name@, kind, id, now@),
    {
        let ssh = SshConfig::default();
        ConnectionConfig {
            id,
            name: text_of(name),
            kind,
            host: text_of("127.0.0.1"),
            port: kind.default_port(),
            database: String::new(),
            username: String::new(),
            ssl_mode: SslMode::Prefer,
            ssh,
            read_only: false,
            environment: None,
            color: None,
            created_at: text_of(now),
            updated_at: text_of(now),
        }
    }
}

/// Passwords used while connecting; never saved with the configuration.
#[derive(Clone, Debug)]
pub struct ConnectionSecrets {
    pub password: Option<String>,
    pub ssh_password: Option<String>,
}

/// Schema metadata of a connection.
#[derive(Clone, Debug)]
pub struct SchemaMeta {
    pub databases: Vec<DatabaseMeta>,
}

#[derive(Clone, Debug)]
pub struct DatabaseMeta {
    pub name: String,
    pub schemas: Vec<SchemaNode>,
}

#[derive(Clone, Debug)]
pub struct SchemaNode {
    pub name: String,
    pub tables: Vec<TableMeta>,
    pub views: Vec<TableMeta>,
}

#[derive(Clone, Debug)]
pub struct TableMeta {
    pub schema: String,
    pub name: String,
    pub columns: Vec<ColumnMeta>,
    pub primary_key: Vec<String>,
    pub row_count: Option<i64>,
}

#[derive(Clone, Debug)]
pub struct ColumnMeta {
    pub name: String,
    pub data_type: String,
    pub nullable: bool,
    pub is_primary_key: bool,
}

/// A cell value.
#[derive(Clone, Debug)]
pub enum CellValue {
    Null,
    Bool(bool),
    Int64(i64),
    /// A double, held as the text that `f64`'s `Display` writes for it.
    Float64(String),
    String(String),
    Bytes(String),
    /// A JSON value, held as its compact JSON text.
    Json(String),
    DateTime(String),
}

/// A request for one page of a table.
#[derive(Clone, Debug)]
pub struct TablePageRequest {
    pub schema: Option<String>,
    pub table: String,
    pub offset: u64,
    pub limit: u64,
    pub order_by: Option<String>,
    pub order_desc: bool,
    pub filter: Option<String>,
}

/// One page of rows.
#[derive(Clone, Debug)]
pub struct RowPage {
    pub columns: Vec<ColumnMeta>,
    pub rows: Vec<Vec<CellValue>>,
    pub total_rows: Option<i64>,
    pub offset: u64,
    pub limit: u64,
}

/// The result of one statement.
#[derive(Clone, Debug)]
pub struct ExecuteResult {
    pub columns: Vec<ColumnMeta>,
    pub rows: Vec<Vec<CellValue>>,
    pub rows_affected: u64,
    pub execution_time_ms: u64,
    pub message: Option<String>,
}

/// One row of a query plan.
#[derive(Clone, Debug)]
pub struct ExplainRow {
    pub fields: Vec<(String, CellValue)>,
}

#[derive(Clone, Debug)]
pub struct ExplainPlan {
    pub rows: Vec<ExplainRow>,
    pub raw: Option<String>,
}

} // verus!
