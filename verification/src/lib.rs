//! SimplSource: the logic of a lightweight database client — SQL text
//! building, import and export formats, connection bookkeeping, the
//! transaction queue, the schema cache, query history and the sealed
//! credential file.
pub mod text;
pub mod types;
pub mod error;
pub mod dml;
pub mod sql_utils;
pub mod transaction;
pub mod schema_cache;
pub mod paths;
pub mod query_history;
pub mod persistence;
pub mod connection;
pub mod import;
pub mod export;
pub mod credential;
pub mod drivers;
pub mod results;
pub mod tunnel;
pub mod engine;
