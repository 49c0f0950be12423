//! What the query engine and the application commands decide: the statements
//! a script runs as, the answer to a script that does not parse, when cached
//! schema metadata serves, what the history records, and the application's
//! own answers.
use crate::error::{response_is, DriverErrorResponse};
use crate::error::prefixed;
use crate::schema_cache::{cached, SchemaCache};
use crate::sql_utils::{split_result, split_statements, sql_dialect_of, SqlDialectKind};
use crate::text::{text_of, views};
use crate::types::{Dialect, ExecuteResult, SchemaMeta};
use vstd::prelude::*;

verus! {

/// The answer to a script that does not parse: code `parse_error`, the
/// message `SQL 解析失败：<error>`, the error as detail.
pub fn parse_error_response(e: String) -> (r: DriverErrorResponse)
    ensures
        response_is(r, "parse_error"@, "SQL 解析失败："@ + e@, Some(e@)),
{
    let user_message = prefixed("SQL 解析失败：", e.as_str());
    DriverErrorResponse { code: text_of("parse_error"), user_message, detail: Some(e) }
}

/// The statements a script runs as on a connection of dialect `d`, in order,
/// or the answer when it does not parse.
pub fn statements_to_run(d: Dialect, sql: &str) -> (r: Result<Vec<String>, DriverErrorResponse>)
    ensures
        match split_result(sql_dialect_of(d), sql@) {
            Ok(stmts) => r matches Ok(v) && views(v@) == stmts,
            Err(e) => r matches Err(resp) && response_is(
                resp,
                "parse_error"@,
                "SQL 解析失败："@ + e,
                Some(e),
            ),
        },
{
    let kind = SqlDialectKind::from(d);
    match split_statements(sql, kind) {
        Ok(v) => Ok(v),
        Err(e) => Err(parse_error_response(e)),
    }
}

/// The schema metadata served without asking the database: the cached one,
/// unless a refresh is forced.
pub fn schema_from_cache(cache: &SchemaCache, id: u128, force_refresh: bool) -> (r: Option<
    &SchemaMeta,
>)
    ensures
        force_refresh ==> r is None,
        !force_refresh ==> match r {
            Some(m) => cached(cache@, id) == Some(*m),
            None => cached(cache@, id) is None,
        },
{
    if force_refresh {
        None
    } else {
        cache.get(id)
    }
}

/// The total of the rows affected by the results.
pub open spec fn total_rows(results: Seq<ExecuteResult>) -> nat
    decreases results.len(),
{
    if results.len() == 0 {
        0
    } else {
        total_rows(results.drop_last()) + results.last().rows_affected as nat
    }
}

proof fn lemma_total_rows_prefix(results: Seq<ExecuteResult>, i: int)
    requires
        0 <= i <= results.len(),
    ensures
        total_rows(results.take(i)) <= total_rows(results),
    decreases results.len() - i,
{
    if i < results.len() {
        lemma_total_rows_prefix(results, i + 1);
        assert(results.take(i + 1).drop_last() == results.take(i));
    } else {
        assert(results.take(i) == results);
    }
}

/// The row count a history entry records for a script: the rows affected by
/// all its statements.
pub fn history_row_count(results: &Vec<ExecuteResult>) -> (n: u64)
    requires
        total_rows(results@) <= u64::MAX,
    ensures
        n == total_rows(results@),
{
    let mut n: u64 = 0;
    let mut i: usize = 0;
    while i < results.len()
        invariant
            i <= results@.len(),
            n == total_rows(results@.take(i as int)),
            total_rows(results@) <= u64::MAX,
        decreases results@.len() - i,
    {
        proof {
            assert(results@.take(i + 1).drop_last() == results@.take(i as int));
            lemma_total_rows_prefix(results@, i + 1);
        }
        n = n + results[i].rows_affected;
        i = i + 1;
    }
    assert(results@.take(results@.len() as int) == results@);
    n
}

/// How many history entries a listing shows: the asked number, 50 by
/// default.
pub fn history_limit(limit: Option<usize>) -> (n: usize)
    ensures
        n == match limit {
            Some(l) => l,
            None => 50,
        },
{
    match limit {
        Some(l) => l,
        None => 50,
    }
}

/// The answer to a liveness check.
pub struct PingResponse {
    pub message: String,
}

/// What the application reports about itself.
pub struct AppInfo {
    pub name: String,
    pub name_en: String,
    pub version: String,
    pub uses_keyring: bool,
    pub data_dir: String,
}

/// Answers a liveness check with `pong`.
pub fn ping() -> (r: PingResponse)
    ensures
        r.message@ == "pong"@,
{
    PingResponse { message: text_of("pong") }
}

/// The application's names (`简源`, `SimplSource`), its version, whether
/// secrets go to the keyring, and its data directory.
pub fn app_info(version: &str, uses_keyring: bool, data_dir: &str) -> (r: AppInfo)
    ensures
        r.name@ == "简源"@,
        r.name_en@ == "SimplSource"@,
        r.version@ == version@,
        r.uses_keyring == uses_keyring,
        r.data_dir@ == data_dir@,
{
    AppInfo {
        name: text_of("简源"),
        name_en: text_of("SimplSource"),
        version: text_of(version),
        uses_keyring,
        data_dir: text_of(data_dir),
    }
}

} // verus!
