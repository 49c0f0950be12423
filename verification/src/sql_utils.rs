//! Splitting a script into statements with the `sqlparser` grammar of the
//! connection's dialect.
use crate::text::{chars_blank, chars_of, is_blank, views};
use crate::types::Dialect;
use sqlparser::dialect::{MySqlDialect, PostgreSqlDialect, SQLiteDialect};
use sqlparser::parser::Parser;
use vstd::prelude::*;

verus! {

/// The grammar used to parse a script.
#[derive(Clone, Copy, Debug, PartialEq, Eq, Structural)]
pub enum SqlDialectKind {
    Postgres,
    Mysql,
    Sqlite,
}

pub open spec fn sql_dialect_of(d: Dialect) -> SqlDialectKind {
    match d {
        Dialect::Postgres => SqlDialectKind::Postgres,
        Dialect::Mysql => SqlDialectKind::Mysql,
        Dialect::Sqlite => SqlDialectKind::Sqlite,
    }
}

impl From<Dialect> for SqlDialectKind {
    fn from(d: Dialect) -> (k: SqlDialectKind) {
        match d {
            Dialect::Postgres => SqlDialectKind::Postgres,
            Dialect::Mysql => SqlDialectKind::Mysql,
            Dialect::Sqlite => SqlDialectKind::Sqlite,
        }
    }
}

impl vstd::std_specs::convert::FromSpecImpl<Dialect> for SqlDialectKind {
    open spec fn obeys_from_spec() -> bool {
        true
    }

    open spec fn from_spec(d: Dialect) -> SqlDialectKind {
        sql_dialect_of(d)
    }
}

/// What `sqlparser::parser::Parser::parse_sql` gives for `sql` under the
/// dialect's grammar: the text (`Display`) of each statement, or the text of
/// the parse error.
pub uninterp spec fn parsed_statements(dialect: SqlDialectKind, sql: Seq<char>) -> Result<
    Seq<Seq<char>>,
    Seq<char>,
>;

/// `sqlparser::parser::Parser::parse_sql` with the dialect's grammar
/// (`PostgreSqlDialect`, `MySqlDialect`, `SQLiteDialect`); each statement is
/// rendered with its `Display` and the error with its `Display`. Claimed: the
/// result is `parsed_statements` of the dialect and the text.
#[verifier::external_body]
fn parse_sql(dialect: SqlDialectKind, sql: &str) -> (r: Result<Vec<String>, String>)
    ensures
        match r {
            Ok(v) => parsed_statements(dialect, sql@) == Ok::<Seq<Seq<char>>, Seq<char>>(
                views(v@),
            ),
            Err(e) => parsed_statements(dialect, sql@) == Err::<Seq<Seq<char>>, Seq<char>>(e@),
        },
{
    let parsed = match dialect {
        SqlDialectKind::Postgres => Parser::parse_sql(&PostgreSqlDialect {}, sql),
        SqlDialectKind::Mysql => Parser::parse_sql(&MySqlDialect {}, sql),
        SqlDialectKind::Sqlite => Parser::parse_sql(&SQLiteDialect {}, sql),
    };
    parsed.map(|stmts| stmts.iter().map(|s| s.to_string()).collect()).map_err(|e| e.to_string())
}

/// The texts that are not blank, in order.
pub open spec fn non_blank(texts: Seq<Seq<char>>) -> Seq<Seq<char>>
    decreases texts.len(),
{
    if texts.len() == 0 {
        seq![]
    } else {
        let rest = non_blank(texts.drop_last());
        if is_blank(texts.last()) {
            rest
        } else {
            rest.push(texts.last())
        }
    }
}

/// The statements of a script: the parsed statements whose text is not
/// blank, or the parse error.
pub open spec fn split_result(dialect: SqlDialectKind, sql: Seq<char>) -> Result<
    Seq<Seq<char>>,
    Seq<char>,
> {
    match parsed_statements(dialect, sql) {
        Ok(texts) => Ok(non_blank(texts)),
        Err(e) => Err(e),
    }
}

/// Keeps the texts that are not blank.
pub fn keep_non_blank(texts: &Vec<String>) -> (r: Vec<String>)
    ensures
        views(r@) == non_blank(views(texts@)),
{
    let ghost all = views(texts@);
    let mut r: Vec<String> = Vec::new();
    let mut i: usize = 0;
    while i < texts.len()
        invariant
            i <= texts@.len(),
            all == views(texts@),
            views(r@) == non_blank(all.take(i as int)),
        decreases texts@.len() - i,
    {
        assert(all.take(i + 1).drop_last() == all.take(i as int));
        let cs = chars_of(texts[i].as_str());
        if !chars_blank(&cs) {
            r.push(texts[i].clone());
            assert(views(r@) == views(r@).drop_last().push(texts@[i as int]@));
        }
        i = i + 1;
    }
    assert(all.take(texts@.len() as int) == all);
    r
}

/// Splits a script into its statements (blank ones left out).
pub fn split_statements(sql: &str, dialect: SqlDialectKind) -> (r: Result<Vec<String>, String>)
    ensures
        match r {
            Ok(v) => split_result(dialect, sql@) == Ok::<Seq<Seq<char>>, Seq<char>>(views(v@)),
            Err(e) => split_result(dialect, sql@) == Err::<Seq<Seq<char>>, Seq<char>>(e@),
        },
{
    match parse_sql(dialect, sql) {
        Ok(texts) => Ok(keep_non_blank(&texts)),
        Err(e) => Err(e),
    }
}

/// No statement of a split script is blank, and the split keeps the order and
/// at most as many statements as the parser found.
pub proof fn law_no_blank_statement(texts: Seq<Seq<char>>)
    ensures
        non_blank(texts).len() <= texts.len(),
        forall|i: int| 0 <= i < non_blank(texts).len() ==> !is_blank(#[trigger] non_blank(texts)[i]),
    decreases texts.len(),
{
    if texts.len() > 0 {
        law_no_blank_statement(texts.drop_last());
        let rest = non_blank(texts.drop_last());
        let all = non_blank(texts);
        assert forall|i: int| 0 <= i < all.len() implies !is_blank(#[trigger] all[i]) by {
            if i < rest.len() {
                assert(all[i] == rest[i]);
            }
        }
    }
}

} // verus!
