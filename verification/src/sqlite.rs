//! The SQLite connection the history lives in. Every statement goes through
//! the few calls below; what a query returns depends on the database
//! contents, so nothing is promised of it here: the callers decide on the
//! rows they get back.
use vstd::prelude::*;

use crate::query::{params_view, SqlParam, SqlValue};

verus! {

#[verifier::external_type_specification]
#[verifier::external_body]
pub struct ExConnection(rusqlite::Connection);

#[verifier::external_type_specification]
#[verifier::external_body]
pub struct ExSqliteError(rusqlite::Error);

#[verifier::external_type_specification]
#[verifier::external_body]
pub struct ExSqliteValue(rusqlite::types::Value);

/// Errors of the history store.
#[derive(Debug, Clone)]
pub enum DbError {
    /// SQLite refused a statement; the text is its message.
    Sql(String),
    /// The input was rejected before anything was written.
    Invalid(String),
    /// A query that must return a row returned none.
    NoRows,
}

/// One exchange with SQLite, as the store's statement log records it.
pub enum Sent {
    /// A statement ran with these bound values and changed this many rows.
    Ran(Seq<char>, Seq<SqlValue>, int),
    /// A batch of statements ran.
    Batch(Seq<char>),
    /// A query ran with these bound values and returned these rows.
    Read(Seq<char>, Seq<SqlValue>, Seq<Vec<SqlCell>>),
    /// SQLite refused the statement (or batch) with these bound values.
    Refused(Seq<char>, Seq<SqlValue>),
    /// The rowid of the latest insert was read.
    Rowid(i64),
}

/// `log` is exactly the statements `stmts` run in order (each with its
/// bound values), whatever rows they changed.
pub open spec fn runs(log: Seq<Sent>, stmts: Seq<(Seq<char>, Seq<SqlValue>)>) -> bool {
    &&& log.len() == stmts.len()
    &&& forall|i: int|
        0 <= i < log.len() ==> (#[trigger] log[i] matches Sent::Ran(s, p, _) && s == stmts[i].0
            && p == stmts[i].1)
}

/// One column value read back from SQLite. A floating-point value is kept
/// by its IEEE-754 bits.
#[derive(Debug, Clone)]
pub enum SqlCell {
    Null,
    Int(i64),
    Real(u64),
    Text(String),
    Blob(Vec<u8>),
}

/// `rusqlite::Connection::open`: opens, creating it if needed, the database
/// file at `path`. Whether it succeeds depends on the file system.
#[verifier::external_body]
pub(crate) fn sqlite_open(path: &str) -> (r: Result<rusqlite::Connection, rusqlite::Error>) {
    rusqlite::Connection::open(path)
}

/// `rusqlite::Connection::open_in_memory`: a fresh, empty in-memory database.
#[verifier::external_body]
pub(crate) fn sqlite_open_in_memory() -> (r: Result<rusqlite::Connection, rusqlite::Error>) {
    rusqlite::Connection::open_in_memory()
}

/// `Connection::execute_batch`: runs the `;`-separated statements of `sql`.
#[verifier::external_body]
pub(crate) fn sqlite_execute_batch(conn: &rusqlite::Connection, sql: &str) -> (r: Result<
    (),
    rusqlite::Error,
>) {
    conn.execute_batch(sql)
}

/// `Connection::execute`: runs one statement with `params` bound to its
/// placeholders in order, each as the same integer, the same text or NULL;
/// `Ok` carries the number of rows changed.
#[verifier::external_body]
pub(crate) fn sqlite_execute(conn: &rusqlite::Connection, sql: &str, params: &Vec<SqlParam>) -> (r:
    Result<usize, rusqlite::Error>) {
    conn.execute(sql, rusqlite::params_from_iter(params.iter().map(param_value)))
}

/// `Connection::prepare` and `Statement::query`: runs one query with
/// `params` bound in order (as for `sqlite_execute`) and reads every row,
/// each as its column values.
#[verifier::external_body]
pub(crate) fn sqlite_query(conn: &rusqlite::Connection, sql: &str, params: &Vec<SqlParam>) -> (r:
    Result<Vec<Vec<rusqlite::types::Value>>, rusqlite::Error>) {
    let mut stmt = conn.prepare(sql)?;
    let n = stmt.column_count();
    let mut rows = stmt.query(rusqlite::params_from_iter(params.iter().map(param_value)))?;
    let mut out = Vec::new();
    while let Some(row) = rows.next()? {
        out.push((0..n).map(|i| row.get(i)).collect::<Result<Vec<_>, _>>()?);
    }
    Ok(out)
}

/// `Connection::last_insert_rowid`: the rowid of the latest successful insert.
#[verifier::external_body]
pub(crate) fn sqlite_last_insert_rowid(conn: &rusqlite::Connection) -> (r: i64) {
    conn.last_insert_rowid()
}

/// The rusqlite value bound for `p`: `Value::Integer` of the same integer,
/// `Value::Text` of the same text, or `Value::Null`.
#[verifier::external_body]
fn param_value(p: &SqlParam) -> (v: rusqlite::types::Value) {
    match p {
        SqlParam::Int(i) => rusqlite::types::Value::Integer(*i),
        SqlParam::Text(t) => rusqlite::types::Value::Text(t.clone()),
        SqlParam::Null => rusqlite::types::Value::Null,
    }
}

/// The library's copy of a column value read back from SQLite.
#[verifier::external_body]
fn cell_of(v: rusqlite::types::Value) -> (c: SqlCell) {
    match v {
        rusqlite::types::Value::Null => SqlCell::Null,
        rusqlite::types::Value::Integer(i) => SqlCell::Int(i),
        rusqlite::types::Value::Real(f) => SqlCell::Real(f.to_bits()),
        rusqlite::types::Value::Text(s) => SqlCell::Text(s),
        rusqlite::types::Value::Blob(b) => SqlCell::Blob(b),
    }
}

/// `rusqlite::Error` as text (its `Display`).
#[verifier::external_body]
fn sqlite_error_text(e: &rusqlite::Error) -> (s: String) {
    e.to_string()
}

/// The library error for a SQLite failure.
pub fn sql_error(e: rusqlite::Error) -> (r: DbError)
    ensures
        r is Sql,
{
    DbError::Sql(sqlite_error_text(&e))
}

/// Run a batch of statements.
pub fn exec_batch(conn: &rusqlite::Connection, sql: &str) -> (r: Result<(), DbError>)
    ensures
        r matches Err(e) ==> e is Sql,
{
    match sqlite_execute_batch(conn, sql) {
        Ok(()) => Ok(()),
        Err(e) => Err(sql_error(e)),
    }
}

/// Run one statement with `params` bound in order.
pub fn exec(conn: &rusqlite::Connection, sql: &str, params: &Vec<SqlParam>) -> (r: Result<
    usize,
    DbError,
>)
    ensures
        r matches Err(e) ==> e is Sql,
{
    match sqlite_execute(conn, sql, params) {
        Ok(n) => Ok(n),
        Err(e) => Err(sql_error(e)),
    }
}

/// Run one query with `params` bound in order; every row, each as its cells.
pub fn query(conn: &rusqlite::Connection, sql: &str, params: &Vec<SqlParam>) -> (r: Result<
    Vec<Vec<SqlCell>>,
    DbError,
>)
    ensures
        r matches Err(e) ==> e is Sql,
{
    let rows = match sqlite_query(conn, sql, params) {
        Ok(rows) => rows,
        Err(e) => {
            return Err(sql_error(e));
        },
    };
    let mut out: Vec<Vec<SqlCell>> = Vec::new();
    for row in rows {
        let mut cells: Vec<SqlCell> = Vec::new();
        for v in row {
            cells.push(cell_of(v));
        }
        out.push(cells);
    }
    Ok(out)
}

/// The cell at `(row, col)` of a result, if present.
pub open spec fn cell_at(rows: Seq<Vec<SqlCell>>, row: int, col: int) -> Option<SqlCell> {
    if 0 <= row < rows.len() && 0 <= col < rows[row]@.len() {
        Some(rows[row]@[col])
    } else {
        None
    }
}

/// The first column of the first row, as an integer.
pub open spec fn first_int_spec(rows: Seq<Vec<SqlCell>>) -> Option<i64> {
    match cell_at(rows, 0, 0) {
        Some(SqlCell::Int(i)) => Some(i),
        _ => None,
    }
}

/// The first column of the first row, as text.
pub open spec fn first_text_spec(rows: Seq<Vec<SqlCell>>) -> Option<Seq<char>> {
    match cell_at(rows, 0, 0) {
        Some(SqlCell::Text(s)) => Some(s@),
        _ => None,
    }
}

pub fn first_int(rows: &Vec<Vec<SqlCell>>) -> (r: Option<i64>)
    ensures
        r == first_int_spec(rows@),
{
    if rows.len() == 0 || rows[0].len() == 0 {
        return None;
    }
    match &rows[0][0] {
        SqlCell::Int(i) => Some(*i),
        _ => None,
    }
}

pub fn first_text(rows: &Vec<Vec<SqlCell>>) -> (r: Option<String>)
    ensures
        match r {
            Some(s) => first_text_spec(rows@) == Some(s@),
            None => first_text_spec(rows@) is None,
        },
{
    if rows.len() == 0 || rows[0].len() == 0 {
        return None;
    }
    match &rows[0][0] {
        SqlCell::Text(s) => Some(s.clone()),
        _ => None,
    }
}

/// Run a query and return its first integer cell (`COUNT(*)`, an id).
pub fn query_int(conn: &rusqlite::Connection, sql: &str, params: &Vec<SqlParam>) -> (r: Result<
    Option<i64>,
    DbError,
>)
    ensures
        r matches Err(e) ==> e is Sql,
{
    let rows = query(conn, sql, params)?;
    Ok(first_int(&rows))
}

/// Run a query and return its first text cell.
pub fn query_text(conn: &rusqlite::Connection, sql: &str, params: &Vec<SqlParam>) -> (r: Result<
    Option<String>,
    DbError,
>)
    ensures
        r matches Err(e) ==> e is Sql,
{
    let rows = query(conn, sql, params)?;
    Ok(first_text(&rows))
}

/// The newest rowid inserted through `conn`.
pub fn last_insert_rowid(conn: &rusqlite::Connection) -> (r: i64) {
    sqlite_last_insert_rowid(conn)
}

} // verus!
