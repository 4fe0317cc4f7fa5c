//! The SQLite engine and its connection pool, as far as the store uses
//! them. Nothing in this file is proved: each function hands its arguments
//! to the engine and returns what the engine reports. What a statement
//! finds or changes depends on the database file, so no contract speaks of
//! it.

use vstd::prelude::*;
use r2d2::{Pool, PooledConnection};
use r2d2_sqlite::SqliteConnectionManager;
use rusqlite::{CachedStatement, Connection, OptionalExtension, Statement, Transaction};
use std::path::PathBuf;

verus! {

/// `rusqlite::Connection`: one open connection to the database file.
#[verifier::external_type_specification]
#[verifier::external_body]
pub struct ExConnection(Connection);

/// `rusqlite::Error`: what the engine reports when a call fails.
#[verifier::external_type_specification]
#[verifier::external_body]
pub struct ExSqliteError(rusqlite::Error);

/// `rusqlite::Transaction`: a unit of work on a connection, rolled back
/// when it is dropped without a commit.
#[verifier::external_type_specification]
#[verifier::external_body]
pub struct ExTransaction<'conn>(Transaction<'conn>);

/// `rusqlite::Statement`: a prepared statement.
#[verifier::external_type_specification]
#[verifier::external_body]
pub struct ExStatement<'conn>(Statement<'conn>);

/// `rusqlite::CachedStatement`: a prepared statement that goes back to the
/// connection's cache when it is dropped.
#[verifier::external_type_specification]
#[verifier::external_body]
pub struct ExCachedStatement<'conn>(CachedStatement<'conn>);

/// `r2d2_sqlite::SqliteConnectionManager`: how the pool opens connections.
#[verifier::external_type_specification]
#[verifier::external_body]
pub struct ExManager(SqliteConnectionManager);

/// `r2d2::Error`: the pool's report that no connection could be had in
/// time.
#[verifier::external_type_specification]
#[verifier::external_body]
pub struct ExPoolError(r2d2::Error);

/// `std::path::PathBuf`.
#[verifier::external_type_specification]
#[verifier::external_body]
pub struct ExPathBuf(PathBuf);

/// An `r2d2::Pool` of SQLite connections onto one database file.
#[verifier::external_body]
pub struct ConnectionPool {
    inner: Pool<SqliteConnectionManager>,
}

/// An `r2d2::PooledConnection`: a connection borrowed from the pool, which
/// goes back to it when this value is dropped.
#[verifier::external_body]
pub struct PooledSession {
    inner: PooledConnection<SqliteConnectionManager>,
}

/// How a failed statement failed.
#[derive(Debug, Clone, Copy, PartialEq, Eq, Structural)]
pub enum Failure {
    /// The engine refused the statement because it breaks a constraint of
    /// the schema.
    Constraint,
    /// The engine failed in another way.
    Engine,
    /// The failure did not come from the engine itself.
    Other,
}

/// Turns the engine's enforcement of foreign keys on for a connection. The
/// setting is not kept in the database file: each new connection needs it.
pub(crate) fn prepare_connection(conn: &Connection) -> Result<(), rusqlite::Error> {
    run_script(conn, "PRAGMA foreign_keys = ON;")
}

/// What `Path::extension` of the standard library returns for a path, as
/// a text: the part of the file name after its last dot, or `None` where
/// the path has no file name or the name has no dot but a leading one.
pub uninterp spec fn extension_of(path: PathBuf) -> Option<Seq<char>>;

/// `Path::extension` of the standard library, as a string; bytes that are
/// not UTF-8 are replaced. The result depends on the path alone.
#[verifier::external_body]
pub(crate) fn path_extension(path: &PathBuf) -> (extension: Option<String>)
    ensures
        match extension {
            Some(text) => extension_of(*path) == Some(text@),
            None => extension_of(*path) is None,
        },
{
    match path.extension() {
        Some(extension) => Some(extension.to_string_lossy().into_owned()),
        None => None,
    }
}

/// `SqliteConnectionManager::file`: a manager that opens connections to the
/// file at `path`.
#[verifier::external_body]
pub(crate) fn file_manager(path: &PathBuf) -> SqliteConnectionManager {
    SqliteConnectionManager::file(path)
}

/// `SqliteConnectionManager::with_init`: the manager, which from now on
/// calls `prepare_connection` on each connection it opens.
#[verifier::external_body]
pub(crate) fn with_prepared_connections(manager: SqliteConnectionManager) -> SqliteConnectionManager {
    manager.with_init(|conn| prepare_connection(conn))
}

/// `Pool::builder`, `Builder::max_size` and `Builder::build`: a pool of at
/// most `max_size` connections. `max_size` panics on zero.
#[verifier::external_body]
pub(crate) fn build_pool(manager: SqliteConnectionManager, max_size: u32) -> Result<
    ConnectionPool,
    r2d2::Error,
>
    requires
        max_size > 0,
{
    match Pool::builder().max_size(max_size).build(manager) {
        Ok(inner) => Ok(ConnectionPool { inner }),
        Err(e) => Err(e),
    }
}

/// `Pool::get`: borrows a connection, waiting no longer than the pool's
/// timeout.
#[verifier::external_body]
pub(crate) fn checkout(pool: &ConnectionPool) -> Result<PooledSession, r2d2::Error> {
    match pool.inner.get() {
        Ok(inner) => Ok(PooledSession { inner }),
        Err(e) => Err(e),
    }
}

/// The `Deref` of `PooledConnection`: the connection that a session holds.
#[verifier::external_body]
pub(crate) fn session_connection<'a>(session: &'a PooledSession) -> &'a Connection {
    &session.inner
}

/// `Connection::execute_batch`: runs the statements of a script.
#[verifier::external_body]
pub(crate) fn run_script(conn: &Connection, sql: &str) -> Result<(), rusqlite::Error> {
    conn.execute_batch(sql)
}

/// `Connection::unchecked_transaction`: begins a transaction.
#[verifier::external_body]
pub(crate) fn begin<'a>(conn: &'a Connection) -> Result<Transaction<'a>, rusqlite::Error> {
    conn.unchecked_transaction()
}

/// The `Deref` of `Transaction`: the connection that a transaction runs
/// on.
#[verifier::external_body]
pub(crate) fn transaction_connection<'a, 'b>(tx: &'a Transaction<'b>) -> &'a Connection {
    tx
}

/// `Transaction::commit`.
#[verifier::external_body]
pub(crate) fn commit<'a>(tx: Transaction<'a>) -> Result<(), rusqlite::Error> {
    tx.commit()
}

/// `Connection::prepare`.
#[verifier::external_body]
pub(crate) fn prepare<'a>(conn: &'a Connection, sql: &str) -> Result<
    Statement<'a>,
    rusqlite::Error,
> {
    conn.prepare(sql)
}

/// `Connection::prepare_cached`.
#[verifier::external_body]
pub(crate) fn prepare_cached<'a>(conn: &'a Connection, sql: &str) -> Result<
    CachedStatement<'a>,
    rusqlite::Error,
> {
    conn.prepare_cached(sql)
}

/// `Statement::execute` on a cached statement with three text parameters:
/// the number of rows that the statement changed.
#[verifier::external_body]
pub(crate) fn execute_cached<'a>(
    statement: &mut CachedStatement<'a>,
    first: &str,
    second: &str,
    third: &str,
) -> Result<usize, rusqlite::Error> {
    statement.execute((first, second, third))
}

/// `Connection::execute` with text parameters, bound in order: the number
/// of rows that the statement changed.
#[verifier::external_body]
pub(crate) fn execute(conn: &Connection, sql: &str, params: &[String]) -> Result<
    usize,
    rusqlite::Error,
> {
    conn.execute(sql, rusqlite::params_from_iter(params.iter()))
}

/// `Connection::query_row` with one text parameter, and
/// `OptionalExtension::optional` on its result: the first column of the
/// first row, or `None` where the query finds no row.
#[verifier::external_body]
pub(crate) fn query_optional_text(conn: &Connection, sql: &str, param: &str) -> Result<
    Option<String>,
    rusqlite::Error,
> {
    conn.query_row(sql, (param,), |row| row.get(0)).optional()
}

/// `Statement::query_map` with text parameters, bound in order: the first
/// three columns of every row, as texts, in the engine's order.
#[verifier::external_body]
pub(crate) fn query_text_triples<'a>(statement: &mut Statement<'a>, params: &[String]) -> Result<
    Vec<(String, String, String)>,
    rusqlite::Error,
> {
    statement.query_map(
        rusqlite::params_from_iter(params.iter()),
        |row| Ok((row.get(0)?, row.get(1)?, row.get(2)?)),
    )?.collect()
}

/// Tells the variants of `rusqlite::Error` apart, and within
/// `SqliteFailure` the code `ConstraintViolation` from the others.
#[verifier::external_body]
pub(crate) fn failure_of(error: &rusqlite::Error) -> Failure {
    match error {
        rusqlite::Error::SqliteFailure(failure, _) => match failure.code {
            rusqlite::ErrorCode::ConstraintViolation => Failure::Constraint,
            _ => Failure::Engine,
        },
        _ => Failure::Other,
    }
}

/// The `Display` of `rusqlite::Error`: the engine's own words for a
/// failure.
#[verifier::external_body]
pub(crate) fn engine_error_text(error: &rusqlite::Error) -> String {
    error.to_string()
}

/// The `Display` of `r2d2::Error`: the pool's own words for a failure.
#[verifier::external_body]
pub(crate) fn pool_error_text(error: &r2d2::Error) -> String {
    error.to_string()
}

} // verus!
