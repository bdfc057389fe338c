//! The calls into SQLite and into the migration runner. What a call finds
//! depends on the file behind the connection, which other programs may change
//! at any time, and on what SQLite makes of a statement: no contract here
//! says what comes back.

use crate::link::{Link, Timestamp};
use rusqlite::Connection;
use rusqlite::Error as SqliteError;
use rusqlite_migration::Error as MigrationError;
use vstd::prelude::*;

verus! {

/// A connection to an SQLite database.
#[verifier::external_type_specification]
#[verifier::external_body]
pub struct ExConnection(Connection);

/// Opens the database file at `path` for reading and writing with
/// `Connection::open_with_flags`, creating the file if there is none.
#[verifier::external_body]
pub(crate) fn open_database(path: &str) -> (r: Result<Connection, SqliteError>) {
    Connection::open_with_flags(
        path,
        rusqlite::OpenFlags::SQLITE_OPEN_READ_WRITE | rusqlite::OpenFlags::SQLITE_OPEN_CREATE,
    )
}

/// Opens the database file at `path` with `Connection::open`.
#[verifier::external_body]
pub(crate) fn open_existing(path: &str) -> (r: Result<Connection, SqliteError>) {
    Connection::open(path)
}

/// Sets the journal mode of the database to `mode` with
/// `Connection::pragma_update`.
#[verifier::external_body]
pub(crate) fn set_journal_mode(conn: &Connection, mode: &str) -> (r: Result<(), SqliteError>) {
    conn.pragma_update(None, "journal_mode", mode)
}

/// Brings the schema of the database up to the last of `steps` with
/// `Migrations::to_latest`, each step being the SQL of one upward migration.
#[verifier::external_body]
pub(crate) fn migrate_to_latest(conn: &mut Connection, steps: &Vec<&str>) -> (r: Result<
    (),
    MigrationError,
>) {
    let steps = steps.iter().map(|sql| rusqlite_migration::M::up(sql)).collect();
    rusqlite_migration::Migrations::new(steps).to_latest(conn)
}

/// Runs `steps` on a fresh database in memory with `Migrations::validate`.
/// A step may ask SQLite for a random number or for the time, so nothing is
/// said of the outcome.
#[verifier::external_body]
pub(crate) fn validate_steps(steps: &Vec<&str>) -> (r: Result<(), MigrationError>) {
    let steps = steps.iter().map(|sql| rusqlite_migration::M::up(sql)).collect();
    rusqlite_migration::Migrations::new(steps).validate()
}

/// Runs the statement `sql` with `Connection::execute`, its six parameters
/// being the guid, URL, title, subtitle, source and moment of `link`. The
/// moment goes in as `chrono` writes it, so the calendar must have it.
#[verifier::external_body]
pub(crate) fn execute_with_link(conn: &Connection, sql: &str, link: &Link) -> (r: Result<
    (),
    SqliteError,
>)
    requires
        link.timestamp.valid(),
{
    let at = chrono::DateTime::from_timestamp(link.timestamp.secs, link.timestamp.nanos).unwrap();
    let row = (&link.guid, &link.url, &link.title, &link.subtitle, &link.source, &at);
    conn.execute(sql, row).map(|_| ())
}

/// Runs the statement `sql` with `Connection::execute`, `text` being its one
/// parameter.
#[verifier::external_body]
pub(crate) fn execute_with_text(conn: &Connection, sql: &str, text: &str) -> (r: Result<
    (),
    SqliteError,
>) {
    conn.execute(sql, [text]).map(|_| ())
}

/// Runs the query `sql`, whose one parameter is `limit`, with
/// `Statement::query_map`, and reads each row as a link: guid, URL, title,
/// subtitle, source and moment, in that order. A row that cannot be read so
/// fails the whole query.
#[verifier::external_body]
pub(crate) fn query_links(conn: &Connection, sql: &str, limit: i64) -> (r: Result<
    Vec<Link>,
    SqliteError,
>) {
    let mut statement = conn.prepare(sql)?;
    let rows = statement.query_map([limit], |row| {
        let at: chrono::DateTime<chrono::Utc> = row.get(5)?;
        let timestamp = Timestamp { secs: at.timestamp(), nanos: at.timestamp_subsec_nanos() };
        let (guid, url, title) = (row.get(0)?, row.get(1)?, row.get(2)?);
        let (subtitle, source) = (row.get(3)?, row.get(4)?);
        Ok(Link { guid, url, title, subtitle, source, timestamp, score: None })
    })?;
    rows.collect()
}

/// Runs the query `sql` with the texts `params` as its parameters, with
/// `Statement::query_map`, and reads the first `columns` columns of each row:
/// a column that holds a text gives that text, any other gives `None`.
#[verifier::external_body]
pub(crate) fn query_texts(
    conn: &Connection,
    sql: &str,
    params: &Vec<String>,
    columns: usize,
) -> (r: Result<Vec<Vec<Option<String>>>, SqliteError>) {
    let mut statement = conn.prepare(sql)?;
    let rows = statement.query_map(rusqlite::params_from_iter(params.iter()), |row| {
        Ok((0..columns).map(|column| row.get::<_, String>(column).ok()).collect())
    })?;
    rows.collect()
}

} // verus!
