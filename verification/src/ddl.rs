//! The schema of the cache and the steps that lead to it.

use crate::error::Error;
use crate::sqlite::{migrate_to_latest, set_journal_mode, validate_steps};
use rusqlite::Connection;
use vstd::prelude::*;

verus! {

/// The first step: the table of links, one row for each URL.
pub const CREATE_LINKS: &'static str =
    "CREATE TABLE links (
        guid TEXT NOT NULL,
        url TEXT NOT NULL PRIMARY KEY,
        title TEXT NOT NULL,
        subtitle TEXT,
        source TEXT,
        timestamp TEXT NOT NULL
    );";

/// The second step: the index by which the latest links are found.
pub const CREATE_LINKS_BY_TIME: &'static str =
    "CREATE INDEX links_by_timestamp ON links (timestamp DESC);";

/// The steps of the schema, oldest first. A database takes each step once.
pub fn migration_steps() -> (r: Vec<&'static str>)
    ensures
        r@ == seq![CREATE_LINKS, CREATE_LINKS_BY_TIME],
{
    vec![CREATE_LINKS, CREATE_LINKS_BY_TIME]
}

/// Runs the embedded migrations so that the connected database has the
/// schema in place before any link is read or written. A failure of the
/// journal setting comes back as `Error::Rusqlite`, a failure of a step as
/// `Error::Migration`.
pub fn apply_migrations(conn: &mut Connection) -> (r: Result<(), Error>)
    ensures
        r matches Err(e) ==> e is Rusqlite || e is Migration,
{
    match set_journal_mode(conn, "WAL") {
        Ok(()) => {},
        Err(e) => {
            return Err(Error::Rusqlite(e));
        },
    }
    let steps = migration_steps();
    match migrate_to_latest(conn, &steps) {
        Ok(()) => Ok(()),
        Err(e) => Err(Error::Migration(e)),
    }
}

/// Tries the steps of the schema on a fresh database in memory. Where one
/// of them does not run there, the error is `Error::Migration`.
pub fn validate_migrations() -> (r: Result<(), Error>)
    ensures
        r matches Err(e) ==> e matches Error::Migration(_),
{
    let steps = migration_steps();
    match validate_steps(&steps) {
        Ok(()) => Ok(()),
        Err(e) => Err(Error::Migration(e)),
    }
}

} // verus!
