//! The errors that the library's operations report.

use ini::Error as IniError;
use serde_json::Error as JsonError;
use rusqlite::Error as SqliteError;
use rusqlite_migration::Error as MigrationError;
use vstd::prelude::*;

verus! {

/// An error of the SQLite binding.
#[verifier::external_type_specification]
#[verifier::external_body]
pub struct ExSqliteError(SqliteError);

/// An error met while a schema migration was applied or checked.
#[verifier::external_type_specification]
#[verifier::external_body]
pub struct ExMigrationError(MigrationError);

/// An error met while a profile listing was parsed.
#[verifier::external_type_specification]
#[verifier::external_body]
pub struct ExIniError(IniError);

/// An error met while JSON text was read.
#[verifier::external_type_specification]
#[verifier::external_body]
pub struct ExJsonError(JsonError);

/// An input or output error of the operating system.
#[verifier::external_type_specification]
#[verifier::external_body]
pub struct ExIoError(std::io::Error);

/// What went wrong in an operation of the library.
#[derive(Debug)]
pub enum Error {
    Io(std::io::Error),
    Ini(IniError),
    Parse(String),
    Serde(JsonError),
    Rusqlite(SqliteError),
    Migration(MigrationError),
}

impl From<std::io::Error> for Error {
    fn from(err: std::io::Error) -> (r: Error) {
        Error::Io(err)
    }
}

impl vstd::std_specs::convert::FromSpecImpl<std::io::Error> for Error {
    open spec fn obeys_from_spec() -> bool {
        true
    }

    open spec fn from_spec(err: std::io::Error) -> Error {
        Error::Io(err)
    }
}

impl From<JsonError> for Error {
    fn from(err: JsonError) -> (r: Error) {
        Error::Serde(err)
    }
}

impl vstd::std_specs::convert::FromSpecImpl<JsonError> for Error {
    open spec fn obeys_from_spec() -> bool {
        true
    }

    open spec fn from_spec(err: JsonError) -> Error {
        Error::Serde(err)
    }
}

impl From<SqliteError> for Error {
    fn from(err: SqliteError) -> (r: Error) {
        Error::Rusqlite(err)
    }
}

impl vstd::std_specs::convert::FromSpecImpl<SqliteError> for Error {
    open spec fn obeys_from_spec() -> bool {
        true
    }

    open spec fn from_spec(err: SqliteError) -> Error {
        Error::Rusqlite(err)
    }
}

impl From<IniError> for Error {
    fn from(err: IniError) -> (r: Error) {
        Error::Ini(err)
    }
}

impl vstd::std_specs::convert::FromSpecImpl<IniError> for Error {
    open spec fn obeys_from_spec() -> bool {
        true
    }

    open spec fn from_spec(err: IniError) -> Error {
        Error::Ini(err)
    }
}

impl From<MigrationError> for Error {
    fn from(err: MigrationError) -> (r: Error) {
        Error::Migration(err)
    }
}

impl vstd::std_specs::convert::FromSpecImpl<MigrationError> for Error {
    open spec fn obeys_from_spec() -> bool {
        true
    }

    open spec fn from_spec(err: MigrationError) -> Error {
        Error::Migration(err)
    }
}

/// Makes the error that `std::io::Error::new` gives for the kind `NotFound`
/// and the text `message`.
#[verifier::external_body]
pub(crate) fn not_found_error(message: &str) -> (r: std::io::Error) {
    std::io::Error::new(std::io::ErrorKind::NotFound, message.to_owned())
}

/// Makes the error that `std::io::Error::new` gives for the kind
/// `Unsupported` and the text `message`.
#[verifier::external_body]
pub(crate) fn unsupported_error(message: &str) -> (r: std::io::Error) {
    std::io::Error::new(std::io::ErrorKind::Unsupported, message.to_owned())
}

} // verus!
