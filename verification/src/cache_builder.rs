//! Opening a cache: where its file lies, and what is done before it is used.

use crate::cache::Cache;
use crate::ddl::apply_migrations;
use crate::error::Error;
use crate::paths::{base_directory, home_directory, home_or_tmp, join_path, path_join};
use crate::sqlite::open_database;
use vstd::prelude::*;

verus! {

/// The name of the database file inside the data directory.
pub const DATABASE_FILE: &'static str = "linkcache.sqlite";

/// The name of the default data directory inside the home directory.
pub const DEFAULT_DIRECTORY: &'static str = ".linkcache";

/// The data directory that is used where none was chosen, for a given home
/// directory.
pub open spec fn default_directory(home: Option<Seq<char>>) -> Seq<char> {
    path_join(home_or_tmp(home), DEFAULT_DIRECTORY@)
}

/// Gathers the settings of a cache before it is opened.
#[derive(Debug)]
pub struct CacheBuilder {
    data_dir: Option<String>,
}

impl CacheBuilder {
    /// The data directory that was chosen, if one was.
    pub closed spec fn chosen_dir(&self) -> Option<Seq<char>> {
        self.data_dir.deep_view()
    }

    /// A builder with no data directory chosen.
    pub fn new() -> (r: Self)
        ensures
            r.chosen_dir() is None,
    {
        CacheBuilder { data_dir: None }
    }

    /// Chooses the directory in which the cache keeps its file.
    pub fn with_data_dir(self, data_dir: &str) -> (r: Self)
        ensures
            r.chosen_dir() == Some(data_dir@),
    {
        CacheBuilder { data_dir: Some(data_dir.to_owned()) }
    }

    /// Opens the cache: the database file `linkcache.sqlite` in the chosen
    /// directory, or in the default one where none was chosen, brought up to
    /// the current schema. Where the file cannot be opened the error is
    /// `Error::Rusqlite`; where the schema cannot be brought up to date it is
    /// `Error::Rusqlite` or `Error::Migration`, and no cache comes back.
    pub fn build(self) -> (r: Result<Cache, Error>)
        ensures
            match r {
                Ok(cache) => match self.chosen_dir() {
                    Some(dir) => cache.directory() == dir,
                    None => exists|home: Option<Seq<char>>|
                        cache.directory() == default_directory(home),
                },
                Err(e) => e is Rusqlite || e is Migration,
            },
    {
        let data_dir = match self.data_dir {
            Some(dir) => dir,
            None => Self::default_data_dir(),
        };
        let db_path = join_path(data_dir.as_str(), DATABASE_FILE);
        let mut conn = match open_database(db_path.as_str()) {
            Ok(conn) => conn,
            Err(e) => {
                return Err(Error::Rusqlite(e));
            },
        };
        match apply_migrations(&mut conn) {
            Ok(()) => Ok(Cache::open(data_dir, conn)),
            Err(e) => Err(e),
        }
    }

    /// Returns the default data directory: `.linkcache` in the home directory
    /// of the user, or in `/tmp` where no home directory is known.
    pub fn default_data_dir() -> (r: String)
        ensures
            exists|home: Option<Seq<char>>| r@ == default_directory(home),
    {
        let home = home_directory();
        let ghost witness = home.deep_view();
        let base = base_directory(home);
        let dir = join_path(base.as_str(), DEFAULT_DIRECTORY);
        assert(dir@ == default_directory(witness));
        dir
    }
}

impl Default for CacheBuilder {
    fn default() -> (r: Self)
        ensures
            r.chosen_dir() is None,
    {
        CacheBuilder::new()
    }
}

} // verus!
